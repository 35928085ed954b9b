use chess_db::models::{NewEvent, NewGame, NewOpening, NewPlayer, NewSite};
use chess_db::store::{ConstraintError, Outcome, Store, Table};

fn new_game<'a>(event_id: i32, site_id: i32, white_id: Option<i32>, black_id: Option<i32>, moves2: &'a [u8]) -> NewGame<'a> {
    NewGame {
        event_id,
        site_id,
        date: Some("2024.01.01"),
        time: None,
        round: Some("1"),
        white_id,
        white_elo: Some(2700),
        black_id,
        black_elo: None,
        white_material: 39,
        black_material: 39,
        result: Some("1-0"),
        time_control: None,
        eco: Some("C20"),
        ply_count: (moves2.len() / 2) as i32,
        fen: None,
        moves2,
    }
}

#[test]
fn inserts_number_rows_from_one() {
    let mut s = Store::new();
    assert_eq!(s.insert_player(NewPlayer { name: "Carlsen", elo: Some(2830) }), Ok(1));
    assert_eq!(s.insert_player(NewPlayer { name: "Nakamura", elo: None }), Ok(2));
    assert_eq!(s.insert_site(NewSite { name: "Oslo" }), Ok(1));
    assert_eq!(s.insert_event(NewEvent { name: "Norway Chess" }), Ok(1));
    let p = s.find_player(2).unwrap();
    assert_eq!(p.id, 2);
    assert_eq!(p.name.as_deref(), Some("Nakamura"));
    assert_eq!(p.elo, None);
    assert_eq!(s.find_site(1).unwrap().name.as_deref(), Some("Oslo"));
    assert_eq!(s.find_event(1).unwrap().name.as_deref(), Some("Norway Chess"));
}

#[test]
fn find_unknown_id_is_none() {
    let mut s = Store::new();
    s.insert_player(NewPlayer { name: "A", elo: None }).unwrap();
    assert!(s.find_player(0).is_none());
    assert!(s.find_player(-1).is_none());
    assert!(s.find_player(2).is_none());
    assert!(s.find_site(1).is_none());
    assert!(s.find_event(1).is_none());
    assert!(s.find_game(1).is_none());
    assert!(s.find_opening(1).is_none());
}

fn populated() -> Store {
    let mut s = Store::new();
    s.insert_player(NewPlayer { name: "White", elo: Some(2500) }).unwrap();
    s.insert_player(NewPlayer { name: "Black", elo: Some(2400) }).unwrap();
    s.insert_site(NewSite { name: "Here" }).unwrap();
    s.insert_event(NewEvent { name: "Open" }).unwrap();
    s
}

#[test]
fn insert_game_keeps_fields() {
    let mut s = populated();
    let moves = [12u8, 7, 52, 9];
    assert_eq!(s.insert_game(new_game(1, 1, Some(1), Some(2), &moves)), Ok(1));
    let g = s.find_game(1).unwrap();
    assert_eq!(g.id, 1);
    assert_eq!(g.white_id, 1);
    assert_eq!(g.black_id, 2);
    assert_eq!(g.date.as_deref(), Some("2024.01.01"));
    assert_eq!(g.time, None);
    assert_eq!(g.ply_count, Some(2));
    assert_eq!(g.moves2, vec![12, 7, 52, 9]);
}

#[test]
fn insert_game_refuses_dangling_references() {
    let mut s = populated();
    assert_eq!(s.insert_game(new_game(2, 1, Some(1), Some(2), &[])), Err(ConstraintError::MissingReference(Table::Events)));
    assert_eq!(s.insert_game(new_game(1, 5, Some(1), Some(2), &[])), Err(ConstraintError::MissingReference(Table::Sites)));
    assert_eq!(s.insert_game(new_game(1, 1, None, Some(2), &[])), Err(ConstraintError::MissingReference(Table::Players)));
    assert_eq!(s.insert_game(new_game(1, 1, Some(1), Some(3), &[])), Err(ConstraintError::MissingReference(Table::Players)));
    assert!(s.find_game(1).is_none());
}

#[test]
fn insert_opening_checks_fields() {
    let mut s = Store::new();
    assert_eq!(s.insert_opening(NewOpening { hash: 7, move_: &[12, 7], white: -1, draw: 0, black: 0 }), Err(ConstraintError::NegativeCount));
    assert_eq!(s.insert_opening(NewOpening { hash: 7, move_: &[12], white: 0, draw: 0, black: 0 }), Err(ConstraintError::MoveLength));
    assert_eq!(s.insert_opening(NewOpening { hash: 7, move_: &[12, 7], white: 3, draw: 2, black: 1 }), Ok(1));
    let o = s.find_opening(1).unwrap();
    assert_eq!((o.hash, o.white, o.draw, o.black), (7, 3, 2, 1));
    assert_eq!(o.move_, vec![12, 7]);
}

#[test]
fn upsert_twice_counts_two_white_wins() {
    let mut s = Store::new();
    assert_eq!(s.upsert_by_hash_and_move(-42, &[12, 7], Outcome::White), Ok(1));
    assert_eq!(s.upsert_by_hash_and_move(-42, &[12, 7], Outcome::White), Ok(1));
    let o = s.find_opening(1).unwrap();
    assert_eq!((o.white, o.draw, o.black), (2, 0, 0));
    assert!(s.find_opening(2).is_none());
}

#[test]
fn upsert_keys_by_hash_and_move() {
    let mut s = Store::new();
    assert_eq!(s.upsert_by_hash_and_move(1, &[12, 7], Outcome::Draw), Ok(1));
    assert_eq!(s.upsert_by_hash_and_move(2, &[12, 7], Outcome::Black), Ok(2));
    assert_eq!(s.upsert_by_hash_and_move(1, &[52, 9], Outcome::White), Ok(3));
    assert_eq!(s.upsert_by_hash_and_move(1, &[12, 7], Outcome::Black), Ok(1));
    let o = s.find_opening(1).unwrap();
    assert_eq!((o.white, o.draw, o.black), (0, 1, 1));
    let o = s.find_opening(2).unwrap();
    assert_eq!((o.hash, o.white, o.draw, o.black), (2, 0, 0, 1));
    let o = s.find_opening(3).unwrap();
    assert_eq!((o.hash, o.white, o.draw, o.black), (1, 1, 0, 0));
}

#[test]
fn upsert_refuses_bad_move_length() {
    let mut s = Store::new();
    assert_eq!(s.upsert_by_hash_and_move(1, &[12, 7, 0], Outcome::White), Err(ConstraintError::MoveLength));
    assert!(s.find_opening(1).is_none());
}

#[test]
fn upsert_refuses_counter_overflow() {
    let mut s = Store::new();
    s.insert_opening(NewOpening { hash: 1, move_: &[12, 7], white: i32::MAX, draw: 0, black: 0 }).unwrap();
    assert_eq!(s.upsert_by_hash_and_move(1, &[12, 7], Outcome::White), Err(ConstraintError::CounterOverflow));
    assert_eq!(s.upsert_by_hash_and_move(1, &[12, 7], Outcome::Draw), Ok(1));
    let o = s.find_opening(1).unwrap();
    assert_eq!((o.white, o.draw, o.black), (i32::MAX, 1, 0));
}

#[test]
fn insert_game_refuses_wrong_ply_count() {
    let mut s = populated();
    let moves = [12u8, 7, 52, 9];
    let mut g = new_game(1, 1, Some(1), Some(2), &moves);
    g.ply_count = 3;
    assert_eq!(s.insert_game(g), Err(ConstraintError::PlyCount));
    let mut g = new_game(1, 1, Some(1), Some(2), &moves);
    g.ply_count = -2;
    assert_eq!(s.insert_game(g), Err(ConstraintError::PlyCount));
    assert!(s.find_game(1).is_none());
}
