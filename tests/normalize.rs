use chess_db::codec::{encode, DecodeError, Move};
use chess_db::models::{Game, NewEvent, NewPlayer, NewSite, NormalizedGame, NormalizedOpening, Opening};
use chess_db::normalize::NormalizeError;
use chess_db::store::{NotFoundError, Store, Table};

fn store() -> Store {
    let mut s = Store::new();
    s.insert_player(NewPlayer { name: "Anand", elo: Some(2750) }).unwrap();
    s.insert_player(NewPlayer { name: "Kramnik", elo: Some(2760) }).unwrap();
    s.insert_site(NewSite { name: "Bonn" }).unwrap();
    s.insert_event(NewEvent { name: "World Championship" }).unwrap();
    s
}

fn game(moves2: Vec<u8>) -> Game {
    Game {
        id: 9,
        event_id: 1,
        site_id: 1,
        date: Some("2008.10.14".to_string()),
        round: Some("1".to_string()),
        white_id: 2,
        white_elo: Some(2772),
        black_id: 1,
        result: Some("1/2-1/2".to_string()),
        ply_count: Some((moves2.len() / 2) as i32),
        moves2,
        ..Default::default()
    }
}

#[test]
fn two_ply_game_normalizes_to_move_text() {
    let mut moves2 = Vec::new();
    moves2.extend_from_slice(&encode(Move { from: 12, to: 28, promotion: None }));
    moves2.extend_from_slice(&encode(Move { from: 52, to: 36, promotion: None }));
    assert_eq!(moves2, vec![12, 7, 52, 9]);
    let s = store();
    let n = NormalizedGame::from_game(&s, &game(moves2)).unwrap();
    assert_eq!(n.moves, "e2e4 e7e5");
    assert_eq!(n.id, 9);
    assert_eq!(n.event.name.as_deref(), Some("World Championship"));
    assert_eq!(n.site.name.as_deref(), Some("Bonn"));
    assert_eq!(n.white.name.as_deref(), Some("Kramnik"));
    assert_eq!(n.white.elo, Some(2760));
    assert_eq!(n.white_elo, Some(2772));
    assert_eq!(n.black.name.as_deref(), Some("Anand"));
    assert_eq!(n.black_elo, None);
    assert_eq!(n.date.as_deref(), Some("2008.10.14"));
    assert_eq!(n.result.as_deref(), Some("1/2-1/2"));
    assert_eq!(n.ply_count, Some(2));
    assert_eq!(n.fen, None);
}

#[test]
fn empty_game_has_empty_move_text() {
    let n = NormalizedGame::from_game(&store(), &game(vec![])).unwrap();
    assert_eq!(n.moves, "");
}

#[test]
fn missing_event_is_not_found() {
    let mut g = game(vec![12, 7]);
    g.event_id = 5;
    let r = NormalizedGame::from_game(&store(), &g);
    assert!(matches!(r, Err(NormalizeError::NotFound(NotFoundError { table: Table::Events, id: 5 }))));
}

#[test]
fn missing_event_is_reported_before_bad_moves() {
    let mut g = game(vec![12]);
    g.event_id = 0;
    let r = NormalizedGame::from_game(&store(), &g);
    assert!(matches!(r, Err(NormalizeError::NotFound(NotFoundError { table: Table::Events, id: 0 }))));
}

#[test]
fn missing_site_and_players_are_not_found() {
    let s = store();
    let mut g = game(vec![]);
    g.site_id = 2;
    assert!(matches!(NormalizedGame::from_game(&s, &g), Err(NormalizeError::NotFound(NotFoundError { table: Table::Sites, id: 2 }))));
    let mut g = game(vec![]);
    g.white_id = 3;
    assert!(matches!(NormalizedGame::from_game(&s, &g), Err(NormalizeError::NotFound(NotFoundError { table: Table::Players, id: 3 }))));
    let mut g = game(vec![]);
    g.black_id = -4;
    assert!(matches!(NormalizedGame::from_game(&s, &g), Err(NormalizeError::NotFound(NotFoundError { table: Table::Players, id: -4 }))));
}

#[test]
fn bad_moves_are_decode_errors() {
    let s = store();
    assert!(matches!(NormalizedGame::from_game(&s, &game(vec![12, 7, 52])), Err(NormalizeError::Decode(DecodeError::BadLength))));
    assert!(matches!(NormalizedGame::from_game(&s, &game(vec![12, 7, 0, 90])), Err(NormalizeError::Decode(DecodeError::BadPromotion))));
}

#[test]
fn opening_normalizes_its_move() {
    let o = Opening { id: 3, hash: -17, move_: vec![52, 79], white: 5, draw: 4, black: 2 };
    let n = NormalizedOpening::from_opening(&o).unwrap();
    assert_eq!(n.move_, "e7e8q");
    assert_eq!((n.id, n.hash, n.white, n.draw, n.black), (3, -17, 5, 4, 2));
}

#[test]
fn opening_with_bad_move_is_decode_error() {
    let o = Opening { id: 3, hash: 0, move_: vec![52], white: 0, draw: 0, black: 0 };
    assert_eq!(NormalizedOpening::from_opening(&o).unwrap_err(), DecodeError::BadLength);
    let o = Opening { id: 3, hash: 0, move_: vec![0, 0xF0], white: 0, draw: 0, black: 0 };
    assert_eq!(NormalizedOpening::from_opening(&o).unwrap_err(), DecodeError::BadPromotion);
}

#[test]
fn stored_game_normalizes_by_id() {
    let mut s = store();
    let moves = [12u8, 7, 52, 9, 70, 5];
    let g = chess_db::models::NewGame {
        event_id: 1,
        site_id: 1,
        date: None,
        time: Some("12:00"),
        round: None,
        white_id: Some(1),
        white_elo: None,
        black_id: Some(2),
        black_elo: None,
        white_material: 0,
        black_material: 0,
        result: None,
        time_control: Some("40/7200"),
        eco: None,
        ply_count: 3,
        fen: None,
        moves2: &moves,
    };
    assert_eq!(s.insert_game(g), Ok(1));
    let n = s.normalized_game(1).unwrap();
    assert_eq!(n.moves, "e2e4 e7e5 g1f3");
    assert_eq!(n.time.as_deref(), Some("12:00"));
    assert_eq!(n.time_control.as_deref(), Some("40/7200"));
    assert_eq!(n.white.name.as_deref(), Some("Anand"));
    assert_eq!(n.black.name.as_deref(), Some("Kramnik"));
    assert!(matches!(s.normalized_game(2), Err(NormalizeError::NotFound(NotFoundError { table: Table::Games, id: 2 }))));
}

#[test]
fn stored_opening_normalizes_by_id() {
    let mut s = Store::new();
    s.upsert_by_hash_and_move(11, &[12, 7], chess_db::store::Outcome::Draw).unwrap();
    let n = s.normalized_opening(1).unwrap();
    assert_eq!(n.move_, "e2e4");
    assert_eq!((n.id, n.hash, n.white, n.draw, n.black), (1, 11, 0, 1, 0));
    assert!(matches!(s.normalized_opening(0), Err(NormalizeError::NotFound(NotFoundError { table: Table::Openings, id: 0 }))));
}
