use chess_db::codec::{decode, decode_move, decode_sequence, encode, join_moves, DecodeError, Move, Promotion};

fn mv(from: u8, to: u8, promotion: Option<Promotion>) -> Move {
    Move { from, to, promotion }
}

#[test]
fn encode_e2e4_packs_low_byte_first() {
    assert_eq!(encode(mv(12, 28, None)), [12, 7]);
}

#[test]
fn encode_queen_promotion() {
    assert_eq!(encode(mv(52, 60, Some(Promotion::Queen))), [52, 79]);
}

#[test]
fn decode_e2e4() {
    assert_eq!(decode(&[12, 7]), Ok("e2e4".to_string()));
}

#[test]
fn decode_promotions() {
    assert_eq!(decode(&encode(mv(52, 60, Some(Promotion::Queen)))), Ok("e7e8q".to_string()));
    assert_eq!(decode(&encode(mv(48, 56, Some(Promotion::Knight)))), Ok("a7a8n".to_string()));
    assert_eq!(decode(&encode(mv(15, 7, Some(Promotion::Bishop)))), Ok("h2h1b".to_string()));
    assert_eq!(decode(&encode(mv(9, 0, Some(Promotion::Rook)))), Ok("b2a1r".to_string()));
}

#[test]
fn decode_corner_squares() {
    assert_eq!(decode(&encode(mv(0, 63, None))), Ok("a1h8".to_string()));
    assert_eq!(decode(&encode(mv(63, 0, None))), Ok("h8a1".to_string()));
}

#[test]
fn round_trip_every_move() {
    let promotions = [None, Some(Promotion::Knight), Some(Promotion::Bishop), Some(Promotion::Rook), Some(Promotion::Queen)];
    for from in 0..64u8 {
        for to in 0..64u8 {
            for p in promotions {
                let m = mv(from, to, p);
                let bytes = encode(m);
                assert_eq!(decode_move(&bytes), Ok(m));
                assert_eq!(decode(&bytes).unwrap(), m.to_text());
            }
        }
    }
}

#[test]
fn decode_wrong_length() {
    assert_eq!(decode(&[]), Err(DecodeError::BadLength));
    assert_eq!(decode(&[12]), Err(DecodeError::BadLength));
    assert_eq!(decode(&[12, 7, 0]), Err(DecodeError::BadLength));
}

#[test]
fn decode_promotion_field_out_of_range() {
    assert_eq!(decode(&[0, 80]), Err(DecodeError::BadPromotion));
    assert_eq!(decode(&[255, 255]), Err(DecodeError::BadPromotion));
    assert!(decode(&[255, 79]).is_ok());
}

#[test]
fn decode_sequence_empty() {
    assert_eq!(decode_sequence(&[]), Ok(Vec::<String>::new()));
}

#[test]
fn decode_sequence_odd_length() {
    assert_eq!(decode_sequence(&[12]), Err(DecodeError::BadLength));
    assert_eq!(decode_sequence(&[12, 7, 52]), Err(DecodeError::BadLength));
}

#[test]
fn decode_sequence_two_plies() {
    assert_eq!(decode_sequence(&[12, 7, 52, 9]), Ok(vec!["e2e4".to_string(), "e7e5".to_string()]));
}

#[test]
fn decode_sequence_bad_code_inside() {
    assert_eq!(decode_sequence(&[12, 7, 0, 80, 52, 9]), Err(DecodeError::BadPromotion));
}

#[test]
fn join_moves_with_single_spaces() {
    assert_eq!(join_moves(&vec![]), "");
    assert_eq!(join_moves(&vec!["e2e4".to_string()]), "e2e4");
    assert_eq!(join_moves(&vec!["e2e4".to_string(), "e7e5".to_string(), "g1f3".to_string()]), "e2e4 e7e5 g1f3");
}
