//! The two-byte move code.
//!
//! A move is packed into sixteen bits: the from-square in bits 0..6, the
//! to-square in bits 6..12 and the promotion in bits 12..16 (0 for none, then
//! knight, bishop, rook, queen). The code is stored little-endian, low byte
//! first. Squares number a1 = 0, b1 = 1, ..., h8 = 63.
//!
//! The text form of a move is coordinate notation: the from-square, the
//! to-square and, for a promotion, the piece letter in lower case
//! (`e2e4`, `e7e8q`).
use vstd::prelude::*;

verus! {

/// The piece a pawn promotes to.
#[derive(Clone, Copy, Debug, PartialEq, Eq, Structural)]
pub enum Promotion {
    Knight,
    Bishop,
    Rook,
    Queen,
}

/// One half-move: from-square, to-square (each 0..64) and an optional promotion.
#[derive(Clone, Copy, Debug, PartialEq, Eq, Structural)]
pub struct Move {
    pub from: u8,
    pub to: u8,
    pub promotion: Option<Promotion>,
}

/// Why a move code could not be read.
#[derive(Clone, Copy, Debug, PartialEq, Eq, Structural)]
pub enum DecodeError {
    /// A single code was not two bytes, or a blob of codes had an odd length.
    BadLength,
    /// The promotion field held a value above 4.
    BadPromotion,
}

impl Move {
    /// Both squares are on the board.
    pub open spec fn valid(self) -> bool {
        self.from < 64 && self.to < 64
    }
}

/// The value of the promotion field for a promotion.
pub open spec fn promotion_field(p: Option<Promotion>) -> int {
    match p {
        None => 0,
        Some(Promotion::Knight) => 1,
        Some(Promotion::Bishop) => 2,
        Some(Promotion::Rook) => 3,
        Some(Promotion::Queen) => 4,
    }
}

/// The promotion that a field value in 0..=4 stands for.
pub open spec fn promotion_from_field(f: int) -> Option<Promotion> {
    if f == 1 {
        Some(Promotion::Knight)
    } else if f == 2 {
        Some(Promotion::Bishop)
    } else if f == 3 {
        Some(Promotion::Rook)
    } else if f == 4 {
        Some(Promotion::Queen)
    } else {
        None
    }
}

/// The sixteen-bit code of a move.
pub open spec fn move_code(m: Move) -> int {
    m.from + 64 * m.to + 4096 * promotion_field(m.promotion)
}

/// The two stored bytes of a code, low byte first.
pub open spec fn code_bytes(c: int) -> Seq<u8> {
    seq![(c % 256) as u8, (c / 256) as u8]
}

/// The stored bytes of a move.
pub open spec fn encoded(m: Move) -> Seq<u8> {
    code_bytes(move_code(m))
}

/// What a stored move code reads as.
pub open spec fn decode_move_spec(b: Seq<u8>) -> Result<Move, DecodeError> {
    if b.len() != 2 {
        Err(DecodeError::BadLength)
    } else {
        let c = b[0] + 256 * b[1];
        if c / 4096 > 4 {
            Err(DecodeError::BadPromotion)
        } else {
            Ok(Move { from: (c % 64) as u8, to: (c / 64 % 64) as u8, promotion: promotion_from_field(c / 4096) })
        }
    }
}

pub open spec fn file_chars() -> Seq<char> {
    seq!['a', 'b', 'c', 'd', 'e', 'f', 'g', 'h']
}

pub open spec fn rank_chars() -> Seq<char> {
    seq!['1', '2', '3', '4', '5', '6', '7', '8']
}

/// The name of a square, file letter then rank digit (`e4`).
pub open spec fn square_text(s: int) -> Seq<char> {
    seq![file_chars()[s % 8], rank_chars()[s / 8]]
}

/// The letter that ends a promotion move, or nothing.
pub open spec fn promotion_text(p: Option<Promotion>) -> Seq<char> {
    match p {
        None => seq![],
        Some(Promotion::Knight) => seq!['n'],
        Some(Promotion::Bishop) => seq!['b'],
        Some(Promotion::Rook) => seq!['r'],
        Some(Promotion::Queen) => seq!['q'],
    }
}

/// A move in coordinate notation.
pub open spec fn move_text(m: Move) -> Seq<char> {
    square_text(m.from as int) + square_text(m.to as int) + promotion_text(m.promotion)
}

/// What a stored move code reads as, in text.
pub open spec fn decode_spec(b: Seq<u8>) -> Result<Seq<char>, DecodeError> {
    match decode_move_spec(b) {
        Ok(m) => Ok(move_text(m)),
        Err(e) => Err(e),
    }
}

/// The i-th two-byte chunk of a blob.
pub open spec fn chunk(b: Seq<u8>, i: int) -> Seq<u8> {
    b.subrange(2 * i, 2 * i + 2)
}

/// The texts of the first `n` codes of a blob, or the first error among them.
pub open spec fn decode_prefix(b: Seq<u8>, n: nat) -> Result<Seq<Seq<char>>, DecodeError>
    decreases n,
{
    if n == 0 {
        Ok(seq![])
    } else {
        match decode_prefix(b, (n - 1) as nat) {
            Err(e) => Err(e),
            Ok(prev) => match decode_spec(chunk(b, n - 1)) {
                Err(e) => Err(e),
                Ok(t) => Ok(prev.push(t)),
            },
        }
    }
}

/// What a blob of concatenated move codes reads as.
pub open spec fn decode_sequence_spec(b: Seq<u8>) -> Result<Seq<Seq<char>>, DecodeError> {
    if b.len() % 2 != 0 {
        Err(DecodeError::BadLength)
    } else {
        decode_prefix(b, (b.len() / 2) as nat)
    }
}

/// Texts joined with single spaces.
pub open spec fn join_spec(ts: Seq<Seq<char>>) -> Seq<char>
    decreases ts.len(),
{
    if ts.len() == 0 {
        seq![]
    } else if ts.len() == 1 {
        ts[0]
    } else {
        join_spec(ts.drop_last()) + seq![' '] + ts.last()
    }
}

/// The texts of a sequence of strings.
pub open spec fn string_views(v: Seq<String>) -> Seq<Seq<char>> {
    v.map_values(|s: String| s@)
}

fn promotion_to_field(p: Option<Promotion>) -> (r: u16)
    ensures
        r == promotion_field(p),
{
    match p {
        None => 0,
        Some(Promotion::Knight) => 1,
        Some(Promotion::Bishop) => 2,
        Some(Promotion::Rook) => 3,
        Some(Promotion::Queen) => 4,
    }
}

fn field_to_promotion(f: u16) -> (r: Option<Promotion>)
    ensures
        r == promotion_from_field(f as int),
{
    if f == 1 {
        Some(Promotion::Knight)
    } else if f == 2 {
        Some(Promotion::Bishop)
    } else if f == 3 {
        Some(Promotion::Rook)
    } else if f == 4 {
        Some(Promotion::Queen)
    } else {
        None
    }
}

/// Packs a move into its two stored bytes.
pub fn encode(m: Move) -> (r: [u8; 2])
    requires
        m.valid(),
    ensures
        r@ == encoded(m),
{
    let p = promotion_to_field(m.promotion);
    let c: u16 = m.from as u16 + 64 * (m.to as u16) + 4096 * p;
    let r = [(c % 256) as u8, (c / 256) as u8];
    assert(r@ =~= encoded(m));
    r
}

/// Reads one stored move code.
pub fn decode_move(b: &[u8]) -> (r: Result<Move, DecodeError>)
    ensures
        r == decode_move_spec(b@),
{
    if b.len() != 2 {
        return Err(DecodeError::BadLength);
    }
    let c: u16 = b[0] as u16 + 256 * (b[1] as u16);
    if c / 4096 > 4 {
        return Err(DecodeError::BadPromotion);
    }
    Ok(Move { from: (c % 64) as u8, to: (c / 64 % 64) as u8, promotion: field_to_promotion(c / 4096) })
}

fn push_square(out: &mut String, s: u8)
    requires
        s < 64,
    ensures
        final(out)@ == old(out)@ + square_text(s as int),
{
    let files = "abcdefgh";
    let ranks = "12345678";
    proof {
        reveal_strlit("abcdefgh");
        reveal_strlit("12345678");
    }
    assert(files@ == file_chars());
    assert(ranks@ == rank_chars());
    let f = (s % 8) as usize;
    let k = (s / 8) as usize;
    let fs = files.substring_ascii(f, f + 1);
    let rs = ranks.substring_ascii(k, k + 1);
    assert(fs@ =~= seq![file_chars()[f as int]]);
    assert(rs@ =~= seq![rank_chars()[k as int]]);
    out.append(fs);
    out.append(rs);
    assert(final(out)@ =~= old(out)@ + square_text(s as int));
}

fn push_promotion(out: &mut String, p: Option<Promotion>)
    ensures
        final(out)@ == old(out)@ + promotion_text(p),
{
    match p {
        None => {
            assert(old(out)@ + promotion_text(p) =~= old(out)@);
        },
        Some(Promotion::Knight) => {
            proof {
                reveal_strlit("n");
            }
            out.append("n");
        },
        Some(Promotion::Bishop) => {
            proof {
                reveal_strlit("b");
            }
            out.append("b");
        },
        Some(Promotion::Rook) => {
            proof {
                reveal_strlit("r");
            }
            out.append("r");
        },
        Some(Promotion::Queen) => {
            proof {
                reveal_strlit("q");
            }
            out.append("q");
        },
    }
}

impl Move {
    /// The move in coordinate notation.
    pub fn to_text(&self) -> (r: String)
        requires
            self.valid(),
        ensures
            r@ == move_text(*self),
    {
        let mut out = String::new();
        push_square(&mut out, self.from);
        push_square(&mut out, self.to);
        push_promotion(&mut out, self.promotion);
        assert(out@ =~= move_text(*self));
        out
    }
}

/// Reads one stored move code as text.
pub fn decode(b: &[u8]) -> (r: Result<String, DecodeError>)
    ensures
        match decode_spec(b@) {
            Ok(t) => r is Ok && r->Ok_0@ == t,
            Err(e) => r == Err::<String, DecodeError>(e),
        },
{
    match decode_move(b) {
        Ok(m) => Ok(m.to_text()),
        Err(e) => Err(e),
    }
}

/// Reads a blob of concatenated move codes, one text per code, in order.
pub fn decode_sequence(b: &[u8]) -> (r: Result<Vec<String>, DecodeError>)
    ensures
        match decode_sequence_spec(b@) {
            Ok(ts) => r is Ok && string_views(r->Ok_0@) == ts,
            Err(e) => r == Err::<Vec<String>, DecodeError>(e),
        },
{
    if b.len() % 2 != 0 {
        return Err(DecodeError::BadLength);
    }
    let len: usize = b.len();
    let n = len / 2;
    let mut out: Vec<String> = Vec::new();
    let mut i: usize = 0;
    assert(string_views(out@) =~= seq![]);
    while i < n
        invariant
            n == b@.len() / 2,
            2 * n == b@.len(),
            len == b@.len(),
            b@.len() % 2 == 0,
            i <= n,
            decode_prefix(b@, i as nat) == Ok::<Seq<Seq<char>>, DecodeError>(string_views(out@)),
        decreases n - i,
    {
        assert(2 * i + 2 <= b@.len());
        let start: usize = 2 * i;
        let piece = slice_subrange(b, start, start + 2);
        assert(piece@ == chunk(b@, i as int));
        match decode(piece) {
            Ok(t) => {
                let ghost prev = out@;
                let ghost tv = t@;
                out.push(t);
                assert(string_views(out@) =~= string_views(prev).push(tv));
                assert(decode_prefix(b@, (i + 1) as nat) == Ok::<Seq<Seq<char>>, DecodeError>(
                    string_views(out@),
                ));
            },
            Err(e) => {
                proof {
                    lemma_prefix_error_stays(b@, (i + 1) as nat, n as nat);
                }
                return Err(e);
            },
        }
        i = i + 1;
    }
    Ok(out)
}

/// Joins move texts with single spaces.
pub fn join_moves(ts: &Vec<String>) -> (r: String)
    ensures
        r@ == join_spec(string_views(ts@)),
{
    let mut out = String::new();
    let mut i: usize = 0;
    while i < ts.len()
        invariant
            i <= ts@.len(),
            out@ == join_spec(string_views(ts@.subrange(0, i as int))),
        decreases ts@.len() - i,
    {
        let ghost before = out@;
        if i > 0 {
            proof {
                reveal_strlit(" ");
            }
            out.append(" ");
        }
        out.append(ts[i].as_str());
        proof {
            let pre = string_views(ts@.subrange(0, i as int));
            let post = string_views(ts@.subrange(0, i + 1));
            assert(post.drop_last() =~= pre);
            assert(post.last() == ts@[i as int]@);
            if i == 0 {
                assert(post[0] == ts@[0]@);
                assert(out@ =~= ts@[0]@);
            } else {
                assert(out@ =~= before + seq![' '] + ts@[i as int]@);
            }
        }
        i = i + 1;
    }
    assert(ts@.subrange(0, ts@.len() as int) =~= ts@);
    out
}

proof fn lemma_prefix_error_stays(b: Seq<u8>, k: nat, n: nat)
    requires
        k <= n,
        decode_prefix(b, k) is Err,
    ensures
        decode_prefix(b, n) == decode_prefix(b, k),
    decreases n - k,
{
    if k < n {
        lemma_prefix_error_stays(b, k, (n - 1) as nat);
    }
}

/// Decoding the bytes that `encode` writes for a move gives the move back, and
/// its text.
pub proof fn lemma_decode_encode(m: Move)
    requires
        m.valid(),
    ensures
        decode_move_spec(encoded(m)) == Ok::<Move, DecodeError>(m),
        decode_spec(encoded(m)) == Ok::<Seq<char>, DecodeError>(move_text(m)),
{
    let p = promotion_field(m.promotion);
    let c = move_code(m);
    let f = m.from as int;
    let t = m.to as int;
    assert(0 <= p <= 4);
    assert(c % 256 + 256 * (c / 256) == c && 0 <= c % 256 < 256 && 0 <= c / 256 < 256
        && c / 4096 == p && c % 64 == f && c / 64 % 64 == t) by (nonlinear_arith)
        requires
            c == f + 64 * t + 4096 * p,
            0 <= f < 64,
            0 <= t < 64,
            0 <= p <= 4,
    ;
    let b = encoded(m);
    assert(b[0] + 256 * b[1] == c);
    assert(promotion_from_field(p) == m.promotion);
}

/// A code that is not two bytes long is refused; a two-byte code is refused
/// exactly when its promotion field is above 4. The square fields are six bits
/// wide, so every decoded square is on the board.
pub proof fn lemma_decode_rejects(b: Seq<u8>)
    ensures
        b.len() != 2 ==> decode_spec(b) == Err::<Seq<char>, DecodeError>(DecodeError::BadLength),
        b.len() == 2 ==> ((b[0] + 256 * b[1]) / 4096 > 4 <==> decode_spec(b)
            == Err::<Seq<char>, DecodeError>(DecodeError::BadPromotion)),
        b.len() == 2 ==> ((b[0] + 256 * b[1]) / 4096 <= 4 <==> decode_spec(b) is Ok),
        decode_move_spec(b) is Ok ==> decode_move_spec(b)->Ok_0.valid(),
{
}

/// An empty blob reads as no moves; a blob of odd length is refused.
pub proof fn lemma_decode_sequence_edges(b: Seq<u8>)
    ensures
        decode_sequence_spec(Seq::<u8>::empty()) == Ok::<Seq<Seq<char>>, DecodeError>(seq![]),
        b.len() % 2 != 0 ==> decode_sequence_spec(b) == Err::<Seq<Seq<char>>, DecodeError>(
            DecodeError::BadLength,
        ),
{
}

fn slice_subrange(b: &[u8], from: usize, to: usize) -> (r: &[u8])
    requires
        from <= to <= b@.len(),
    ensures
        r@ == b@.subrange(from as int, to as int),
{
    vstd::slice::slice_subrange(b, from, to)
}

} // verus!
