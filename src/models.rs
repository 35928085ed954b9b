//! Stored rows, the values handed in to create them, and the display records
//! built from them.
use vstd::prelude::*;

verus! {

#[derive(Default, Debug)]
pub struct Player {
    pub id: i32,
    pub name: Option<String>,
    pub elo: Option<i32>,
}

#[derive(Debug)]
pub struct NewPlayer<'a> {
    pub name: &'a str,
    pub elo: Option<i32>,
}

#[derive(Default, Debug)]
pub struct Game {
    pub id: i32,
    pub event_id: i32,
    pub site_id: i32,
    pub date: Option<String>,
    pub time: Option<String>,
    pub round: Option<String>,
    pub white_id: i32,
    pub white_elo: Option<i32>,
    pub black_id: i32,
    pub black_elo: Option<i32>,
    pub white_material: i32,
    pub black_material: i32,
    pub result: Option<String>,
    pub time_control: Option<String>,
    pub eco: Option<String>,
    pub ply_count: Option<i32>,
    pub fen: Option<String>,
    /// Concatenated two-byte move codes, one per half-move.
    pub moves2: Vec<u8>,
}

#[derive(Debug)]
pub struct NewGame<'a> {
    pub event_id: i32,
    pub site_id: i32,
    pub date: Option<&'a str>,
    pub time: Option<&'a str>,
    pub round: Option<&'a str>,
    pub white_id: Option<i32>,
    pub white_elo: Option<i32>,
    pub black_id: Option<i32>,
    pub black_elo: Option<i32>,
    pub white_material: i32,
    pub black_material: i32,
    pub result: Option<&'a str>,
    pub time_control: Option<&'a str>,
    pub eco: Option<&'a str>,
    pub ply_count: i32,
    pub fen: Option<&'a str>,
    pub moves2: &'a [u8],
}

#[derive(Default, Debug)]
pub struct Site {
    pub id: i32,
    pub name: Option<String>,
}

#[derive(Debug)]
pub struct NewSite<'a> {
    pub name: &'a str,
}

#[derive(Default, Debug)]
pub struct Event {
    pub id: i32,
    pub name: Option<String>,
}

#[derive(Debug)]
pub struct NewEvent<'a> {
    pub name: &'a str,
}

/// A free-form key and value.
#[derive(Debug)]
pub struct Info {
    pub name: String,
    pub value: Option<String>,
}

/// Result counts for one candidate move from one position.
#[derive(Debug)]
pub struct Opening {
    pub id: i32,
    /// Fingerprint of the position.
    pub hash: i32,
    /// The two-byte code of the move played from it.
    pub move_: Vec<u8>,
    pub white: i32,
    pub draw: i32,
    pub black: i32,
}

#[derive(Debug)]
pub struct NewOpening<'a> {
    pub hash: i32,
    pub move_: &'a [u8],
    pub white: i32,
    pub draw: i32,
    pub black: i32,
}

/// An opening row with its move in text.
#[derive(Debug)]
pub struct NormalizedOpening {
    pub id: i32,
    pub hash: i32,
    pub move_: String,
    pub white: i32,
    pub draw: i32,
    pub black: i32,
}

/// A game row with its references resolved and its moves in text.
#[derive(Debug)]
pub struct NormalizedGame {
    pub id: i32,
    pub event: Event,
    pub site: Site,
    pub date: Option<String>,
    pub time: Option<String>,
    pub round: Option<String>,
    pub white: Player,
    pub white_elo: Option<i32>,
    pub black: Player,
    pub black_elo: Option<i32>,
    pub result: Option<String>,
    pub time_control: Option<String>,
    pub eco: Option<String>,
    pub ply_count: Option<i32>,
    pub fen: Option<String>,
    /// The decoded moves in stored order, separated by single spaces.
    pub moves: String,
}

/// An owned copy of an optional text.
pub fn copy_text(t: &Option<String>) -> (r: Option<String>)
    ensures
        r == *t,
{
    match t {
        Some(s) => Some(s.clone()),
        None => None,
    }
}

/// An owned copy of an optional borrowed text.
pub fn own_text(t: Option<&str>) -> (r: Option<String>)
    ensures
        r is Some <==> t is Some,
        r is Some ==> r->Some_0@ == t->Some_0@,
{
    match t {
        Some(s) => Some(s.to_owned()),
        None => None,
    }
}

/// An owned copy of a byte slice.
pub fn own_bytes(b: &[u8]) -> (r: Vec<u8>)
    ensures
        r@ == b@,
{
    let mut out: Vec<u8> = Vec::new();
    let mut i: usize = 0;
    while i < b.len()
        invariant
            i <= b@.len(),
            out@ == b@.subrange(0, i as int),
        decreases b@.len() - i,
    {
        out.push(b[i]);
        i = i + 1;
        assert(out@ =~= b@.subrange(0, i as int));
    }
    assert(b@.subrange(0, b@.len() as int) =~= b@);
    out
}

impl Player {
    pub fn copy(&self) -> (r: Player)
        ensures
            r == *self,
    {
        Player { id: self.id, name: copy_text(&self.name), elo: self.elo }
    }
}

impl Site {
    pub fn copy(&self) -> (r: Site)
        ensures
            r == *self,
    {
        Site { id: self.id, name: copy_text(&self.name) }
    }
}

impl Event {
    pub fn copy(&self) -> (r: Event)
        ensures
            r == *self,
    {
        Event { id: self.id, name: copy_text(&self.name) }
    }
}

} // verus!
