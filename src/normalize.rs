//! Display records built from stored rows: references resolved through the
//! store, move codes read through the codec.
use vstd::prelude::*;
use crate::codec::{decode, decode_sequence, decode_sequence_spec, decode_spec, join_moves, join_spec, DecodeError};
use crate::models::{copy_text, Game, NormalizedGame, NormalizedOpening, Opening};
use crate::store::{NotFoundError, Store, Table};

verus! {

/// Why a game could not be made a display record.
#[derive(Clone, Copy, Debug, PartialEq, Eq, Structural)]
pub enum NormalizeError {
    /// A reference of the game names no row.
    NotFound(NotFoundError),
    /// The game's moves could not be read.
    Decode(DecodeError),
}

/// The first reference of a game that names no row, in the order event,
/// site, white player, black player.
pub open spec fn dangling_reference(store: Store, g: Game) -> Option<NotFoundError> {
    if store.event_of(g.event_id as int) is None {
        Some(NotFoundError { table: Table::Events, id: g.event_id })
    } else if store.site_of(g.site_id as int) is None {
        Some(NotFoundError { table: Table::Sites, id: g.site_id })
    } else if store.player_of(g.white_id as int) is None {
        Some(NotFoundError { table: Table::Players, id: g.white_id })
    } else if store.player_of(g.black_id as int) is None {
        Some(NotFoundError { table: Table::Players, id: g.black_id })
    } else {
        None
    }
}

/// `n` is the display record of `g` with references resolved in `store` and
/// with move text `moves`.
pub open spec fn normalized_from(n: NormalizedGame, store: Store, g: Game, moves: Seq<char>) -> bool {
    &&& n.id == g.id
    &&& n.event == store.event_of(g.event_id as int)->Some_0
    &&& n.site == store.site_of(g.site_id as int)->Some_0
    &&& n.date == g.date
    &&& n.time == g.time
    &&& n.round == g.round
    &&& n.white == store.player_of(g.white_id as int)->Some_0
    &&& n.white_elo == g.white_elo
    &&& n.black == store.player_of(g.black_id as int)->Some_0
    &&& n.black_elo == g.black_elo
    &&& n.result == g.result
    &&& n.time_control == g.time_control
    &&& n.eco == g.eco
    &&& n.ply_count == g.ply_count
    &&& n.fen == g.fen
    &&& n.moves@ == moves
}

/// What normalizing `g` against `store` gives.
pub open spec fn game_normalized(store: Store, g: Game, r: Result<NormalizedGame, NormalizeError>) -> bool {
    match dangling_reference(store, g) {
        Some(nf) => r is Err && r->Err_0 == NormalizeError::NotFound(nf),
        None => match decode_sequence_spec(g.moves2@) {
            Err(e) => r is Err && r->Err_0 == NormalizeError::Decode(e),
            Ok(ts) => r is Ok && normalized_from(r->Ok_0, store, g, join_spec(ts)),
        },
    }
}

/// A game whose event reference names no row normalizes to the not-found
/// error for that event, whatever else the game holds, and to no record.
pub proof fn lemma_missing_event(store: Store, g: Game, r: Result<NormalizedGame, NormalizeError>)
    requires
        store.event_of(g.event_id as int) is None,
        game_normalized(store, g, r),
    ensures
        r is Err,
        r->Err_0 == NormalizeError::NotFound(NotFoundError { table: Table::Events, id: g.event_id }),
{
}

/// Every game that a well-formed store holds has all its references resolved
/// in that store, so normalizing it can fail only on its moves.
pub proof fn lemma_stored_game_resolves(store: Store, i: int)
    requires
        store.wf(),
        0 <= i < store.games().len(),
    ensures
        dangling_reference(store, store.games()[i]) is None,
{
    assert(store.references_hold(store.games()[i]));
}

/// `n` is the display record of `o` with move text `mv`.
pub open spec fn opening_normalized_from(n: NormalizedOpening, o: Opening, mv: Seq<char>) -> bool {
    &&& n.id == o.id
    &&& n.hash == o.hash
    &&& n.move_@ == mv
    &&& n.white == o.white
    &&& n.draw == o.draw
    &&& n.black == o.black
}

impl NormalizedOpening {
    /// The display record of an opening row: its move code read as text, the
    /// other fields copied.
    pub fn from_opening(o: &Opening) -> (r: Result<NormalizedOpening, DecodeError>)
        ensures
            match decode_spec(o.move_@) {
                Ok(t) => r is Ok && opening_normalized_from(r->Ok_0, *o, t),
                Err(e) => r is Err && r->Err_0 == e,
            },
    {
        match decode(o.move_.as_slice()) {
            Ok(t) => Ok(
                NormalizedOpening {
                    id: o.id,
                    hash: o.hash,
                    move_: t,
                    white: o.white,
                    draw: o.draw,
                    black: o.black,
                },
            ),
            Err(e) => Err(e),
        }
    }
}

impl NormalizedGame {
    /// The display record of a game row: its event, site and players looked
    /// up in `store`, its moves read and joined with single spaces in stored
    /// order, the other fields copied. A reference that names no row is
    /// reported before the moves are read.
    pub fn from_game(store: &Store, g: &Game) -> (r: Result<NormalizedGame, NormalizeError>)
        ensures
            game_normalized(*store, *g, r),
    {
        let event = match store.find_event(g.event_id) {
            Some(e) => e.copy(),
            None => {
                return Err(NormalizeError::NotFound(NotFoundError { table: Table::Events, id: g.event_id }));
            },
        };
        let site = match store.find_site(g.site_id) {
            Some(s) => s.copy(),
            None => {
                return Err(NormalizeError::NotFound(NotFoundError { table: Table::Sites, id: g.site_id }));
            },
        };
        let white = match store.find_player(g.white_id) {
            Some(p) => p.copy(),
            None => {
                return Err(NormalizeError::NotFound(NotFoundError { table: Table::Players, id: g.white_id }));
            },
        };
        let black = match store.find_player(g.black_id) {
            Some(p) => p.copy(),
            None => {
                return Err(NormalizeError::NotFound(NotFoundError { table: Table::Players, id: g.black_id }));
            },
        };
        let moves = match decode_sequence(g.moves2.as_slice()) {
            Ok(ts) => join_moves(&ts),
            Err(e) => {
                return Err(NormalizeError::Decode(e));
            },
        };
        Ok(
            NormalizedGame {
                id: g.id,
                event,
                site,
                date: copy_text(&g.date),
                time: copy_text(&g.time),
                round: copy_text(&g.round),
                white,
                white_elo: g.white_elo,
                black,
                black_elo: g.black_elo,
                result: copy_text(&g.result),
                time_control: copy_text(&g.time_control),
                eco: copy_text(&g.eco),
                ply_count: g.ply_count,
                fen: copy_text(&g.fen),
                moves,
            },
        )
    }
}

impl Store {
    /// The display record of the game with identifier `id`.
    pub fn normalized_game(&self, id: i32) -> (r: Result<NormalizedGame, NormalizeError>)
        requires
            self.wf(),
        ensures
            match self.game_of(id as int) {
                None => r is Err && r->Err_0 == NormalizeError::NotFound(
                    NotFoundError { table: Table::Games, id },
                ),
                Some(g) => game_normalized(*self, g, r),
            },
            self.game_of(id as int) is Some ==> (r is Err ==> r->Err_0 is Decode),
    {
        match self.find_game(id) {
            Some(g) => {
                proof {
                    lemma_stored_game_resolves(*self, id - 1);
                }
                NormalizedGame::from_game(self, g)
            },
            None => Err(NormalizeError::NotFound(NotFoundError { table: Table::Games, id })),
        }
    }

    /// The display record of the opening row with identifier `id`.
    pub fn normalized_opening(&self, id: i32) -> (r: Result<NormalizedOpening, NormalizeError>)
        ensures
            match self.opening_of(id as int) {
                None => r is Err && r->Err_0 == NormalizeError::NotFound(
                    NotFoundError { table: Table::Openings, id },
                ),
                Some(o) => match decode_spec(o.move_@) {
                    Ok(t) => r is Ok && opening_normalized_from(r->Ok_0, o, t),
                    Err(e) => r is Err && r->Err_0 == NormalizeError::Decode(e),
                },
            },
    {
        match self.find_opening(id) {
            Some(o) => match NormalizedOpening::from_opening(o) {
                Ok(n) => Ok(n),
                Err(e) => Err(NormalizeError::Decode(e)),
            },
            None => Err(NormalizeError::NotFound(NotFoundError { table: Table::Openings, id })),
        }
    }
}

} // verus!
