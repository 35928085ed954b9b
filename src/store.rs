//! An in-memory entity store. Each table keeps its rows in insertion order and
//! gives the row at position `i` the identifier `i + 1`, so identifiers are
//! positive, unique and found without a search.
use vstd::prelude::*;
use crate::models::{
    own_bytes, own_text, Event, Game, NewEvent, NewGame, NewOpening, NewPlayer, NewSite,
    Opening, Player, Site,
};

verus! {

/// A table of the store.
#[derive(Clone, Copy, Debug, PartialEq, Eq, Structural)]
pub enum Table {
    Players,
    Sites,
    Events,
    Games,
    Openings,
}

/// A reference that names no row.
#[derive(Clone, Copy, Debug, PartialEq, Eq, Structural)]
pub struct NotFoundError {
    pub table: Table,
    pub id: i32,
}

/// Why an insert or an update was refused.
#[derive(Clone, Copy, Debug, PartialEq, Eq, Structural)]
pub enum ConstraintError {
    /// A reference into this table is absent or names no row.
    MissingReference(Table),
    /// This table holds as many rows as identifiers can number.
    Full(Table),
    /// A result counter was negative.
    NegativeCount,
    /// A move code was not two bytes long.
    MoveLength,
    /// A result counter is at its largest value.
    CounterOverflow,
    /// A game's ply count is not the number of its move codes.
    PlyCount,
}

/// The result of a game, for the opening counters.
#[derive(Clone, Copy, Debug, PartialEq, Eq, Structural)]
pub enum Outcome {
    White,
    Draw,
    Black,
}

/// Players, sites, events, games and opening statistics.
pub struct Store {
    players: Vec<Player>,
    sites: Vec<Site>,
    events: Vec<Event>,
    games: Vec<Game>,
    openings: Vec<Opening>,
}

/// The largest identifier.
pub const MAX_ID: i32 = 2147483647;

/// The row for `id` in a table whose row at position `i` has identifier `i + 1`.
pub open spec fn row_at<T>(rows: Seq<T>, id: int) -> Option<T> {
    if 1 <= id <= rows.len() {
        Some(rows[id - 1])
    } else {
        None
    }
}


/// A game's ply count is the number of its two-byte move codes.
pub open spec fn plies_counted(g: Game) -> bool {
    g.ply_count == Some((g.moves2@.len() / 2) as i32)
}

/// An opening row's counters are not negative and its move code is two bytes.
pub open spec fn opening_valid(o: Opening) -> bool {
    o.white >= 0 && o.draw >= 0 && o.black >= 0 && o.move_@.len() == 2
}

/// The counter that an outcome adds to.
pub open spec fn counter(o: Opening, outcome: Outcome) -> int {
    match outcome {
        Outcome::White => o.white as int,
        Outcome::Draw => o.draw as int,
        Outcome::Black => o.black as int,
    }
}

/// Whether an opening row is the one for a position and a move.
pub open spec fn opening_matches(o: Opening, hash: i32, mv: Seq<u8>) -> bool {
    o.hash == hash && o.move_@ == mv
}

/// `b` is `a` with one counter raised by one.
pub open spec fn bumped(a: Opening, b: Opening, outcome: Outcome) -> bool {
    &&& b.id == a.id
    &&& b.hash == a.hash
    &&& b.move_@ == a.move_@
    &&& counter(b, outcome) == counter(a, outcome) + 1
    &&& forall|x: Outcome| x != outcome ==> counter(b, x) == counter(a, x)
}

/// Row `i` is the first row for a position and a move.
pub open spec fn first_match(rows: Seq<Opening>, i: int, hash: i32, mv: Seq<u8>) -> bool {
    &&& 0 <= i < rows.len()
    &&& opening_matches(rows[i], hash, mv)
    &&& forall|j: int| 0 <= j < i ==> !opening_matches(#[trigger] rows[j], hash, mv)
}

/// No row is for a position and a move.
pub open spec fn no_match(rows: Seq<Opening>, hash: i32, mv: Seq<u8>) -> bool {
    forall|j: int| 0 <= j < rows.len() ==> !opening_matches(#[trigger] rows[j], hash, mv)
}

/// A new row keeps the player's fields under the identifier `id`.
pub open spec fn player_row(row: Player, id: int, p: NewPlayer) -> bool {
    &&& row.id == id
    &&& row.name is Some && row.name->Some_0@ == p.name@
    &&& row.elo == p.elo
}

pub open spec fn site_row(row: Site, id: int, s: NewSite) -> bool {
    &&& row.id == id
    &&& row.name is Some && row.name->Some_0@ == s.name@
}

pub open spec fn event_row(row: Event, id: int, e: NewEvent) -> bool {
    &&& row.id == id
    &&& row.name is Some && row.name->Some_0@ == e.name@
}

/// A stored optional text and the optional text it was made from.
pub open spec fn same_text(a: Option<String>, b: Option<&str>) -> bool {
    &&& a is Some <==> b is Some
    &&& a is Some ==> a->Some_0@ == b->Some_0@
}

pub open spec fn game_row(row: Game, id: int, g: NewGame) -> bool {
    &&& row.id == id
    &&& row.event_id == g.event_id
    &&& row.site_id == g.site_id
    &&& same_text(row.date, g.date)
    &&& same_text(row.time, g.time)
    &&& same_text(row.round, g.round)
    &&& g.white_id == Some(row.white_id)
    &&& row.white_elo == g.white_elo
    &&& g.black_id == Some(row.black_id)
    &&& row.black_elo == g.black_elo
    &&& row.white_material == g.white_material
    &&& row.black_material == g.black_material
    &&& same_text(row.result, g.result)
    &&& same_text(row.time_control, g.time_control)
    &&& same_text(row.eco, g.eco)
    &&& row.ply_count == Some(g.ply_count)
    &&& same_text(row.fen, g.fen)
    &&& row.moves2@ == g.moves2@
}

pub open spec fn opening_row(row: Opening, id: int, o: NewOpening) -> bool {
    &&& row.id == id
    &&& row.hash == o.hash
    &&& row.move_@ == o.move_@
    &&& row.white == o.white
    &&& row.draw == o.draw
    &&& row.black == o.black
}

impl Store {
    /// The tables of `b` other than `t` are those of `self`.
    pub open spec fn same_but(&self, b: &Store, t: Table) -> bool {
        &&& t != Table::Players ==> b.players() == self.players()
        &&& t != Table::Sites ==> b.sites() == self.sites()
        &&& t != Table::Events ==> b.events() == self.events()
        &&& t != Table::Games ==> b.games() == self.games()
        &&& t != Table::Openings ==> b.openings() == self.openings()
    }

    /// `new_rows` is `rows` with one more row appended.
    pub open spec fn grown<T>(rows: Seq<T>, new_rows: Seq<T>) -> bool {
        new_rows.len() == rows.len() + 1 && new_rows.drop_last() == rows
    }

    /// The player rows, in identifier order.
    pub closed spec fn players(&self) -> Seq<Player> {
        self.players@
    }

    pub closed spec fn sites(&self) -> Seq<Site> {
        self.sites@
    }

    pub closed spec fn events(&self) -> Seq<Event> {
        self.events@
    }

    pub closed spec fn games(&self) -> Seq<Game> {
        self.games@
    }

    pub closed spec fn openings(&self) -> Seq<Opening> {
        self.openings@
    }

    pub open spec fn player_of(&self, id: int) -> Option<Player> {
        row_at(self.players(), id)
    }

    pub open spec fn site_of(&self, id: int) -> Option<Site> {
        row_at(self.sites(), id)
    }

    pub open spec fn event_of(&self, id: int) -> Option<Event> {
        row_at(self.events(), id)
    }

    pub open spec fn game_of(&self, id: int) -> Option<Game> {
        row_at(self.games(), id)
    }

    pub open spec fn opening_of(&self, id: int) -> Option<Opening> {
        row_at(self.openings(), id)
    }

    /// Every reference of a game names a row.
    pub open spec fn references_hold(&self, g: Game) -> bool {
        &&& self.event_of(g.event_id as int) is Some
        &&& self.site_of(g.site_id as int) is Some
        &&& self.player_of(g.white_id as int) is Some
        &&& self.player_of(g.black_id as int) is Some
    }

    /// Identifiers number each table's rows from one, every game's references
    /// name rows and its ply count matches its moves, and every opening row is
    /// valid.
    pub open spec fn wf(&self) -> bool {
        &&& self.players().len() <= MAX_ID
        &&& self.sites().len() <= MAX_ID
        &&& self.events().len() <= MAX_ID
        &&& self.games().len() <= MAX_ID
        &&& self.openings().len() <= MAX_ID
        &&& forall|i: int| 0 <= i < self.players().len() ==> #[trigger] self.players()[i].id == i + 1
        &&& forall|i: int| 0 <= i < self.sites().len() ==> #[trigger] self.sites()[i].id == i + 1
        &&& forall|i: int| 0 <= i < self.events().len() ==> #[trigger] self.events()[i].id == i + 1
        &&& forall|i: int| 0 <= i < self.games().len() ==> #[trigger] self.games()[i].id == i + 1
        &&& forall|i: int| 0 <= i < self.openings().len() ==> #[trigger] self.openings()[i].id == i + 1
        &&& forall|i: int| 0 <= i < self.games().len() ==> self.references_hold(#[trigger] self.games()[i])
        &&& forall|i: int| 0 <= i < self.games().len() ==> plies_counted(#[trigger] self.games()[i])
        &&& forall|i: int| 0 <= i < self.openings().len() ==> opening_valid(#[trigger] self.openings()[i])
    }

    /// An empty store.
    pub fn new() -> (r: Store)
        ensures
            r.wf(),
            r.players().len() == 0,
            r.sites().len() == 0,
            r.events().len() == 0,
            r.games().len() == 0,
            r.openings().len() == 0,
    {
        Store {
            players: Vec::new(),
            sites: Vec::new(),
            events: Vec::new(),
            games: Vec::new(),
            openings: Vec::new(),
        }
    }

    pub fn find_player(&self, id: i32) -> (r: Option<&Player>)
        ensures
            r is Some <==> self.player_of(id as int) is Some,
            r is Some ==> *r->Some_0 == self.player_of(id as int)->Some_0,
    {
        if 1 <= id && (id as usize) <= self.players.len() {
            Some(&self.players[(id - 1) as usize])
        } else {
            None
        }
    }

    pub fn find_site(&self, id: i32) -> (r: Option<&Site>)
        ensures
            r is Some <==> self.site_of(id as int) is Some,
            r is Some ==> *r->Some_0 == self.site_of(id as int)->Some_0,
    {
        if 1 <= id && (id as usize) <= self.sites.len() {
            Some(&self.sites[(id - 1) as usize])
        } else {
            None
        }
    }

    pub fn find_event(&self, id: i32) -> (r: Option<&Event>)
        ensures
            r is Some <==> self.event_of(id as int) is Some,
            r is Some ==> *r->Some_0 == self.event_of(id as int)->Some_0,
    {
        if 1 <= id && (id as usize) <= self.events.len() {
            Some(&self.events[(id - 1) as usize])
        } else {
            None
        }
    }

    pub fn find_game(&self, id: i32) -> (r: Option<&Game>)
        ensures
            r is Some <==> self.game_of(id as int) is Some,
            r is Some ==> *r->Some_0 == self.game_of(id as int)->Some_0,
    {
        if 1 <= id && (id as usize) <= self.games.len() {
            Some(&self.games[(id - 1) as usize])
        } else {
            None
        }
    }

    pub fn find_opening(&self, id: i32) -> (r: Option<&Opening>)
        ensures
            r is Some <==> self.opening_of(id as int) is Some,
            r is Some ==> *r->Some_0 == self.opening_of(id as int)->Some_0,
    {
        if 1 <= id && (id as usize) <= self.openings.len() {
            Some(&self.openings[(id - 1) as usize])
        } else {
            None
        }
    }

    /// Adds a player under the next identifier.
    pub fn insert_player(&mut self, p: NewPlayer) -> (r: Result<i32, ConstraintError>)
        requires
            old(self).wf(),
        ensures
            final(self).wf(),
            old(self).same_but(final(self), Table::Players),
            old(self).players().len() == MAX_ID <==> r == Err::<i32, ConstraintError>(
                ConstraintError::Full(Table::Players),
            ),
            old(self).players().len() < MAX_ID ==> r is Ok,
            r is Err ==> final(self).players() == old(self).players(),
            r is Ok ==> {
                &&& r->Ok_0 == old(self).players().len() + 1
                &&& Self::grown(old(self).players(), final(self).players())
                &&& player_row(final(self).players().last(), r->Ok_0 as int, p)
            },
    {
        if self.players.len() >= MAX_ID as usize {
            return Err(ConstraintError::Full(Table::Players));
        }
        let id = (self.players.len() + 1) as i32;
        self.players.push(Player { id, name: Some(p.name.to_owned()), elo: p.elo });
        assert(self.players@.drop_last() =~= old(self).players@);
        Ok(id)
    }

    /// Adds a site under the next identifier.
    pub fn insert_site(&mut self, s: NewSite) -> (r: Result<i32, ConstraintError>)
        requires
            old(self).wf(),
        ensures
            final(self).wf(),
            old(self).same_but(final(self), Table::Sites),
            old(self).sites().len() == MAX_ID <==> r == Err::<i32, ConstraintError>(
                ConstraintError::Full(Table::Sites),
            ),
            old(self).sites().len() < MAX_ID ==> r is Ok,
            r is Err ==> final(self).sites() == old(self).sites(),
            r is Ok ==> {
                &&& r->Ok_0 == old(self).sites().len() + 1
                &&& Self::grown(old(self).sites(), final(self).sites())
                &&& site_row(final(self).sites().last(), r->Ok_0 as int, s)
            },
    {
        if self.sites.len() >= MAX_ID as usize {
            return Err(ConstraintError::Full(Table::Sites));
        }
        let id = (self.sites.len() + 1) as i32;
        self.sites.push(Site { id, name: Some(s.name.to_owned()) });
        assert(self.sites@.drop_last() =~= old(self).sites@);
        Ok(id)
    }

    /// Adds an event under the next identifier.
    pub fn insert_event(&mut self, e: NewEvent) -> (r: Result<i32, ConstraintError>)
        requires
            old(self).wf(),
        ensures
            final(self).wf(),
            old(self).same_but(final(self), Table::Events),
            old(self).events().len() == MAX_ID <==> r == Err::<i32, ConstraintError>(
                ConstraintError::Full(Table::Events),
            ),
            old(self).events().len() < MAX_ID ==> r is Ok,
            r is Err ==> final(self).events() == old(self).events(),
            r is Ok ==> {
                &&& r->Ok_0 == old(self).events().len() + 1
                &&& Self::grown(old(self).events(), final(self).events())
                &&& event_row(final(self).events().last(), r->Ok_0 as int, e)
            },
    {
        if self.events.len() >= MAX_ID as usize {
            return Err(ConstraintError::Full(Table::Events));
        }
        let id = (self.events.len() + 1) as i32;
        self.events.push(Event { id, name: Some(e.name.to_owned()) });
        assert(self.events@.drop_last() =~= old(self).events@);
        Ok(id)
    }

    /// The first reference of a new game that names no row, in the order
    /// event, site, white player, black player.
    pub open spec fn missing_reference(&self, g: NewGame) -> Option<Table> {
        if self.event_of(g.event_id as int) is None {
            Some(Table::Events)
        } else if self.site_of(g.site_id as int) is None {
            Some(Table::Sites)
        } else if g.white_id is None || self.player_of(g.white_id->Some_0 as int) is None {
            Some(Table::Players)
        } else if g.black_id is None || self.player_of(g.black_id->Some_0 as int) is None {
            Some(Table::Players)
        } else {
            None
        }
    }

    fn has_player(&self, id: Option<i32>) -> (r: bool)
        ensures
            r == (id is Some && self.player_of(id->Some_0 as int) is Some),
    {
        match id {
            Some(i) => 1 <= i && (i as usize) <= self.players.len(),
            None => false,
        }
    }

    /// Adds a game under the next identifier; each of its references must
    /// name a row, and its ply count must be the number of its move codes.
    pub fn insert_game(&mut self, g: NewGame) -> (r: Result<i32, ConstraintError>)
        requires
            old(self).wf(),
        ensures
            final(self).wf(),
            old(self).same_but(final(self), Table::Games),
            match old(self).missing_reference(g) {
                Some(t) => r == Err::<i32, ConstraintError>(ConstraintError::MissingReference(t)),
                None if g.ply_count != g.moves2@.len() / 2 => r == Err::<i32, ConstraintError>(
                    ConstraintError::PlyCount,
                ),
                None => {
                    &&& old(self).games().len() == MAX_ID <==> r == Err::<i32, ConstraintError>(
                        ConstraintError::Full(Table::Games),
                    )
                    &&& old(self).games().len() < MAX_ID ==> r is Ok
                },
            },
            r is Err ==> final(self).games() == old(self).games(),
            r is Ok ==> {
                &&& r->Ok_0 == old(self).games().len() + 1
                &&& Self::grown(old(self).games(), final(self).games())
                &&& game_row(final(self).games().last(), r->Ok_0 as int, g)
            },
    {
        if !(1 <= g.event_id && (g.event_id as usize) <= self.events.len()) {
            return Err(ConstraintError::MissingReference(Table::Events));
        }
        if !(1 <= g.site_id && (g.site_id as usize) <= self.sites.len()) {
            return Err(ConstraintError::MissingReference(Table::Sites));
        }
        if !self.has_player(g.white_id) || !self.has_player(g.black_id) {
            return Err(ConstraintError::MissingReference(Table::Players));
        }
        if g.ply_count < 0 || g.ply_count as usize != g.moves2.len() / 2 {
            return Err(ConstraintError::PlyCount);
        }
        if self.games.len() >= MAX_ID as usize {
            return Err(ConstraintError::Full(Table::Games));
        }
        let id = (self.games.len() + 1) as i32;
        let white_id = match g.white_id {
            Some(w) => w,
            None => 0,
        };
        let black_id = match g.black_id {
            Some(b) => b,
            None => 0,
        };
        let row = Game {
            id,
            event_id: g.event_id,
            site_id: g.site_id,
            date: own_text(g.date),
            time: own_text(g.time),
            round: own_text(g.round),
            white_id,
            white_elo: g.white_elo,
            black_id,
            black_elo: g.black_elo,
            white_material: g.white_material,
            black_material: g.black_material,
            result: own_text(g.result),
            time_control: own_text(g.time_control),
            eco: own_text(g.eco),
            ply_count: Some(g.ply_count),
            fen: own_text(g.fen),
            moves2: own_bytes(g.moves2),
        };
        self.games.push(row);
        assert(self.games@.drop_last() =~= old(self).games@);
        Ok(id)
    }

    /// Adds an opening row under the next identifier. Its counters must not
    /// be negative and its move code must be two bytes long.
    pub fn insert_opening(&mut self, o: NewOpening) -> (r: Result<i32, ConstraintError>)
        requires
            old(self).wf(),
        ensures
            final(self).wf(),
            old(self).same_but(final(self), Table::Openings),
            o.white < 0 || o.draw < 0 || o.black < 0 <==> r == Err::<i32, ConstraintError>(
                ConstraintError::NegativeCount,
            ),
            o.white >= 0 && o.draw >= 0 && o.black >= 0 ==> (o.move_@.len() != 2 <==> r == Err::<
                i32,
                ConstraintError,
            >(ConstraintError::MoveLength)),
            o.white >= 0 && o.draw >= 0 && o.black >= 0 && o.move_@.len() == 2 ==> (
            old(self).openings().len() == MAX_ID <==> r == Err::<i32, ConstraintError>(
                ConstraintError::Full(Table::Openings),
            )),
            o.white >= 0 && o.draw >= 0 && o.black >= 0 && o.move_@.len() == 2
                && old(self).openings().len() < MAX_ID ==> r is Ok,
            r is Err ==> final(self).openings() == old(self).openings(),
            r is Ok ==> {
                &&& r->Ok_0 == old(self).openings().len() + 1
                &&& Self::grown(old(self).openings(), final(self).openings())
                &&& opening_row(final(self).openings().last(), r->Ok_0 as int, o)
            },
    {
        if o.white < 0 || o.draw < 0 || o.black < 0 {
            return Err(ConstraintError::NegativeCount);
        }
        if o.move_.len() != 2 {
            return Err(ConstraintError::MoveLength);
        }
        if self.openings.len() >= MAX_ID as usize {
            return Err(ConstraintError::Full(Table::Openings));
        }
        let id = (self.openings.len() + 1) as i32;
        self.openings.push(
            Opening {
                id,
                hash: o.hash,
                move_: own_bytes(o.move_),
                white: o.white,
                draw: o.draw,
                black: o.black,
            },
        );
        assert(self.openings@.drop_last() =~= old(self).openings@);
        Ok(id)
    }

    /// What `upsert_by_hash_and_move` leaves in the store, and what it returns.
    pub open spec fn upserted(
        &self,
        after: &Store,
        hash: i32,
        mv: Seq<u8>,
        outcome: Outcome,
        r: Result<i32, ConstraintError>,
    ) -> bool {
        &&& self.same_but(after, Table::Openings)
        &&& mv.len() != 2 <==> r == Err::<i32, ConstraintError>(ConstraintError::MoveLength)
        &&& r is Err ==> after.openings() == self.openings()
        &&& mv.len() == 2 && no_match(self.openings(), hash, mv) ==> {
            &&& self.openings().len() == MAX_ID <==> r == Err::<i32, ConstraintError>(
                ConstraintError::Full(Table::Openings),
            )
            &&& self.openings().len() < MAX_ID ==> r is Ok
            &&& r is Ok ==> {
                &&& r->Ok_0 == self.openings().len() + 1
                &&& Self::grown(self.openings(), after.openings())
                &&& after.openings().last().id == r->Ok_0
                &&& opening_matches(after.openings().last(), hash, mv)
                &&& counter(after.openings().last(), outcome) == 1
                &&& forall|x: Outcome| x != outcome ==> counter(after.openings().last(), x) == 0
            }
        }
        &&& forall|i: int|
            mv.len() == 2 && first_match(self.openings(), i, hash, mv) ==> {
                &&& counter(self.openings()[i], outcome) == MAX_ID <==> r == Err::<i32, ConstraintError>(
                    ConstraintError::CounterOverflow,
                )
                &&& counter(self.openings()[i], outcome) < MAX_ID ==> r is Ok
                &&& r is Ok ==> {
                    &&& r->Ok_0 == i + 1
                    &&& after.openings().len() == self.openings().len()
                    &&& forall|j: int|
                        0 <= j < self.openings().len() && j != i
                            ==> #[trigger] after.openings()[j] == self.openings()[j]
                    &&& bumped(self.openings()[i], after.openings()[i], outcome)
                }
            }
    }

    /// Counts one more game with `outcome` for the move `move_code` from the
    /// position `hash`: the first row for that pair gets one more in that
    /// counter; where there is none, a new row starts that counter at one and
    /// the others at zero. Returns the identifier of the row.
    pub fn upsert_by_hash_and_move(&mut self, hash: i32, move_code: &[u8], outcome: Outcome) -> (r:
        Result<i32, ConstraintError>)
        requires
            old(self).wf(),
        ensures
            final(self).wf(),
            old(self).upserted(final(self), hash, move_code@, outcome, r),
    {
        if move_code.len() != 2 {
            return Err(ConstraintError::MoveLength);
        }
        let mut i: usize = 0;
        let mut found = false;
        while !found && i < self.openings.len()
            invariant
                i <= self.openings@.len(),
                self.openings@ == old(self).openings@,
                found ==> i < self.openings@.len() && opening_matches(
                    self.openings@[i as int],
                    hash,
                    move_code@,
                ),
                no_match(self.openings@.subrange(0, i as int), hash, move_code@),
            decreases self.openings@.len() - i + (if found { 0int } else { 1int }),
        {
            if self.openings[i].hash == hash && same_bytes(self.openings[i].move_.as_slice(), move_code) {
                found = true;
            } else {
                assert(no_match(self.openings@.subrange(0, i + 1), hash, move_code@)) by {
                    assert forall|j: int| 0 <= j < i + 1 implies !opening_matches(
                        #[trigger] self.openings@.subrange(0, i + 1)[j],
                        hash,
                        move_code@,
                    ) by {
                        if j < i {
                            assert(self.openings@.subrange(0, i + 1)[j] == self.openings@.subrange(
                                0,
                                i as int,
                            )[j]);
                        }
                    };
                };
                i = i + 1;
            }
        }
        if !found {
            assert(self.openings@.subrange(0, i as int) =~= self.openings@);
            if self.openings.len() >= MAX_ID as usize {
                return Err(ConstraintError::Full(Table::Openings));
            }
            let id = (self.openings.len() + 1) as i32;
            let white: i32 = if outcome == Outcome::White { 1 } else { 0 };
            let draw: i32 = if outcome == Outcome::Draw { 1 } else { 0 };
            let black: i32 = if outcome == Outcome::Black { 1 } else { 0 };
            self.openings.push(Opening { id, hash, move_: own_bytes(move_code), white, draw, black });
            assert(self.openings@.drop_last() =~= old(self).openings@);
            return Ok(id);
        }
        assert(first_match(self.openings@, i as int, hash, move_code@)) by {
            assert forall|j: int| 0 <= j < i implies !opening_matches(
                #[trigger] self.openings@[j],
                hash,
                move_code@,
            ) by {
                assert(self.openings@[j] == self.openings@.subrange(0, i as int)[j]);
            };
        };
        proof {
            lemma_first_match_unique(self.openings@, i as int, hash, move_code@);
        }
        let ghost before = self.openings@;
        match outcome {
            Outcome::White => {
                if self.openings[i].white == MAX_ID {
                    return Err(ConstraintError::CounterOverflow);
                }
                self.openings[i].white = self.openings[i].white + 1;
            },
            Outcome::Draw => {
                if self.openings[i].draw == MAX_ID {
                    return Err(ConstraintError::CounterOverflow);
                }
                self.openings[i].draw = self.openings[i].draw + 1;
            },
            Outcome::Black => {
                if self.openings[i].black == MAX_ID {
                    return Err(ConstraintError::CounterOverflow);
                }
                self.openings[i].black = self.openings[i].black + 1;
            },
        }
        assert(self.openings@ =~= before.update(i as int, self.openings@[i as int]));
        assert(opening_valid(self.openings@[i as int]));
        assert forall|j: int| 0 <= j < self.openings@.len() implies #[trigger] self.openings@[j].id == j
            + 1 by {
            assert(before[j] == old(self).openings()[j]);
        };
        Ok((i + 1) as i32)
    }
}

/// Counting the same move from the same position twice as a white win, on a
/// store with no opening rows, leaves one row whose counters read two white
/// wins, no draws and no black wins; both calls return its identifier, 1.
pub proof fn lemma_upsert_twice(
    s0: Store,
    s1: Store,
    s2: Store,
    hash: i32,
    mv: Seq<u8>,
    r1: Result<i32, ConstraintError>,
    r2: Result<i32, ConstraintError>,
)
    requires
        s0.wf(),
        s0.openings().len() == 0,
        mv.len() == 2,
        s0.upserted(&s1, hash, mv, Outcome::White, r1),
        s1.upserted(&s2, hash, mv, Outcome::White, r2),
    ensures
        r1 == Ok::<i32, ConstraintError>(1),
        r2 == Ok::<i32, ConstraintError>(1),
        s2.openings().len() == 1,
        s2.openings()[0].hash == hash,
        s2.openings()[0].move_@ == mv,
        s2.openings()[0].white == 2,
        s2.openings()[0].draw == 0,
        s2.openings()[0].black == 0,
{
    assert(no_match(s0.openings(), hash, mv));
    assert(r1 is Ok);
    let row = s1.openings()[0];
    assert(s1.openings().last() == row);
    assert(counter(row, Outcome::Draw) == 0);
    assert(counter(row, Outcome::Black) == 0);
    assert(first_match(s1.openings(), 0, hash, mv));
    assert(r2 is Ok);
    let row2 = s2.openings()[0];
    assert(bumped(row, row2, Outcome::White));
    assert(counter(row2, Outcome::Draw) == counter(row, Outcome::Draw));
    assert(counter(row2, Outcome::Black) == counter(row, Outcome::Black));
}

/// At most one row is the first for a position and a move, and where one is,
/// some row matches.
proof fn lemma_first_match_unique(rows: Seq<Opening>, i: int, hash: i32, mv: Seq<u8>)
    requires
        first_match(rows, i, hash, mv),
    ensures
        forall|k: int| first_match(rows, k, hash, mv) ==> k == i,
        !no_match(rows, hash, mv),
{
    assert forall|k: int| first_match(rows, k, hash, mv) implies k == i by {
        if k < i {
            assert(!opening_matches(rows[k], hash, mv));
        } else if k > i {
            assert(!opening_matches(rows[i], hash, mv));
        }
    };
}

/// Whether two byte strings are equal.
fn same_bytes(a: &[u8], b: &[u8]) -> (r: bool)
    ensures
        r == (a@ == b@),
{
    if a.len() != b.len() {
        return false;
    }
    let mut i: usize = 0;
    while i < a.len()
        invariant
            a@.len() == b@.len(),
            i <= a@.len(),
            a@.subrange(0, i as int) == b@.subrange(0, i as int),
        decreases a@.len() - i,
    {
        if a[i] != b[i] {
            assert(a@[i as int] != b@[i as int]);
            return false;
        }
        assert(a@.subrange(0, i + 1) =~= a@.subrange(0, i as int).push(a@[i as int]));
        assert(b@.subrange(0, i + 1) =~= b@.subrange(0, i as int).push(b@[i as int]));
        i = i + 1;
    }
    assert(a@.subrange(0, i as int) =~= a@);
    assert(b@.subrange(0, i as int) =~= b@);
    true
}

} // verus!
