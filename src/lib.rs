//! Chess game and opening records: a two-byte move code, an in-memory store of
//! players, sites, events, games and opening statistics, and the projection of
//! stored rows into self-contained display records.
use vstd::prelude::*;

pub mod codec;
pub mod models;
pub mod store;
pub mod normalize;

verus! {

} // verus!
