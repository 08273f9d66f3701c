//! Verified core of an isometric store-building game: the chunk grid of the
//! store, the rules for buying new chunks, the boundary walls derived from the
//! owned area, domain commands, save/load planning, catalog checks, input
//! bindings, highlight planning and NPC task rules.
use vstd::prelude::*;

pub mod chunks;
pub mod reach;
pub mod connect;
pub mod area;
pub mod expansion;
pub mod overlay;
pub mod boundary;
pub mod objects;
pub mod placement;
pub mod commands;
pub mod save;
pub mod highlight;
pub mod npc;
pub mod catalog;
pub mod input;

verus! {

} // verus!
