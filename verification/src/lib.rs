//! Verifiable randomness and game state storage for Orbs.
use vstd::prelude::*;

pub mod address;
pub mod admin;
pub mod api;
pub mod chunks;
pub mod encoding;
pub mod engine_config;
pub mod hashing;
pub mod join_data;
pub mod keys;
pub mod merkle;
pub mod player_config;
pub mod players;
pub mod revelation;
pub mod rounds;
pub mod shared;
pub mod state;
pub mod table;
pub mod text;

verus! {

} // verus!
