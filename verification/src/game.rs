//! The match context: who the two participants are.

use vstd::prelude::*;

verus! {

/// The two participants of a match, by their agent addresses. The engine
/// treats this as externally supplied, read-only context: it only ever
/// compares a move's author against these two addresses.
#[derive(Clone, Debug, PartialEq, Eq)]
pub struct Game {
    pub player_1: String,
    pub player_2: String,
}

} // verus!
