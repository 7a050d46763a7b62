//! The time that the two sides have agreed on.

use vstd::prelude::*;

verus! {

/// A time control: seconds for the game and seconds added per move, or days
/// per move for a game by correspondence.
#[derive(Clone, Copy, Debug, PartialEq, Eq, Hash, Structural)]
pub struct ClockSettings {
    pub limit: i32,
    pub increment: i32,
    pub is_correspondence: bool,
    pub days: i32,
}

} // verus!
