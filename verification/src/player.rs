//! A roster entry: the player's display name and cumulative score.

use vstd::prelude::*;

verus! {

/// One participating player. The curve with the same index in the curve
/// array is this player's entity; the two arrays always stay aligned.
#[derive(Debug)]
pub struct Player {
    pub score: u8,
    pub name: String,
}

impl Player {
    /// A new player with a zero score.
    pub fn new(name: String) -> (p: Player)
        ensures
            p.score == 0,
            p.name@ == name@,
    {
        Player { score: 0, name }
    }
}

} // verus!
