//! Process-wide session state: the clock origin, the brew timer, and the two
//! terminal outcome flags.
//!
//! Times are plain seconds on the host's monotonic clock: the host samples
//! the clock once at game start (`start_time`) and passes the current sample
//! to the interpreter each turn; the interpreter only ever works with the
//! elapsed difference.

use vstd::prelude::*;

verus! {

/// Session state threaded through every dispatch and update call.
#[derive(Debug)]
pub struct GameState {
    /// Set once the win condition has been observed; never cleared.
    pub player_won: bool,
    /// Set once the session has run out of time; never cleared.
    pub player_lost: bool,
    /// The clock sample taken at game start, in seconds.
    pub start_time: u64,
    /// The clock sample taken when the brew began, if it has.
    pub tea_time: Option<u64>,
}

} // verus!
