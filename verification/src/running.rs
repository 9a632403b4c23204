//! When the parts of the server go on, and when they stop.
use crate::peers::TICK_INTERVAL;
use vstd::prelude::*;

verus! {

/// The time between two questions to a database that is not ready, in seconds.
pub const DATABASE_RETRY: u64 = 1;

/// What becomes of the peer manager.
#[derive(Clone, Copy, Debug, PartialEq, Eq, Structural)]
pub enum RunAction {
    /// Run a tick after so many seconds.
    TickAfter(u64),
    /// Run no more ticks.
    Stop,
}

/// After the start of the peer manager: the first tick follows at once, unless the start
/// failed.
pub fn after_start(failed: bool) -> (next: RunAction)
    ensures
        next == (if failed {
            RunAction::Stop
        } else {
            RunAction::TickAfter(0)
        }),
{
    if failed {
        RunAction::Stop
    } else {
        RunAction::TickAfter(0)
    }
}

/// After a tick: the next one follows after the interval, and a tick that failed is the last.
pub fn after_tick(failed: bool) -> (next: RunAction)
    ensures
        next == (if failed {
            RunAction::Stop
        } else {
            RunAction::TickAfter(TICK_INTERVAL)
        }),
        !failed ==> next == RunAction::TickAfter(300),
{
    if failed {
        RunAction::Stop
    } else {
        RunAction::TickAfter(TICK_INTERVAL)
    }
}

/// After a first question to the database: how many seconds to wait until the next one, or
/// `None` where the database is ready.
pub fn after_query(answered: bool) -> (wait: Option<u64>)
    ensures
        wait == (if answered {
            None
        } else {
            Some(DATABASE_RETRY)
        }),
        !answered ==> wait == Some(1u64),
{
    if answered {
        None
    } else {
        Some(DATABASE_RETRY)
    }
}

} // verus!
