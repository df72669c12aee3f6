//! Waiting for the compositor.

use crate::error::Error;
use crate::error::ErrorView;
use vstd::prelude::*;

verus! {

/// What has happened while waiting.
pub enum WaitEvent {
    /// The pending events have been dispatched; `done` tells whether what is waited for has
    /// come, and `elapsed` how many nanoseconds the wait has lasted.
    Dispatched { done: bool, elapsed: u128 },
    /// Dispatching the events or flushing the requests failed.
    Failed(String),
    /// Other events have to be dispatched before the socket can be read.
    NotReady,
    /// The socket has been polled. `ready` is how many descriptors are ready; it is negative
    /// if polling failed, by a signal or as `failure` says.
    Polled { ready: i32, interrupted: bool, failure: String },
    /// The socket has been read.
    Read,
    /// Reading the socket failed, because it held nothing or as `failure` says.
    ReadFailed { would_block: bool, failure: String },
}

/// What to do next.
pub enum WaitStep {
    /// Dispatch the pending events.
    Dispatch,
    /// Flush the requests, then poll the socket for this many milliseconds.
    Poll(i32),
    /// Read the socket.
    Read,
    /// The wait is over.
    Finish(Result<(), Error>),
}

/// The nanoseconds in a millisecond.
pub const NANOS_PER_MILLI: u128 = 1_000_000;

/// How many milliseconds to poll for when so many nanoseconds of the wait are left: all the
/// full ones, as far as a poll can be told to last.
pub open spec fn poll_millis(left: int) -> i32 {
    if left / 1_000_000 > i32::MAX {
        i32::MAX
    } else {
        (left / 1_000_000) as i32
    }
}

/// Decides how a wait for something goes on: until it has come, or until `timeout`
/// milliseconds have passed. A poll in which nothing came only leads back to the clock, so the
/// wait never times out early.
pub fn dispatch_until(timeout: u64, event: WaitEvent) -> (r: WaitStep)
    ensures
        match event {
            WaitEvent::Dispatched { done, elapsed } => {
                if done {
                    r == WaitStep::Finish(Ok(()))
                } else if elapsed > timeout * 1_000_000 {
                    r matches WaitStep::Finish(Err(e)) && e@ == ErrorView::Timeout(timeout)
                } else {
                    r == WaitStep::Poll(poll_millis(timeout * 1_000_000 - elapsed))
                }
            },
            WaitEvent::Failed(m) => r matches WaitStep::Finish(Err(e)) && e@ == ErrorView::Wayland(
                m@,
            ),
            WaitEvent::NotReady => r == WaitStep::Dispatch,
            WaitEvent::Polled { ready, interrupted, failure } => {
                if ready > 0 {
                    r == WaitStep::Read
                } else if ready == 0 || interrupted {
                    r == WaitStep::Dispatch
                } else {
                    r matches WaitStep::Finish(Err(e)) && e@ == ErrorView::Wayland(failure@)
                }
            },
            WaitEvent::Read => r == WaitStep::Dispatch,
            WaitEvent::ReadFailed { would_block, failure } => {
                if would_block {
                    r == WaitStep::Dispatch
                } else {
                    r matches WaitStep::Finish(Err(e)) && e@ == ErrorView::Wayland(failure@)
                }
            },
        },
        // Only a wait whose whole time has passed times out.
        (r matches WaitStep::Finish(Err(e)) && e@ is Timeout) ==> (event matches
            WaitEvent::Dispatched { elapsed, .. } && elapsed > timeout * 1_000_000),
        // Polling never outlasts the wait.
        (event is Dispatched && r is Poll) ==> 0 <= r->Poll_0 && event->elapsed + r->Poll_0
            * 1_000_000 <= timeout * 1_000_000,
        // The wait ends well exactly when what is waited for has come.
        r matches WaitStep::Finish(Ok(_)) <==> (event matches WaitEvent::Dispatched { done, .. }
            && done),
        // Only a socket that is ready is read.
        r is Read <==> (event matches WaitEvent::Polled { ready, .. } && ready > 0),
        // The socket is polled exactly while there is time left to wait.
        r is Poll <==> (event matches WaitEvent::Dispatched { done, elapsed } && !done && elapsed
            <= timeout * 1_000_000),
        // A signal, an empty poll and an empty read end no wait.
        r is Dispatch <==> match event {
            WaitEvent::Dispatched { .. } => false,
            WaitEvent::Failed(_) => false,
            WaitEvent::NotReady => true,
            WaitEvent::Polled { ready, interrupted, .. } => ready == 0 || (ready < 0
                && interrupted),
            WaitEvent::Read => true,
            WaitEvent::ReadFailed { would_block, .. } => would_block,
        },
{
    match event {
        WaitEvent::Dispatched { done, elapsed } => {
            if done {
                return WaitStep::Finish(Ok(()));
            }
            let limit = timeout as u128 * NANOS_PER_MILLI;
            if elapsed > limit {
                WaitStep::Finish(Err(Error::Timeout(timeout)))
            } else {
                let millis = (limit - elapsed) / NANOS_PER_MILLI;
                if millis > i32::MAX as u128 {
                    WaitStep::Poll(i32::MAX)
                } else {
                    WaitStep::Poll(millis as i32)
                }
            }
        },
        WaitEvent::Failed(m) => WaitStep::Finish(Err(Error::Wayland(m))),
        WaitEvent::NotReady => WaitStep::Dispatch,
        WaitEvent::Polled { ready, interrupted, failure } => {
            if ready > 0 {
                WaitStep::Read
            } else if ready == 0 || interrupted {
                WaitStep::Dispatch
            } else {
                WaitStep::Finish(Err(Error::Wayland(failure)))
            }
        },
        WaitEvent::Read => WaitStep::Dispatch,
        WaitEvent::ReadFailed { would_block, failure } => {
            if would_block {
                WaitStep::Dispatch
            } else {
                WaitStep::Finish(Err(Error::Wayland(failure)))
            }
        },
    }
}

/// A poll lasts for all the full milliseconds that are left, as far as it can be told to, and
/// never longer.
pub proof fn law_poll_lasts_as_long_as_is_left(left: int)
    requires
        left >= 0,
    ensures
        0 <= poll_millis(left),
        poll_millis(left) * 1_000_000 <= left,
        left < (poll_millis(left) + 1) * 1_000_000 || poll_millis(left) == i32::MAX,
{
}

} // verus!
