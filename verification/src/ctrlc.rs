//! Cancellation-request arbitration.
//!
//! An out-of-band cancellation (the user interrupting the process) is
//! level-triggered: a flag is raised asynchronously and must be observed
//! promptly, but only at frame boundaries, never mid-layout.  This module
//! holds the frame-loop side of that protocol: a single-owner flag with
//! raise and take-and-reset semantics.  The binary's signal handler raises
//! its process-wide flag and mirrors it into this one once per frame.

use vstd::prelude::*;

verus! {

/// A pending cancellation request, owned by the frame loop.
pub struct CancelFlag {
    pub raised: bool,
}

impl Default for CancelFlag {
    /// No cancellation requested yet.
    fn default() -> (r: CancelFlag)
        ensures
            !r.raised,
    {
        CancelFlag { raised: false }
    }
}

/// Record that a cancellation was requested since the last poll.
pub fn arm(flag: &mut CancelFlag)
    ensures
        final(flag).raised,
{
    flag.raised = true;
}

/// Was a cancellation requested since the last poll?  Observing the request
/// consumes it: the flag is clear afterwards.
pub fn poll(flag: &mut CancelFlag) -> (r: bool)
    ensures
        r == old(flag).raised,
        !final(flag).raised,
{
    let r = flag.raised;
    flag.raised = false;
    r
}

} // verus!
