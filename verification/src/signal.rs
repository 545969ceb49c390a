//! The activity signal: the cell that carries "a trigger occurred" from
//! the input listener to the render loop. This is the aggregated-boolean
//! shape: events within one frame coalesce, since only recency matters.
//! The host wraps one `ActivitySignal` in its mutual-exclusion lock and
//! hands it to both the listener callbacks and the render loop.

use vstd::prelude::*;

verus! {

/// "Has a trigger fired since the render loop last checked?"
pub struct ActivitySignal {
    fired: bool,
}

impl View for ActivitySignal {
    type V = bool;

    closed spec fn view(&self) -> bool {
        self.fired
    }
}

/// The signal after one listener write: set, whatever it held before.
pub open spec fn spec_record(sig: bool) -> bool {
    true
}

/// The signal after `n` listener writes in one frame interval.
pub open spec fn signal_after_records(sig: bool, n: nat) -> bool
    decreases n,
{
    if n == 0 {
        sig
    } else {
        spec_record(signal_after_records(sig, (n - 1) as nat))
    }
}

impl ActivitySignal {
    /// A fresh signal, holding no activity.
    pub fn new() -> (r: ActivitySignal)
        ensures
            r@ == false,
    {
        ActivitySignal { fired: false }
    }

    /// One listener write: mark that a trigger occurred. Constant-time,
    /// so a callback holding the lock never stalls the input pipeline.
    pub fn record(&mut self)
        ensures
            final(self)@ == spec_record(old(self)@),
    {
        self.fired = true;
    }

    /// Drain the signal: report whether activity occurred since the last
    /// drain, and reset. Each write is seen by exactly one drain.
    pub fn take(&mut self) -> (r: bool)
        ensures
            r == old(self)@,
            final(self)@ == false,
    {
        let r = self.fired;
        self.fired = false;
        r
    }
}

/// Coalescing: any positive number of trigger events within one frame
/// interval leaves the signal set exactly as one event does, so the one
/// drain that observes them advances the clock exactly once.
pub proof fn lemma_signal_coalesces(sig: bool, n: nat)
    requires
        n >= 1,
    ensures
        signal_after_records(sig, n) == true,
        signal_after_records(sig, n) == signal_after_records(sig, 1),
    decreases n,
{
    if n > 1 {
        lemma_signal_coalesces(sig, (n - 1) as nat);
    }
}

} // verus!
