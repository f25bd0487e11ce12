//! One-shot notifications read and cleared by the frame loop.
use vstd::prelude::*;

verus! {

/// A flag that signals a change once: raised by a writer, cleared by the
/// reader that observes it.
#[derive(Clone, Copy, Debug, PartialEq, Eq, Structural)]
pub struct EdgeFlag {
    pub raised: bool,
}

impl EdgeFlag {
    pub fn new(raised: bool) -> (r: Self)
        ensures
            r.raised == raised,
    {
        EdgeFlag { raised }
    }

    /// Signals a change.
    pub fn raise(&mut self)
        ensures
            final(self).raised,
    {
        self.raised = true;
    }

    /// Reads and clears the flag: `true` exactly when a change was signalled
    /// since the last read.
    pub fn take(&mut self) -> (was_raised: bool)
        ensures
            was_raised == old(self).raised,
            !final(self).raised,
    {
        let r = self.raised;
        self.raised = false;
        r
    }
}

} // verus!
