//! The counting suspend/resume model behind the scoped locking guards.
//!
//! The kernel keeps one suspend counter per target; a target is schedulable
//! exactly while its counter is zero. Each guard issues one suspend call when
//! it is constructed and one matching resume call when it is released, so the
//! nesting behaviour of guards is exactly the arithmetic of this counter.

use vstd::prelude::*;

verus! {

/// The kernel's suspend counter for one target process or thread.
#[derive(Clone, Copy, Debug, PartialEq, Eq, Structural)]
pub struct SuspendCount {
    pub count: u64,
}

impl SuspendCount {
    /// A target is scheduled only while nothing holds it suspended.
    pub open spec fn schedulable(self) -> bool {
        self.count == 0
    }

    /// The counter after one suspend call.
    pub open spec fn after_suspend(self) -> SuspendCount {
        SuspendCount { count: (self.count + 1) as u64 }
    }

    /// The counter after one resume call.
    pub open spec fn after_resume(self) -> SuspendCount {
        SuspendCount { count: (self.count - 1) as u64 }
    }

    /// The counter of a target that nothing has suspended.
    pub fn new() -> (r: SuspendCount)
        ensures
            r.schedulable(),
    {
        SuspendCount { count: 0 }
    }

    /// One suspend call: the counter rises by one and the target is no
    /// longer schedulable.
    pub fn suspend(self) -> (r: SuspendCount)
        requires
            self.count < u64::MAX,
        ensures
            r == self.after_suspend(),
            !r.schedulable(),
    {
        SuspendCount { count: self.count + 1 }
    }

    /// One resume call: the counter falls by one; the target runs again only
    /// once every suspend has been matched.
    pub fn resume(self) -> (r: SuspendCount)
        requires
            self.count > 0,
        ensures
            r == self.after_resume(),
            r.schedulable() <==> self.count == 1,
    {
        SuspendCount { count: self.count - 1 }
    }
}

/// Acquiring and then releasing one guard leaves the target's schedulability
/// state exactly as it was before the acquisition.
pub proof fn lemma_suspend_resume_round_trip(s: SuspendCount)
    requires
        s.count < u64::MAX,
    ensures
        s.after_suspend().after_resume() == s,
        s.after_suspend().after_resume().schedulable() <==> s.schedulable(),
{
}

/// Two nested guards on a schedulable target keep it suspended until both
/// have released: after the first matching resume it is still not
/// schedulable, and only the second resume makes it schedulable again.
pub proof fn lemma_nested_guards(s: SuspendCount)
    requires
        s.schedulable(),
    ensures
        !s.after_suspend().after_suspend().after_resume().schedulable(),
        s.after_suspend().after_suspend().after_resume().after_resume().schedulable(),
{
}

} // verus!
