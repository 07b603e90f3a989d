//! Threads of a target process.
//!
//! Thread values are produced by enumerating a process's threads or by
//! adopting a numeric thread id directly; the shell performs the kernel
//! calls and this module holds the identity and the liveness decision.

use vstd::prelude::*;
use crate::Tid;

verus! {

/// One thread of a target process, identified by its numeric id. Threads
/// are only built from the ids of real threads, which are positive; the
/// type carries that as its invariant, so an id of zero can never be
/// reported.
#[derive(Clone, Copy, Debug, PartialEq, Eq, Structural, Hash)]
pub struct Thread {
    tid: Tid,
}

impl View for Thread {
    type V = Tid;

    /// The id this thread stands for.
    closed spec fn view(&self) -> Tid {
        self.tid
    }
}

impl Thread {
    #[verifier::type_invariant]
    spec fn positive_id(self) -> bool {
        self.tid > 0
    }

    /// Adopts a thread id whose kernel object the shell has already opened;
    /// the ids of real threads are positive, and only those are adopted.
    pub fn new(tid: Tid) -> (r: Thread)
        requires
            tid > 0,
        ensures
            r@ == tid,
    {
        Thread { tid }
    }

    /// The numeric identifier this thread was built from: always the id it
    /// was adopted with, and always positive.
    pub fn id(&self) -> (r: Result<Tid, crate::error::Error>)
        ensures
            r == Ok::<Tid, crate::error::Error>(self@),
            r matches Ok(t) ==> t > 0,
    {
        proof {
            use_type_invariant(self);
        }
        Ok(self.tid)
    }
}

/// The best-effort liveness heuristic: the last-system-call query failing
/// means the thread is not parked in a system call, so it is reported
/// active; the query succeeding reports it inactive.
pub fn active_from_syscall_query(query_succeeded: bool) -> (r: bool)
    ensures
        r == !query_succeeded,
{
    !query_succeeded
}

} // verus!
