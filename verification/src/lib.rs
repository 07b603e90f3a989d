//! A remote-process introspection and control layer.
//!
//! Given the numeric identifier of another process, the layer opens a handle
//! to it, reads its memory, enumerates its threads, discovers parent/child
//! relationships among all processes on the system, and retrieves metadata
//! (executable path, command line) through variable-length kernel queries.
//!
//! The kernel calls themselves are performed by a thin unverified shell; this
//! crate holds every decision and every computation around them: status-code
//! conversion, the two-phase probe/fetch sizing protocol, lossy UTF-16
//! decoding of reported character runs, reconstruction of the child-process
//! graph from a flat system-wide enumeration, and the counting suspend/resume
//! model that the scoped locking guards rely on.

use vstd::prelude::*;

pub mod children;
pub mod cmdline;
pub mod error;
pub mod process;
pub mod status;
pub mod suspend;
pub mod thread;
pub mod wide;

verus! {

/// A process identifier, as the host kernel reports it.
pub type Pid = i32;

/// A thread identifier; thread ids are drawn from the same space as process ids.
pub type Tid = Pid;

} // verus!
