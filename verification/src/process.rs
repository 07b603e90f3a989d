//! An open process: the handle it owns, its memory-read capability, and the
//! decisions behind its metadata queries.

use vstd::prelude::*;
use read_process_memory::CopyAddress;
use crate::Pid;
use crate::error::Error;
use crate::wide::utf16_lossy;

verus! {

/// Relies on read_process_memory's `ProcessHandle` type: an owned reference
/// to a process's kernel object, cheaply clonable, the object being released
/// when the last owner is dropped.
#[verifier::external_type_specification]
#[verifier::external_body]
pub struct ExProcessHandle(read_process_memory::ProcessHandle);

/// Relies on read_process_memory's conversion from a pid: it yields the
/// platform's handle for that process — on hosts where that means opening a
/// kernel object, a refused open is reported as the OS failure's raw code
/// (`None` when the platform attached no code to it).
#[verifier::external_body]
fn open_process_handle(pid: Pid) -> Result<read_process_memory::ProcessHandle, Option<i32>> {
    match read_process_memory::ProcessHandle::try_from(pid) {
        Ok(handle) => Ok(handle),
        Err(e) => Err(e.raw_os_error()),
    }
}

/// Relies on `ProcessHandle`'s derived `Clone`: the clone refers to the same
/// kernel object, shared by reference count, not a duplicated object.
#[verifier::external_body]
fn clone_process_handle(
    handle: &read_process_memory::ProcessHandle,
) -> read_process_memory::ProcessHandle {
    handle.clone()
}

/// Relies on `CopyAddress::copy_address`: it fills the whole buffer from the
/// target's address space at the given address, or reports the OS failure
/// as its raw code (`None` when the platform attached no code to it); it
/// never changes the buffer's length.
#[verifier::external_body]
fn copy_process_memory(
    handle: &read_process_memory::ProcessHandle,
    addr: usize,
    buf: &mut Vec<u8>,
) -> (r: Result<(), Option<i32>>)
    ensures
        final(buf)@.len() == old(buf)@.len(),
{
    match handle.copy_address(addr, buf.as_mut_slice()) {
        Ok(()) => Ok(()),
        Err(e) => Err(e.raw_os_error()),
    }
}

/// Of the executable-path query: a successful query that filled at least
/// one unit of the path buffer never decodes to the empty string.
pub proof fn lemma_exe_path_nonempty(buf: Seq<u16>, filled: u32)
    requires
        0 < filled as int <= buf.len(),
    ensures
        utf16_lossy(buf.take(filled as int)).len() > 0,
{
    crate::wide::lemma_utf16_lossy_nonempty(buf.take(filled as int));
}

/// An open process: its pid, and the handle that feeds every operation.
pub struct Process {
    pub pid: Pid,
    pub handle: read_process_memory::ProcessHandle,
}

impl Process {
    /// Opens a handle to the process with the given pid. Whether the open
    /// succeeds is the platform's decision; a failure carries the OS error.
    pub fn new(pid: Pid) -> (r: Result<Process, Error>)
        ensures
            r matches Ok(p) ==> p.pid == pid,
            r matches Err(e) ==> (e is Os || e is OsUnknown),
    {
        match open_process_handle(pid) {
            Ok(handle) => Ok(Process { pid, handle }),
            Err(code) => Err(crate::error::error_from_code(code)),
        }
    }

    /// A shared reference to the same kernel object as this process's handle.
    pub fn handle(&self) -> read_process_memory::ProcessHandle {
        clone_process_handle(&self.handle)
    }

    /// Copies bytes from the target's address space into `buf`; the buffer's
    /// length is the number of bytes asked for and is never changed.
    pub fn read(&self, addr: usize, buf: &mut Vec<u8>) -> (r: Result<(), Error>)
        ensures
            final(buf)@.len() == old(buf)@.len(),
            r matches Err(e) ==> (e is Os || e is OsUnknown),
    {
        match copy_process_memory(&self.handle, addr, buf) {
            Ok(()) => Ok(()),
            Err(code) => Err(crate::error::error_from_code(code)),
        }
    }

    /// Current-working-directory retrieval is permanently unsupported: it
    /// would need parsing an internal process-environment structure that
    /// this layer does not implement. Every call fails, for every process.
    pub fn cwd(&self) -> (r: Result<String, Error>)
        ensures
            r == Err::<String, Error>(Error::Unsupported),
    {
        Err(Error::Unsupported)
    }

    /// Folds the executable-image query into its caller-visible result: a
    /// failed query surfaces exactly the raw OS error code it ended with; a
    /// successful one reports how many units of the fixed path buffer it
    /// filled, and exactly that run is decoded, never the whole buffer.
    pub fn exe_from_query(outcome: Result<u32, Option<i32>>, buf: &Vec<u16>) -> (r: Result<
        String,
        Error,
    >)
        requires
            outcome matches Ok(filled) ==> filled as int <= buf@.len(),
        ensures
            outcome matches Err(code) ==> r == Err::<String, Error>(
                match code {
                    Some(c) => Error::Os(c as i64),
                    None => Error::OsUnknown,
                },
            ),
            outcome matches Ok(filled) ==> (r matches Ok(s) && s@ == utf16_lossy(
                buf@.take(filled as int),
            )),
    {
        match outcome {
            Ok(filled) => Ok(crate::wide::decode_utf16_prefix_lossy(buf, filled as usize)),
            Err(code) => Err(crate::error::error_from_code(code)),
        }
    }

    /// Wraps the enumerated thread ids, in the order the kernel returned
    /// them, as Thread values: one per id, order kept. Real thread ids are
    /// positive, so every returned Thread reports a positive id.
    pub fn threads(&self, tids: &Vec<crate::Tid>) -> (r: Vec<crate::thread::Thread>)
        requires
            forall|k: int| 0 <= k < tids@.len() ==> tids@[k] > 0,
        ensures
            r@.len() == tids@.len(),
            forall|k: int| 0 <= k < tids@.len() ==> r@[k]@ == tids@[k],
            forall|k: int| 0 <= k < r@.len() ==> r@[k]@ > 0,
    {
        let mut out: Vec<crate::thread::Thread> = Vec::new();
        let mut i: usize = 0;
        while i < tids.len()
            invariant
                i <= tids@.len(),
                out@.len() == i,
                forall|k: int| 0 <= k < tids@.len() ==> tids@[k] > 0,
                forall|k: int| 0 <= k < i ==> out@[k]@ == tids@[k],
            decreases tids@.len() - i,
        {
            out.push(crate::thread::Thread::new(tids[i]));
            i = i + 1;
        }
        proof {
            assert forall|k: int| 0 <= k < out@.len() implies out@[k]@ > 0 by {
                assert(out@[k]@ == tids@[k]);
            }
        }
        out
    }

    /// Filters the completed system-wide enumeration down to this process's
    /// descendants: exactly the entries that are current in the accumulated
    /// pid-to-parent map and whose ancestor chain reaches this pid. The
    /// shell supplies the enumeration's `(pid, parent)` entries.
    pub fn child_processes(&self, entries: &Vec<(Pid, Pid)>) -> (r: Vec<(Pid, Pid)>)
        ensures
            r@ == entries@.filter(crate::children::child_pred(entries@, self.pid)),
    {
        crate::children::filter_child_pids(self.pid, entries)
    }
}

} // verus!
