//! Conversion of low-level kernel status codes into the uniform error model.
//!
//! The kernel entry points report an NTSTATUS-style signed status, where zero
//! is success; the host error code that callers see is obtained by a separate
//! conversion call performed by the shell. The thread suspend/resume calls
//! instead return a previous-suspend-count value whose all-ones pattern marks
//! failure.

use vstd::prelude::*;
use crate::error::Error;

verus! {

/// A kernel status denotes success exactly when it is zero.
pub open spec fn nt_success(status: i32) -> bool {
    status == 0
}

/// Folds a kernel status, together with the host error code it converts to,
/// into this layer's result: success for a zero status, and otherwise the
/// converted code, surfaced as an OS error.
pub fn nt_status_result(status: i32, host_code: u32) -> (r: Result<(), Error>)
    ensures
        r.is_ok() <==> nt_success(status),
        !nt_success(status) ==> r == Err::<(), Error>(Error::Os(host_code as i64)),
{
    if status == 0 {
        Ok(())
    } else {
        Err(Error::Os(host_code as i64))
    }
}

/// The thread suspend/resume counters report failure through an all-ones
/// previous-count value (the unsigned image of -1).
pub open spec fn suspend_count_failed(previous_count: u32) -> bool {
    previous_count == 0xFFFF_FFFFu32
}

/// Decides whether a thread suspend or resume call succeeded from the
/// previous-suspend-count value it returned.
pub fn suspend_call_succeeded(previous_count: u32) -> (r: bool)
    ensures
        r == !suspend_count_failed(previous_count),
{
    previous_count != 0xFFFF_FFFF
}

} // verus!
