//! The uniform error model that every failing operation surfaces.

use vstd::prelude::*;

verus! {

/// A failure reported by the introspection layer.
///
/// - `Os(code)` carries the host platform's error code, either taken from the
///   last OS error after a failed call or converted from a kernel status.
/// - `OsUnknown` is an OS-level failure for which the platform reported no
///   numeric code.
/// - `Unsupported` marks an operation that this layer permanently does not
///   implement; it is not a transient condition.
#[derive(Clone, Copy, Debug, PartialEq, Eq, Structural)]
pub enum Error {
    Os(i64),
    OsUnknown,
    Unsupported,
}

impl Error {
    /// True exactly for the errors that an operating-system call produced.
    pub fn is_os_failure(&self) -> (r: bool)
        ensures
            r == !(self is Unsupported),
    {
        match self {
            Error::Os(_) => true,
            Error::OsUnknown => true,
            Error::Unsupported => false,
        }
    }
}

/// Surfaces a raw OS error code in the uniform model: exactly the platform's
/// code when one was reported, and the codeless OS failure otherwise.
pub fn error_from_code(code: Option<i32>) -> (r: Error)
    ensures
        code matches Some(c) ==> r == Error::Os(c as i64),
        code is None ==> r == Error::OsUnknown,
{
    match code {
        Some(c) => Error::Os(c as i64),
        None => Error::OsUnknown,
    }
}

} // verus!
