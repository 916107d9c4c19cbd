//! Decoding of raw system-call return values.

use vstd::prelude::*;
use syscalls::Errno;

verus! {

/// Largest error number the kernel reports through a return value.
pub const MAX_ERRNO: usize = 4095;

/// Failure reported by the kernel, carrying the positive error number.
#[derive(Clone, Copy, Debug, PartialEq, Eq, Structural)]
pub struct SysError {
    pub code: i32,
}

/// Whether a raw return value lies in the window the kernel reserves for
/// error numbers: the topmost `MAX_ERRNO` values of the address range.
pub open spec fn is_error_return(raw: usize) -> bool {
    raw > usize::MAX - MAX_ERRNO
}

/// The error number encoded by a raw return value in the error window.
pub open spec fn error_code(raw: usize) -> int {
    usize::MAX - raw + 1
}

/// What a raw return value means: the error number, or the value itself.
pub open spec fn decoded_raw(raw: usize) -> Result<usize, i32> {
    if is_error_return(raw) {
        Err(error_code(raw) as i32)
    } else {
        Ok(raw)
    }
}

/// What a raw return value means, with the error number wrapped.
pub open spec fn decoded(raw: usize) -> Result<usize, SysError> {
    match decoded_raw(raw) {
        Ok(value) => Ok(value),
        Err(code) => Err(SysError { code }),
    }
}

/// Calls `syscalls::Errno::from_ret` and unpacks the error with
/// `Errno::into_raw`. Trusted: a value among the topmost 4095 of the range is
/// an error whose number is its two's-complement negation; every other value
/// is a success and is handed through.
#[verifier::external_body]
fn errno_from_ret(raw: usize) -> (r: Result<usize, i32>)
    ensures
        r == decoded_raw(raw),
{
    match Errno::from_ret(raw) {
        Ok(value) => Ok(value),
        Err(errno) => Err(errno.into_raw()),
    }
}

/// Decodes the raw return value of a system call.
pub fn decode(raw: usize) -> (r: Result<usize, SysError>)
    ensures
        r == decoded(raw),
        r is Err <==> is_error_return(raw),
        r matches Err(e) ==> 1 <= e.code <= MAX_ERRNO,
{
    match errno_from_ret(raw) {
        Ok(value) => Ok(value),
        Err(code) => Err(SysError { code }),
    }
}

} // verus!
