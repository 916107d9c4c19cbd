//! The diagnostic writer: a file descriptor to which text is written as it
//! comes, without buffering.

use vstd::prelude::*;
use vstd::string::*;

verus! {

/// Descriptor of the standard output.
pub const STDOUT: u64 = 1;

/// Descriptor of the standard error output.
pub const STDERR: u64 = 2;

/// A writer to one file descriptor.
#[derive(Clone, Copy, Debug, PartialEq, Eq, Structural)]
pub struct Writer {
    pub fd: u64,
}

/// Arguments of one write system call, apart from the address of the bytes.
#[derive(Clone, Copy, Debug, PartialEq, Eq, Structural)]
pub struct WriteRequest {
    pub fd: u64,
    pub len: usize,
}

impl Writer {
    /// The writer to the standard output.
    pub fn stdout() -> (writer: Writer)
        ensures
            writer.fd == STDOUT,
    {
        Writer { fd: STDOUT }
    }

    /// The writer to the standard error output.
    pub fn stderr() -> (writer: Writer)
        ensures
            writer.fd == STDERR,
    {
        Writer { fd: STDERR }
    }

    /// The request that writes all bytes of `s` to the writer's descriptor.
    /// Whether the write succeeds is of no concern to the writer.
    pub fn _write_str(&self, s: &str) -> (request: WriteRequest)
        ensures
            request.fd == self.fd,
            request.len == s.spec_bytes().len() as usize,
    {
        WriteRequest { fd: self.fd, len: s.len() }
    }
}

} // verus!
