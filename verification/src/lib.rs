//! Decision core of a freestanding runtime: address-space reservation, a
//! segmented heap, futex-backed locks and the thread control block.
//!
//! Nothing here touches the operating system. Every component is written as
//! state plus transitions; the host performs the system calls that a
//! transition asks for and hands the raw return value back. What threads
//! share (a lock word, the address cursor, the memo of the domain count)
//! comes in two forms: shared, built on an atomic, of which every outcome is
//! accepted; and private, of which every outcome is known.

use vstd::prelude::*;

pub mod flag;
pub mod memory;
pub mod sync;
pub mod sys;
pub mod thread;
pub mod write;

