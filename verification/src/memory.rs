//! Address-space layout, reservation hints, NUMA discovery and the heap.

use vstd::prelude::*;

pub mod bytes;
pub mod class;
pub mod heap;
pub mod hint;
pub mod map;
pub mod numa;
pub mod page;
pub mod segment;
pub mod system;

verus! {

/// Mask that rounds an address down to the start of its segment.
pub const SEGMENT_MASK: u64 = 0xffff_ffff_ffc0_0000;

pub const SEGMENT_SHIFT: u64 = 22;

pub const SEGMENT_SIZE: u64 = 4194304;

pub const SMALL_PAGE_SHIFT: u64 = 16;

pub const SMALL_PAGE_SIZE: u64 = 65536;

pub const MID_PAGE_SHIFT: u64 = 19;

pub const MID_PAGE_SIZE: u64 = 524288;

pub const HUGE_PAGE_SHIFT: u64 = 22;

pub const HUGE_PAGE_SIZE: u64 = 4194304;

} // verus!
