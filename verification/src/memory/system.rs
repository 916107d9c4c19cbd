//! Blocks mapped one by one, each behind a header word that records its
//! size.

use vstd::prelude::*;
use crate::flag::{MAP_PRIVATE_ANON, PROT_READ_WRITE};
use crate::memory::map::{MapRequest, UnmapRequest, NO_FILE};
use crate::sys::{decode, decoded, SysError};

verus! {

/// Bytes mapped in front of each block for its header.
pub const PADDING: u64 = 8;

/// Distance from the start of a mapping to the pointer that is handed out.
pub const USER_OFFSET: u64 = 1;

/// A mapped block: where its mapping starts, the size that its header
/// records, and the pointer that is handed out.
#[derive(Clone, Copy, Debug, PartialEq, Eq, Structural)]
pub struct SystemBlock {
    pub base: u64,
    pub recorded_size: u64,
    pub user: u64,
}

/// The request that maps a block of `size` bytes behind its header, or
/// `None` if block and header together exceed the address range.
pub fn system_malloc(size: u64) -> (request: Option<MapRequest>)
    ensures
        request == if size + PADDING <= u64::MAX {
            Some(
                MapRequest {
                    addr: 0,
                    len: (size + PADDING) as u64,
                    prot: PROT_READ_WRITE,
                    flags: MAP_PRIVATE_ANON,
                    fd: NO_FILE,
                    offset: 0,
                },
            )
        } else {
            None::<MapRequest>
        },
{
    if size > u64::MAX - PADDING {
        return None;
    }
    Some(
        MapRequest {
            addr: 0,
            len: size + PADDING,
            prot: PROT_READ_WRITE,
            flags: MAP_PRIVATE_ANON,
            fd: NO_FILE,
            offset: 0,
        },
    )
}

/// What the raw return value of the mapping request means for a block of
/// `size` bytes: the error of the system, or the block.
pub open spec fn mapped_block(raw: usize, size: u64) -> Result<SystemBlock, SysError> {
    match decoded(raw) {
        Ok(base) => Ok(
            SystemBlock {
                base: base as u64,
                recorded_size: size,
                user: (base + USER_OFFSET) as u64,
            },
        ),
        Err(error) => Err(error),
    }
}

/// Takes the raw return value of the mapping request for a block of `size`
/// bytes. On success the caller stores `recorded_size` at `base` and hands
/// out `user`.
pub fn system_malloc_result(raw: usize, size: u64) -> (block: Result<SystemBlock, SysError>)
    ensures
        block == mapped_block(raw, size),
{
    match decode(raw) {
        Ok(base) => {
            let start: u64 = base as u64;
            Ok(SystemBlock { base: start, recorded_size: size, user: start + USER_OFFSET })
        },
        Err(error) => Err(error),
    }
}

/// The address of the header of the block that was handed out as `user`, or
/// `None` if `user` cannot be such a pointer.
pub fn system_header(user: u64) -> (base: Option<u64>)
    ensures
        base == if user >= USER_OFFSET {
            Some((user - USER_OFFSET) as u64)
        } else {
            None::<u64>
        },
{
    if user >= USER_OFFSET {
        Some(user - USER_OFFSET)
    } else {
        None
    }
}

/// The request that unmaps a block, given the address of its header and the
/// size that the header records.
pub fn system_dealloc(base: u64, recorded_size: u64) -> (request: UnmapRequest)
    ensures
        request == (UnmapRequest { addr: base, len: recorded_size }),
{
    UnmapRequest { addr: base, len: recorded_size }
}

/// The header of a block is found again from the pointer that was handed
/// out, and it records the size that was asked for.
pub proof fn lemma_header_round_trip(raw: usize, size: u64)
    ensures
        mapped_block(raw, size) matches Ok(block) ==> {
            &&& block.user >= USER_OFFSET
            &&& (block.user - USER_OFFSET) as u64 == block.base
            &&& block.recorded_size == size
        },
{
}

} // verus!
