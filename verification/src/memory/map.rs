//! Requests to map and unmap memory, and what to make of their outcome.

use vstd::prelude::*;
use crate::flag::{MAP_PRIVATE_ANON, PROT_READ_WRITE};
use crate::memory::hint::{address_hint, hint_step, Cursor};
use crate::memory::SEGMENT_SIZE;
use crate::sys::{decode, is_error_return};

verus! {

/// Arguments of one memory-mapping system call.
#[derive(Clone, Copy, Debug, PartialEq, Eq, Structural)]
pub struct MapRequest {
    /// Where the mapping should go; zero lets the system choose.
    pub addr: u64,
    pub len: u64,
    pub prot: u64,
    pub flags: u64,
    pub fd: i64,
    pub offset: u64,
}

/// Arguments of one unmapping system call.
#[derive(Clone, Copy, Debug, PartialEq, Eq, Structural)]
pub struct UnmapRequest {
    pub addr: u64,
    pub len: u64,
}

/// A mapping that is being attempted: the request to issue now and, if that
/// one carries a hint, the request to fall back to.
#[derive(Clone, Copy, Debug, PartialEq, Eq, Structural)]
pub struct MapAttempt {
    pub request: MapRequest,
    pub fallback: Option<MapRequest>,
}

/// What follows from the outcome of a mapping request.
#[derive(Clone, Copy, Debug, PartialEq, Eq, Structural)]
pub enum MapOutcome {
    /// The memory is mapped at this address, which is not zero.
    Mapped(u64),
    /// The hinted request did not succeed: issue the request of this attempt.
    Retry(MapAttempt),
    /// No memory could be mapped.
    Failed,
}

/// The address that a raw return value reports as mapped, if any.
pub open spec fn mapped_address(raw: usize) -> Option<u64> {
    if is_error_return(raw) || raw == 0 {
        None
    } else {
        Some(raw as u64)
    }
}

/// The attempt for a mapping of `size` bytes wanted at `addr`, given the hint
/// that the address cursor produced. The hint is tried first, but only if the
/// caller has no address of its own.
pub open spec fn attempt_with_hint(
    addr: u64,
    hint: u64,
    size: u64,
    prot_flags: u64,
    map_flags: u64,
    fd: i64,
) -> MapAttempt {
    let plain = MapRequest {
        addr,
        len: size,
        prot: prot_flags,
        flags: map_flags,
        fd,
        offset: 0,
    };
    if addr == 0 && hint != 0 {
        MapAttempt { request: MapRequest { addr: hint, ..plain }, fallback: Some(plain) }
    } else {
        MapAttempt { request: plain, fallback: None }
    }
}

/// Builds the attempt for a mapping of `size` bytes, given the hint.
pub fn first_attempt(
    addr: u64,
    hint: u64,
    size: u64,
    prot_flags: u64,
    map_flags: u64,
    fd: i64,
) -> (attempt: MapAttempt)
    ensures
        attempt == attempt_with_hint(addr, hint, size, prot_flags, map_flags, fd),
{
    let plain = MapRequest {
        addr,
        len: size,
        prot: prot_flags,
        flags: map_flags,
        fd,
        offset: 0,
    };
    if addr == 0 && hint != 0 {
        MapAttempt {
            request: MapRequest {
                addr: hint,
                len: size,
                prot: prot_flags,
                flags: map_flags,
                fd,
                offset: 0,
            },
            fallback: Some(plain),
        }
    } else {
        MapAttempt { request: plain, fallback: None }
    }
}

/// Begins a mapping of `size` bytes: takes a hint from the cursor and builds
/// the attempt. The cursor moves on even if the hint is not used.
///
/// On a shared cursor other threads decide which hint the cursor gives. The
/// attempt is always the one that [`attempt_with_hint`] describes for some
/// hint that is zero or aligned to the segment size; on an exclusive cursor
/// it is the hint of [`hint_step`].
pub fn hinted_mmap<C: Cursor>(
    cursor: &mut C,
    addr: u64,
    size: u64,
    alignment: u64,
    prot_flags: u64,
    map_flags: u64,
    fd: i64,
) -> (attempt: MapAttempt)
    ensures
        final(cursor).exclusive() == old(cursor).exclusive(),
        exists|hint: u64|
            {
                &&& hint % SEGMENT_SIZE == 0
                &&& #[trigger] attempt_with_hint(addr, hint, size, prot_flags, map_flags, fd)
                    == attempt
            },
        addr != 0 ==> attempt == attempt_with_hint(addr, 0, size, prot_flags, map_flags, fd),
        old(cursor).exclusive() ==> {
            &&& final(cursor).position() == hint_step(old(cursor).position(), alignment, size).1
            &&& attempt == attempt_with_hint(
                addr,
                hint_step(old(cursor).position(), alignment, size).0,
                size,
                prot_flags,
                map_flags,
                fd,
            )
        },
{
    let hint: u64 = address_hint(cursor, alignment, size);
    first_attempt(addr, hint, size, prot_flags, map_flags, fd)
}

impl MapAttempt {
    /// What follows when the request of this attempt returns `raw`.
    pub open spec fn resolved(self, raw: usize) -> MapOutcome {
        match mapped_address(raw) {
            Some(addr) => MapOutcome::Mapped(addr),
            None => match self.fallback {
                Some(plain) => MapOutcome::Retry(MapAttempt { request: plain, fallback: None }),
                None => MapOutcome::Failed,
            },
        }
    }

    /// Takes the raw return value of the request of this attempt.
    pub fn resolve(&self, raw: usize) -> (outcome: MapOutcome)
        ensures
            outcome == self.resolved(raw),
            outcome matches MapOutcome::Mapped(addr) ==> addr != 0,
    {
        match decode(raw) {
            Ok(addr) if addr != 0 => MapOutcome::Mapped(addr as u64),
            _ => match self.fallback {
                Some(plain) => MapOutcome::Retry(MapAttempt { request: plain, fallback: None }),
                None => MapOutcome::Failed,
            },
        }
    }
}

/// A mapping attempt comes to an end after at most two requests: what is
/// retried has nothing to fall back to, so its outcome is final.
pub proof fn lemma_attempt_ends(attempt: MapAttempt, first: usize, second: usize)
    ensures
        attempt.resolved(first) matches MapOutcome::Retry(next) ==> !(next.resolved(
            second,
        ) is Retry),
{
}

/// A segment cut out of a larger mapping, and what to give back around it.
#[derive(Clone, Copy, Debug, PartialEq, Eq, Structural)]
pub struct Trimmed {
    /// Start of the segment: the first multiple of the segment size in the
    /// mapping.
    pub base: u64,
    /// The part of the mapping in front of the segment, if any.
    pub head: Option<UnmapRequest>,
    /// The part of the mapping behind the segment, if any.
    pub tail: Option<UnmapRequest>,
}

/// The first multiple of the segment size that is not below `addr`.
pub open spec fn aligned_up(addr: u64) -> int {
    if addr % SEGMENT_SIZE == 0 {
        addr as int
    } else {
        addr - addr % SEGMENT_SIZE + SEGMENT_SIZE
    }
}

/// What cutting one segment out of the mapping of `len` bytes at `addr`
/// leaves: nothing if no aligned segment lies inside the mapping.
pub open spec fn trimmed(addr: u64, len: u64) -> Option<Trimmed> {
    let base = aligned_up(addr);
    if base + SEGMENT_SIZE <= addr + len && addr + len <= u64::MAX {
        Some(
            Trimmed {
                base: base as u64,
                head: if base > addr {
                    Some(UnmapRequest { addr, len: (base - addr) as u64 })
                } else {
                    None
                },
                tail: if addr + len > base + SEGMENT_SIZE {
                    Some(
                        UnmapRequest {
                            addr: (base + SEGMENT_SIZE) as u64,
                            len: (addr + len - base - SEGMENT_SIZE) as u64,
                        },
                    )
                } else {
                    None
                },
            },
        )
    } else {
        None
    }
}

/// Cuts one aligned segment out of a mapping that the system placed where it
/// liked. A mapping of two segment sizes always holds one.
pub fn trim_to_segment(addr: u64, len: u64) -> (cut: Option<Trimmed>)
    ensures
        cut == trimmed(addr, len),
        cut matches Some(t) ==> t.base % SEGMENT_SIZE == 0 && addr <= t.base && t.base
            + SEGMENT_SIZE <= addr + len,
        len >= 2 * SEGMENT_SIZE && addr + len <= u64::MAX ==> cut is Some,
{
    if addr > u64::MAX - len {
        return None;
    }
    let end: u64 = addr + len;
    let over: u64 = addr % SEGMENT_SIZE;
    let base: u64 = if over == 0 {
        addr
    } else {
        if addr - over > u64::MAX - SEGMENT_SIZE {
            return None;
        }
        addr - over + SEGMENT_SIZE
    };
    if base > u64::MAX - SEGMENT_SIZE || base + SEGMENT_SIZE > end {
        return None;
    }
    let head = if base > addr {
        Some(UnmapRequest { addr, len: base - addr })
    } else {
        None
    };
    let tail = if end > base + SEGMENT_SIZE {
        Some(UnmapRequest { addr: base + SEGMENT_SIZE, len: end - base - SEGMENT_SIZE })
    } else {
        None
    };
    Some(Trimmed { base, head, tail })
}

/// File descriptor of a mapping that is not backed by a file.
pub const NO_FILE: i64 = -1;

/// The allocator that maps every block directly from the system.
#[derive(Clone, Copy, Debug, PartialEq, Eq, Structural)]
pub struct NaiveAllocator;

impl NaiveAllocator {
    /// The request that maps a block of `size` bytes: private, anonymous,
    /// readable and writable memory wherever the system places it.
    pub fn allocate(&self, size: u64) -> (request: MapRequest)
        ensures
            request == (MapRequest {
                addr: 0,
                len: size,
                prot: PROT_READ_WRITE,
                flags: MAP_PRIVATE_ANON,
                fd: NO_FILE,
                offset: 0,
            }),
    {
        MapRequest {
            addr: 0,
            len: size,
            prot: PROT_READ_WRITE,
            flags: MAP_PRIVATE_ANON,
            fd: NO_FILE,
            offset: 0,
        }
    }

    /// The address of the block, given the raw return value of the request:
    /// zero if the mapping failed.
    pub fn allocate_result(&self, raw: usize) -> (addr: u64)
        ensures
            addr == if is_error_return(raw) {
                0
            } else {
                raw as u64
            },
    {
        match decode(raw) {
            Ok(addr) => addr as u64,
            Err(_) => 0,
        }
    }

    /// The request that gives a block of `size` bytes at `addr` back.
    pub fn deallocate(&self, addr: u64, size: u64) -> (request: UnmapRequest)
        ensures
            request == (UnmapRequest { addr, len: size }),
    {
        UnmapRequest { addr, len: size }
    }
}

/// Whether an unmapping succeeded, given the raw return value of the request.
pub fn munmap(raw: usize) -> (ok: bool)
    ensures
        ok == !is_error_return(raw),
{
    decode(raw).is_ok()
}

} // verus!
