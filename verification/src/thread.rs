//! The thread control block.
//!
//! Each thread owns one padded block. The block begins with a pointer to the
//! record that follows it, so that the record can be found by a single load
//! through the thread's base register.

use vstd::prelude::*;
use crate::memory::map::UnmapRequest;

verus! {

pub const ARCH_SET_GS: u64 = 0x1001;

pub const ARCH_SET_FS: u64 = 0x1002;

pub const ARCH_GET_FS: u64 = 0x1003;

pub const ARCH_GET_GS: u64 = 0x1004;

/// Distance from the start of the padded block to the record inside it.
pub const THREAD_OFFSET: u64 = 8;

/// Size of the padded block in bytes.
pub const PADDED_THREAD_SIZE: u64 = 312;

/// Alignment of the padded block in bytes.
pub const PADDED_THREAD_ALIGN: u64 = 8;

/// Number of entries in a thread's table of local free lists.
pub const LOCAL_FREE_LISTS: usize = 32;

/// The per-thread record. Apart from the two identifiers everything in a new
/// record is zero.
#[derive(Clone, Copy, Debug, PartialEq, Eq)]
pub struct Thread {
    pub ppid: u64,
    pub tid: u64,
    pub tls_map_addr: u64,
    pub tls_map_len: u64,
    pub tls_block_start: u64,
    pub tls_dtor_list: u64,
    pub local_free_list: [u64; 32],
}

/// The padded block: the address of the record, then the record.
#[derive(Clone, Copy, Debug, PartialEq, Eq)]
pub struct PaddedThread {
    pub thread_ptr: u64,
    pub thread: Thread,
}

/// Arguments of the system call that sets a base register of the thread.
#[derive(Clone, Copy, Debug, PartialEq, Eq, Structural)]
pub struct BaseRegisterRequest {
    pub code: u64,
    pub addr: u64,
}

/// Everything that bringing up a thread writes and asks for.
#[derive(Clone, Copy, Debug, PartialEq, Eq)]
pub struct Bootstrap {
    /// What to store in the block.
    pub block: PaddedThread,
    /// How to install the block as the thread's anchor.
    pub install: BaseRegisterRequest,
}

/// Whether a padded block can start at `tcb`: the address is not null and the
/// whole block lies inside the address range.
pub open spec fn block_fits(tcb: u64) -> bool {
    tcb != 0 && tcb + PADDED_THREAD_SIZE <= u64::MAX
}

/// Whether `thread` is a record that holds nothing but its two identifiers.
pub open spec fn fresh_record(thread: Thread, pid: u64, tid: u64) -> bool {
    &&& thread.ppid == pid
    &&& thread.tid == tid
    &&& thread.tls_map_addr == 0
    &&& thread.tls_map_len == 0
    &&& thread.tls_block_start == 0
    &&& thread.tls_dtor_list == 0
    &&& forall|i: int| 0 <= i < 32 ==> thread.local_free_list[i] == 0
}

/// Prepares the control block of a thread whose block was allocated at `tcb`
/// and whose process and thread identifiers are `pid` and `tid`.
///
/// Returns `None` exactly when no block can start at `tcb`.
pub fn init_main_thread(tcb: u64, pid: u64, tid: u64) -> (bootstrap: Option<Bootstrap>)
    ensures
        bootstrap is Some <==> block_fits(tcb),
        bootstrap matches Some(b) ==> {
            &&& b.block.thread_ptr == tcb + THREAD_OFFSET
            &&& fresh_record(b.block.thread, pid, tid)
            &&& b.install == (BaseRegisterRequest { code: ARCH_SET_FS, addr: tcb })
        },
{
    if tcb == 0 || tcb > u64::MAX - PADDED_THREAD_SIZE {
        return None;
    }
    let thread = Thread {
        ppid: pid,
        tid,
        tls_map_addr: 0,
        tls_map_len: 0,
        tls_block_start: 0,
        tls_dtor_list: 0,
        local_free_list: [0u64; 32],
    };
    Some(
        Bootstrap {
            block: PaddedThread { thread_ptr: tcb + THREAD_OFFSET, thread },
            install: BaseRegisterRequest { code: ARCH_SET_FS, addr: tcb },
        },
    )
}

/// The request that returns a thread's padded block, given the address of the
/// record inside it. Returns `None` exactly when the address cannot be that
/// of a record.
pub fn munmap_self(thread_ptr: u64) -> (request: Option<UnmapRequest>)
    ensures
        request == if thread_ptr > THREAD_OFFSET {
            Some(
                UnmapRequest {
                    addr: (thread_ptr - THREAD_OFFSET) as u64,
                    len: PADDED_THREAD_SIZE,
                },
            )
        } else {
            None::<UnmapRequest>
        },
{
    if thread_ptr > THREAD_OFFSET {
        Some(UnmapRequest { addr: thread_ptr - THREAD_OFFSET, len: PADDED_THREAD_SIZE })
    } else {
        None
    }
}

/// What bringing a thread up installs, tearing it down returns: the request
/// built from the record's address names the block that was allocated.
pub proof fn lemma_block_round_trip(tcb: u64)
    requires
        block_fits(tcb),
    ensures
        (tcb + THREAD_OFFSET) as u64 > THREAD_OFFSET,
        ((tcb + THREAD_OFFSET) as u64 - THREAD_OFFSET) as u64 == tcb,
{
}

} // verus!
