//! Futex-backed locks, written as step machines.
//!
//! A lock operation is a small automaton. Its current phase names the one
//! operation to carry out next on the lock word (an atomic access, a pause, or
//! a system call), and the outcome of that operation selects the next phase.
//! The automaton never blocks and never loops: whoever drives it owns the loop.

use vstd::prelude::*;

pub mod drive;
pub mod elision;
pub mod exclusion;
pub mod mutex;
pub mod rwlock;
pub mod sharing;

verus! {

pub const FUTEX_WAIT: u64 = 0;

pub const FUTEX_WAKE: u64 = 1;

pub const FUTEX_FD: u64 = 2;

pub const FUTEX_REQUEUE: u64 = 3;

pub const FUTEX_CMP_REQUEUE: u64 = 4;

pub const FUTEX_WAKE_OP: u64 = 5;

pub const FUTEX_LOCK_PI: u64 = 6;

pub const FUTEX_UNLOCK_PI: u64 = 7;

pub const FUTEX_TRYLOCK_PI: u64 = 8;

pub const FUTEX_WAIT_BITSET: u64 = 9;

pub const FUTEX_WAKE_BITSET: u64 = 10;

pub const FUTEX_WAIT_REQUEUE_PI: u64 = 11;

pub const FUTEX_CMP_REQUEUE_PI: u64 = 12;

pub const FUTEX_PRIVATE_FLAG: u64 = 128;

pub const FUTEX_CLOCK_REALTIME: u64 = 256;

pub const FUTEX_CMD_MASK: u64 = 0xffff_ffff_ffff_fe7f;

pub const FUTEX_WAIT_PRIVATE: u64 = 128;

pub const FUTEX_WAKE_PRIVATE: u64 = 129;

pub const FUTEX_REQUEUE_PRIVATE: u64 = 131;

pub const FUTEX_CMP_REQUEUE_PRIVATE: u64 = 132;

pub const FUTEX_WAKE_OP_PRIVATE: u64 = 133;

pub const FUTEX_LOCK_PI_PRIVATE: u64 = 134;

pub const FUTEX_UNLOCK_PI_PRIVATE: u64 = 135;

pub const FUTEX_TRYLOCK_PI_PRIVATE: u64 = 136;

pub const FUTEX_WAIT_BITSET_PRIVATE: u64 = 137;

pub const FUTEX_WAKE_BITSET_PRIVATE: u64 = 138;

/// How many failed attempts a lock operation makes before it goes to sleep.
pub const SPIN_LIMIT: usize = 200;

/// The private futex operations are the plain ones with the private flag set,
/// and the command mask clears exactly the two modifier flags.
pub proof fn lemma_futex_operation_codes()
    ensures
        FUTEX_WAIT_PRIVATE == FUTEX_WAIT | FUTEX_PRIVATE_FLAG,
        FUTEX_WAKE_PRIVATE == FUTEX_WAKE | FUTEX_PRIVATE_FLAG,
        FUTEX_REQUEUE_PRIVATE == FUTEX_REQUEUE | FUTEX_PRIVATE_FLAG,
        FUTEX_CMP_REQUEUE_PRIVATE == FUTEX_CMP_REQUEUE | FUTEX_PRIVATE_FLAG,
        FUTEX_WAKE_OP_PRIVATE == FUTEX_WAKE_OP | FUTEX_PRIVATE_FLAG,
        FUTEX_LOCK_PI_PRIVATE == FUTEX_LOCK_PI | FUTEX_PRIVATE_FLAG,
        FUTEX_UNLOCK_PI_PRIVATE == FUTEX_UNLOCK_PI | FUTEX_PRIVATE_FLAG,
        FUTEX_TRYLOCK_PI_PRIVATE == FUTEX_TRYLOCK_PI | FUTEX_PRIVATE_FLAG,
        FUTEX_WAIT_BITSET_PRIVATE == FUTEX_WAIT_BITSET | FUTEX_PRIVATE_FLAG,
        FUTEX_WAKE_BITSET_PRIVATE == FUTEX_WAKE_BITSET | FUTEX_PRIVATE_FLAG,
        FUTEX_CMD_MASK == !(FUTEX_PRIVATE_FLAG | FUTEX_CLOCK_REALTIME),
{
    assert(128u64 == 0u64 | 128u64) by (bit_vector);
    assert(129u64 == 1u64 | 128u64) by (bit_vector);
    assert(131u64 == 3u64 | 128u64) by (bit_vector);
    assert(132u64 == 4u64 | 128u64) by (bit_vector);
    assert(133u64 == 5u64 | 128u64) by (bit_vector);
    assert(134u64 == 6u64 | 128u64) by (bit_vector);
    assert(135u64 == 7u64 | 128u64) by (bit_vector);
    assert(136u64 == 8u64 | 128u64) by (bit_vector);
    assert(137u64 == 9u64 | 128u64) by (bit_vector);
    assert(138u64 == 10u64 | 128u64) by (bit_vector);
    assert(0xffff_ffff_ffff_fe7fu64 == !(128u64 | 256u64)) by (bit_vector);
}

/// Arguments of one futex system call, apart from the address of the word.
/// The timeout, the second address and the third value are always zero.
#[derive(Clone, Copy, Debug, PartialEq, Eq, Structural)]
pub struct FutexCall {
    pub operation: u64,
    pub value: u64,
}

/// The call that puts the caller to sleep on a word for as long as the word
/// holds `target_value`.
pub fn futex_wait(target_value: u64) -> (call: FutexCall)
    ensures
        call == (FutexCall { operation: FUTEX_WAIT_PRIVATE, value: target_value }),
{
    FutexCall { operation: FUTEX_WAIT_PRIVATE, value: target_value }
}

/// The call that wakes at most one sleeper on a word.
pub fn futex_wake_one() -> (call: FutexCall)
    ensures
        call == (FutexCall { operation: FUTEX_WAKE_PRIVATE, value: 1 }),
{
    FutexCall { operation: FUTEX_WAKE_PRIVATE, value: 1 }
}

/// Memory ordering of a successful weak compare-exchange. A failed one is
/// always relaxed.
#[derive(Clone, Copy, Debug, PartialEq, Eq, Structural)]
pub enum MemOrder {
    Acquire,
    Release,
}

/// The one operation a lock automaton wants carried out next.
#[derive(Clone, Copy, Debug, PartialEq, Eq, Structural)]
pub enum Action {
    /// Relaxed load of the lock word.
    Load,
    /// Relaxed store to the lock word.
    Store { value: u64 },
    /// Compare-exchange that opens an elided critical section.
    ElidedCas { current: u64, new: u64 },
    /// Compare-exchange that may fail spuriously.
    CasWeak { current: u64, new: u64, order: MemOrder },
    /// Fetch-and-subtract that closes an elided critical section.
    ElidedFetchSub { delta: u64 },
    /// Processor hint that the caller is spinning.
    SpinHint,
    /// Give the processor back to the scheduler.
    Yield,
    /// Sleep on the lock word while it holds `expected`.
    Wait { expected: u64 },
    /// Wake one sleeper on the lock word.
    WakeOne,
    /// Nothing: the lock operation is complete.
    Finished,
}

/// Outcome of an [`Action`].
#[derive(Clone, Copy, Debug, PartialEq, Eq)]
pub enum Event {
    /// The value a load or a fetch-and-subtract found in the lock word.
    Value(u64),
    /// Result of a compare-exchange: the previous value, `Ok` if it was
    /// replaced.
    Exchanged(Result<u64, u64>),
    /// Raw return value of a system call.
    Returned(usize),
    /// The operation has no outcome to report.
    Done,
}

impl Action {
    /// Whether the action is a system call, or the end of the operation, and
    /// so cannot be carried out on the lock word alone.
    pub open spec fn needs_host(self) -> bool {
        self is Yield || self is Wait || self is WakeOne || self is Finished
    }

    /// Whether `event` is the kind of outcome this action reports.
    pub open spec fn answered_by(self, event: Event) -> bool {
        match self {
            Action::Load | Action::ElidedFetchSub { .. } => event is Value,
            Action::ElidedCas { .. } | Action::CasWeak { .. } => event is Exchanged,
            Action::Store { .. } | Action::SpinHint => event is Done,
            Action::Yield | Action::Wait { .. } | Action::WakeOne => event is Returned,
            Action::Finished => false,
        }
    }

    /// Whether the action is a compare-exchange that expects to find
    /// `value` in the word.
    pub open spec fn expects(self, value: u64) -> bool {
        match self {
            Action::ElidedCas { current, .. } | Action::CasWeak { current, .. } => current == value,
            _ => false,
        }
    }

    /// The atomic semantics of the action on a shared word: a word holding
    /// `before` may report `event` and hold `after` afterwards.
    ///
    /// A weak compare-exchange may fail although the word holds the expected
    /// value. A system call leaves the word alone and may return anything at
    /// any time; in particular a sleeper may wake without cause.
    pub open spec fn effect(self, before: u64, event: Event, after: u64) -> bool {
        match self {
            Action::Load => event == Event::Value(before) && after == before,
            Action::Store { value } => event == Event::Done && after == value,
            Action::ElidedCas { current, new } => if before == current {
                event == Event::Exchanged(Ok(before)) && after == new
            } else {
                event == Event::Exchanged(Err(before)) && after == before
            },
            Action::CasWeak { current, new, .. } => {
                ||| before == current && event == Event::Exchanged(Ok(before)) && after == new
                ||| event == Event::Exchanged(Err(before)) && after == before
            },
            Action::ElidedFetchSub { delta } => event == Event::Value(before) && after
                == before.wrapping_sub(delta),
            Action::SpinHint => event == Event::Done && after == before,
            Action::Yield | Action::Wait { .. } | Action::WakeOne => event is Returned && after
                == before,
            Action::Finished => false,
        }
    }
}

} // verus!
