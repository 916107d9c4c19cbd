//! The hybrid reader-writer lock.
//!
//! The lock word holds `WRITE_LOCKED` while a writer is inside, `RW_OPEN`
//! while nobody is, and one more than the number of readers otherwise.

use vstd::prelude::*;
use crate::sync::{Action, Event, MemOrder, SPIN_LIMIT};
use crate::sys::{decode, is_error_return};

verus! {

/// Lock word while a writer holds the lock.
pub const WRITE_LOCKED: u64 = 0;

/// Lock word while nobody holds the lock.
pub const RW_OPEN: u64 = 1;

/// The spin count after one more failed attempt. It stops just above the
/// limit, where sleeping takes over.
pub open spec fn bumped(spins: usize) -> usize {
    if spins <= SPIN_LIMIT {
        (spins + 1) as usize
    } else {
        spins
    }
}

fn bump(spins: usize) -> (next: usize)
    ensures
        next == bumped(spins),
{
    if spins <= SPIN_LIMIT {
        spins + 1
    } else {
        spins
    }
}

/// The lock word with one more reader. A saturated count is never raised.
pub open spec fn joined(seen: u64) -> u64 {
    if seen < u64::MAX {
        (seen + 1) as u64
    } else {
        seen
    }
}

fn join(seen: u64) -> (word: u64)
    ensures
        word == joined(seen),
{
    if seen < u64::MAX {
        seen + 1
    } else {
        seen
    }
}

/// The lock word after the holder that saw `seen` has left: a writer opens the
/// lock, a reader takes itself off the count.
pub open spec fn departed(seen: u64) -> u64 {
    if seen == WRITE_LOCKED {
        RW_OPEN
    } else {
        (seen - 1) as u64
    }
}

fn depart(seen: u64) -> (word: u64)
    ensures
        word == departed(seen),
{
    if seen == WRITE_LOCKED {
        RW_OPEN
    } else {
        seen - 1
    }
}

/// Acquisition of shared access.
#[derive(Clone, Copy, Debug, PartialEq, Eq, Structural)]
pub enum ReadLock {
    /// Look at the word before trying to elide.
    Probe,
    /// Elided attempt to become the first reader.
    Elide,
    /// Look at the word to learn the current count.
    Observe { spins: usize },
    /// Attempt to raise the count that was seen.
    Join { seen: u64, spins: usize },
    /// Pause after a failed attempt.
    Relax { spins: usize },
    /// Sleep while the word still holds what was seen.
    Sleep { seen: u64, spins: usize },
    /// After a failed sleep, look whether the writer has left.
    Recheck { seen: u64, spins: usize },
    /// Pause before going back to sleep.
    Pause { seen: u64, spins: usize },
    /// Shared access is held.
    Held,
}

impl ReadLock {
    /// A phase that raises the count has seen neither a writer nor a saturated
    /// count. Every phase reached from [`ReadLock::start`] is well formed.
    pub open spec fn wf(self) -> bool {
        self matches ReadLock::Join { seen, .. } ==> seen != WRITE_LOCKED && seen != u64::MAX
    }

    /// What follows a failed attempt that saw `seen`: another round while the
    /// spin budget lasts, sleep after that.
    pub open spec fn backoff(seen: u64, spins: usize) -> ReadLock {
        if spins <= SPIN_LIMIT {
            ReadLock::Relax { spins }
        } else {
            ReadLock::Sleep { seen, spins }
        }
    }

    /// The operation this phase asks for.
    pub open spec fn action_spec(self) -> Action {
        match self {
            ReadLock::Probe | ReadLock::Observe { .. } | ReadLock::Recheck { .. } => Action::Load,
            ReadLock::Elide => Action::ElidedCas { current: RW_OPEN, new: joined(RW_OPEN) },
            ReadLock::Join { seen, .. } => Action::CasWeak {
                current: seen,
                new: joined(seen),
                order: MemOrder::Acquire,
            },
            ReadLock::Relax { .. } | ReadLock::Pause { .. } => Action::SpinHint,
            ReadLock::Sleep { seen, .. } => Action::Wait { expected: seen },
            ReadLock::Held => Action::Finished,
        }
    }

    /// The phase that follows this one when its operation reports `event`.
    /// An event of the wrong kind leaves the phase as it is.
    pub open spec fn next(self, event: Event) -> ReadLock {
        match self {
            ReadLock::Probe => match event {
                Event::Value(seen) => if seen == RW_OPEN {
                    ReadLock::Elide
                } else {
                    ReadLock::Observe { spins: 0 }
                },
                _ => self,
            },
            ReadLock::Elide => match event {
                Event::Exchanged(Ok(_)) => ReadLock::Held,
                Event::Exchanged(Err(_)) => ReadLock::Observe { spins: 0 },
                _ => self,
            },
            ReadLock::Observe { spins } => match event {
                Event::Value(seen) => if seen == WRITE_LOCKED || seen == u64::MAX {
                    ReadLock::backoff(seen, spins)
                } else {
                    ReadLock::Join { seen, spins }
                },
                _ => self,
            },
            ReadLock::Join { seen, spins } => match event {
                Event::Exchanged(Ok(_)) => ReadLock::Held,
                Event::Exchanged(Err(_)) => ReadLock::backoff(seen, spins),
                _ => self,
            },
            ReadLock::Relax { spins } => ReadLock::Observe { spins: bumped(spins) },
            ReadLock::Sleep { seen, spins } => match event {
                Event::Returned(raw) => if is_error_return(raw) {
                    ReadLock::Recheck { seen, spins }
                } else {
                    ReadLock::Observe { spins }
                },
                _ => self,
            },
            ReadLock::Recheck { seen, spins } => match event {
                Event::Value(now) => if now >= RW_OPEN {
                    ReadLock::Observe { spins }
                } else {
                    ReadLock::Pause { seen, spins }
                },
                _ => self,
            },
            ReadLock::Pause { seen, spins } => ReadLock::Sleep { seen, spins },
            ReadLock::Held => ReadLock::Held,
        }
    }

    /// Where every shared acquisition begins.
    pub fn start() -> (phase: ReadLock)
        ensures
            phase == ReadLock::Probe,
            phase.wf(),
    {
        ReadLock::Probe
    }

    /// Whether shared access is held.
    pub fn acquired(&self) -> (held: bool)
        ensures
            held <==> *self == ReadLock::Held,
            held <==> self.action_spec() is Finished,
    {
        match self {
            ReadLock::Held => true,
            _ => false,
        }
    }

    /// The operation to carry out next.
    pub fn action(&self) -> (action: Action)
        ensures
            action == self.action_spec(),
    {
        match self {
            ReadLock::Probe | ReadLock::Observe { .. } | ReadLock::Recheck { .. } => Action::Load,
            ReadLock::Elide => Action::ElidedCas { current: RW_OPEN, new: join(RW_OPEN) },
            ReadLock::Join { seen, .. } => Action::CasWeak {
                current: *seen,
                new: join(*seen),
                order: MemOrder::Acquire,
            },
            ReadLock::Relax { .. } | ReadLock::Pause { .. } => Action::SpinHint,
            ReadLock::Sleep { seen, .. } => Action::Wait { expected: *seen },
            ReadLock::Held => Action::Finished,
        }
    }

    fn back_off(seen: u64, spins: usize) -> (phase: ReadLock)
        ensures
            phase == ReadLock::backoff(seen, spins),
    {
        if spins <= SPIN_LIMIT {
            ReadLock::Relax { spins }
        } else {
            ReadLock::Sleep { seen, spins }
        }
    }

    /// Takes the outcome of the pending operation and moves to the next phase.
    pub fn step(self, event: Event) -> (phase: ReadLock)
        ensures
            phase == self.next(event),
            self.wf() ==> phase.wf(),
    {
        match self {
            ReadLock::Probe => match event {
                Event::Value(seen) => if seen == RW_OPEN {
                    ReadLock::Elide
                } else {
                    ReadLock::Observe { spins: 0 }
                },
                _ => self,
            },
            ReadLock::Elide => match event {
                Event::Exchanged(Ok(_)) => ReadLock::Held,
                Event::Exchanged(Err(_)) => ReadLock::Observe { spins: 0 },
                _ => self,
            },
            ReadLock::Observe { spins } => match event {
                Event::Value(seen) => if seen == WRITE_LOCKED || seen == u64::MAX {
                    ReadLock::back_off(seen, spins)
                } else {
                    ReadLock::Join { seen, spins }
                },
                _ => self,
            },
            ReadLock::Join { seen, spins } => match event {
                Event::Exchanged(Ok(_)) => ReadLock::Held,
                Event::Exchanged(Err(_)) => ReadLock::back_off(seen, spins),
                _ => self,
            },
            ReadLock::Relax { spins } => ReadLock::Observe { spins: bump(spins) },
            ReadLock::Sleep { seen, spins } => match event {
                Event::Returned(raw) => if decode(raw).is_err() {
                    ReadLock::Recheck { seen, spins }
                } else {
                    ReadLock::Observe { spins }
                },
                _ => self,
            },
            ReadLock::Recheck { seen, spins } => match event {
                Event::Value(now) => if now >= RW_OPEN {
                    ReadLock::Observe { spins }
                } else {
                    ReadLock::Pause { seen, spins }
                },
                _ => self,
            },
            ReadLock::Pause { seen, spins } => ReadLock::Sleep { seen, spins },
            ReadLock::Held => ReadLock::Held,
        }
    }
}

/// Acquisition of exclusive access.
#[derive(Clone, Copy, Debug, PartialEq, Eq, Structural)]
pub enum WriteLock {
    /// Look at the word before trying to elide.
    Probe,
    /// Elided attempt to close the open lock.
    Elide,
    /// Attempt to close the open lock.
    Take { spins: usize },
    /// Pause after a failed attempt.
    Relax { spins: usize },
    /// Sleep while the word still holds what the failed attempt saw.
    Sleep { seen: u64, spins: usize },
    /// After a failed sleep, look whether the lock has opened.
    Recheck { seen: u64, spins: usize },
    /// Pause before going back to sleep.
    Pause { seen: u64, spins: usize },
    /// After waking, look whether the lock is open.
    Confirm { spins: usize },
    /// The lock is still taken: pass the wake-up on to another sleeper.
    Nudge { spins: usize },
    /// Give the processor away before the next attempt.
    Yield { spins: usize },
    /// Exclusive access is held.
    Held,
}

impl WriteLock {
    /// What follows a failed attempt that saw `seen`: another round while the
    /// spin budget lasts, sleep after that.
    pub open spec fn backoff(seen: u64, spins: usize) -> WriteLock {
        if spins <= SPIN_LIMIT {
            WriteLock::Relax { spins }
        } else {
            WriteLock::Sleep { seen, spins }
        }
    }

    /// The operation this phase asks for.
    pub open spec fn action_spec(self) -> Action {
        match self {
            WriteLock::Probe | WriteLock::Recheck { .. } | WriteLock::Confirm { .. } => Action::Load,
            WriteLock::Elide => Action::ElidedCas { current: RW_OPEN, new: WRITE_LOCKED },
            WriteLock::Take { .. } => Action::CasWeak {
                current: RW_OPEN,
                new: WRITE_LOCKED,
                order: MemOrder::Acquire,
            },
            WriteLock::Relax { .. } | WriteLock::Pause { .. } => Action::SpinHint,
            WriteLock::Sleep { seen, .. } => Action::Wait { expected: seen },
            WriteLock::Nudge { .. } => Action::WakeOne,
            WriteLock::Yield { .. } => Action::Yield,
            WriteLock::Held => Action::Finished,
        }
    }

    /// The phase that follows this one when its operation reports `event`.
    /// An event of the wrong kind leaves the phase as it is.
    pub open spec fn next(self, event: Event) -> WriteLock {
        match self {
            WriteLock::Probe => match event {
                Event::Value(seen) => if seen == RW_OPEN {
                    WriteLock::Elide
                } else {
                    WriteLock::Take { spins: 0 }
                },
                _ => self,
            },
            WriteLock::Elide => match event {
                Event::Exchanged(Ok(_)) => WriteLock::Held,
                Event::Exchanged(Err(_)) => WriteLock::Take { spins: 0 },
                _ => self,
            },
            WriteLock::Take { spins } => match event {
                Event::Exchanged(Ok(_)) => WriteLock::Held,
                Event::Exchanged(Err(seen)) => WriteLock::backoff(seen, spins),
                _ => self,
            },
            WriteLock::Relax { spins } => WriteLock::Take { spins: bumped(spins) },
            WriteLock::Sleep { seen, spins } => match event {
                Event::Returned(raw) => if is_error_return(raw) {
                    WriteLock::Recheck { seen, spins }
                } else {
                    WriteLock::Confirm { spins }
                },
                _ => self,
            },
            WriteLock::Recheck { seen, spins } => match event {
                Event::Value(now) => if now == RW_OPEN {
                    WriteLock::Confirm { spins }
                } else {
                    WriteLock::Pause { seen, spins }
                },
                _ => self,
            },
            WriteLock::Pause { seen, spins } => WriteLock::Sleep { seen, spins },
            WriteLock::Confirm { spins } => match event {
                Event::Value(now) => if now != RW_OPEN {
                    WriteLock::Nudge { spins }
                } else {
                    WriteLock::Take { spins }
                },
                _ => self,
            },
            WriteLock::Nudge { spins } => WriteLock::Yield { spins },
            WriteLock::Yield { spins } => WriteLock::Take { spins },
            WriteLock::Held => WriteLock::Held,
        }
    }

    /// Where every exclusive acquisition begins.
    pub fn start() -> (phase: WriteLock)
        ensures
            phase == WriteLock::Probe,
    {
        WriteLock::Probe
    }

    /// Whether exclusive access is held.
    pub fn acquired(&self) -> (held: bool)
        ensures
            held <==> *self == WriteLock::Held,
            held <==> self.action_spec() is Finished,
    {
        match self {
            WriteLock::Held => true,
            _ => false,
        }
    }

    /// The operation to carry out next.
    pub fn action(&self) -> (action: Action)
        ensures
            action == self.action_spec(),
    {
        match self {
            WriteLock::Probe | WriteLock::Recheck { .. } | WriteLock::Confirm { .. } => Action::Load,
            WriteLock::Elide => Action::ElidedCas { current: RW_OPEN, new: WRITE_LOCKED },
            WriteLock::Take { .. } => Action::CasWeak {
                current: RW_OPEN,
                new: WRITE_LOCKED,
                order: MemOrder::Acquire,
            },
            WriteLock::Relax { .. } | WriteLock::Pause { .. } => Action::SpinHint,
            WriteLock::Sleep { seen, .. } => Action::Wait { expected: *seen },
            WriteLock::Nudge { .. } => Action::WakeOne,
            WriteLock::Yield { .. } => Action::Yield,
            WriteLock::Held => Action::Finished,
        }
    }

    /// Takes the outcome of the pending operation and moves to the next phase.
    pub fn step(self, event: Event) -> (phase: WriteLock)
        ensures
            phase == self.next(event),
    {
        match self {
            WriteLock::Probe => match event {
                Event::Value(seen) => if seen == RW_OPEN {
                    WriteLock::Elide
                } else {
                    WriteLock::Take { spins: 0 }
                },
                _ => self,
            },
            WriteLock::Elide => match event {
                Event::Exchanged(Ok(_)) => WriteLock::Held,
                Event::Exchanged(Err(_)) => WriteLock::Take { spins: 0 },
                _ => self,
            },
            WriteLock::Take { spins } => match event {
                Event::Exchanged(Ok(_)) => WriteLock::Held,
                Event::Exchanged(Err(seen)) => if spins <= SPIN_LIMIT {
                    WriteLock::Relax { spins }
                } else {
                    WriteLock::Sleep { seen, spins }
                },
                _ => self,
            },
            WriteLock::Relax { spins } => WriteLock::Take { spins: bump(spins) },
            WriteLock::Sleep { seen, spins } => match event {
                Event::Returned(raw) => if decode(raw).is_err() {
                    WriteLock::Recheck { seen, spins }
                } else {
                    WriteLock::Confirm { spins }
                },
                _ => self,
            },
            WriteLock::Recheck { seen, spins } => match event {
                Event::Value(now) => if now == RW_OPEN {
                    WriteLock::Confirm { spins }
                } else {
                    WriteLock::Pause { seen, spins }
                },
                _ => self,
            },
            WriteLock::Pause { seen, spins } => WriteLock::Sleep { seen, spins },
            WriteLock::Confirm { spins } => match event {
                Event::Value(now) => if now != RW_OPEN {
                    WriteLock::Nudge { spins }
                } else {
                    WriteLock::Take { spins }
                },
                _ => self,
            },
            WriteLock::Nudge { spins } => WriteLock::Yield { spins },
            WriteLock::Yield { spins } => WriteLock::Take { spins },
            WriteLock::Held => WriteLock::Held,
        }
    }
}

/// Release of shared or exclusive access. The lock word tells which of the
/// two the caller held.
#[derive(Clone, Copy, Debug, PartialEq, Eq, Structural)]
pub enum RwUnlock {
    /// Look at the word to learn what is held.
    Observe,
    /// Attempt to replace what was seen by the word without the caller.
    Swap { seen: u64 },
    /// Pause after a failed attempt.
    Relax,
    /// Wake one sleeper.
    Wake,
    /// The lock is released.
    Released,
}

impl RwUnlock {
    /// The operation this phase asks for.
    pub open spec fn action_spec(self) -> Action {
        match self {
            RwUnlock::Observe => Action::Load,
            RwUnlock::Swap { seen } => Action::CasWeak {
                current: seen,
                new: departed(seen),
                order: MemOrder::Release,
            },
            RwUnlock::Relax => Action::SpinHint,
            RwUnlock::Wake => Action::WakeOne,
            RwUnlock::Released => Action::Finished,
        }
    }

    /// The phase that follows this one when its operation reports `event`.
    /// An event of the wrong kind leaves the phase as it is.
    ///
    /// A sleeper is woken only when the release opens the lock.
    pub open spec fn next(self, event: Event) -> RwUnlock {
        match self {
            RwUnlock::Observe => match event {
                Event::Value(seen) => if seen == RW_OPEN {
                    RwUnlock::Released
                } else {
                    RwUnlock::Swap { seen }
                },
                _ => self,
            },
            RwUnlock::Swap { seen } => match event {
                Event::Exchanged(Ok(_)) => if departed(seen) == RW_OPEN {
                    RwUnlock::Wake
                } else {
                    RwUnlock::Released
                },
                Event::Exchanged(Err(_)) => RwUnlock::Relax,
                _ => self,
            },
            RwUnlock::Relax => RwUnlock::Observe,
            RwUnlock::Wake => RwUnlock::Released,
            RwUnlock::Released => RwUnlock::Released,
        }
    }

    /// Where every release begins.
    pub fn start() -> (phase: RwUnlock)
        ensures
            phase == RwUnlock::Observe,
    {
        RwUnlock::Observe
    }

    /// Whether the release is complete.
    pub fn released(&self) -> (done: bool)
        ensures
            done <==> *self == RwUnlock::Released,
            done <==> self.action_spec() is Finished,
    {
        match self {
            RwUnlock::Released => true,
            _ => false,
        }
    }

    /// The operation to carry out next.
    pub fn action(&self) -> (action: Action)
        ensures
            action == self.action_spec(),
    {
        match self {
            RwUnlock::Observe => Action::Load,
            RwUnlock::Swap { seen } => Action::CasWeak {
                current: *seen,
                new: depart(*seen),
                order: MemOrder::Release,
            },
            RwUnlock::Relax => Action::SpinHint,
            RwUnlock::Wake => Action::WakeOne,
            RwUnlock::Released => Action::Finished,
        }
    }

    /// Takes the outcome of the pending operation and moves to the next phase.
    pub fn step(self, event: Event) -> (phase: RwUnlock)
        ensures
            phase == self.next(event),
    {
        match self {
            RwUnlock::Observe => match event {
                Event::Value(seen) => if seen == RW_OPEN {
                    RwUnlock::Released
                } else {
                    RwUnlock::Swap { seen }
                },
                _ => self,
            },
            RwUnlock::Swap { seen } => match event {
                Event::Exchanged(Ok(_)) => if depart(seen) == RW_OPEN {
                    RwUnlock::Wake
                } else {
                    RwUnlock::Released
                },
                Event::Exchanged(Err(_)) => RwUnlock::Relax,
                _ => self,
            },
            RwUnlock::Relax => RwUnlock::Observe,
            RwUnlock::Wake => RwUnlock::Released,
            RwUnlock::Released => RwUnlock::Released,
        }
    }
}

} // verus!
