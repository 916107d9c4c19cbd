//! Lock-elision primitives on atomic words.
//!
//! On processors with transactional memory the two operations below may be
//! prefixed with elision hints. The hints never change what the operations
//! compute, so the portable form given here is always correct.

use vstd::prelude::*;
use core::sync::atomic::AtomicU64;
use core::sync::atomic::Ordering;
use crate::sync::{Action, Event, MemOrder};

verus! {

/// Atomic operations that open and close an elided critical section.
pub trait AtomicElisionExt {
    type IntType;

    /// Compare-exchange with acquire ordering that may start a transaction.
    /// Returns the previous value: `Ok` if it was replaced by `new`, and then
    /// it was `current`.
    fn elision_compare_exchange_acquire(&self, current: Self::IntType, new: Self::IntType) -> (outcome:
        Result<Self::IntType, Self::IntType>)
        ensures
            outcome matches Ok(previous) ==> previous == current,
    ;

    /// Fetch-and-subtract with release ordering that may end a transaction.
    /// Returns the previous value.
    fn elision_fetch_sub_release(&self, val: Self::IntType) -> Self::IntType;
}

impl AtomicElisionExt for AtomicU64 {
    type IntType = u64;

    fn elision_compare_exchange_acquire(&self, current: u64, new: u64) -> (outcome: Result<
        u64,
        u64,
    >) {
        match self.compare_exchange(current, new, Ordering::Acquire, Ordering::Relaxed) {
            // An exchange succeeds only on the value it expects.
            Ok(_) => Ok(current),
            Err(seen) => Err(seen),
        }
    }

    fn elision_fetch_sub_release(&self, val: u64) -> u64 {
        self.fetch_sub(val, Ordering::Release)
    }
}

/// `core::hint::spin_loop` only tells the processor that the caller is
/// spinning. Nothing is claimed of it.
pub assume_specification[ core::hint::spin_loop ]();

/// A lock word.
///
/// A word that is `exclusive` has a value that only its holder changes, and
/// its operations do what atomic operations do when nobody interferes. Of a
/// word that is shared between threads nothing is known from one operation to
/// the next.
pub trait Word {
    spec fn exclusive(&self) -> bool;

    spec fn value(&self) -> u64;

    fn load(&self) -> (seen: u64)
        ensures
            self.exclusive() ==> seen == self.value(),
    ;

    fn store(&mut self, value: u64)
        ensures
            final(self).exclusive() == old(self).exclusive(),
            old(self).exclusive() ==> final(self).value() == value,
    ;

    fn elided_compare_exchange(&mut self, current: u64, new: u64) -> (outcome: Result<u64, u64>)
        ensures
            final(self).exclusive() == old(self).exclusive(),
            outcome matches Ok(previous) ==> previous == current,
            old(self).exclusive() ==> (Action::ElidedCas { current, new }).effect(
                old(self).value(),
                Event::Exchanged(outcome),
                final(self).value(),
            ),
    ;

    fn compare_exchange_weak(&mut self, current: u64, new: u64, order: MemOrder) -> (outcome:
        Result<u64, u64>)
        ensures
            final(self).exclusive() == old(self).exclusive(),
            outcome matches Ok(previous) ==> previous == current,
            old(self).exclusive() ==> (Action::CasWeak { current, new, order }).effect(
                old(self).value(),
                Event::Exchanged(outcome),
                final(self).value(),
            ),
    ;

    fn elided_fetch_sub(&mut self, delta: u64) -> (previous: u64)
        ensures
            final(self).exclusive() == old(self).exclusive(),
            old(self).exclusive() ==> (Action::ElidedFetchSub { delta }).effect(
                old(self).value(),
                Event::Value(previous),
                final(self).value(),
            ),
    ;
}

/// The lock word that the threads of a process share.
pub struct SharedWord<'a> {
    pub word: &'a AtomicU64,
}

/// A lock word that belongs to its holder alone.
pub struct PrivateWord {
    pub value: u64,
}

impl<'a> Word for SharedWord<'a> {
    open spec fn exclusive(&self) -> bool {
        false
    }

    open spec fn value(&self) -> u64 {
        0
    }

    fn load(&self) -> (seen: u64) {
        self.word.load(Ordering::Relaxed)
    }

    fn store(&mut self, value: u64) {
        self.word.store(value, Ordering::Relaxed);
    }

    fn elided_compare_exchange(&mut self, current: u64, new: u64) -> (outcome: Result<u64, u64>) {
        self.word.elision_compare_exchange_acquire(current, new)
    }

    fn compare_exchange_weak(&mut self, current: u64, new: u64, order: MemOrder) -> (outcome:
        Result<u64, u64>) {
        let exchanged = match order {
            MemOrder::Acquire => self.word.compare_exchange_weak(
                current,
                new,
                Ordering::Acquire,
                Ordering::Relaxed,
            ),
            MemOrder::Release => self.word.compare_exchange_weak(
                current,
                new,
                Ordering::Release,
                Ordering::Relaxed,
            ),
        };
        match exchanged {
            // An exchange succeeds only on the value it expects.
            Ok(_) => Ok(current),
            Err(seen) => Err(seen),
        }
    }

    fn elided_fetch_sub(&mut self, delta: u64) -> (previous: u64) {
        self.word.elision_fetch_sub_release(delta)
    }
}

impl Word for PrivateWord {
    open spec fn exclusive(&self) -> bool {
        true
    }

    open spec fn value(&self) -> u64 {
        self.value
    }

    fn load(&self) -> (seen: u64) {
        self.value
    }

    fn store(&mut self, value: u64) {
        self.value = value;
    }

    fn elided_compare_exchange(&mut self, current: u64, new: u64) -> (outcome: Result<u64, u64>) {
        let seen: u64 = self.value;
        if seen == current {
            self.value = new;
            Ok(seen)
        } else {
            Err(seen)
        }
    }

    fn compare_exchange_weak(&mut self, current: u64, new: u64, order: MemOrder) -> (outcome:
        Result<u64, u64>) {
        let seen: u64 = self.value;
        if seen == current {
            self.value = new;
            Ok(seen)
        } else {
            Err(seen)
        }
    }

    fn elided_fetch_sub(&mut self, delta: u64) -> (previous: u64) {
        let seen: u64 = self.value;
        self.value = seen.wrapping_sub(delta);
        seen
    }
}

/// Carries out `action` on the lock word, if it can be done without the host.
///
/// An event comes back exactly for the actions that need no system call, and
/// it is of the kind the action reports; an exchange that succeeded reports
/// the value that the action expected. On an exclusive word the event and
/// the word afterwards are those of the action's atomic semantics. On a
/// shared word every thread that shares it has a say in what the word holds,
/// so nothing is promised about the values inside the event.
pub fn perform<W: Word>(word: &mut W, action: Action) -> (event: Option<Event>)
    ensures
        final(word).exclusive() == old(word).exclusive(),
        event is None <==> action.needs_host(),
        event matches Some(e) ==> action.answered_by(e),
        event matches Some(Event::Exchanged(Ok(previous))) ==> action.expects(previous),
        old(word).exclusive() ==> match event {
            Some(e) => action.effect(old(word).value(), e, final(word).value()),
            None => final(word).value() == old(word).value(),
        },
{
    match action {
        Action::Load => Some(Event::Value(word.load())),
        Action::Store { value } => {
            word.store(value);
            Some(Event::Done)
        },
        Action::ElidedCas { current, new } => Some(
            Event::Exchanged(word.elided_compare_exchange(current, new)),
        ),
        Action::CasWeak { current, new, order } => Some(
            Event::Exchanged(word.compare_exchange_weak(current, new, order)),
        ),
        Action::ElidedFetchSub { delta } => Some(Event::Value(word.elided_fetch_sub(delta))),
        Action::SpinHint => {
            core::hint::spin_loop();
            Some(Event::Done)
        },
        Action::Yield | Action::Wait { .. } | Action::WakeOne | Action::Finished => None,
    }
}

} // verus!
