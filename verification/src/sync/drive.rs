//! Driving a lock automaton on a real lock word.
//!
//! The driver carries out every operation that needs nothing but the word
//! and stops when the automaton asks for a system call or has finished. The
//! host performs the system call, feeds its return value to the automaton,
//! and calls the driver again.

use vstd::prelude::*;
use crate::sync::elision::{perform, Word};
use crate::sync::mutex::{Lock, Unlock};
use crate::sync::rwlock::{ReadLock, RwUnlock, WriteLock};
use crate::sync::{Action, Event};

verus! {

/// A lock operation as a step machine.
pub trait Automaton: Sized {
    /// The operation that the machine asks for.
    spec fn pending(&self) -> Action;

    /// The machine after its operation has reported `event`.
    spec fn after(self, event: Event) -> Self;

    fn pending_action(&self) -> (action: Action)
        ensures
            action == self.pending(),
    ;

    fn advance(self, event: Event) -> (machine: Self)
        ensures
            machine == self.after(event),
    ;
}

impl Automaton for Lock {
    open spec fn pending(&self) -> Action {
        self.action_spec()
    }

    open spec fn after(self, event: Event) -> Self {
        self.next(event)
    }

    fn pending_action(&self) -> (action: Action) {
        self.action()
    }

    fn advance(self, event: Event) -> (machine: Self) {
        self.step(event)
    }
}

impl Automaton for Unlock {
    open spec fn pending(&self) -> Action {
        self.action_spec()
    }

    open spec fn after(self, event: Event) -> Self {
        self.next(event)
    }

    fn pending_action(&self) -> (action: Action) {
        self.action()
    }

    fn advance(self, event: Event) -> (machine: Self) {
        self.step(event)
    }
}

impl Automaton for ReadLock {
    open spec fn pending(&self) -> Action {
        self.action_spec()
    }

    open spec fn after(self, event: Event) -> Self {
        self.next(event)
    }

    fn pending_action(&self) -> (action: Action) {
        self.action()
    }

    fn advance(self, event: Event) -> (machine: Self) {
        self.step(event)
    }
}

impl Automaton for WriteLock {
    open spec fn pending(&self) -> Action {
        self.action_spec()
    }

    open spec fn after(self, event: Event) -> Self {
        self.next(event)
    }

    fn pending_action(&self) -> (action: Action) {
        self.action()
    }

    fn advance(self, event: Event) -> (machine: Self) {
        self.step(event)
    }
}

impl Automaton for RwUnlock {
    open spec fn pending(&self) -> Action {
        self.action_spec()
    }

    open spec fn after(self, event: Event) -> Self {
        self.next(event)
    }

    fn pending_action(&self) -> (action: Action) {
        self.action()
    }

    fn advance(self, event: Event) -> (machine: Self) {
        self.step(event)
    }
}

/// Whether `to` is what `from` becomes after exactly `steps` operations on
/// the lock word, each answered by an event of its kind.
pub open spec fn reaches<M: Automaton>(from: M, to: M, steps: nat) -> bool
    decreases steps,
{
    if steps == 0 {
        from == to
    } else {
        exists|event: Event|
            {
                &&& !from.pending().needs_host()
                &&& from.pending().answered_by(event)
                &&& reaches(#[trigger] from.after(event), to, (steps - 1) as nat)
            }
    }
}

/// A run of steps can be extended by one more step at its end.
pub proof fn lemma_reaches_extend<M: Automaton>(from: M, middle: M, steps: nat, event: Event)
    requires
        reaches(from, middle, steps),
        !middle.pending().needs_host(),
        middle.pending().answered_by(event),
    ensures
        reaches(from, middle.after(event), steps + 1),
    decreases steps,
{
    if steps == 0 {
        assert(reaches(from.after(event), middle.after(event), 0));
    } else {
        let first = choose|first: Event|
            {
                &&& !from.pending().needs_host()
                &&& from.pending().answered_by(first)
                &&& reaches(#[trigger] from.after(first), middle, (steps - 1) as nat)
            };
        lemma_reaches_extend(from.after(first), middle, (steps - 1) as nat, event);
        assert(reaches(from.after(first), middle.after(event), steps as nat));
    }
}

/// What a run of the driver ended with.
#[derive(Clone, Copy, Debug, PartialEq, Eq)]
pub enum Halt {
    /// The machine asks for this system call, or has finished.
    Host(Action),
    /// The budget of operations is used up.
    Budget,
}

/// Runs `machine` on `word` until it asks for a system call or has finished,
/// but for at most `budget` operations.
///
/// What the operations report depends on the other threads that share the
/// word. Whatever they report, the machine that comes back is the one that
/// the reported events lead to, and the run has stopped for the reason
/// given.
pub fn run<M: Automaton, W: Word>(machine: M, word: &mut W, budget: usize) -> (end: (M, Halt))
    ensures
        final(word).exclusive() == old(word).exclusive(),
        exists|steps: nat| steps <= budget && #[trigger] reaches(machine, end.0, steps),
        end.1 matches Halt::Host(action) ==> action == end.0.pending() && action.needs_host(),
        end.1 is Budget ==> reaches(machine, end.0, budget as nat),
{
    let mut current: M = machine;
    let mut done: usize = 0;
    while done < budget
        invariant
            done <= budget,
            word.exclusive() == old(word).exclusive(),
            reaches(machine, current, done as nat),
        decreases budget - done,
    {
        let action: Action = current.pending_action();
        match perform(word, action) {
            None => {
                return (current, Halt::Host(action));
            },
            Some(event) => {
                proof {
                    lemma_reaches_extend(machine, current, done as nat, event);
                }
                current = current.advance(event);
                done = done + 1;
            },
        }
    }
    (current, Halt::Budget)
}

} // verus!
