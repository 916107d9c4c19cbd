//! The hybrid mutex: elided fast path, bounded spin, then sleep on the word.

use vstd::prelude::*;
use crate::sync::{Action, Event, MemOrder, SPIN_LIMIT};

verus! {

/// Lock word of a mutex nobody holds.
pub const FREE: u64 = 0;

/// Lock word of a held mutex that nobody sleeps on.
pub const LOCKED: u64 = 1;

/// Lock word of a held mutex whose release must wake a sleeper.
pub const CONTENDED: u64 = 2;

/// Number of final spin rounds that also yield the processor.
pub const YIELD_ROUNDS: usize = 20;

/// Acquisition of the mutex.
#[derive(Clone, Copy, Debug, PartialEq, Eq, Structural)]
pub enum Lock {
    /// Look at the word before trying to elide.
    Probe,
    /// Elided attempt to take the free lock.
    Elide,
    /// Spin round `round`: attempt to take the free lock.
    Spin { round: usize },
    /// Spin round `round`: pause after a failed attempt.
    Relax { round: usize },
    /// Spin round `round`: give the processor away.
    Yield { round: usize },
    /// Look at the word before going to sleep.
    Inspect,
    /// Announce a sleeper on a held lock.
    Mark,
    /// Sleep until the word changes.
    Sleep,
    /// Attempt to take the free lock as a contended holder.
    Claim,
    /// The mutex is held.
    Held,
}

impl Lock {
    /// The phase that follows spin round `round`.
    pub open spec fn after_round(round: usize) -> Lock {
        if round < SPIN_LIMIT - 1 {
            Lock::Spin { round: (round + 1) as usize }
        } else {
            Lock::Inspect
        }
    }

    /// The operation this phase asks for.
    pub open spec fn action_spec(self) -> Action {
        match self {
            Lock::Probe | Lock::Inspect => Action::Load,
            Lock::Elide => Action::ElidedCas { current: FREE, new: LOCKED },
            Lock::Spin { .. } => Action::CasWeak {
                current: FREE,
                new: LOCKED,
                order: MemOrder::Acquire,
            },
            Lock::Relax { .. } => Action::SpinHint,
            Lock::Yield { .. } => Action::Yield,
            Lock::Mark => Action::CasWeak {
                current: LOCKED,
                new: CONTENDED,
                order: MemOrder::Acquire,
            },
            Lock::Sleep => Action::Wait { expected: CONTENDED },
            Lock::Claim => Action::CasWeak {
                current: FREE,
                new: CONTENDED,
                order: MemOrder::Acquire,
            },
            Lock::Held => Action::Finished,
        }
    }

    /// The phase that follows this one when its operation reports `event`.
    /// An event of the wrong kind leaves the phase as it is.
    pub open spec fn next(self, event: Event) -> Lock {
        match self {
            Lock::Probe => match event {
                Event::Value(seen) => if seen == FREE {
                    Lock::Elide
                } else {
                    Lock::Spin { round: 0 }
                },
                _ => self,
            },
            Lock::Elide => match event {
                Event::Exchanged(Ok(_)) => Lock::Held,
                Event::Exchanged(Err(_)) => Lock::Spin { round: 0 },
                _ => self,
            },
            Lock::Spin { round } => match event {
                Event::Exchanged(Ok(_)) => Lock::Held,
                Event::Exchanged(Err(_)) => Lock::Relax { round },
                _ => self,
            },
            Lock::Relax { round } => if round > SPIN_LIMIT - YIELD_ROUNDS {
                Lock::Yield { round }
            } else {
                Lock::after_round(round)
            },
            Lock::Yield { round } => Lock::after_round(round),
            Lock::Inspect => match event {
                Event::Value(seen) => if seen == CONTENDED {
                    Lock::Sleep
                } else {
                    Lock::Mark
                },
                _ => self,
            },
            Lock::Mark => match event {
                Event::Exchanged(Ok(_)) => Lock::Sleep,
                Event::Exchanged(Err(_)) => Lock::Claim,
                _ => self,
            },
            Lock::Sleep => Lock::Claim,
            Lock::Claim => match event {
                Event::Exchanged(Ok(_)) => Lock::Held,
                Event::Exchanged(Err(_)) => Lock::Inspect,
                _ => self,
            },
            Lock::Held => Lock::Held,
        }
    }

    /// Where every acquisition begins.
    pub fn start() -> (phase: Lock)
        ensures
            phase == Lock::Probe,
    {
        Lock::Probe
    }

    /// Whether the mutex is held.
    pub fn acquired(&self) -> (held: bool)
        ensures
            held <==> *self == Lock::Held,
            held <==> self.action_spec() is Finished,
    {
        match self {
            Lock::Held => true,
            _ => false,
        }
    }

    /// The operation to carry out next.
    pub fn action(&self) -> (action: Action)
        ensures
            action == self.action_spec(),
    {
        match self {
            Lock::Probe | Lock::Inspect => Action::Load,
            Lock::Elide => Action::ElidedCas { current: FREE, new: LOCKED },
            Lock::Spin { .. } => Action::CasWeak {
                current: FREE,
                new: LOCKED,
                order: MemOrder::Acquire,
            },
            Lock::Relax { .. } => Action::SpinHint,
            Lock::Yield { .. } => Action::Yield,
            Lock::Mark => Action::CasWeak {
                current: LOCKED,
                new: CONTENDED,
                order: MemOrder::Acquire,
            },
            Lock::Sleep => Action::Wait { expected: CONTENDED },
            Lock::Claim => Action::CasWeak {
                current: FREE,
                new: CONTENDED,
                order: MemOrder::Acquire,
            },
            Lock::Held => Action::Finished,
        }
    }

    fn round_done(round: usize) -> (phase: Lock)
        ensures
            phase == Lock::after_round(round),
    {
        if round < SPIN_LIMIT - 1 {
            Lock::Spin { round: round + 1 }
        } else {
            Lock::Inspect
        }
    }

    /// Takes the outcome of the pending operation and moves to the next phase.
    pub fn step(self, event: Event) -> (phase: Lock)
        ensures
            phase == self.next(event),
    {
        match self {
            Lock::Probe => match event {
                Event::Value(seen) => if seen == FREE {
                    Lock::Elide
                } else {
                    Lock::Spin { round: 0 }
                },
                _ => self,
            },
            Lock::Elide => match event {
                Event::Exchanged(Ok(_)) => Lock::Held,
                Event::Exchanged(Err(_)) => Lock::Spin { round: 0 },
                _ => self,
            },
            Lock::Spin { round } => match event {
                Event::Exchanged(Ok(_)) => Lock::Held,
                Event::Exchanged(Err(_)) => Lock::Relax { round },
                _ => self,
            },
            Lock::Relax { round } => if round > SPIN_LIMIT - YIELD_ROUNDS {
                Lock::Yield { round }
            } else {
                Lock::round_done(round)
            },
            Lock::Yield { round } => Lock::round_done(round),
            Lock::Inspect => match event {
                Event::Value(seen) => if seen == CONTENDED {
                    Lock::Sleep
                } else {
                    Lock::Mark
                },
                _ => self,
            },
            Lock::Mark => match event {
                Event::Exchanged(Ok(_)) => Lock::Sleep,
                Event::Exchanged(Err(_)) => Lock::Claim,
                _ => self,
            },
            Lock::Sleep => Lock::Claim,
            Lock::Claim => match event {
                Event::Exchanged(Ok(_)) => Lock::Held,
                Event::Exchanged(Err(_)) => Lock::Inspect,
                _ => self,
            },
            Lock::Held => Lock::Held,
        }
    }
}

/// Release of the mutex.
#[derive(Clone, Copy, Debug, PartialEq, Eq, Structural)]
pub enum Unlock {
    /// Give the lock up and learn whether anybody sleeps on it.
    Drop,
    /// Clear what is left of the contended state.
    Reset,
    /// Wake one sleeper.
    Wake,
    /// The mutex is released.
    Released,
}

impl Unlock {
    /// The operation this phase asks for.
    pub open spec fn action_spec(self) -> Action {
        match self {
            Unlock::Drop => Action::ElidedFetchSub { delta: 1 },
            Unlock::Reset => Action::Store { value: FREE },
            Unlock::Wake => Action::WakeOne,
            Unlock::Released => Action::Finished,
        }
    }

    /// The phase that follows this one when its operation reports `event`.
    /// An event of the wrong kind leaves the phase as it is.
    pub open spec fn next(self, event: Event) -> Unlock {
        match self {
            Unlock::Drop => match event {
                Event::Value(previous) => if previous == CONTENDED {
                    Unlock::Reset
                } else {
                    Unlock::Released
                },
                _ => self,
            },
            Unlock::Reset => Unlock::Wake,
            Unlock::Wake => Unlock::Released,
            Unlock::Released => Unlock::Released,
        }
    }

    /// Where every release begins.
    pub fn start() -> (phase: Unlock)
        ensures
            phase == Unlock::Drop,
    {
        Unlock::Drop
    }

    /// Whether the release is complete.
    pub fn released(&self) -> (done: bool)
        ensures
            done <==> *self == Unlock::Released,
            done <==> self.action_spec() is Finished,
    {
        match self {
            Unlock::Released => true,
            _ => false,
        }
    }

    /// The operation to carry out next.
    pub fn action(&self) -> (action: Action)
        ensures
            action == self.action_spec(),
    {
        match self {
            Unlock::Drop => Action::ElidedFetchSub { delta: 1 },
            Unlock::Reset => Action::Store { value: FREE },
            Unlock::Wake => Action::WakeOne,
            Unlock::Released => Action::Finished,
        }
    }

    /// Takes the outcome of the pending operation and moves to the next phase.
    pub fn step(self, event: Event) -> (phase: Unlock)
        ensures
            phase == self.next(event),
    {
        match self {
            Unlock::Drop => match event {
                Event::Value(previous) => if previous == CONTENDED {
                    Unlock::Reset
                } else {
                    Unlock::Released
                },
                _ => self,
            },
            Unlock::Reset => Unlock::Wake,
            Unlock::Wake => Unlock::Released,
            Unlock::Released => Unlock::Released,
        }
    }
}

} // verus!
