//! Why the mutex excludes: a model of any number of parties that share one
//! lock word and one counter, each running the acquisition and release
//! automata of [`crate::sync::mutex`] with arbitrary interleaving.
//!
//! Every party repeats the same round for ever: acquire, read the counter,
//! write back one more, release. The read and the write are separate steps, so
//! without the lock increments could be lost.

use vstd::prelude::*;
use crate::sync::Event;
use crate::sync::mutex::{Lock, Unlock, FREE, LOCKED, CONTENDED};

verus! {

/// What one party is doing.
pub enum Party {
    /// Outside the lock, not asking for it.
    Idle,
    /// Acquiring; `Locking(Lock::Held)` has just acquired.
    Locking(Lock),
    /// Inside the critical section, having read `seen` from the counter.
    Writing { seen: int },
    /// Releasing; `Unlocking(Unlock::Released)` has just released.
    Unlocking(Unlock),
}

/// The shared state and every party's private state.
pub struct World {
    pub word: u64,
    pub counter: int,
    pub parties: Seq<Party>,
    /// How many rounds each party has completed.
    pub rounds: Seq<nat>,
}

/// Sum of all entries.
pub open spec fn total(rounds: Seq<nat>) -> nat
    decreases rounds.len(),
{
    if rounds.len() == 0 {
        0
    } else {
        total(rounds.drop_last()) + rounds.last()
    }
}

impl Party {
    /// Whether the party is inside its critical section.
    pub open spec fn critical(self) -> bool {
        self == Party::Locking(Lock::Held) || self is Writing
    }

    /// Whether the lock word still stands for this party: from the moment it
    /// acquires until it has given the word back.
    pub open spec fn claims(self) -> bool {
        ||| self.critical()
        ||| self == Party::Unlocking(Unlock::Drop)
        ||| self == Party::Unlocking(Unlock::Reset)
    }
}

impl World {
    /// A world of `n` idle parties around a free lock and a zero counter.
    pub open spec fn initial(n: nat) -> World {
        World {
            word: FREE,
            counter: 0,
            parties: Seq::new(n, |i: int| Party::Idle),
            rounds: Seq::new(n, |i: int| 0nat),
        }
    }

    /// Party `t` takes one step, in which its pending operation reports
    /// `event`, and the world becomes `after`.
    pub open spec fn step(self, t: int, event: Event, after: World) -> bool {
        &&& 0 <= t < self.parties.len()
        &&& match self.parties[t] {
            Party::Idle => after == World {
                parties: self.parties.update(t, Party::Locking(Lock::Probe)),
                ..self
            },
            Party::Locking(Lock::Held) => after == World {
                parties: self.parties.update(t, Party::Writing { seen: self.counter }),
                ..self
            },
            Party::Locking(phase) => {
                &&& phase.action_spec().effect(self.word, event, after.word)
                &&& after == World {
                    word: after.word,
                    parties: self.parties.update(t, Party::Locking(phase.next(event))),
                    ..self
                }
            },
            Party::Writing { seen } => after == World {
                counter: seen + 1,
                parties: self.parties.update(t, Party::Unlocking(Unlock::Drop)),
                rounds: self.rounds.update(t, self.rounds[t] + 1),
                ..self
            },
            Party::Unlocking(Unlock::Released) => after == World {
                parties: self.parties.update(t, Party::Idle),
                ..self
            },
            Party::Unlocking(phase) => {
                &&& phase.action_spec().effect(self.word, event, after.word)
                &&& after == World {
                    word: after.word,
                    parties: self.parties.update(t, Party::Unlocking(phase.next(event))),
                    ..self
                }
            },
        }
    }

    /// What holds of every world that the parties can reach.
    pub open spec fn coherent(self) -> bool {
        &&& self.rounds.len() == self.parties.len()
        &&& self.word == FREE || self.word == LOCKED || self.word == CONTENDED
        &&& forall|i: int, j: int|
            0 <= i < self.parties.len() && 0 <= j < self.parties.len() && i != j ==> !(
            #[trigger] self.parties[i].claims() && #[trigger] self.parties[j].claims())
        &&& forall|i: int|
            0 <= i < self.parties.len() && #[trigger] self.parties[i].claims() ==> self.word
                != FREE
        &&& self.word != FREE ==> exists|i: int|
            0 <= i < self.parties.len() && #[trigger] self.parties[i].claims()
        &&& forall|i: int|
            0 <= i < self.parties.len() ==> (#[trigger] self.parties[i] matches Party::Writing {
                seen,
            } ==> seen == self.counter)
        &&& self.counter == total(self.rounds)
    }
}

/// Raising one entry by one raises the sum by one.
pub proof fn lemma_total_update(rounds: Seq<nat>, t: int)
    requires
        0 <= t < rounds.len(),
    ensures
        total(rounds.update(t, rounds[t] + 1)) == total(rounds) + 1,
    decreases rounds.len(),
{
    let raised = rounds.update(t, rounds[t] + 1);
    if t == rounds.len() - 1 {
        assert(raised.drop_last() =~= rounds.drop_last());
    } else {
        lemma_total_update(rounds.drop_last(), t);
        assert(raised.drop_last() =~= rounds.drop_last().update(t, rounds[t] + 1));
    }
}

/// The sum of `n` entries that all equal `each` is `n * each`.
pub proof fn lemma_total_uniform(rounds: Seq<nat>, each: nat)
    requires
        forall|i: int| 0 <= i < rounds.len() ==> rounds[i] == each,
    ensures
        total(rounds) == rounds.len() * each,
    decreases rounds.len(),
{
    if rounds.len() > 0 {
        lemma_total_uniform(rounds.drop_last(), each);
        assert(rounds.len() * each == (rounds.len() - 1) * each + each) by (nonlinear_arith);
    }
}

/// The initial world is coherent.
pub proof fn lemma_initial_coherent(n: nat)
    ensures
        World::initial(n).coherent(),
{
    let w = World::initial(n);
    lemma_total_uniform(w.rounds, 0);
}

/// One step of an acquisition either takes a free word, or leaves the word
/// as it is, or marks a held word as contended.
pub proof fn lemma_lock_step(phase: Lock, word: u64, event: Event, after: u64)
    requires
        phase != Lock::Held,
        phase.action_spec().effect(word, event, after),
    ensures
        phase.next(event) == Lock::Held ==> word == FREE && (after == LOCKED || after
            == CONTENDED),
        phase.next(event) != Lock::Held ==> after == word || (word == LOCKED && after
            == CONTENDED),
{
}

/// One step of a release by the party that the word stands for: giving the
/// lock up frees an uncontended word and leaves a contended one held until
/// the reset frees it; waking leaves the word alone.
pub proof fn lemma_unlock_step(phase: Unlock, word: u64, event: Event, after: u64)
    requires
        phase != Unlock::Released,
        phase.action_spec().effect(word, event, after),
        phase != Unlock::Wake ==> word == LOCKED || word == CONTENDED,
    ensures
        phase == Unlock::Drop && word == LOCKED ==> after == FREE && phase.next(event)
            == Unlock::Released,
        phase == Unlock::Drop && word == CONTENDED ==> after == LOCKED && phase.next(event)
            == Unlock::Reset,
        phase == Unlock::Reset ==> after == FREE && phase.next(event) == Unlock::Wake,
        phase == Unlock::Wake ==> after == word && phase.next(event) == Unlock::Released,
{
}

/// Every step of every party preserves coherence, whatever the interleaving
/// and whatever the operations report within their semantics.
pub proof fn lemma_step_preserves_coherence(before: World, t: int, event: Event, after: World)
    requires
        before.coherent(),
        before.step(t, event, after),
    ensures
        after.coherent(),
{
    let old_party = before.parties[t];
    let new_party = after.parties[t];
    assert(after.parties.len() == before.parties.len());
    assert(forall|i: int|
        0 <= i < before.parties.len() && i != t ==> after.parties[i] == before.parties[i]);
    // What the step does to the claim of party `t` and to the word.
    let took = !old_party.claims() && new_party.claims();
    let gave = old_party.claims() && !new_party.claims();
    match old_party {
        Party::Idle => {},
        Party::Locking(phase) => {
            if phase != Lock::Held {
                lemma_lock_step(phase, before.word, event, after.word);
            }
        },
        Party::Writing { seen } => {
            assert(old_party.claims());
            lemma_total_update(before.rounds, t);
        },
        Party::Unlocking(phase) => {
            if phase != Unlock::Released {
                if phase != Unlock::Wake {
                    assert(old_party.claims());
                }
                lemma_unlock_step(phase, before.word, event, after.word);
            }
        },
    }
    assert(took ==> before.word == FREE && after.word != FREE);
    assert(gave ==> after.word == FREE);
    assert(!took && !gave ==> (after.word == FREE <==> before.word == FREE));
    assert(after.word == FREE || after.word == LOCKED || after.word == CONTENDED);
    assert forall|i: int, j: int|
        0 <= i < after.parties.len() && 0 <= j < after.parties.len() && i != j implies !(
    #[trigger] after.parties[i].claims() && #[trigger] after.parties[j].claims()) by {
        if after.parties[i].claims() && after.parties[j].claims() {
            if i == t {
                assert(before.parties[j].claims());
                assert(before.parties[i].claims() || took);
            } else if j == t {
                assert(before.parties[i].claims());
                assert(before.parties[j].claims() || took);
            } else {
                assert(before.parties[i].claims() && before.parties[j].claims());
            }
        }
    }
    assert forall|i: int|
        0 <= i < after.parties.len() && #[trigger] after.parties[i].claims() implies after.word
        != FREE by {
        if i != t {
            assert(before.parties[i].claims());
            assert(!old_party.claims());
        }
    }
    if after.word != FREE {
        if new_party.claims() {
            assert(after.parties[t].claims());
        } else {
            assert(!gave);
            assert(before.word != FREE);
            let k = choose|k: int| 0 <= k < before.parties.len() && before.parties[k].claims();
            assert(before.parties[k].claims());
            assert(k != t);
            assert(after.parties[k].claims());
        }
    }
    assert forall|i: int| 0 <= i < after.parties.len() implies (
    #[trigger] after.parties[i] matches Party::Writing { seen } ==> seen == after.counter) by {
        if i != t {
            if after.parties[i] is Writing {
                assert(before.parties[i].claims());
                assert(!old_party.claims());
            }
        }
    }
}

/// Mutual exclusion: in a world that is coherent no two parties
/// are inside their critical sections at once.
pub proof fn lemma_mutual_exclusion(world: World, i: int, j: int)
    requires
        world.coherent(),
        0 <= i < world.parties.len(),
        0 <= j < world.parties.len(),
        i != j,
    ensures
        !(world.parties[i].critical() && world.parties[j].critical()),
{
    if world.parties[i].critical() && world.parties[j].critical() {
        assert(world.parties[i].claims() && world.parties[j].claims());
    }
}

/// No increment is lost: the counter equals the number of completed rounds.
/// In particular, once each of the parties has completed `each` rounds, the
/// counter holds the number of parties times `each`.
pub proof fn lemma_counter_exact(world: World, each: nat)
    requires
        world.coherent(),
        forall|i: int| 0 <= i < world.rounds.len() ==> world.rounds[i] == each,
    ensures
        world.counter == world.parties.len() * each,
{
    lemma_total_uniform(world.rounds, each);
}

/// Whether `worlds` is an execution of `n` parties: it begins with the
/// initial world, and each world follows from the one before by a step of
/// party `movers[k]` whose operation reports `events[k]`.
pub open spec fn execution(n: nat, worlds: Seq<World>, movers: Seq<int>, events: Seq<Event>) -> bool {
    &&& worlds.len() == movers.len() + 1
    &&& worlds.len() == events.len() + 1
    &&& worlds[0] == World::initial(n)
    &&& forall|k: int|
        #![trigger worlds[k]]
        0 <= k < movers.len() ==> worlds[k].step(movers[k], events[k], worlds[k + 1])
}

/// Every world of every execution is coherent.
pub proof fn lemma_execution_coherent(
    n: nat,
    worlds: Seq<World>,
    movers: Seq<int>,
    events: Seq<Event>,
    k: int,
)
    requires
        execution(n, worlds, movers, events),
        0 <= k < worlds.len(),
    ensures
        worlds[k].coherent(),
    decreases k,
{
    if k == 0 {
        lemma_initial_coherent(n);
    } else {
        lemma_execution_coherent(n, worlds, movers, events, k - 1);
        assert(worlds[k - 1].step(movers[k - 1], events[k - 1], worlds[k]));
        lemma_step_preserves_coherence(worlds[k - 1], movers[k - 1], events[k - 1], worlds[k]);
    }
}

/// In every execution, however the parties' steps interleave, no two parties
/// are ever inside their critical sections at once, and whenever each party
/// has completed `each` rounds the counter holds the number of parties times
/// `each`.
pub proof fn lemma_execution_exact(
    n: nat,
    worlds: Seq<World>,
    movers: Seq<int>,
    events: Seq<Event>,
    k: int,
    each: nat,
)
    requires
        execution(n, worlds, movers, events),
        0 <= k < worlds.len(),
    ensures
        forall|i: int, j: int|
            0 <= i < worlds[k].parties.len() && 0 <= j < worlds[k].parties.len() && i != j ==> !(
            #[trigger] worlds[k].parties[i].critical() && #[trigger] worlds[k].parties[j].critical()),
        (forall|i: int| 0 <= i < worlds[k].rounds.len() ==> worlds[k].rounds[i] == each)
            ==> worlds[k].counter == worlds[k].parties.len() * each,
{
    lemma_execution_coherent(n, worlds, movers, events, k);
    let world = worlds[k];
    assert forall|i: int, j: int|
        0 <= i < world.parties.len() && 0 <= j < world.parties.len() && i != j implies !(
    #[trigger] world.parties[i].critical() && #[trigger] world.parties[j].critical()) by {
        lemma_mutual_exclusion(world, i, j);
    }
    if forall|i: int| 0 <= i < world.rounds.len() ==> world.rounds[i] == each {
        lemma_counter_exact(world, each);
    }
}

} // verus!
