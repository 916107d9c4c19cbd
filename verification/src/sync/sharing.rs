//! Why the reader-writer lock keeps writers alone: a model of any number of
//! parties that share one lock word and one value, each running the automata
//! of [`crate::sync::rwlock`] with arbitrary interleaving.
//!
//! A writer changes the value in two steps, between which the value is torn.
//! A reader that holds the lock must never find it so.

use vstd::prelude::*;
use crate::sync::Event;
use crate::sync::rwlock::{ReadLock, WriteLock, RwUnlock, WRITE_LOCKED, RW_OPEN, departed};

verus! {

/// What one party is doing.
pub enum Party {
    /// Outside the lock, not asking for it.
    Idle,
    /// Acquiring shared access; `Reading(ReadLock::Held)` reads the value.
    Reading(ReadLock),
    /// Acquiring exclusive access; `Writing(WriteLock::Held)` has acquired.
    Writing(WriteLock),
    /// Half way through a write that started from `seen`.
    Mutating { seen: int },
    /// Releasing what it held, exclusive access or shared.
    Leaving { phase: RwUnlock, exclusive: bool },
}

/// The shared state and every party's private state.
pub struct World {
    pub word: u64,
    pub value: int,
    /// Whether a write to the value is half done.
    pub torn: bool,
    pub parties: Seq<Party>,
    /// How many writes have been completed.
    pub writes: nat,
}

impl RwUnlock {
    /// Whether the release has not yet given the lock word back.
    pub open spec fn holding(self) -> bool {
        self is Observe || self is Swap || self is Relax
    }
}

impl Party {
    /// Whether the party holds shared access.
    pub open spec fn shares(self) -> bool {
        ||| self == Party::Reading(ReadLock::Held)
        ||| self matches Party::Leaving { phase, exclusive } && !exclusive && phase.holding()
    }

    /// Whether the party holds exclusive access.
    pub open spec fn owns(self) -> bool {
        ||| self == Party::Writing(WriteLock::Held)
        ||| self is Mutating
        ||| self matches Party::Leaving { phase, exclusive } && exclusive && phase.holding()
    }

    /// A party that acquires shared access is in a well-formed phase.
    pub open spec fn wf(self) -> bool {
        self matches Party::Reading(phase) ==> phase.wf()
    }
}

/// Number of parties that hold shared access.
pub open spec fn readers(parties: Seq<Party>) -> nat
    decreases parties.len(),
{
    if parties.len() == 0 {
        0
    } else {
        readers(parties.drop_last()) + if parties.last().shares() {
            1nat
        } else {
            0nat
        }
    }
}

impl World {
    /// A world of `n` idle parties around an open lock.
    pub open spec fn initial(n: nat) -> World {
        World {
            word: RW_OPEN,
            value: 0,
            torn: false,
            parties: Seq::new(n, |i: int| Party::Idle),
            writes: 0,
        }
    }

    /// Party `t` takes one step, in which its pending operation reports
    /// `event`, and the world becomes `after`.
    pub open spec fn step(self, t: int, event: Event, after: World) -> bool {
        &&& 0 <= t < self.parties.len()
        &&& match self.parties[t] {
            Party::Idle => {
                ||| after == World {
                    parties: self.parties.update(t, Party::Reading(ReadLock::Probe)),
                    ..self
                }
                ||| after == World {
                    parties: self.parties.update(t, Party::Writing(WriteLock::Probe)),
                    ..self
                }
            },
            Party::Reading(ReadLock::Held) => after == World {
                parties: self.parties.update(
                    t,
                    Party::Leaving { phase: RwUnlock::Observe, exclusive: false },
                ),
                ..self
            },
            Party::Reading(phase) => {
                &&& phase.action_spec().effect(self.word, event, after.word)
                &&& after == World {
                    word: after.word,
                    parties: self.parties.update(t, Party::Reading(phase.next(event))),
                    ..self
                }
            },
            Party::Writing(WriteLock::Held) => after == World {
                torn: true,
                parties: self.parties.update(t, Party::Mutating { seen: self.value }),
                ..self
            },
            Party::Writing(phase) => {
                &&& phase.action_spec().effect(self.word, event, after.word)
                &&& after == World {
                    word: after.word,
                    parties: self.parties.update(t, Party::Writing(phase.next(event))),
                    ..self
                }
            },
            Party::Mutating { seen } => after == World {
                value: seen + 1,
                torn: false,
                parties: self.parties.update(
                    t,
                    Party::Leaving { phase: RwUnlock::Observe, exclusive: true },
                ),
                writes: self.writes + 1,
                ..self
            },
            Party::Leaving { phase: RwUnlock::Released, .. } => after == World {
                parties: self.parties.update(t, Party::Idle),
                ..self
            },
            Party::Leaving { phase, exclusive } => {
                &&& phase.action_spec().effect(self.word, event, after.word)
                &&& after == World {
                    word: after.word,
                    parties: self.parties.update(
                        t,
                        Party::Leaving { phase: phase.next(event), exclusive },
                    ),
                    ..self
                }
            },
        }
    }

    /// What holds of every world that the parties can reach.
    pub open spec fn coherent(self) -> bool {
        &&& forall|i: int| 0 <= i < self.parties.len() ==> (#[trigger] self.parties[i]).wf()
        &&& forall|i: int|
            0 <= i < self.parties.len() && #[trigger] self.parties[i].owns() ==> self.word
                == WRITE_LOCKED
        &&& forall|i: int, j: int|
            0 <= i < self.parties.len() && 0 <= j < self.parties.len() && i != j ==> !(
            #[trigger] self.parties[i].owns() && #[trigger] self.parties[j].owns())
        &&& self.word == WRITE_LOCKED ==> readers(self.parties) == 0
        &&& self.word != WRITE_LOCKED ==> self.word == 1 + readers(self.parties)
        &&& self.torn ==> self.word == WRITE_LOCKED
        &&& forall|i: int|
            0 <= i < self.parties.len() && #[trigger] self.parties[i].owns()
                && !(self.parties[i] is Mutating) ==> !self.torn
        &&& forall|i: int|
            0 <= i < self.parties.len() ==> (#[trigger] self.parties[i] matches Party::Mutating {
                seen,
            } ==> seen == self.value)
        &&& self.value == self.writes
    }
}

/// Replacing one party changes the number of readers by what that party
/// contributes before and after.
pub proof fn lemma_readers_update(parties: Seq<Party>, t: int, party: Party)
    requires
        0 <= t < parties.len(),
    ensures
        readers(parties.update(t, party)) + (if parties[t].shares() {
            1nat
        } else {
            0nat
        }) == readers(parties) + (if party.shares() {
            1nat
        } else {
            0nat
        }),
    decreases parties.len(),
{
    let changed = parties.update(t, party);
    if t == parties.len() - 1 {
        assert(changed.drop_last() =~= parties.drop_last());
    } else {
        lemma_readers_update(parties.drop_last(), t, party);
        assert(changed.drop_last() =~= parties.drop_last().update(t, party));
    }
}

/// A party that shares is counted.
pub proof fn lemma_readers_positive(parties: Seq<Party>, t: int)
    requires
        0 <= t < parties.len(),
        parties[t].shares(),
    ensures
        readers(parties) >= 1,
    decreases parties.len(),
{
    if t < parties.len() - 1 {
        lemma_readers_positive(parties.drop_last(), t);
    }
}

/// Parties that are all idle hold nothing.
pub proof fn lemma_readers_idle(parties: Seq<Party>)
    requires
        forall|i: int| 0 <= i < parties.len() ==> parties[i] == Party::Idle,
    ensures
        readers(parties) == 0,
    decreases parties.len(),
{
    if parties.len() > 0 {
        lemma_readers_idle(parties.drop_last());
    }
}

/// The initial world is coherent.
pub proof fn lemma_initial_coherent(n: nat)
    ensures
        World::initial(n).coherent(),
{
    lemma_readers_idle(World::initial(n).parties);
}

/// One step of a shared acquisition either adds the party to the count on a
/// word that no writer holds, or leaves the word as it is.
pub proof fn lemma_read_step(phase: ReadLock, word: u64, event: Event, after: u64)
    requires
        phase != ReadLock::Held,
        phase.wf(),
        phase.action_spec().effect(word, event, after),
    ensures
        phase.next(event).wf(),
        phase.next(event) == ReadLock::Held ==> word != WRITE_LOCKED && after == word + 1,
        phase.next(event) != ReadLock::Held ==> after == word,
{
}

/// One step of an exclusive acquisition either closes an open word, or leaves
/// the word as it is.
pub proof fn lemma_write_step(phase: WriteLock, word: u64, event: Event, after: u64)
    requires
        phase != WriteLock::Held,
        phase.action_spec().effect(word, event, after),
    ensures
        phase.next(event) == WriteLock::Held ==> word == RW_OPEN && after == WRITE_LOCKED,
        phase.next(event) != WriteLock::Held ==> after == word,
{
}

/// One step of a release on a word that is not open: the party stops holding
/// exactly when it replaces the word by the word without itself.
pub proof fn lemma_leave_step(phase: RwUnlock, word: u64, event: Event, after: u64)
    requires
        phase != RwUnlock::Released,
        phase.action_spec().effect(word, event, after),
        phase.holding() ==> word != RW_OPEN,
    ensures
        phase.holding() && !phase.next(event).holding() ==> after == departed(word),
        !(phase.holding() && !phase.next(event).holding()) ==> after == word,
        !phase.holding() ==> !phase.next(event).holding(),
{
}

/// Every step of every party preserves coherence, whatever the interleaving
/// and whatever the operations report within their semantics.
pub proof fn lemma_step_preserves_coherence(before: World, t: int, event: Event, after: World)
    requires
        before.coherent(),
        before.step(t, event, after),
    ensures
        after.coherent(),
{
    let old_party = before.parties[t];
    let new_party = after.parties[t];
    assert(after.parties.len() == before.parties.len());
    assert(after.parties == before.parties.update(t, new_party));
    assert(forall|i: int|
        0 <= i < before.parties.len() && i != t ==> after.parties[i] == before.parties[i]);
    lemma_readers_update(before.parties, t, new_party);
    assert(old_party.wf());
    if old_party.shares() {
        lemma_readers_positive(before.parties, t);
    }
    match old_party {
        Party::Idle => {},
        Party::Reading(phase) => {
            if phase != ReadLock::Held {
                lemma_read_step(phase, before.word, event, after.word);
            }
        },
        Party::Writing(phase) => {
            if phase != WriteLock::Held {
                lemma_write_step(phase, before.word, event, after.word);
            } else {
                assert(old_party.owns());
            }
        },
        Party::Mutating { seen } => {
            assert(old_party.owns());
        },
        Party::Leaving { phase, exclusive } => {
            if phase != RwUnlock::Released {
                if phase.holding() {
                    assert(old_party.owns() || old_party.shares());
                }
                lemma_leave_step(phase, before.word, event, after.word);
            }
        },
    }
    let took = !old_party.owns() && new_party.owns();
    let gave = old_party.owns() && !new_party.owns();
    assert(took ==> before.word == RW_OPEN && after.word == WRITE_LOCKED);
    assert(gave ==> after.word == RW_OPEN);
    assert(new_party.wf());
    assert forall|i: int| 0 <= i < after.parties.len() implies (#[trigger] after.parties[i]).wf() by {
        if i != t {
            assert(before.parties[i].wf());
        }
    }
    assert forall|i: int|
        0 <= i < after.parties.len() && #[trigger] after.parties[i].owns() implies after.word
        == WRITE_LOCKED by {
        if i != t {
            assert(before.parties[i].owns());
            assert(!old_party.owns());
        }
    }
    assert forall|i: int, j: int|
        0 <= i < after.parties.len() && 0 <= j < after.parties.len() && i != j implies !(
    #[trigger] after.parties[i].owns() && #[trigger] after.parties[j].owns()) by {
        if after.parties[i].owns() && after.parties[j].owns() {
            if i == t {
                assert(before.parties[j].owns());
            } else if j == t {
                assert(before.parties[i].owns());
            } else {
                assert(before.parties[i].owns() && before.parties[j].owns());
            }
        }
    }
    assert forall|i: int|
        0 <= i < after.parties.len() && #[trigger] after.parties[i].owns() && !(
        after.parties[i] is Mutating) implies !after.torn by {
        if i != t {
            assert(before.parties[i].owns());
            assert(!old_party.owns());
        }
    }
    assert forall|i: int| 0 <= i < after.parties.len() implies (
    #[trigger] after.parties[i] matches Party::Mutating { seen } ==> seen == after.value) by {
        if i != t {
            if after.parties[i] is Mutating {
                assert(before.parties[i].owns());
                assert(!old_party.owns());
            }
        }
    }
}

/// Writers are alone: in a coherent world a party that holds exclusive access
/// is the only party that holds anything.
pub proof fn lemma_writer_alone(world: World, i: int, j: int)
    requires
        world.coherent(),
        0 <= i < world.parties.len(),
        0 <= j < world.parties.len(),
        i != j,
        world.parties[i].owns(),
    ensures
        !world.parties[j].owns(),
        !world.parties[j].shares(),
{
    if world.parties[j].shares() {
        lemma_readers_positive(world.parties, j);
    }
}

/// Readers never see a torn value: while any party holds shared access, no
/// write is half done.
pub proof fn lemma_readers_see_whole_value(world: World, i: int)
    requires
        world.coherent(),
        0 <= i < world.parties.len(),
        world.parties[i].shares(),
    ensures
        !world.torn,
{
    lemma_readers_positive(world.parties, i);
}

/// No write is lost: the value equals the number of completed writes.
pub proof fn lemma_value_exact(world: World)
    requires
        world.coherent(),
    ensures
        world.value == world.writes,
{
}

/// Whether `worlds` is an execution of `n` parties: it begins with the
/// initial world, and each world follows from the one before by a step of
/// party `movers[k]` whose operation reports `events[k]`.
pub open spec fn execution(n: nat, worlds: Seq<World>, movers: Seq<int>, events: Seq<Event>) -> bool {
    &&& worlds.len() == movers.len() + 1
    &&& worlds.len() == events.len() + 1
    &&& worlds[0] == World::initial(n)
    &&& forall|k: int|
        #![trigger worlds[k]]
        0 <= k < movers.len() ==> worlds[k].step(movers[k], events[k], worlds[k + 1])
}

/// Every world of every execution is coherent.
pub proof fn lemma_execution_coherent(
    n: nat,
    worlds: Seq<World>,
    movers: Seq<int>,
    events: Seq<Event>,
    k: int,
)
    requires
        execution(n, worlds, movers, events),
        0 <= k < worlds.len(),
    ensures
        worlds[k].coherent(),
    decreases k,
{
    if k == 0 {
        lemma_initial_coherent(n);
    } else {
        lemma_execution_coherent(n, worlds, movers, events, k - 1);
        assert(worlds[k - 1].step(movers[k - 1], events[k - 1], worlds[k]));
        lemma_step_preserves_coherence(worlds[k - 1], movers[k - 1], events[k - 1], worlds[k]);
    }
}

/// In every execution, however the parties' steps interleave, a party that
/// holds shared access never finds the value torn, and the value always
/// equals the number of writes that have been completed.
pub proof fn lemma_execution_exact(
    n: nat,
    worlds: Seq<World>,
    movers: Seq<int>,
    events: Seq<Event>,
    k: int,
)
    requires
        execution(n, worlds, movers, events),
        0 <= k < worlds.len(),
    ensures
        forall|i: int|
            0 <= i < worlds[k].parties.len() && #[trigger] worlds[k].parties[i].shares()
                ==> !worlds[k].torn,
        worlds[k].value == worlds[k].writes,
{
    lemma_execution_coherent(n, worlds, movers, events, k);
    let world = worlds[k];
    assert forall|i: int|
        0 <= i < world.parties.len() && #[trigger] world.parties[i].shares() implies !world.torn by {
        lemma_readers_see_whole_value(world, i);
    }
}

} // verus!
