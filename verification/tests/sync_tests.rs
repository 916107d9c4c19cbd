use bare_runtime::sync::drive::{run, Automaton, Halt};
use bare_runtime::sync::elision::{perform, AtomicElisionExt, PrivateWord, SharedWord};
use bare_runtime::sync::mutex::{Lock, Unlock, CONTENDED, FREE, LOCKED};
use bare_runtime::sync::rwlock::{ReadLock, RwUnlock, WriteLock, RW_OPEN, WRITE_LOCKED};
use bare_runtime::sync::{
    futex_wait, futex_wake_one, Action, Event, FutexCall, MemOrder, FUTEX_CMD_MASK,
    FUTEX_PRIVATE_FLAG, FUTEX_WAIT, FUTEX_WAIT_PRIVATE, FUTEX_WAKE, FUTEX_WAKE_PRIVATE, SPIN_LIMIT,
};
use std::sync::atomic::{AtomicU64, Ordering};

const EAGAIN_RETURN: usize = usize::MAX - 10;

/// Runs a machine to its end on `word`, standing in for the host: every
/// system call returns at once and reports `raw`.
fn drive<M: Automaton>(start: M, word: &AtomicU64, raw: usize) -> M {
    let mut machine = start;
    loop {
        let (next, halt) = run(machine, &mut SharedWord { word }, 64);
        machine = next;
        match halt {
            Halt::Budget => {}
            Halt::Host(Action::Finished) => return machine,
            Halt::Host(_) => {
                machine = machine.advance(Event::Returned(raw));
            }
        }
    }
}

#[test]
fn futex_calls_carry_private_operations() {
    assert_eq!(futex_wait(2), FutexCall { operation: 128, value: 2 });
    assert_eq!(futex_wait(0), FutexCall { operation: FUTEX_WAIT_PRIVATE, value: 0 });
    assert_eq!(futex_wake_one(), FutexCall { operation: 129, value: 1 });
    assert_eq!(FUTEX_WAIT_PRIVATE, FUTEX_WAIT | FUTEX_PRIVATE_FLAG);
    assert_eq!(FUTEX_WAKE_PRIVATE, FUTEX_WAKE | FUTEX_PRIVATE_FLAG);
    assert_eq!(FUTEX_CMD_MASK, !(128u64 | 256u64));
}

#[test]
fn elision_primitives_behave_like_plain_atomics() {
    let word = AtomicU64::new(5);
    assert_eq!(word.elision_compare_exchange_acquire(5, 9), Ok(5));
    assert_eq!(word.load(Ordering::SeqCst), 9);
    assert_eq!(word.elision_compare_exchange_acquire(5, 1), Err(9));
    assert_eq!(word.load(Ordering::SeqCst), 9);
    assert_eq!(word.elision_fetch_sub_release(4), 9);
    assert_eq!(word.load(Ordering::SeqCst), 5);
    let zero = AtomicU64::new(0);
    assert_eq!(zero.elision_fetch_sub_release(1), 0);
    assert_eq!(zero.load(Ordering::SeqCst), u64::MAX);
}

#[test]
fn perform_carries_out_word_operations_only() {
    let word = AtomicU64::new(1);
    assert_eq!(perform(&mut SharedWord { word: &word }, Action::Load), Some(Event::Value(1)));
    assert_eq!(perform(&mut SharedWord { word: &word }, Action::Store { value: 7 }), Some(Event::Done));
    assert_eq!(word.load(Ordering::SeqCst), 7);
    assert_eq!(
        perform(&mut SharedWord { word: &word }, Action::ElidedCas { current: 7, new: 8 }),
        Some(Event::Exchanged(Ok(7)))
    );
    assert_eq!(
        perform(&mut SharedWord { word: &word }, Action::ElidedCas { current: 7, new: 9 }),
        Some(Event::Exchanged(Err(8)))
    );
    assert_eq!(
        perform(&mut SharedWord { word: &word }, Action::CasWeak { current: 3, new: 4, order: MemOrder::Release }),
        Some(Event::Exchanged(Err(8)))
    );
    assert_eq!(perform(&mut SharedWord { word: &word }, Action::ElidedFetchSub { delta: 2 }), Some(Event::Value(8)));
    assert_eq!(word.load(Ordering::SeqCst), 6);
    assert_eq!(perform(&mut SharedWord { word: &word }, Action::SpinHint), Some(Event::Done));
    assert_eq!(perform(&mut SharedWord { word: &word }, Action::Yield), None);
    assert_eq!(perform(&mut SharedWord { word: &word }, Action::Wait { expected: 6 }), None);
    assert_eq!(perform(&mut SharedWord { word: &word }, Action::WakeOne), None);
    assert_eq!(perform(&mut SharedWord { word: &word }, Action::Finished), None);
    assert_eq!(word.load(Ordering::SeqCst), 6);
}

#[test]
fn private_word_follows_the_atomic_semantics() {
    let mut word = PrivateWord { value: 1 };
    assert_eq!(perform(&mut word, Action::Load), Some(Event::Value(1)));
    assert_eq!(
        perform(&mut word, Action::ElidedCas { current: 1, new: 2 }),
        Some(Event::Exchanged(Ok(1)))
    );
    assert_eq!(
        perform(&mut word, Action::CasWeak { current: 1, new: 0, order: MemOrder::Acquire }),
        Some(Event::Exchanged(Err(2)))
    );
    assert_eq!(perform(&mut word, Action::ElidedFetchSub { delta: 3 }), Some(Event::Value(2)));
    assert_eq!(word.value, u64::MAX);
    assert_eq!(perform(&mut word, Action::Store { value: 0 }), Some(Event::Done));
    assert_eq!(perform(&mut word, Action::Wait { expected: 0 }), None);
    assert_eq!(word.value, 0);
    let (lock, halt) = run(Lock::start(), &mut word, 10);
    assert_eq!((lock, halt), (Lock::Held, Halt::Host(Action::Finished)));
    assert_eq!(word.value, LOCKED);
    let (unlock, halt) = run(Unlock::start(), &mut word, 10);
    assert_eq!((unlock, halt), (Unlock::Released, Halt::Host(Action::Finished)));
    assert_eq!(word.value, FREE);
}

#[test]
fn uncontended_lock_takes_the_elided_path() {
    let lock = Lock::start();
    assert_eq!(lock, Lock::Probe);
    assert_eq!(lock.action(), Action::Load);
    let lock = lock.step(Event::Value(FREE));
    assert_eq!(lock, Lock::Elide);
    assert_eq!(lock.action(), Action::ElidedCas { current: FREE, new: LOCKED });
    let lock = lock.step(Event::Exchanged(Ok(FREE)));
    assert_eq!(lock, Lock::Held);
    assert!(lock.acquired());
    assert_eq!(lock.action(), Action::Finished);
    assert_eq!(lock.step(Event::Done), Lock::Held);
}

#[test]
fn contended_lock_spins_two_hundred_rounds_then_sleeps() {
    let mut lock = Lock::start().step(Event::Value(LOCKED));
    let mut attempts = 0;
    let mut hints = 0;
    let mut yields = 0;
    loop {
        match lock.action() {
            Action::CasWeak { current, new, order } => {
                assert_eq!((current, new, order), (FREE, LOCKED, MemOrder::Acquire));
                attempts += 1;
                lock = lock.step(Event::Exchanged(Err(LOCKED)));
            }
            Action::SpinHint => {
                hints += 1;
                lock = lock.step(Event::Done);
            }
            Action::Yield => {
                yields += 1;
                lock = lock.step(Event::Returned(0));
            }
            _ => break,
        }
    }
    assert_eq!(attempts, SPIN_LIMIT);
    assert_eq!(hints, SPIN_LIMIT);
    assert_eq!(yields, 19);
    assert_eq!(lock, Lock::Inspect);
    assert_eq!(lock.action(), Action::Load);
}

#[test]
fn spin_round_yields_only_near_the_end_of_the_budget() {
    assert_eq!(Lock::Relax { round: 0 }.step(Event::Done), Lock::Spin { round: 1 });
    assert_eq!(Lock::Relax { round: 180 }.step(Event::Done), Lock::Spin { round: 181 });
    assert_eq!(Lock::Relax { round: 181 }.step(Event::Done), Lock::Yield { round: 181 });
    assert_eq!(Lock::Yield { round: 181 }.step(Event::Returned(0)), Lock::Spin { round: 182 });
    assert_eq!(Lock::Relax { round: 199 }.step(Event::Done), Lock::Yield { round: 199 });
    assert_eq!(Lock::Yield { round: 199 }.step(Event::Returned(0)), Lock::Inspect);
    assert_eq!(Lock::Yield { round: usize::MAX }.step(Event::Returned(0)), Lock::Inspect);
}

#[test]
fn sleeping_path_of_the_lock() {
    let inspect = Lock::Inspect;
    assert_eq!(inspect.step(Event::Value(CONTENDED)), Lock::Sleep);
    assert_eq!(inspect.step(Event::Value(LOCKED)), Lock::Mark);
    assert_eq!(inspect.step(Event::Value(FREE)), Lock::Mark);
    assert_eq!(
        Lock::Mark.action(),
        Action::CasWeak { current: LOCKED, new: CONTENDED, order: MemOrder::Acquire }
    );
    assert_eq!(Lock::Mark.step(Event::Exchanged(Ok(LOCKED))), Lock::Sleep);
    assert_eq!(Lock::Mark.step(Event::Exchanged(Err(FREE))), Lock::Claim);
    assert_eq!(Lock::Sleep.action(), Action::Wait { expected: CONTENDED });
    assert_eq!(Lock::Sleep.step(Event::Returned(0)), Lock::Claim);
    assert_eq!(Lock::Sleep.step(Event::Returned(EAGAIN_RETURN)), Lock::Claim);
    assert_eq!(
        Lock::Claim.action(),
        Action::CasWeak { current: FREE, new: CONTENDED, order: MemOrder::Acquire }
    );
    assert_eq!(Lock::Claim.step(Event::Exchanged(Ok(FREE))), Lock::Held);
    assert_eq!(Lock::Claim.step(Event::Exchanged(Err(CONTENDED))), Lock::Inspect);
}

#[test]
fn event_of_the_wrong_kind_leaves_the_phase() {
    assert_eq!(Lock::Probe.step(Event::Done), Lock::Probe);
    assert_eq!(Lock::Elide.step(Event::Value(0)), Lock::Elide);
    assert_eq!(Lock::Claim.step(Event::Returned(0)), Lock::Claim);
    assert_eq!(Unlock::Drop.step(Event::Done), Unlock::Drop);
    assert_eq!(ReadLock::Probe.step(Event::Exchanged(Ok(1))), ReadLock::Probe);
    assert_eq!(
        ReadLock::Sleep { seen: 0, spins: 201 }.step(Event::Done),
        ReadLock::Sleep { seen: 0, spins: 201 }
    );
    assert_eq!(WriteLock::Take { spins: 3 }.step(Event::Value(1)), WriteLock::Take { spins: 3 });
    assert_eq!(RwUnlock::Observe.step(Event::Done), RwUnlock::Observe);
}

#[test]
fn unlock_wakes_only_a_contended_lock() {
    let unlock = Unlock::start();
    assert_eq!(unlock.action(), Action::ElidedFetchSub { delta: 1 });
    assert_eq!(unlock.step(Event::Value(LOCKED)), Unlock::Released);
    let reset = unlock.step(Event::Value(CONTENDED));
    assert_eq!(reset, Unlock::Reset);
    assert_eq!(reset.action(), Action::Store { value: FREE });
    let wake = reset.step(Event::Done);
    assert_eq!(wake, Unlock::Wake);
    assert_eq!(wake.action(), Action::WakeOne);
    let released = wake.step(Event::Returned(1));
    assert!(released.released());
    assert_eq!(released.action(), Action::Finished);
}

#[test]
fn lock_and_unlock_on_a_real_word() {
    let word = AtomicU64::new(FREE);
    assert!(drive(Lock::start(), &word, 0).acquired());
    assert_eq!(word.load(Ordering::SeqCst), LOCKED);
    assert!(drive(Unlock::start(), &word, 0).released());
    assert_eq!(word.load(Ordering::SeqCst), FREE);
    word.store(CONTENDED, Ordering::SeqCst);
    assert!(drive(Unlock::start(), &word, 0).released());
    assert_eq!(word.load(Ordering::SeqCst), FREE);
}

#[test]
fn run_stops_at_system_calls_and_at_its_budget() {
    let word = AtomicU64::new(LOCKED);
    let (machine, halt) = run(Lock::start(), &mut SharedWord { word: &word }, 5);
    assert_eq!(halt, Halt::Budget);
    assert_eq!(machine, Lock::Spin { round: 2 });
    let (machine, halt) = run(Lock::Spin { round: 181 }, &mut SharedWord { word: &word }, 1000);
    assert_eq!(halt, Halt::Host(Action::Yield));
    assert_eq!(machine, Lock::Yield { round: 181 });
    let (machine, halt) = run(Lock::Inspect, &mut SharedWord { word: &word }, 1000);
    assert_eq!(machine, Lock::Sleep);
    assert_eq!(halt, Halt::Host(Action::Wait { expected: CONTENDED }));
    assert_eq!(word.load(Ordering::SeqCst), CONTENDED);
    let (machine, halt) = run(Lock::Held, &mut SharedWord { word: &word }, 0);
    assert_eq!((machine, halt), (Lock::Held, Halt::Budget));
    let (machine, halt) = run(Lock::Held, &mut SharedWord { word: &word }, 1);
    assert_eq!((machine, halt), (Lock::Held, Halt::Host(Action::Finished)));
}

/// A pseudo-random sequence that is the same on every run.
struct Dice(u64);

impl Dice {
    fn roll(&mut self, sides: usize) -> usize {
        self.0 = self.0.wrapping_mul(6364136223846793005).wrapping_add(1442695040888963407);
        ((self.0 >> 33) % sides as u64) as usize
    }
}

/// Carries out `action` on a simulated lock word. A weak compare-exchange
/// fails without cause once in a while, and every system call returns at
/// once with an error, as a sleeper that is woken without cause sees it.
fn simulate(word: &mut u64, action: Action, dice: &mut Dice) -> Event {
    match action {
        Action::Load => Event::Value(*word),
        Action::Store { value } => {
            *word = value;
            Event::Done
        }
        Action::ElidedCas { current, new } => {
            if *word == current {
                *word = new;
                Event::Exchanged(Ok(current))
            } else {
                Event::Exchanged(Err(*word))
            }
        }
        Action::CasWeak { current, new, .. } => {
            if *word == current && dice.roll(8) != 0 {
                *word = new;
                Event::Exchanged(Ok(current))
            } else {
                Event::Exchanged(Err(*word))
            }
        }
        Action::ElidedFetchSub { delta } => {
            let previous = *word;
            *word = previous.wrapping_sub(delta);
            Event::Value(previous)
        }
        Action::SpinHint => Event::Done,
        Action::Yield | Action::WakeOne => Event::Returned(0),
        Action::Wait { .. } => Event::Returned(EAGAIN_RETURN),
        Action::Finished => unreachable!(),
    }
}

#[derive(Clone, Copy)]
enum Worker {
    Locking(Lock),
    Writing(u64),
    Unlocking(Unlock),
}

/// Lets `threads` workers each add one to a shared counter `rounds` times,
/// reading and writing the counter in separate steps inside the mutex, with
/// their steps interleaved at random. Returns the counter at the end.
fn interleave_mutex(threads: usize, rounds: u64, seed: u64) -> u64 {
    let mut dice = Dice(seed);
    let mut word = FREE;
    let mut counter = 0u64;
    let mut workers = vec![Worker::Locking(Lock::start()); threads];
    let mut left = vec![rounds; threads];
    let mut running: Vec<usize> = (0..threads).collect();
    while !running.is_empty() {
        let pick = dice.roll(running.len());
        let t = running[pick];
        workers[t] = match workers[t] {
            Worker::Locking(lock) if lock.acquired() => {
                let inside = workers
                    .iter()
                    .filter(|w| matches!(w, Worker::Writing(_)))
                    .count();
                assert_eq!(inside, 0);
                Worker::Writing(counter)
            }
            Worker::Locking(lock) => {
                let event = simulate(&mut word, lock.action(), &mut dice);
                Worker::Locking(lock.step(event))
            }
            Worker::Writing(seen) => {
                counter = seen + 1;
                Worker::Unlocking(Unlock::start())
            }
            Worker::Unlocking(unlock) if unlock.released() => {
                left[t] -= 1;
                if left[t] == 0 {
                    running.swap_remove(pick);
                }
                Worker::Locking(Lock::start())
            }
            Worker::Unlocking(unlock) => {
                let event = simulate(&mut word, unlock.action(), &mut dice);
                Worker::Unlocking(unlock.step(event))
            }
        };
    }
    assert_eq!(word, FREE);
    counter
}

#[test]
fn mutex_counter_under_one_hundred_workers() {
    assert_eq!(interleave_mutex(100, 1000, 1), 100 * 1000);
}

#[test]
fn mutex_counter_under_few_workers() {
    assert_eq!(interleave_mutex(2, 20000, 2), 2 * 20000);
    assert_eq!(interleave_mutex(3, 5000, 3), 3 * 5000);
    assert_eq!(interleave_mutex(7, 1000, 4), 7 * 1000);
}

#[test]
fn first_reader_takes_the_elided_path() {
    let read = ReadLock::start().step(Event::Value(RW_OPEN));
    assert_eq!(read, ReadLock::Elide);
    assert_eq!(read.action(), Action::ElidedCas { current: 1, new: 2 });
    assert!(read.step(Event::Exchanged(Ok(1))).acquired());
    assert_eq!(read.step(Event::Exchanged(Err(0))), ReadLock::Observe { spins: 0 });
}

#[test]
fn reader_joins_the_count_it_saw() {
    let observe = ReadLock::start().step(Event::Value(3));
    assert_eq!(observe, ReadLock::Observe { spins: 0 });
    let join = observe.step(Event::Value(3));
    assert_eq!(join, ReadLock::Join { seen: 3, spins: 0 });
    assert_eq!(
        join.action(),
        Action::CasWeak { current: 3, new: 4, order: MemOrder::Acquire }
    );
    assert!(join.step(Event::Exchanged(Ok(3))).acquired());
    assert_eq!(join.step(Event::Exchanged(Err(4))), ReadLock::Relax { spins: 0 });
    assert_eq!(ReadLock::Relax { spins: 0 }.step(Event::Done), ReadLock::Observe { spins: 1 });
}

#[test]
fn reader_backs_off_from_a_writer_and_from_a_saturated_count() {
    let observe = ReadLock::Observe { spins: 4 };
    assert_eq!(observe.step(Event::Value(WRITE_LOCKED)), ReadLock::Relax { spins: 4 });
    assert_eq!(observe.step(Event::Value(u64::MAX)), ReadLock::Relax { spins: 4 });
    assert_eq!(
        ReadLock::Join { seen: u64::MAX, spins: 0 }.action(),
        Action::CasWeak { current: u64::MAX, new: u64::MAX, order: MemOrder::Acquire }
    );
}

#[test]
fn reader_sleeps_after_the_spin_budget() {
    let mut read = ReadLock::Observe { spins: 0 };
    let mut hints = 0;
    loop {
        match read.action() {
            Action::Load => read = read.step(Event::Value(WRITE_LOCKED)),
            Action::SpinHint => {
                hints += 1;
                read = read.step(Event::Done);
            }
            _ => break,
        }
    }
    assert_eq!(hints, SPIN_LIMIT + 1);
    assert_eq!(read, ReadLock::Sleep { seen: WRITE_LOCKED, spins: SPIN_LIMIT + 1 });
    assert_eq!(read.action(), Action::Wait { expected: WRITE_LOCKED });
    assert_eq!(read.step(Event::Returned(0)), ReadLock::Observe { spins: 201 });
    let recheck = read.step(Event::Returned(EAGAIN_RETURN));
    assert_eq!(recheck, ReadLock::Recheck { seen: 0, spins: 201 });
    assert_eq!(recheck.action(), Action::Load);
    assert_eq!(recheck.step(Event::Value(1)), ReadLock::Observe { spins: 201 });
    assert_eq!(recheck.step(Event::Value(5)), ReadLock::Observe { spins: 201 });
    let pause = recheck.step(Event::Value(0));
    assert_eq!(pause, ReadLock::Pause { seen: 0, spins: 201 });
    assert_eq!(pause.action(), Action::SpinHint);
    assert_eq!(pause.step(Event::Done), read);
}

#[test]
fn writer_closes_an_open_lock() {
    let write = WriteLock::start().step(Event::Value(RW_OPEN));
    assert_eq!(write, WriteLock::Elide);
    assert_eq!(write.action(), Action::ElidedCas { current: RW_OPEN, new: WRITE_LOCKED });
    assert!(write.step(Event::Exchanged(Ok(1))).acquired());
    let take = WriteLock::start().step(Event::Value(2));
    assert_eq!(take, WriteLock::Take { spins: 0 });
    assert_eq!(
        take.action(),
        Action::CasWeak { current: RW_OPEN, new: WRITE_LOCKED, order: MemOrder::Acquire }
    );
    assert!(take.step(Event::Exchanged(Ok(1))).acquired());
    assert_eq!(take.step(Event::Exchanged(Err(2))), WriteLock::Relax { spins: 0 });
    assert_eq!(WriteLock::Relax { spins: 0 }.step(Event::Done), WriteLock::Take { spins: 1 });
}

#[test]
fn writer_sleeps_on_what_it_saw_and_passes_the_wake_on() {
    let take = WriteLock::Take { spins: 201 };
    let sleep = take.step(Event::Exchanged(Err(3)));
    assert_eq!(sleep, WriteLock::Sleep { seen: 3, spins: 201 });
    assert_eq!(sleep.action(), Action::Wait { expected: 3 });
    let confirm = sleep.step(Event::Returned(0));
    assert_eq!(confirm, WriteLock::Confirm { spins: 201 });
    assert_eq!(confirm.step(Event::Value(RW_OPEN)), take);
    let nudge = confirm.step(Event::Value(2));
    assert_eq!(nudge, WriteLock::Nudge { spins: 201 });
    assert_eq!(nudge.action(), Action::WakeOne);
    let give = nudge.step(Event::Returned(0));
    assert_eq!(give, WriteLock::Yield { spins: 201 });
    assert_eq!(give.action(), Action::Yield);
    assert_eq!(give.step(Event::Returned(0)), take);
    let recheck = sleep.step(Event::Returned(EAGAIN_RETURN));
    assert_eq!(recheck, WriteLock::Recheck { seen: 3, spins: 201 });
    assert_eq!(recheck.step(Event::Value(RW_OPEN)), confirm);
    let pause = recheck.step(Event::Value(2));
    assert_eq!(pause, WriteLock::Pause { seen: 3, spins: 201 });
    assert_eq!(pause.step(Event::Done), sleep);
}

#[test]
fn release_tells_reader_from_writer_by_the_word() {
    let observe = RwUnlock::start();
    assert_eq!(observe.action(), Action::Load);
    assert!(observe.step(Event::Value(RW_OPEN)).released());
    let writer = observe.step(Event::Value(WRITE_LOCKED));
    assert_eq!(
        writer.action(),
        Action::CasWeak { current: 0, new: 1, order: MemOrder::Release }
    );
    assert_eq!(writer.step(Event::Exchanged(Ok(0))), RwUnlock::Wake);
    let last_reader = observe.step(Event::Value(2));
    assert_eq!(
        last_reader.action(),
        Action::CasWeak { current: 2, new: 1, order: MemOrder::Release }
    );
    assert_eq!(last_reader.step(Event::Exchanged(Ok(2))), RwUnlock::Wake);
    let reader = observe.step(Event::Value(5));
    assert_eq!(
        reader.action(),
        Action::CasWeak { current: 5, new: 4, order: MemOrder::Release }
    );
    assert_eq!(reader.step(Event::Exchanged(Ok(5))), RwUnlock::Released);
    assert_eq!(reader.step(Event::Exchanged(Err(4))), RwUnlock::Relax);
    assert_eq!(RwUnlock::Relax.step(Event::Done), RwUnlock::Observe);
    assert_eq!(RwUnlock::Wake.action(), Action::WakeOne);
    assert!(RwUnlock::Wake.step(Event::Returned(1)).released());
}

#[test]
fn readers_and_writer_on_a_real_word() {
    let word = AtomicU64::new(RW_OPEN);
    assert!(drive(ReadLock::start(), &word, 0).acquired());
    assert_eq!(word.load(Ordering::SeqCst), 2);
    assert!(drive(ReadLock::start(), &word, 0).acquired());
    assert_eq!(word.load(Ordering::SeqCst), 3);
    assert!(drive(RwUnlock::start(), &word, 0).released());
    assert!(drive(RwUnlock::start(), &word, 0).released());
    assert_eq!(word.load(Ordering::SeqCst), RW_OPEN);
    assert!(drive(WriteLock::start(), &word, 0).acquired());
    assert_eq!(word.load(Ordering::SeqCst), WRITE_LOCKED);
    assert!(drive(RwUnlock::start(), &word, 0).released());
    assert_eq!(word.load(Ordering::SeqCst), RW_OPEN);
    assert!(drive(RwUnlock::start(), &word, 0).released());
    assert_eq!(word.load(Ordering::SeqCst), RW_OPEN);
}

#[derive(Clone, Copy)]
enum Member {
    Reading(ReadLock),
    LeavingShared(RwUnlock),
    Writing(WriteLock),
    Mutating(u64),
    LeavingExclusive(RwUnlock),
    Rereading(ReadLock),
    LeavingAgain(RwUnlock),
    Done,
}

/// Lets `threads` members each read, then add one to a shared value in two
/// steps inside the write lock, then read again, with their steps
/// interleaved at random. Between the two steps of a write the value is
/// torn. Returns the value at the end.
fn interleave_rwlock(threads: usize, seed: u64) -> u64 {
    let mut dice = Dice(seed);
    let mut word = RW_OPEN;
    let mut value = 0u64;
    let mut torn = false;
    let mut members = vec![Member::Reading(ReadLock::start()); threads];
    let mut running: Vec<usize> = (0..threads).collect();
    while !running.is_empty() {
        let pick = dice.roll(running.len());
        let t = running[pick];
        members[t] = match members[t] {
            Member::Reading(lock) if lock.acquired() => {
                assert!(!torn);
                Member::LeavingShared(RwUnlock::start())
            }
            Member::Reading(lock) => {
                let event = simulate(&mut word, lock.action(), &mut dice);
                Member::Reading(lock.step(event))
            }
            Member::LeavingShared(unlock) if unlock.released() => {
                Member::Writing(WriteLock::start())
            }
            Member::LeavingShared(unlock) => {
                let event = simulate(&mut word, unlock.action(), &mut dice);
                Member::LeavingShared(unlock.step(event))
            }
            Member::Writing(lock) if lock.acquired() => {
                assert!(!torn);
                assert_eq!(word, WRITE_LOCKED);
                torn = true;
                Member::Mutating(value)
            }
            Member::Writing(lock) => {
                let event = simulate(&mut word, lock.action(), &mut dice);
                Member::Writing(lock.step(event))
            }
            Member::Mutating(seen) => {
                value = seen + 1;
                torn = false;
                Member::LeavingExclusive(RwUnlock::start())
            }
            Member::LeavingExclusive(unlock) if unlock.released() => {
                Member::Rereading(ReadLock::start())
            }
            Member::LeavingExclusive(unlock) => {
                let event = simulate(&mut word, unlock.action(), &mut dice);
                Member::LeavingExclusive(unlock.step(event))
            }
            Member::Rereading(lock) if lock.acquired() => {
                assert!(!torn);
                assert!(value >= 1);
                Member::LeavingAgain(RwUnlock::start())
            }
            Member::Rereading(lock) => {
                let event = simulate(&mut word, lock.action(), &mut dice);
                Member::Rereading(lock.step(event))
            }
            Member::LeavingAgain(unlock) if unlock.released() => {
                running.swap_remove(pick);
                Member::Done
            }
            Member::LeavingAgain(unlock) => {
                let event = simulate(&mut word, unlock.action(), &mut dice);
                Member::LeavingAgain(unlock.step(event))
            }
            Member::Done => unreachable!(),
        };
    }
    assert_eq!(word, RW_OPEN);
    assert!(!torn);
    value
}

#[test]
fn one_hundred_writers_among_readers() {
    assert_eq!(interleave_rwlock(100, 5), 100);
    assert_eq!(interleave_rwlock(100, 6), 100);
}

#[test]
fn few_writers_among_readers() {
    for seed in 0..50 {
        assert_eq!(interleave_rwlock(3, seed), 3);
    }
}
