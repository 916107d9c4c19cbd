//! NUMA topology discovery.
//!
//! The number of memory domains is found by asking the host, for each
//! candidate domain in turn, whether its entry in the system topology tree
//! exists. The probe itself only names the entries and counts the answers.

use vstd::prelude::*;
use vstd::string::*;
use core::sync::atomic::AtomicUsize;
use core::sync::atomic::Ordering;
use crate::sys::{decode, is_error_return};

verus! {

/// Number of candidate domains that a probe tests.
pub const NUMA_LIMIT: usize = 256;

/// Access mode passed along with every path: test for read permission.
pub const ACCESS_READ: u64 = 4;

/// ASCII decimal digits of `n`, most significant first, without padding.
pub open spec fn decimal(n: nat) -> Seq<u8>
    decreases n,
{
    if n < 10 {
        seq![(48 + n) as u8]
    } else {
        decimal(n / 10).push((48 + n % 10) as u8)
    }
}

/// Directory prefix shared by every domain's topology entry.
pub open spec fn node_prefix() -> Seq<u8> {
    "/sys/devices/system/node/node".spec_bytes()
}

/// NUL-terminated path of the topology entry of domain `node`.
pub open spec fn node_path_spec(node: u8) -> Seq<u8> {
    node_prefix() + decimal(node as nat) + seq![0u8]
}

/// Builds the NUL-terminated path of the topology entry of domain `node`.
pub fn node_path(node: u8) -> (path: Vec<u8>)
    ensures
        path@ == node_path_spec(node),
{
    let mut path: Vec<u8> = "/sys/devices/system/node/node".as_bytes_vec();
    if node >= 100 {
        path.push(node / 100 + 48);
    }
    if node >= 10 {
        path.push((node % 100) / 10 + 48);
    }
    path.push(node % 10 + 48);
    proof {
        let n: nat = node as nat;
        reveal_with_fuel(decimal, 3);
        if n >= 100 {
            assert(n / 10 / 10 == n / 100);
            assert((n / 10) % 10 == (n % 100) / 10);
        }
        assert(path@ =~= node_prefix() + decimal(n));
    }
    path.push(0);
    proof {
        assert(path@ =~= node_path_spec(node));
    }
    path
}

/// Number of domains reported present among `answers`.
pub open spec fn count_present(answers: Seq<bool>) -> nat
    decreases answers.len(),
{
    if answers.len() == 0 {
        0
    } else {
        count_present(answers.drop_last()) + if answers.last() {
            1nat
        } else {
            0nat
        }
    }
}

/// The count never exceeds the number of answers.
pub proof fn lemma_count_present_bounded(answers: Seq<bool>)
    ensures
        count_present(answers) <= answers.len(),
    decreases answers.len(),
{
    if answers.len() > 0 {
        lemma_count_present_bounded(answers.drop_last());
    }
}

/// One run over the candidate domains `0..NUMA_LIMIT`.
///
/// The host asks for the pending path, tests it for existence, and records the
/// raw return value of that test. After `NUMA_LIMIT` answers the count is
/// final.
pub struct NumaProbe {
    tested: usize,
    found: usize,
    answers: Ghost<Seq<bool>>,
}

impl NumaProbe {
    /// The answers recorded so far, in domain order; `true` means present.
    pub closed spec fn answers(&self) -> Seq<bool> {
        self.answers@
    }

    /// Number of domains found present so far.
    pub closed spec fn found(&self) -> nat {
        self.found as nat
    }

    /// The probe has counted exactly the present domains among its answers,
    /// of which there are at most `NUMA_LIMIT`.
    pub closed spec fn wf(&self) -> bool {
        &&& self.tested == self.answers@.len()
        &&& self.tested <= NUMA_LIMIT
        &&& self.found == count_present(self.answers@)
    }

    /// Whether every candidate domain has been answered for.
    pub open spec fn complete(&self) -> bool {
        self.answers().len() == NUMA_LIMIT
    }

    /// A well-formed probe has counted exactly the present domains, and has at
    /// most `NUMA_LIMIT` answers.
    pub proof fn lemma_wf(&self)
        requires
            self.wf(),
        ensures
            self.answers().len() <= NUMA_LIMIT,
            self.found() == count_present(self.answers()),
    {
    }

    /// A probe that has not asked anything yet.
    pub fn new() -> (probe: Self)
        ensures
            probe.wf(),
            probe.answers() == Seq::<bool>::empty(),
    {
        NumaProbe { tested: 0, found: 0, answers: Ghost(Seq::empty()) }
    }

    /// The domain to test next, or `None` once the run is complete.
    pub fn pending(&self) -> (node: Option<u8>)
        requires
            self.wf(),
        ensures
            self.complete() <==> node is None,
            node matches Some(id) ==> id == self.answers().len(),
    {
        if self.tested < NUMA_LIMIT {
            Some(self.tested as u8)
        } else {
            None
        }
    }

    /// The path to test next, or `None` once the run is complete.
    pub fn pending_path(&self) -> (path: Option<Vec<u8>>)
        requires
            self.wf(),
        ensures
            self.complete() <==> path is None,
            path matches Some(bytes) ==> bytes@ == node_path_spec(self.answers().len() as u8),
    {
        match self.pending() {
            Some(node) => Some(node_path(node)),
            None => None,
        }
    }

    /// Records the raw return value of the existence test for the pending
    /// domain. Any error counts as "absent". Once the run is complete further
    /// answers are ignored.
    pub fn record(&mut self, raw: usize)
        requires
            old(self).wf(),
        ensures
            final(self).wf(),
            old(self).complete() ==> final(self).answers() == old(self).answers(),
            !old(self).complete() ==> final(self).answers() == old(self).answers().push(
                !is_error_return(raw),
            ),
    {
        if self.tested < NUMA_LIMIT {
            let present: bool = decode(raw).is_ok();
            proof {
                let before = self.answers@;
                lemma_count_present_bounded(before);
                assert(before.push(present).drop_last() =~= before);
            }
            if present {
                self.found = self.found + 1;
            }
            self.tested = self.tested + 1;
            self.answers = Ghost(self.answers@.push(present));
        }
    }

    /// The number of domains, once every candidate has been answered for.
    pub fn count(&self) -> (count: Option<usize>)
        requires
            self.wf(),
        ensures
            self.complete() <==> count is Some,
            count matches Some(n) ==> n == count_present(self.answers()),
    {
        if self.tested == NUMA_LIMIT {
            Some(self.found)
        } else {
            None
        }
    }
}

/// Two probes that received the same answers report the same count: running
/// the probe again over an unchanged topology changes nothing.
pub proof fn lemma_probe_idempotent(first: NumaProbe, second: NumaProbe)
    requires
        first.wf(),
        second.wf(),
        first.answers() == second.answers(),
    ensures
        first.found() == second.found(),
{
}

/// The memo after a probe reported `probed`: the first non-zero report wins.
pub open spec fn published(cached: usize, probed: usize) -> usize {
    if cached != 0 {
        cached
    } else {
        probed
    }
}

/// What a memo that holds `seen` knows: a count, unless it holds zero.
pub open spec fn known_from(seen: usize) -> Option<usize> {
    if seen != 0 {
        Some(seen)
    } else {
        None
    }
}

/// The count to use after `probed` was offered to a shared memo: the offer,
/// if the memo took it, and what the memo held instead, if it did not.
pub open spec fn settled(probed: usize, outcome: Result<usize, usize>) -> usize {
    match outcome {
        Ok(_) => probed,
        Err(seen) => seen,
    }
}

/// Reads what a memo that holds `seen` knows.
pub fn read_memo(seen: usize) -> (count: Option<usize>)
    ensures
        count == known_from(seen),
{
    if seen != 0 {
        Some(seen)
    } else {
        None
    }
}

/// Settles the count after `probed` was offered to a shared memo, given the
/// outcome of the exchange of zero for `probed`.
pub fn settle(probed: usize, outcome: Result<usize, usize>) -> (count: usize)
    ensures
        count == settled(probed, outcome),
{
    match outcome {
        Ok(_) => probed,
        Err(seen) => seen,
    }
}

/// A memo of the domain count. Zero means "not known yet".
///
/// A memo that is `exclusive` holds what its holder put there. Of a memo that
/// is shared between threads nothing is known from one operation to the
/// next; since every thread offers the count of the same topology, whichever
/// offer wins is right.
pub trait Memo {
    spec fn exclusive(&self) -> bool;

    /// The memoised count; zero while no probe has found a domain.
    spec fn cached(&self) -> usize;

    /// The memoised count, or `None` if a probe has to be run.
    fn known(&self) -> (count: Option<usize>)
        ensures
            count != Some(0usize),
            self.exclusive() ==> count == known_from(self.cached()),
    ;

    /// Offers the result of a finished probe and returns the count that every
    /// caller should use from now on.
    fn publish(&mut self, probed: usize) -> (count: usize)
        ensures
            final(self).exclusive() == old(self).exclusive(),
            old(self).exclusive() ==> count == published(old(self).cached(), probed),
            old(self).exclusive() ==> final(self).cached() == count,
    ;
}

/// The memo of a single holder.
pub struct NumaCache {
    pub count: usize,
}

/// The memo that the threads of a process share.
pub struct SharedNumaCache<'a> {
    pub word: &'a AtomicUsize,
}

impl NumaCache {
    /// A memo that knows nothing yet.
    pub fn new() -> (cache: Self)
        ensures
            cache.cached() == 0,
    {
        NumaCache { count: 0 }
    }
}

impl Memo for NumaCache {
    open spec fn exclusive(&self) -> bool {
        true
    }

    open spec fn cached(&self) -> usize {
        self.count
    }

    fn known(&self) -> (count: Option<usize>) {
        read_memo(self.count)
    }

    fn publish(&mut self, probed: usize) -> (count: usize) {
        if self.count == 0 {
            self.count = probed;
        }
        self.count
    }
}

impl<'a> Memo for SharedNumaCache<'a> {
    open spec fn exclusive(&self) -> bool {
        false
    }

    open spec fn cached(&self) -> usize {
        0
    }

    fn known(&self) -> (count: Option<usize>) {
        read_memo(self.word.load(Ordering::Acquire))
    }

    fn publish(&mut self, probed: usize) -> (count: usize) {
        settle(
            probed,
            self.word.compare_exchange(0, probed, Ordering::AcqRel, Ordering::Acquire),
        )
    }
}

/// Publishing is idempotent and the memo never decreases: once a count is
/// known, no later report changes it, and a repeated report of the same count
/// leaves the memo as the first one did.
pub proof fn lemma_publish_stable(cached: usize, first: usize, second: usize)
    ensures
        published(cached, first) >= cached,
        published(cached, first) != 0 ==> published(published(cached, first), second)
            == published(cached, first),
        published(published(cached, first), first) == published(cached, first),
{
}

/// What to do to learn the domain of the calling thread.
#[derive(Clone, Copy, Debug, PartialEq, Eq, Structural)]
pub enum NodeQuery {
    /// The answer is known without asking the host.
    Known(usize),
    /// The host has to be asked which processor and domain the thread runs on.
    AskProcessor,
}

/// Decides whether the host must be asked for the current domain: with at most
/// one domain the answer is domain 0.
pub fn current_numa_node(count: usize) -> (query: NodeQuery)
    ensures
        query == if count <= 1 {
            NodeQuery::Known(0)
        } else {
            NodeQuery::AskProcessor
        },
{
    if count <= 1 {
        NodeQuery::Known(0)
    } else {
        NodeQuery::AskProcessor
    }
}

/// The current domain, given the raw return value of the processor query and
/// the domain it wrote. A failed query degrades to domain 0.
pub fn node_from_query(raw: usize, node: usize) -> (domain: usize)
    ensures
        domain == if is_error_return(raw) {
            0
        } else {
            node
        },
{
    match decode(raw) {
        Ok(_) => node,
        Err(_) => 0,
    }
}

} // verus!
