//! Pages: a fixed run of equally sized block slots and three free lists.
//!
//! A slot is either handed out or on exactly one of the lists. `free` is the
//! list that allocation takes from. A block that its owner gives back goes to
//! `local_free`; a block that another thread gives back goes to
//! `thread_free`. When `free` runs dry the owner takes `thread_free` away in
//! one piece, joins it to `local_free`, and makes the result the new `free`.

use vstd::prelude::*;

verus! {

/// A run of block slots of one size, numbered from zero, and the lists of
/// those that are not handed out.
pub struct Page {
    thread_free: Vec<usize>,
    local_free: Vec<usize>,
    free: Vec<usize>,
    block_size: u64,
    capacity: usize,
    segment_idx: usize,
}

/// Removing one element from a sequence without duplicates leaves a sequence
/// without duplicates that holds everything but that element.
pub proof fn lemma_remove_distinct(s: Seq<usize>, i: int)
    requires
        s.no_duplicates(),
        0 <= i < s.len(),
    ensures
        s.remove(i).no_duplicates(),
        forall|x: usize| s.remove(i).contains(x) <==> (s.contains(x) && x != s[i]),
{
    let r = s.remove(i);
    assert forall|a: int, b: int| 0 <= a < r.len() && 0 <= b < r.len() && a != b implies r[a]
        != r[b] by {
        let a2 = if a < i {
            a
        } else {
            a + 1
        };
        let b2 = if b < i {
            b
        } else {
            b + 1
        };
        assert(r[a] == s[a2] && r[b] == s[b2]);
    }
    assert forall|x: usize| r.contains(x) <==> (s.contains(x) && x != s[i]) by {
        if r.contains(x) {
            let a = choose|a: int| 0 <= a < r.len() && r[a] == x;
            let a2 = if a < i {
                a
            } else {
                a + 1
            };
            assert(s[a2] == x);
        }
        if s.contains(x) && x != s[i] {
            let a = choose|a: int| 0 <= a < s.len() && s[a] == x;
            let a2 = if a < i {
                a
            } else {
                a - 1
            };
            assert(r[a2] == x);
        }
    }
}

/// Inserting a new element into a sequence without duplicates leaves a
/// sequence without duplicates that holds that element besides.
pub proof fn lemma_insert_distinct(s: Seq<usize>, i: int, v: usize)
    requires
        s.no_duplicates(),
        !s.contains(v),
        0 <= i <= s.len(),
    ensures
        s.insert(i, v).no_duplicates(),
        forall|x: usize| s.insert(i, v).contains(x) <==> (s.contains(x) || x == v),
{
    let r = s.insert(i, v);
    assert forall|a: int, b: int| 0 <= a < r.len() && 0 <= b < r.len() && a != b implies r[a]
        != r[b] by {
        if a != i && b != i {
            let a2 = if a < i {
                a
            } else {
                a - 1
            };
            let b2 = if b < i {
                b
            } else {
                b - 1
            };
            assert(r[a] == s[a2] && r[b] == s[b2]);
        } else if a == i {
            let b2 = if b < i {
                b
            } else {
                b - 1
            };
            assert(r[b] == s[b2]);
            assert(s.contains(s[b2]));
        } else {
            let a2 = if a < i {
                a
            } else {
                a - 1
            };
            assert(r[a] == s[a2]);
            assert(s.contains(s[a2]));
        }
    }
    assert forall|x: usize| r.contains(x) <==> (s.contains(x) || x == v) by {
        if r.contains(x) {
            let a = choose|a: int| 0 <= a < r.len() && r[a] == x;
            if a != i {
                let a2 = if a < i {
                    a
                } else {
                    a - 1
                };
                assert(s[a2] == x);
            }
        }
        if s.contains(x) {
            let a = choose|a: int| 0 <= a < s.len() && s[a] == x;
            let a2 = if a < i {
                a
            } else {
                a + 1
            };
            assert(r[a2] == x);
        }
        if x == v {
            assert(r[i] == x);
        }
    }
}

impl Page {
    /// The list that allocation takes from; the last entry goes first.
    pub closed spec fn free_list(&self) -> Seq<usize> {
        self.free@
    }

    /// The slots that the owner has given back.
    pub closed spec fn local_free_list(&self) -> Seq<usize> {
        self.local_free@
    }

    /// The slots that other threads have given back.
    pub closed spec fn thread_free_list(&self) -> Seq<usize> {
        self.thread_free@
    }

    /// Size of each block slot in bytes.
    pub closed spec fn spec_block_size(&self) -> u64 {
        self.block_size
    }

    /// Number of block slots.
    pub closed spec fn spec_capacity(&self) -> usize {
        self.capacity
    }

    /// Index of the page in its segment.
    pub closed spec fn spec_segment_idx(&self) -> usize {
        self.segment_idx
    }

    /// Every slot that is not handed out.
    pub open spec fn slots(&self) -> Seq<usize> {
        self.free_list() + self.local_free_list() + self.thread_free_list()
    }

    /// No slot is on two lists or twice on one, and every listed slot exists.
    pub open spec fn wf(&self) -> bool {
        &&& self.spec_block_size() > 0
        &&& self.slots().no_duplicates()
        &&& forall|i: int| 0 <= i < self.slots().len() ==> self.slots()[i] < self.spec_capacity()
    }

    /// Whether slot `slot` exists and is handed out.
    pub open spec fn is_allocated(&self, slot: int) -> bool {
        0 <= slot < self.spec_capacity() && !self.slots().contains(slot as usize)
    }

    /// Number of slots that are not handed out.
    pub open spec fn available(&self) -> nat {
        self.slots().len()
    }

    /// Number of slots that the owner can hand out without looking at what
    /// other threads gave back.
    pub open spec fn owner_available(&self) -> nat {
        self.free_list().len() + self.local_free_list().len()
    }

    /// Number of slots that other threads gave back and the owner has not yet
    /// taken over.
    pub open spec fn remote_pending(&self) -> nat {
        self.thread_free_list().len()
    }

    /// Whether the two pages were carved alike.
    pub open spec fn same_shape(&self, other: &Page) -> bool {
        &&& self.spec_block_size() == other.spec_block_size()
        &&& self.spec_capacity() == other.spec_capacity()
        &&& self.spec_segment_idx() == other.spec_segment_idx()
    }

    /// Whether `after` is this page once slot `slot` has been given back, by
    /// the owner or by another thread.
    pub open spec fn after_free(&self, slot: usize, by_owner: bool, after: &Page) -> bool {
        &&& after.same_shape(self)
        &&& after.free_list() == self.free_list()
        &&& after.local_free_list() == if by_owner {
            self.local_free_list().push(slot)
        } else {
            self.local_free_list()
        }
        &&& after.thread_free_list() == if by_owner {
            self.thread_free_list()
        } else {
            self.thread_free_list().push(slot)
        }
    }

    /// Whether `after` is this page once the owner has taken over what other
    /// threads gave back.
    pub open spec fn after_collect(&self, after: &Page) -> bool {
        &&& after.same_shape(self)
        &&& after.free_list() == self.free_list()
        &&& after.local_free_list() == self.local_free_list() + self.thread_free_list()
        &&& after.thread_free_list().len() == 0
    }

    /// The slot that the next allocation hands out.
    pub open spec fn next_slot(&self) -> usize
        recommends
            self.available() > 0,
    {
        if self.free_list().len() > 0 {
            self.free_list().last()
        } else {
            (self.local_free_list() + self.thread_free_list()).last()
        }
    }

    /// Carves a page into `capacity` slots of `block_size` bytes, all free,
    /// to be handed out in ascending order.
    pub fn new(block_size: u64, capacity: usize, segment_idx: usize) -> (page: Page)
        requires
            block_size > 0,
        ensures
            page.wf(),
            page.spec_block_size() == block_size,
            page.spec_capacity() == capacity,
            page.spec_segment_idx() == segment_idx,
            page.free_list() == Seq::new(capacity as nat, |i: int| (capacity - 1 - i) as usize),
            page.local_free_list().len() == 0,
            page.thread_free_list().len() == 0,
            forall|slot: int| !page.is_allocated(slot),
    {
        let mut free: Vec<usize> = Vec::new();
        let mut next: usize = capacity;
        while next > 0
            invariant
                next <= capacity,
                free@ == Seq::new((capacity - next) as nat, |i: int| (capacity - 1 - i) as usize),
            decreases next,
        {
            next = next - 1;
            free.push(next);
            assert(free@ =~= Seq::new(
                (capacity - next) as nat,
                |i: int| (capacity - 1 - i) as usize,
            ));
        }
        let page = Page {
            thread_free: Vec::new(),
            local_free: Vec::new(),
            free,
            block_size,
            capacity,
            segment_idx,
        };
        proof {
            assert(page.slots() =~= page.free_list());
            assert forall|slot: int| !page.is_allocated(slot) by {
                if 0 <= slot < capacity {
                    assert(page.slots()[capacity - 1 - slot] == slot as usize);
                }
            }
        }
        page
    }

    #[verifier::when_used_as_spec(spec_block_size)]
    pub fn block_size(&self) -> (bytes: u64)
        ensures
            bytes == self.spec_block_size(),
    {
        self.block_size
    }

    #[verifier::when_used_as_spec(spec_capacity)]
    pub fn capacity(&self) -> (slots: usize)
        ensures
            slots == self.spec_capacity(),
    {
        self.capacity
    }

    #[verifier::when_used_as_spec(spec_segment_idx)]
    pub fn segment_idx(&self) -> (index: usize)
        ensures
            index == self.spec_segment_idx(),
    {
        self.segment_idx
    }

    /// Number of slots that are not handed out.
    pub fn count_available(&self) -> (count: usize)
        requires
            self.wf(),
        ensures
            count == self.available(),
            count <= self.spec_capacity(),
    {
        proof {
            self.lemma_available_bounded();
        }
        self.free.len() + self.local_free.len() + self.thread_free.len()
    }

    /// Number of slots the owner can hand out without a look at
    /// `thread_free`.
    pub fn count_owner_available(&self) -> (count: usize)
        requires
            self.wf(),
        ensures
            count == self.owner_available(),
    {
        proof {
            self.lemma_available_bounded();
        }
        self.free.len() + self.local_free.len()
    }

    /// Whether no slot is handed out.
    pub fn is_unused(&self) -> (unused: bool)
        requires
            self.wf(),
        ensures
            unused <==> forall|slot: int| !self.is_allocated(slot),
            unused <==> self.available() == self.spec_capacity(),
    {
        proof {
            self.lemma_available_bounded();
            self.lemma_full_list();
        }
        self.free.len() + self.local_free.len() + self.thread_free.len() == self.capacity
    }

    /// The slot that goes out next exists and is not handed out yet.
    pub proof fn lemma_next_slot(&self)
        requires
            self.wf(),
            self.available() > 0,
        ensures
            self.next_slot() < self.spec_capacity(),
            !self.is_allocated(self.next_slot() as int),
    {
        let listed = self.slots();
        let front = self.free_list().len() as int;
        if front > 0 {
            assert(listed[front - 1] == self.next_slot());
        } else {
            assert(listed =~= self.local_free_list() + self.thread_free_list());
            assert(listed[listed.len() - 1] == self.next_slot());
        }
    }

    /// There are no more free slots than slots.
    pub proof fn lemma_available_bounded(&self)
        requires
            self.wf(),
        ensures
            self.available() <= self.spec_capacity(),
    {
        let listed = self.slots();
        let all = Set::new(|x: usize| x < self.spec_capacity());
        assert(all =~= vstd::set_lib::set_int_range(0, self.spec_capacity() as int).map(
            |i: int| i as usize,
        )) by {
            let range = vstd::set_lib::set_int_range(0, self.spec_capacity() as int);
            assert forall|x: usize| all.contains(x) implies range.map(|i: int| i as usize).contains(
                x,
            ) by {
                assert(range.contains(x as int));
            }
        }
        vstd::set_lib::lemma_int_range(0, self.spec_capacity() as int);
        let range = vstd::set_lib::set_int_range(0, self.spec_capacity() as int);
        range.lemma_map_finite(|i: int| i as usize);
        vstd::set_lib::lemma_map_size_bound(range, all, |i: int| i as usize);
        listed.unique_seq_to_set();
        assert(listed.to_set().subset_of(all)) by {
            assert forall|x: usize| listed.to_set().contains(x) implies all.contains(x) by {
                let i = choose|i: int| 0 <= i < listed.len() && listed[i] == x;
                assert(listed[i] < self.spec_capacity());
            }
        }
        vstd::set_lib::lemma_len_subset(listed.to_set(), all);
    }

    /// The page is unused exactly when every slot is listed.
    pub proof fn lemma_full_list(&self)
        requires
            self.wf(),
        ensures
            self.available() == self.spec_capacity() <==> forall|slot: int|
                !self.is_allocated(slot),
    {
        let listed = self.slots();
        let all = Set::new(|x: usize| x < self.spec_capacity());
        let range = vstd::set_lib::set_int_range(0, self.spec_capacity() as int);
        let cast = |i: int| i as usize;
        assert(all =~= range.map(cast)) by {
            assert forall|x: usize| all.contains(x) implies range.map(cast).contains(x) by {
                assert(range.contains(x as int));
            }
        }
        vstd::set_lib::lemma_int_range(0, self.spec_capacity() as int);
        range.lemma_map_finite(cast);
        assert(vstd::relations::injective_on(cast, range)) by {
            assert forall|a: int, b: int|
                range.contains(a) && range.contains(b) && #[trigger] cast(a) == #[trigger] cast(
                    b,
                ) implies a == b by {}
        }
        vstd::set_lib::lemma_map_size(range, all, cast);
        assert(all.len() == self.spec_capacity());
        listed.unique_seq_to_set();
        assert(listed.to_set().subset_of(all)) by {
            assert forall|x: usize| listed.to_set().contains(x) implies all.contains(x) by {
                let i = choose|i: int| 0 <= i < listed.len() && listed[i] == x;
                assert(listed[i] < self.spec_capacity());
            }
        }
        if self.available() == self.spec_capacity() {
            vstd::set_lib::lemma_subset_equality(listed.to_set(), all);
            assert forall|slot: int| !self.is_allocated(slot) by {
                if 0 <= slot < self.spec_capacity() {
                    assert(all.contains(slot as usize));
                    assert(listed.to_set().contains(slot as usize));
                }
            }
        }
        if forall|slot: int| !self.is_allocated(slot) {
            assert(all.subset_of(listed.to_set())) by {
                assert forall|x: usize| all.contains(x) implies listed.to_set().contains(x) by {
                    assert(!self.is_allocated(x as int));
                }
            }
            assert(all =~= listed.to_set());
        }
    }

    /// Takes over what other threads gave back: `thread_free` is emptied in
    /// one piece and joined to `local_free`. No slot changes hands.
    pub fn collect(&mut self)
        requires
            old(self).wf(),
        ensures
            final(self).wf(),
            old(self).after_collect(final(self)),
            final(self).owner_available() == old(self).owner_available() + old(
                self,
            ).remote_pending(),
            final(self).available() == old(self).available(),
            forall|slot: int| final(self).is_allocated(slot) == old(self).is_allocated(slot),
    {
        self.local_free.append(&mut self.thread_free);
        proof {
            assert(self.slots() =~= old(self).slots());
        }
    }

    /// Hands out a slot, or `None` if every slot is handed out already.
    ///
    /// Takes the last entry of `free`. If `free` is empty, it first takes
    /// `thread_free` over and makes what the owner and the other threads gave
    /// back the new `free`.
    pub fn take_block(&mut self) -> (slot: Option<usize>)
        requires
            old(self).wf(),
        ensures
            final(self).wf(),
            final(self).same_shape(old(self)),
            old(self).available() == 0 <==> slot is None,
            slot is None ==> final(self).slots() == old(self).slots(),
            slot matches Some(k) ==> {
                &&& k == old(self).next_slot()
                &&& k < old(self).spec_capacity()
                &&& !old(self).is_allocated(k as int)
                &&& final(self).is_allocated(k as int)
                &&& final(self).available() == old(self).available() - 1
                &&& forall|j: int| j != k ==> final(self).is_allocated(j) == old(self).is_allocated(j)
            },
            old(self).free_list().len() > 0 ==> {
                &&& final(self).free_list() == old(self).free_list().drop_last()
                &&& final(self).local_free_list() == old(self).local_free_list()
                &&& final(self).thread_free_list() == old(self).thread_free_list()
            },
            old(self).free_list().len() == 0 && old(self).available() > 0 ==> {
                &&& final(self).free_list() == (old(self).local_free_list() + old(
                    self,
                ).thread_free_list()).drop_last()
                &&& final(self).local_free_list().len() == 0
                &&& final(self).thread_free_list().len() == 0
            },
    {
        if self.free.len() == 0 {
            self.collect();
            core::mem::swap(&mut self.free, &mut self.local_free);
            proof {
                assert(self.slots() =~= old(self).slots());
            }
        }
        let ghost before = self.slots();
        let ghost front = self.free@.len();
        let slot = self.free.pop();
        proof {
            if slot is Some {
                let k = slot->0;
                assert(before[front - 1] == k);
                assert(self.slots() =~= before.remove(front - 1));
                lemma_remove_distinct(before, front - 1);
                assert(old(self).slots().contains(k));
                assert forall|i: int| 0 <= i < self.slots().len() implies self.slots()[i]
                    < self.spec_capacity() by {
                    let i2 = if i < front - 1 {
                        i
                    } else {
                        i + 1
                    };
                    assert(self.slots()[i] == before[i2]);
                }
            } else {
                assert(self.slots() =~= old(self).slots());
                assert(old(self).slots().len() == 0);
            }
        }
        slot
    }

    /// Takes back a slot that is handed out. The owner's blocks go to
    /// `local_free`, everybody else's to `thread_free`.
    pub fn free_block(&mut self, slot: usize, by_owner: bool)
        requires
            old(self).wf(),
            old(self).is_allocated(slot as int),
        ensures
            final(self).wf(),
            old(self).after_free(slot, by_owner, final(self)),
            !final(self).is_allocated(slot as int),
            final(self).available() == old(self).available() + 1,
            forall|j: int| j != slot ==> final(self).is_allocated(j) == old(self).is_allocated(j),
    {
        let ghost before = self.slots();
        let ghost position: int = if by_owner {
            (self.free@.len() + self.local_free@.len()) as int
        } else {
            before.len() as int
        };
        if by_owner {
            self.local_free.push(slot);
        } else {
            self.thread_free.push(slot);
        }
        proof {
            assert(self.slots() =~= before.insert(position, slot));
            lemma_insert_distinct(before, position, slot);
            assert(self.slots().contains(slot));
            assert forall|i: int| 0 <= i < self.slots().len() implies self.slots()[i]
                < self.spec_capacity() by {
                if i != position {
                    let i2 = if i < position {
                        i
                    } else {
                        i - 1
                    };
                    assert(self.slots()[i] == before[i2]);
                }
            }
        }
    }

    /// Whether slot `slot` exists and is handed out.
    pub fn holds(&self, slot: usize) -> (held: bool)
        requires
            self.wf(),
        ensures
            held == self.is_allocated(slot as int),
    {
        if slot >= self.capacity {
            return false;
        }
        let listed: bool = list_contains(&self.free, slot) || list_contains(&self.local_free, slot)
            || list_contains(&self.thread_free, slot);
        proof {
            let whole = self.slots();
            let a = self.free@;
            let b = self.local_free@;
            let c = self.thread_free@;
            if a.contains(slot) {
                let i = choose|i: int| 0 <= i < a.len() && a[i] == slot;
                assert(whole[i] == slot);
            }
            if b.contains(slot) {
                let i = choose|i: int| 0 <= i < b.len() && b[i] == slot;
                assert(whole[a.len() + i] == slot);
            }
            if c.contains(slot) {
                let i = choose|i: int| 0 <= i < c.len() && c[i] == slot;
                assert(whole[a.len() + b.len() + i] == slot);
            }
            if whole.contains(slot) {
                let i = choose|i: int| 0 <= i < whole.len() && whole[i] == slot;
                if i < a.len() {
                    assert(a[i] == slot);
                } else if i < a.len() + b.len() {
                    assert(b[i - a.len()] == slot);
                } else {
                    assert(c[i - a.len() - b.len()] == slot);
                }
            }
        }
        !listed
    }
}

/// While other threads give blocks back, what the owner can hand out does
/// not change and what is pending grows by one for each block.
pub proof fn lemma_remote_frees_pending(stages: Seq<Page>, slots: Seq<usize>, i: int)
    requires
        stages.len() == slots.len() + 1,
        forall|k: int|
            0 <= k < slots.len() ==> (#[trigger] stages[k]).after_free(
                slots[k],
                false,
                &stages[k + 1],
            ),
        0 <= i <= slots.len(),
    ensures
        stages[i].owner_available() == stages[0].owner_available(),
        stages[i].remote_pending() == stages[0].remote_pending() + i,
    decreases i,
{
    if i > 0 {
        lemma_remote_frees_pending(stages, slots, i - 1);
        assert(stages[i - 1].after_free(slots[i - 1], false, &stages[i]));
    }
}

/// Cross-thread frees are neither lost nor duplicated: after other threads
/// have given back the blocks `slots` one by one and the owner has taken them
/// over, the owner can hand out exactly that many blocks more, and nothing is
/// left pending.
pub proof fn lemma_remote_frees_counted(stages: Seq<Page>, slots: Seq<usize>, collected: Page)
    requires
        stages.len() == slots.len() + 1,
        forall|k: int|
            0 <= k < slots.len() ==> (#[trigger] stages[k]).after_free(
                slots[k],
                false,
                &stages[k + 1],
            ),
        stages.last().after_collect(&collected),
    ensures
        collected.owner_available() == stages[0].owner_available() + stages[0].remote_pending()
            + slots.len(),
        collected.remote_pending() == 0,
        collected.available() == stages[0].available() + slots.len(),
{
    lemma_remote_frees_pending(stages, slots, slots.len() as int);
}

/// Whether `list` holds `slot`.
fn list_contains(list: &Vec<usize>, slot: usize) -> (found: bool)
    ensures
        found == list@.contains(slot),
{
    let mut i: usize = 0;
    while i < list.len()
        invariant
            i <= list.len(),
            forall|j: int| 0 <= j < i ==> list@[j] != slot,
        decreases list.len() - i,
    {
        if list[i] == slot {
            return true;
        }
        i = i + 1;
    }
    false
}

} // verus!
