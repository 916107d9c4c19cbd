//! Segments: 4 MiB of address space, aligned to its own size and cut into
//! pages of one kind.
//!
//! Because a segment is aligned to its size, the segment that holds an
//! address is found by masking the address, the page by dividing the offset
//! by the page size, and the block by dividing what remains by the block
//! size.

use vstd::prelude::*;
use vstd::arithmetic::div_mod::{lemma_fundamental_div_mod, lemma_fundamental_div_mod_converse};
use crate::memory::class::PageType;
use crate::memory::page::Page;
use crate::memory::{SEGMENT_MASK, SEGMENT_SIZE};

verus! {

/// One segment: where it starts, whose it is, of which kind its pages are,
/// and the pages carved so far.
pub struct Segment {
    thread_id: u64,
    kind: PageType,
    base: u64,
    pages: Vec<Page>,
}

/// The start of the segment that holds `addr`.
pub open spec fn segment_start(addr: u64) -> u64 {
    (addr - addr % SEGMENT_SIZE) as u64
}

/// Finds the start of the segment that holds `addr` by masking.
pub fn segment_base(addr: u64) -> (base: u64)
    ensures
        base == segment_start(addr),
        base == addr & SEGMENT_MASK,
        base <= addr < base + SEGMENT_SIZE,
        base % SEGMENT_SIZE == 0,
{
    assert(addr & 0xffff_ffff_ffc0_0000 == addr - addr % 4194304) by (bit_vector);
    assert((addr & 0xffff_ffff_ffc0_0000) % 4194304 == 0) by (bit_vector);
    addr & SEGMENT_MASK
}

/// Whether a segment can start at `base`.
pub open spec fn valid_base(base: u64) -> bool {
    base != 0 && base % SEGMENT_SIZE == 0 && base + SEGMENT_SIZE <= u64::MAX
}

/// A product of two factors of which one grows does not shrink.
pub proof fn lemma_mul_ordered(a: int, b: int, c: int)
    requires
        0 <= a <= b,
        0 <= c,
    ensures
        a * c <= b * c,
{
    assert(a * c <= b * c) by (nonlinear_arith)
        requires
            0 <= a <= b,
            0 <= c,
    ;
}

impl Segment {
    /// Address of the first byte of the segment.
    pub closed spec fn spec_base(&self) -> u64 {
        self.base
    }

    /// The thread that owns the segment.
    pub closed spec fn spec_thread_id(&self) -> u64 {
        self.thread_id
    }

    /// The kind of every page of the segment.
    pub closed spec fn spec_kind(&self) -> PageType {
        self.kind
    }

    /// The pages that have been carved so far. Page `i` begins `i` page sizes
    /// into the segment.
    pub closed spec fn pages(&self) -> Seq<Page> {
        self.pages@
    }

    /// Size of each page of the segment.
    pub open spec fn page_size(&self) -> int {
        self.spec_kind().size_spec() as int
    }

    /// The segment lies where a segment may lie, holds no more pages than
    /// fit, and every page is well formed, knows its index, and fits into a
    /// page of the segment's kind.
    pub open spec fn wf(&self) -> bool {
        &&& valid_base(self.spec_base())
        &&& self.pages().len() <= self.spec_kind().per_segment_spec()
        &&& forall|i: int|
            0 <= i < self.pages().len() ==> {
                &&& (#[trigger] self.pages()[i]).wf()
                &&& self.pages()[i].spec_segment_idx() == i
                &&& self.pages()[i].spec_block_size() * self.pages()[i].spec_capacity()
                    <= self.page_size()
            }
    }

    /// Whether the segment and `other` are the same but for the state of
    /// their pages' free lists.
    pub open spec fn same_frame(&self, other: &Segment) -> bool {
        &&& self.spec_base() == other.spec_base()
        &&& self.spec_thread_id() == other.spec_thread_id()
        &&& self.spec_kind() == other.spec_kind()
    }

    /// Whether `addr` lies inside the segment.
    pub open spec fn covers(&self, addr: int) -> bool {
        self.spec_base() <= addr < self.spec_base() + SEGMENT_SIZE
    }

    /// Index of the page that holds `addr`.
    pub open spec fn page_index(&self, addr: int) -> int {
        (addr - self.spec_base()) / self.page_size()
    }

    /// Offset of `addr` inside its page.
    pub open spec fn page_offset(&self, addr: int) -> int {
        (addr - self.spec_base()) % self.page_size()
    }

    /// Index of the block slot that holds `addr`.
    pub open spec fn slot_index(&self, addr: int) -> int {
        self.page_offset(addr) / (self.pages()[self.page_index(addr)].spec_block_size() as int)
    }

    /// Address of slot `slot` of page `page`.
    pub open spec fn block_address(&self, page: int, slot: int) -> int {
        self.spec_base() + page * self.page_size() + slot * self.pages()[page].spec_block_size()
    }

    /// Whether `addr` is the first byte of a block slot of a carved page.
    pub open spec fn is_block(&self, addr: int) -> bool {
        &&& self.covers(addr)
        &&& self.page_index(addr) < self.pages().len()
        &&& self.page_offset(addr) % (self.pages()[self.page_index(addr)].spec_block_size() as int)
            == 0
        &&& self.slot_index(addr) < self.pages()[self.page_index(addr)].spec_capacity()
    }

    /// Whether `addr` is the first byte of a block that is handed out.
    pub open spec fn live_at(&self, addr: int) -> bool {
        &&& self.is_block(addr)
        &&& self.pages()[self.page_index(addr)].is_allocated(self.slot_index(addr))
    }

    /// Size of the blocks of the page that holds `addr`.
    pub open spec fn block_size_at(&self, addr: int) -> u64 {
        self.pages()[self.page_index(addr)].spec_block_size()
    }

    /// Whether no block of the segment is handed out.
    pub open spec fn unused(&self) -> bool {
        forall|i: int, slot: int|
            0 <= i < self.pages().len() ==> !(#[trigger] self.pages()[i].is_allocated(slot))
    }

    /// The address of a slot lies in its page, and page and slot are
    /// recovered from it by division.
    pub proof fn lemma_locate_address(&self, page: int, slot: int)
        requires
            self.wf(),
            0 <= page < self.pages().len(),
            0 <= slot < self.pages()[page].spec_capacity(),
        ensures
            self.spec_base() + page * self.page_size() <= self.block_address(page, slot),
            self.block_address(page, slot) + self.pages()[page].spec_block_size()
                <= self.spec_base() + (page + 1) * self.page_size(),
            self.spec_base() + (page + 1) * self.page_size() <= self.spec_base() + SEGMENT_SIZE,
            self.is_block(self.block_address(page, slot)),
            self.page_index(self.block_address(page, slot)) == page,
            self.slot_index(self.block_address(page, slot)) == slot,
    {
        let size = self.page_size();
        let bytes = self.pages()[page].spec_block_size() as int;
        let capacity = self.pages()[page].spec_capacity() as int;
        let within = slot * bytes;
        assert(self.pages()[page].wf());
        lemma_mul_ordered(slot + 1, capacity, bytes);
        assert((slot + 1) * bytes == slot * bytes + bytes) by (nonlinear_arith);
        assert(capacity * bytes == bytes * capacity) by (nonlinear_arith);
        assert(0 <= within) by (nonlinear_arith)
            requires
                0 <= slot,
                0 <= bytes,
                within == slot * bytes,
        ;
        assert(within + bytes <= size);
        lemma_mul_ordered(page + 1, self.spec_kind().per_segment_spec() as int, size);
        assert((page + 1) * size == page * size + size) by (nonlinear_arith);
        assert(self.spec_kind().per_segment_spec() * size == SEGMENT_SIZE);
        assert(0 <= page * size) by (nonlinear_arith)
            requires
                0 <= page,
                0 <= size,
        ;
        assert(size > 0);
        let offset = page * size + within;
        assert(size * page == page * size) by (nonlinear_arith);
        lemma_fundamental_div_mod_converse(offset, size, page, within);
        assert(bytes * slot == slot * bytes) by (nonlinear_arith);
        lemma_fundamental_div_mod_converse(within, bytes, slot, 0);
    }

    /// The first byte of a block is the address of the slot that division
    /// finds for it.
    pub proof fn lemma_address_of_location(&self, addr: int)
        requires
            self.wf(),
            self.is_block(addr),
        ensures
            0 <= self.page_index(addr) < self.pages().len(),
            0 <= self.slot_index(addr) < self.pages()[self.page_index(addr)].spec_capacity(),
            addr == self.block_address(self.page_index(addr), self.slot_index(addr)),
    {
        let size = self.page_size();
        let offset = addr - self.spec_base();
        let page = self.page_index(addr);
        let bytes = self.pages()[page].spec_block_size() as int;
        lemma_fundamental_div_mod(offset, size);
        vstd::arithmetic::div_mod::lemma_div_pos_is_pos(offset, size);
        vstd::arithmetic::div_mod::lemma_mod_bound(offset, size);
        assert(self.pages()[page].wf());
        let within = offset % size;
        lemma_fundamental_div_mod(within, bytes);
        vstd::arithmetic::div_mod::lemma_div_pos_is_pos(within, bytes);
        assert(size * page == page * size) by (nonlinear_arith);
        assert(bytes * (within / bytes) == (within / bytes) * bytes) by (nonlinear_arith);
    }

    /// A block is no larger than its page.
    pub proof fn lemma_page_fits(&self, page: int)
        requires
            self.wf(),
            0 <= page < self.pages().len(),
            self.pages()[page].spec_capacity() >= 1,
        ensures
            self.pages()[page].spec_block_size() <= self.page_size(),
    {
        assert(self.pages()[page].wf());
        lemma_mul_ordered(
            1,
            self.pages()[page].spec_capacity() as int,
            self.pages()[page].spec_block_size() as int,
        );
        assert(self.pages()[page].spec_block_size() * self.pages()[page].spec_capacity()
            == self.pages()[page].spec_capacity() * self.pages()[page].spec_block_size())
            by (nonlinear_arith);
    }

    /// Two different slots of the segment do not overlap.
    pub proof fn lemma_slots_disjoint(&self, page1: int, slot1: int, page2: int, slot2: int)
        requires
            self.wf(),
            0 <= page1 < self.pages().len(),
            0 <= slot1 < self.pages()[page1].spec_capacity(),
            0 <= page2 < self.pages().len(),
            0 <= slot2 < self.pages()[page2].spec_capacity(),
            page1 != page2 || slot1 != slot2,
        ensures
            self.block_address(page1, slot1) + self.pages()[page1].spec_block_size()
                <= self.block_address(page2, slot2) || self.block_address(page2, slot2)
                + self.pages()[page2].spec_block_size() <= self.block_address(page1, slot1),
    {
        let size = self.page_size();
        self.lemma_locate_address(page1, slot1);
        self.lemma_locate_address(page2, slot2);
        if page1 < page2 {
            lemma_mul_ordered(page1 + 1, page2, size);
        } else if page2 < page1 {
            lemma_mul_ordered(page2 + 1, page1, size);
        } else {
            let bytes = self.pages()[page1].spec_block_size() as int;
            if slot1 < slot2 {
                lemma_mul_ordered(slot1 + 1, slot2, bytes);
                assert((slot1 + 1) * bytes == slot1 * bytes + bytes) by (nonlinear_arith);
            } else {
                lemma_mul_ordered(slot2 + 1, slot1, bytes);
                assert((slot2 + 1) * bytes == slot2 * bytes + bytes) by (nonlinear_arith);
            }
        }
    }

    /// A segment at `base` with pages of kind `kind`, none of them carved
    /// yet, owned by thread `thread_id`.
    pub fn new(base: u64, kind: PageType, thread_id: u64) -> (segment: Segment)
        requires
            valid_base(base),
        ensures
            segment.wf(),
            segment.spec_base() == base,
            segment.spec_kind() == kind,
            segment.spec_thread_id() == thread_id,
            segment.pages().len() == 0,
    {
        Segment { thread_id, kind, base, pages: Vec::new() }
    }

    #[verifier::when_used_as_spec(spec_base)]
    pub fn base(&self) -> (base: u64)
        ensures
            base == self.spec_base(),
    {
        self.base
    }

    #[verifier::when_used_as_spec(spec_thread_id)]
    pub fn thread_id(&self) -> (id: u64)
        ensures
            id == self.spec_thread_id(),
    {
        self.thread_id
    }

    #[verifier::when_used_as_spec(spec_kind)]
    pub fn kind(&self) -> (kind: PageType)
        ensures
            kind == self.spec_kind(),
    {
        self.kind
    }

    /// Number of pages carved so far.
    pub fn page_count(&self) -> (count: usize)
        ensures
            count == self.pages().len(),
    {
        self.pages.len()
    }

    /// Whether another page can be carved.
    pub fn has_room(&self) -> (room: bool)
        ensures
            room <==> self.pages().len() < self.spec_kind().per_segment_spec(),
    {
        self.pages.len() < self.kind.per_segment()
    }

    /// Carves the next page of the segment into blocks of `block_size`
    /// bytes, as many as fit, and returns the page's index.
    pub fn add_page(&mut self, block_size: u64) -> (index: usize)
        requires
            old(self).wf(),
            old(self).pages().len() < old(self).spec_kind().per_segment_spec(),
            0 < block_size <= old(self).page_size(),
        ensures
            final(self).wf(),
            final(self).same_frame(old(self)),
            index == old(self).pages().len(),
            final(self).pages().len() == index + 1,
            forall|i: int| 0 <= i < index ==> final(self).pages()[i] == old(self).pages()[i],
            final(self).pages()[index as int].spec_block_size() == block_size,
            final(self).pages()[index as int].spec_capacity() == old(self).page_size()
                / (block_size as int),
            final(self).pages()[index as int].spec_capacity() >= 1,
            final(self).pages()[index as int].available() == final(self).pages()[index as int].spec_capacity(),
            final(self).pages()[index as int].next_slot() == 0,
            forall|slot: int| !final(self).pages()[index as int].is_allocated(slot),
            forall|addr: int| final(self).live_at(addr) == old(self).live_at(addr),
    {
        let index: usize = self.pages.len();
        let size: u64 = self.kind.size();
        let capacity: u64 = size / block_size;
        proof {
            lemma_fundamental_div_mod(size as int, block_size as int);
            vstd::arithmetic::div_mod::lemma_mod_bound(size as int, block_size as int);
            vstd::arithmetic::div_mod::lemma_div_non_zero(size as int, block_size as int);
            assert((block_size as int) * (size as int / block_size as int) <= size);
        }
        let page = Page::new(block_size, capacity as usize, index);
        proof {
            assert(page.slots() =~= page.free_list());
            assert(page.free_list().last() == 0);
        }
        self.pages.push(page);
        proof {
            assert forall|addr: int| self.live_at(addr) == old(self).live_at(addr) by {
                let p = self.page_index(addr);
                if self.covers(addr) && 0 <= p < index {
                    assert(self.pages()[p] == old(self).pages()[p]);
                }
                if self.covers(addr) {
                    vstd::arithmetic::div_mod::lemma_div_pos_is_pos(
                        addr - self.spec_base(),
                        self.page_size(),
                    );
                }
            }
        }
        index
    }

    /// Hands out a block of page `page`, or `None` if the page has none
    /// left.
    pub fn take_block(&mut self, page: usize) -> (addr: Option<u64>)
        requires
            old(self).wf(),
            page < old(self).pages().len(),
        ensures
            final(self).wf(),
            final(self).same_frame(old(self)),
            final(self).pages().len() == old(self).pages().len(),
            forall|i: int|
                0 <= i < old(self).pages().len() && i != page ==> final(self).pages()[i] == old(
                    self,
                ).pages()[i],
            forall|i: int|
                0 <= i < old(self).pages().len() ==> (#[trigger] final(self).pages()[i]).same_shape(
                    &old(self).pages()[i],
                ),
            addr is None <==> old(self).pages()[page as int].available() == 0,
            addr is None ==> forall|b: int| final(self).live_at(b) == old(self).live_at(b),
            final(self).pages()[page as int].available() + (if addr is Some {
                1int
            } else {
                0int
            }) == old(self).pages()[page as int].available(),
            addr matches Some(a) ==> {
                &&& a == old(self).block_address(
                    page as int,
                    old(self).pages()[page as int].next_slot() as int,
                )
                &&& !old(self).live_at(a as int)
                &&& final(self).live_at(a as int)
                &&& final(self).page_index(a as int) == page
                &&& forall|b: int| b != a ==> final(self).live_at(b) == old(self).live_at(b)
            },
    {
        let size: u64 = self.kind.size();
        let bytes: u64 = self.pages[page].block_size();
        let taken = self.pages[page].take_block();
        proof {
            assert forall|i: int| 0 <= i < self.pages().len() implies {
                &&& (#[trigger] self.pages()[i]).wf()
                &&& self.pages()[i].spec_segment_idx() == i
                &&& self.pages()[i].spec_block_size() * self.pages()[i].spec_capacity()
                    <= self.page_size()
            } by {
                assert(old(self).pages()[i].wf());
            }
        }
        match taken {
            None => {
                proof {
                    assert forall|b: int| self.live_at(b) == old(self).live_at(b) by {
                        let p = self.page_index(b);
                        if 0 <= p < self.pages().len() {
                            assert(self.pages()[p].same_shape(&old(self).pages()[p]));
                            assert(self.pages()[p].slots() == old(self).pages()[p].slots());
                        }
                    }
                }
                None
            },
            Some(slot) => {
                proof {
                    old(self).lemma_locate_address(page as int, slot as int);
                    self.lemma_locate_address(page as int, slot as int);
                    lemma_mul_ordered(
                        page as int,
                        self.spec_kind().per_segment_spec() as int,
                        size as int,
                    );
                    let a = old(self).block_address(page as int, slot as int);
                    assert(a == self.block_address(page as int, slot as int));
                    assert forall|b: int| b != a implies self.live_at(b) == old(self).live_at(
                        b,
                    ) by {
                        let p = self.page_index(b);
                        if self.covers(b) && 0 <= p < self.pages().len() {
                            assert(self.pages()[p].same_shape(&old(self).pages()[p]));
                            if p == page {
                                if self.is_block(b) {
                                    self.lemma_address_of_location(b);
                                    assert(self.slot_index(b) != slot);
                                }
                            } else {
                                assert(self.pages()[p] == old(self).pages()[p]);
                            }
                        }
                    }
                }
                Some(self.base + (page as u64) * size + (slot as u64) * bytes)
            },
        }
    }

    /// Whether page `page` serves blocks of `block_size` bytes and has one
    /// to hand out.
    pub open spec fn serves(&self, page: int, block_size: u64) -> bool {
        &&& 0 <= page < self.pages().len()
        &&& self.pages()[page].spec_block_size() == block_size
        &&& self.pages()[page].available() > 0
    }

    /// Whether page `page` serves blocks of `block_size` bytes and has one
    /// to hand out.
    pub fn page_serves(&self, page: usize, block_size: u64) -> (yes: bool)
        requires
            self.wf(),
        ensures
            yes == self.serves(page as int, block_size),
    {
        if page >= self.pages.len() {
            return false;
        }
        assert(self.pages()[page as int].wf());
        self.pages[page].block_size() == block_size && self.pages[page].count_available() > 0
    }

    /// Finds the first page that serves blocks of `block_size` bytes and has
    /// one to hand out.
    pub fn find_page(&self, block_size: u64) -> (found: Option<usize>)
        requires
            self.wf(),
        ensures
            found matches Some(page) ==> self.serves(page as int, block_size) && forall|
                earlier: int,
            | 0 <= earlier < page ==> !self.serves(earlier, block_size),
            found is None ==> forall|page: int| !self.serves(page, block_size),
    {
        let mut i: usize = 0;
        while i < self.pages.len()
            invariant
                self.wf(),
                i <= self.pages().len(),
                forall|earlier: int| 0 <= earlier < i ==> !self.serves(earlier, block_size),
            decreases self.pages().len() - i,
        {
            assert(self.pages()[i as int].wf());
            if self.pages[i].block_size() == block_size && self.pages[i].count_available() > 0 {
                return Some(i);
            }
            i = i + 1;
        }
        None
    }

    /// Finds the page and the slot whose block begins at `addr`, by shifting
    /// and masking the offset of `addr` in the segment.
    pub fn locate(&self, addr: u64) -> (place: Option<(usize, usize)>)
        requires
            self.wf(),
        ensures
            place is Some <==> self.is_block(addr as int),
            place matches Some((page, slot)) ==> {
                &&& page == self.page_index(addr as int)
                &&& slot == self.slot_index(addr as int)
                &&& addr == self.block_address(page as int, slot as int)
            },
    {
        if addr < self.base || addr - self.base >= SEGMENT_SIZE {
            return None;
        }
        let offset: u64 = addr - self.base;
        let shift: u64 = self.kind.shift();
        let size: u64 = self.kind.size();
        let page: u64 = offset >> shift;
        let within: u64 = offset & (size - 1);
        proof {
            assert(offset >> 16u64 == offset / 65536) by (bit_vector);
            assert(offset >> 19u64 == offset / 524288) by (bit_vector);
            assert(offset >> 22u64 == offset / 4194304) by (bit_vector);
            assert(offset & 65535 == offset % 65536) by (bit_vector);
            assert(offset & 524287 == offset % 524288) by (bit_vector);
            assert(offset & 4194303 == offset % 4194304) by (bit_vector);
            assert(page == self.page_index(addr as int));
            assert(within == self.page_offset(addr as int));
        }
        if page >= self.pages.len() as u64 {
            return None;
        }
        let index: usize = page as usize;
        assert(self.pages()[index as int].wf());
        let bytes: u64 = self.pages[index].block_size();
        if within % bytes != 0 {
            return None;
        }
        let slot: u64 = within / bytes;
        if slot >= self.pages[index].capacity() as u64 {
            return None;
        }
        proof {
            self.lemma_address_of_location(addr as int);
        }
        Some((index, slot as usize))
    }

    /// Whether a block that is handed out begins at `addr`.
    pub fn is_live(&self, addr: u64) -> (live: bool)
        requires
            self.wf(),
        ensures
            live == self.live_at(addr as int),
    {
        match self.locate(addr) {
            Some((page, slot)) => {
                assert(self.pages()[page as int].wf());
                self.pages[page].holds(slot)
            },
            None => false,
        }
    }

    /// Size of the block that begins at `addr`, if any block does.
    pub fn block_size_of(&self, addr: u64) -> (bytes: Option<u64>)
        requires
            self.wf(),
        ensures
            bytes is Some <==> self.is_block(addr as int),
            bytes matches Some(b) ==> b == self.block_size_at(addr as int),
    {
        match self.locate(addr) {
            Some((page, _)) => Some(self.pages[page].block_size()),
            None => None,
        }
    }

    /// Takes back the block that begins at `addr`: on behalf of the owning
    /// thread, or on behalf of another one.
    pub fn free_block(&mut self, addr: u64, by_owner: bool)
        requires
            old(self).wf(),
            old(self).live_at(addr as int),
        ensures
            final(self).wf(),
            final(self).same_frame(old(self)),
            final(self).pages().len() == old(self).pages().len(),
            forall|i: int|
                0 <= i < old(self).pages().len() && i != old(self).page_index(addr as int)
                    ==> final(self).pages()[i] == old(self).pages()[i],
            forall|i: int|
                0 <= i < old(self).pages().len() ==> (#[trigger] final(self).pages()[i]).same_shape(
                    &old(self).pages()[i],
                ),
            old(self).pages()[old(self).page_index(addr as int)].after_free(
                old(self).slot_index(addr as int) as usize,
                by_owner,
                &final(self).pages()[old(self).page_index(addr as int)],
            ),
            !final(self).live_at(addr as int),
            final(self).is_block(addr as int),
            forall|b: int| b != addr ==> final(self).live_at(b) == old(self).live_at(b),
    {
        let place = self.locate(addr);
        let (page, slot) = place.unwrap();
        assert(self.pages()[page as int].wf());
        self.pages[page].free_block(slot, by_owner);
        proof {
            assert forall|i: int| 0 <= i < self.pages().len() implies {
                &&& (#[trigger] self.pages()[i]).wf()
                &&& self.pages()[i].spec_segment_idx() == i
                &&& self.pages()[i].spec_block_size() * self.pages()[i].spec_capacity()
                    <= self.page_size()
            } by {
                assert(old(self).pages()[i].wf());
            }
            assert forall|b: int| b != addr implies self.live_at(b) == old(self).live_at(b) by {
                let p = self.page_index(b);
                if self.covers(b) && 0 <= p < self.pages().len() {
                    assert(self.pages()[p].same_shape(&old(self).pages()[p]));
                    if p == page {
                        if self.is_block(b) {
                            self.lemma_address_of_location(b);
                            assert(self.slot_index(b) != slot);
                        }
                    } else {
                        assert(self.pages()[p] == old(self).pages()[p]);
                    }
                }
            }
        }
    }

    /// Whether no block of the segment is handed out.
    pub fn is_unused(&self) -> (unused: bool)
        requires
            self.wf(),
        ensures
            unused == self.unused(),
    {
        let mut i: usize = 0;
        while i < self.pages.len()
            invariant
                self.wf(),
                i <= self.pages().len(),
                forall|k: int, slot: int|
                    0 <= k < i ==> !(#[trigger] self.pages()[k].is_allocated(slot)),
            decreases self.pages().len() - i,
        {
            assert(self.pages()[i as int].wf());
            if !self.pages[i].is_unused() {
                proof {
                    let slot = choose|slot: int| self.pages()[i as int].is_allocated(slot);
                    assert(self.pages()[i as int].is_allocated(slot));
                }
                return false;
            }
            i = i + 1;
        }
        true
    }

    /// In an unused segment no address is live.
    pub proof fn lemma_unused_has_no_live(&self, addr: int)
        requires
            self.unused(),
        ensures
            !self.live_at(addr),
    {
        if self.is_block(addr) {
            let p = self.page_index(addr);
            vstd::arithmetic::div_mod::lemma_div_pos_is_pos(
                addr - self.spec_base(),
                self.page_size(),
            );
            assert(!self.pages()[p].is_allocated(self.slot_index(addr)));
        }
    }
}

} // verus!
