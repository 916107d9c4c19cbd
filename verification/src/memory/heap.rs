//! The heap of one thread: its segments, the table of the pages that
//! currently serve the smallest size classes, and a queue of pages with room
//! for each of the other classes.
//!
//! The heap keeps books on address space that its host maps for it. When no
//! segment can serve a request, allocation says which kind of segment is
//! missing; the host maps one, registers it, and asks again. When the last
//! block of a segment comes back, the heap drops the segment and says what
//! to unmap.

use vstd::prelude::*;
use crate::memory::class::{
    class_of,
    lemma_align_divides,
    lemma_class_fits,
    lemma_multiple_of_multiple,
    lemma_round_up,
    lemma_round_up_monotone,
    padded,
    size_class,
    unit_of,
    valid_align,
    ClassError,
    PageType,
    SizeClass,
    DIRECT_MAX,
    DIRECT_SLOTS,
    QUEUE_COUNT,
    SMALL_BLOCK_MAX,
    WORD,
};
use crate::memory::map::UnmapRequest;
use crate::memory::segment::{segment_base, segment_start, Segment};
use crate::memory::SEGMENT_SIZE;

verus! {

/// Whether every segment is well formed and belongs to thread `thread_id`,
/// and no two segments start at the same address.
pub open spec fn well_formed(segments: Seq<Segment>, thread_id: u64) -> bool {
    &&& forall|i: int|
        0 <= i < segments.len() ==> (#[trigger] segments[i]).wf() && segments[i].spec_thread_id()
            == thread_id
    &&& forall|i: int, j: int|
        0 <= i < segments.len() && 0 <= j < segments.len() && i != j ==> (
        #[trigger] segments[i]).spec_base() != (#[trigger] segments[j]).spec_base()
}

/// Whether a block that is handed out begins at `addr`.
pub open spec fn live_in(segments: Seq<Segment>, addr: u64) -> bool {
    exists|i: int| 0 <= i < segments.len() && (#[trigger] segments[i]).live_at(addr as int)
}

/// Size of the block that begins at `addr`.
pub open spec fn size_in(segments: Seq<Segment>, addr: u64) -> u64 {
    let i = choose|i: int| 0 <= i < segments.len() && (#[trigger] segments[i]).live_at(addr as int);
    segments[i].block_size_at(addr as int)
}

/// The blocks that are handed out: first byte and size of each.
pub open spec fn blocks_of(segments: Seq<Segment>) -> Map<u64, u64> {
    Map::new(|addr: u64| live_in(segments, addr), |addr: u64| size_in(segments, addr))
}

/// Whether some segment of kind `class.kind` can serve a block of
/// `class.block_size` bytes, from a page that has one or from a page that it
/// can still carve.
pub open spec fn can_serve(segments: Seq<Segment>, class: SizeClass) -> bool {
    exists|i: int|
        0 <= i < segments.len() && (#[trigger] segments[i]).spec_kind() == class.kind && ((exists|
            page: int,
        |
            segments[i].serves(page, class.block_size)) || segments[i].pages().len()
            < class.kind.per_segment_spec())
}

/// Whether the block at `addr` is what page `page` of `segment` hands out
/// next for size class `class`: the next slot of a page that serves the
/// class, or the first slot of the page that is carved next.
pub open spec fn taken_from(segment: Segment, page: int, addr: u64, class: SizeClass) -> bool {
    &&& segment.spec_kind() == class.kind
    &&& if 0 <= page < segment.pages().len() {
        &&& segment.serves(page, class.block_size)
        &&& addr == segment.block_address(page, segment.pages()[page].next_slot() as int)
    } else {
        &&& page == segment.pages().len()
        &&& page < class.kind.per_segment_spec()
        &&& addr == segment.spec_base() + page * segment.page_size()
    }
}

/// Whether `after` is `before` once some segment has handed out the block
/// at `addr` for size class `class`.
pub open spec fn taken_in(before: Seq<Segment>, after: Seq<Segment>, addr: u64, class: SizeClass) -> bool {
    exists|i: int, page: int|
        {
            &&& 0 <= i < before.len()
            &&& after == before.update(i, after[i])
            &&& #[trigger] taken_from(before[i], page, addr, class)
        }
}

/// Whether `after` is `before` once the block at `addr` has been given back
/// to the free list of its page that is meant for its giver: the local list
/// for the owning thread, the list for other threads otherwise.
pub open spec fn freed_in(before: Seq<Segment>, after: Seq<Segment>, addr: u64, by_owner: bool) -> bool {
    exists|i: int|
        {
            &&& 0 <= i < before.len()
            &&& (#[trigger] before[i]).covers(addr as int)
            &&& after == before.update(i, after[i])
            &&& after[i].pages().len() == before[i].pages().len()
            &&& before[i].pages()[before[i].page_index(addr as int)].after_free(
                before[i].slot_index(addr as int) as usize,
                by_owner,
                &after[i].pages()[before[i].page_index(addr as int)],
            )
        }
}

/// Whether the block at `addr` is the only live block of its segment.
pub open spec fn alone_in_segment(blocks: Map<u64, u64>, addr: u64) -> bool {
    forall|other: u64| #[trigger]
        blocks.contains_key(other) && other != addr ==> segment_start(
            other,
        ) != segment_start(addr)
}

/// A segment starts where the segment of each of its addresses starts.
pub proof fn lemma_covered_start(segment: Segment, addr: u64)
    requires
        segment.wf(),
        segment.covers(addr as int),
    ensures
        segment.spec_base() == segment_start(addr),
{
    if segment.spec_base() != segment_start(addr) {
        lemma_bases_apart(
            segment.spec_base() as int,
            segment_start(addr) as int,
        );
    }
}

/// At most one segment covers an address.
pub proof fn lemma_one_owner(segments: Seq<Segment>, thread_id: u64, i: int, j: int, addr: int)
    requires
        well_formed(segments, thread_id),
        0 <= i < segments.len(),
        0 <= j < segments.len(),
        segments[i].covers(addr),
        segments[j].covers(addr),
    ensures
        i == j,
{
    assert(segments[i].wf() && segments[j].wf());
    let a = segments[i].spec_base() as int;
    let b = segments[j].spec_base() as int;
    if a != b {
        lemma_bases_apart(a, b);
    }
}

/// Two different multiples of the segment size are at least one segment
/// size apart.
pub proof fn lemma_bases_apart(a: int, b: int)
    requires
        a % (SEGMENT_SIZE as int) == 0,
        b % (SEGMENT_SIZE as int) == 0,
        a != b,
    ensures
        a + SEGMENT_SIZE <= b || b + SEGMENT_SIZE <= a,
{
    let s = SEGMENT_SIZE as int;
    vstd::arithmetic::div_mod::lemma_fundamental_div_mod(a, s);
    vstd::arithmetic::div_mod::lemma_fundamental_div_mod(b, s);
    let x = a / s;
    let y = b / s;
    if x < y {
        assert(s * (x + 1) <= s * y) by (nonlinear_arith)
            requires
                x + 1 <= y,
                s > 0,
        ;
        assert(s * (x + 1) == s * x + s) by (nonlinear_arith);
    } else if y < x {
        assert(s * (y + 1) <= s * x) by (nonlinear_arith)
            requires
                y + 1 <= x,
                s > 0,
        ;
        assert(s * (y + 1) == s * y + s) by (nonlinear_arith);
    }
}

/// The size of a live block is the block size of the page that holds it, in
/// whichever segment that is.
pub proof fn lemma_size_in(segments: Seq<Segment>, thread_id: u64, i: int, addr: u64)
    requires
        well_formed(segments, thread_id),
        0 <= i < segments.len(),
        segments[i].live_at(addr as int),
    ensures
        live_in(segments, addr),
        size_in(segments, addr) == segments[i].block_size_at(addr as int),
{
    let j = choose|j: int| 0 <= j < segments.len() && (#[trigger] segments[j]).live_at(addr as int);
    lemma_one_owner(segments, thread_id, i, j, addr as int);
}

/// Live blocks do not overlap, do not begin at the null address, and end
/// inside the address range.
pub proof fn lemma_blocks_disjoint(segments: Seq<Segment>, thread_id: u64, a: u64, b: u64)
    requires
        well_formed(segments, thread_id),
        blocks_of(segments).contains_key(a),
        blocks_of(segments).contains_key(b),
        a != b,
    ensures
        a != 0,
        a + blocks_of(segments)[a] <= u64::MAX,
        a + blocks_of(segments)[a] <= b || b + blocks_of(segments)[b] <= a,
{
    let i = choose|i: int| 0 <= i < segments.len() && (#[trigger] segments[i]).live_at(a as int);
    let j = choose|j: int| 0 <= j < segments.len() && (#[trigger] segments[j]).live_at(b as int);
    lemma_size_in(segments, thread_id, i, a);
    lemma_size_in(segments, thread_id, j, b);
    let s = segments[i];
    let t = segments[j];
    assert(s.wf() && t.wf());
    s.lemma_address_of_location(a as int);
    t.lemma_address_of_location(b as int);
    let (p1, k1) = (s.page_index(a as int), s.slot_index(a as int));
    let (p2, k2) = (t.page_index(b as int), t.slot_index(b as int));
    s.lemma_locate_address(p1, k1);
    t.lemma_locate_address(p2, k2);
    if i == j {
        s.lemma_slots_disjoint(p1, k1, p2, k2);
    } else {
        assert(s.spec_base() != t.spec_base());
        lemma_bases_apart(s.spec_base() as int, t.spec_base() as int);
    }
}

/// Replacing segment `i` by one that differs from it in a single block
/// changes the set of live blocks by that block alone.
pub proof fn lemma_blocks_after_take(
    before: Seq<Segment>,
    after: Seq<Segment>,
    thread_id: u64,
    i: int,
    addr: u64,
)
    requires
        well_formed(before, thread_id),
        0 <= i < before.len(),
        after == before.update(i, after[i]),
        after[i].wf(),
        after[i].same_frame(&before[i]),
        after[i].pages().len() >= before[i].pages().len(),
        forall|p: int|
            0 <= p < before[i].pages().len() ==> (#[trigger] after[i].pages()[p]).same_shape(
                &before[i].pages()[p],
            ),
        !before[i].live_at(addr as int),
        after[i].live_at(addr as int),
        forall|b: int| b != addr ==> after[i].live_at(b) == before[i].live_at(b),
    ensures
        well_formed(after, thread_id),
        !blocks_of(before).contains_key(addr),
        blocks_of(after) == blocks_of(before).insert(addr, after[i].block_size_at(addr as int)),
{
    assert(well_formed(after, thread_id)) by {
        assert forall|k: int| 0 <= k < after.len() implies (#[trigger] after[k]).wf()
            && after[k].spec_thread_id() == thread_id by {
            if k != i {
                assert(after[k] == before[k]);
            }
            assert(before[k].wf());
        }
        assert forall|k: int, j: int|
            0 <= k < after.len() && 0 <= j < after.len() && k != j implies (
        #[trigger] after[k]).spec_base() != (#[trigger] after[j]).spec_base() by {
            assert(after[k].spec_base() == before[k].spec_base());
            assert(after[j].spec_base() == before[j].spec_base());
        }
    }
    assert(!live_in(before, addr)) by {
        if live_in(before, addr) {
            let j = choose|j: int|
                0 <= j < before.len() && (#[trigger] before[j]).live_at(addr as int);
            assert(after[i].covers(addr as int));
            lemma_one_owner(before, thread_id, i, j, addr as int);
        }
    }
    lemma_size_in(after, thread_id, i, addr);
    let expected = blocks_of(before).insert(addr, after[i].block_size_at(addr as int));
    assert forall|b: u64| blocks_of(after).contains_key(b) <==> expected.contains_key(b) by {
        if b != addr {
            if live_in(after, b) {
                let j = choose|j: int|
                    0 <= j < after.len() && (#[trigger] after[j]).live_at(b as int);
                assert(before[j].live_at(b as int));
            }
            if live_in(before, b) {
                let j = choose|j: int|
                    0 <= j < before.len() && (#[trigger] before[j]).live_at(b as int);
                assert(after[j].live_at(b as int));
            }
        }
    }
    assert forall|b: u64| blocks_of(after).contains_key(b) implies blocks_of(after)[b]
        == expected[b] by {
        if b != addr {
            let j = choose|j: int|
                0 <= j < after.len() && (#[trigger] after[j]).live_at(b as int);
            assert(before[j].live_at(b as int));
            lemma_size_in(after, thread_id, j, b);
            lemma_size_in(before, thread_id, j, b);
            if j == i {
                let p = before[i].page_index(b as int);
                before[i].lemma_address_of_location(b as int);
                assert(after[i].pages()[p].same_shape(&before[i].pages()[p]));
            }
        }
    }
    assert(blocks_of(after) =~= expected);
}

/// Replacing segment `i` by one in which a single block is no longer live
/// removes that block from the live blocks and changes nothing else.
pub proof fn lemma_blocks_after_free(
    before: Seq<Segment>,
    after: Seq<Segment>,
    thread_id: u64,
    i: int,
    addr: u64,
)
    requires
        well_formed(before, thread_id),
        0 <= i < before.len(),
        after == before.update(i, after[i]),
        after[i].wf(),
        after[i].same_frame(&before[i]),
        after[i].pages().len() == before[i].pages().len(),
        forall|p: int|
            0 <= p < before[i].pages().len() ==> (#[trigger] after[i].pages()[p]).same_shape(
                &before[i].pages()[p],
            ),
        before[i].live_at(addr as int),
        !after[i].live_at(addr as int),
        forall|b: int| b != addr ==> after[i].live_at(b) == before[i].live_at(b),
    ensures
        well_formed(after, thread_id),
        blocks_of(before).contains_key(addr),
        blocks_of(after) == blocks_of(before).remove(addr),
{
    assert(well_formed(after, thread_id)) by {
        assert forall|k: int| 0 <= k < after.len() implies (#[trigger] after[k]).wf()
            && after[k].spec_thread_id() == thread_id by {
            if k != i {
                assert(after[k] == before[k]);
            }
            assert(before[k].wf());
        }
        assert forall|k: int, j: int|
            0 <= k < after.len() && 0 <= j < after.len() && k != j implies (
        #[trigger] after[k]).spec_base() != (#[trigger] after[j]).spec_base() by {
            assert(after[k].spec_base() == before[k].spec_base());
            assert(after[j].spec_base() == before[j].spec_base());
        }
    }
    assert(live_in(before, addr));
    assert(!live_in(after, addr)) by {
        if live_in(after, addr) {
            let j = choose|j: int|
                0 <= j < after.len() && (#[trigger] after[j]).live_at(addr as int);
            assert(before[i].covers(addr as int));
            assert(after[i].covers(addr as int));
            lemma_one_owner(after, thread_id, i, j, addr as int);
        }
    }
    let expected = blocks_of(before).remove(addr);
    assert forall|b: u64| blocks_of(after).contains_key(b) <==> expected.contains_key(b) by {
        if b != addr {
            if live_in(after, b) {
                let j = choose|j: int|
                    0 <= j < after.len() && (#[trigger] after[j]).live_at(b as int);
                assert(before[j].live_at(b as int));
            }
            if live_in(before, b) {
                let j = choose|j: int|
                    0 <= j < before.len() && (#[trigger] before[j]).live_at(b as int);
                assert(after[j].live_at(b as int));
            }
        }
    }
    assert forall|b: u64| blocks_of(after).contains_key(b) implies blocks_of(after)[b]
        == expected[b] by {
        let j = choose|j: int| 0 <= j < after.len() && (#[trigger] after[j]).live_at(b as int);
        assert(before[j].live_at(b as int));
        lemma_size_in(after, thread_id, j, b);
        lemma_size_in(before, thread_id, j, b);
        if j == i {
            let p = before[i].page_index(b as int);
            before[i].lemma_address_of_location(b as int);
            assert(after[i].pages()[p].same_shape(&before[i].pages()[p]));
        }
    }
    assert(blocks_of(after) =~= expected);
}

/// Adding or dropping a segment without live blocks leaves the live blocks
/// as they are.
pub proof fn lemma_blocks_without_unused(
    with: Seq<Segment>,
    without: Seq<Segment>,
    thread_id: u64,
    i: int,
)
    requires
        well_formed(with, thread_id),
        0 <= i < with.len(),
        without == with.remove(i),
        with[i].unused(),
    ensures
        well_formed(without, thread_id),
        blocks_of(without) == blocks_of(with),
{
    assert forall|k: int| 0 <= k < without.len() implies (#[trigger] without[k]).wf()
        && without[k].spec_thread_id() == thread_id by {
        let k2 = if k < i {
            k
        } else {
            k + 1
        };
        assert(without[k] == with[k2]);
        assert(with[k2].wf());
    }
    assert forall|k: int, j: int|
        0 <= k < without.len() && 0 <= j < without.len() && k != j implies (
    #[trigger] without[k]).spec_base() != (#[trigger] without[j]).spec_base() by {
        let k2 = if k < i {
            k
        } else {
            k + 1
        };
        let j2 = if j < i {
            j
        } else {
            j + 1
        };
        assert(without[k] == with[k2] && without[j] == with[j2]);
        assert(with[k2].spec_base() != with[j2].spec_base());
    }
    assert forall|b: u64| live_in(without, b) <==> live_in(with, b) by {
        if live_in(without, b) {
            let k = choose|k: int|
                0 <= k < without.len() && (#[trigger] without[k]).live_at(b as int);
            let k2 = if k < i {
                k
            } else {
                k + 1
            };
            assert(with[k2].live_at(b as int));
        }
        if live_in(with, b) {
            let k = choose|k: int| 0 <= k < with.len() && (#[trigger] with[k]).live_at(b as int);
            with[i].lemma_unused_has_no_live(b as int);
            let k2 = if k < i {
                k
            } else {
                k - 1
            };
            assert(without[k2].live_at(b as int));
        }
    }
    assert forall|b: u64| blocks_of(without).contains_key(b) implies blocks_of(without)[b]
        == blocks_of(with)[b] by {
        let k = choose|k: int|
            0 <= k < without.len() && (#[trigger] without[k]).live_at(b as int);
        let k2 = if k < i {
            k
        } else {
            k + 1
        };
        assert(with[k2].live_at(b as int));
        lemma_size_in(without, thread_id, k, b);
        lemma_size_in(with, thread_id, k2, b);
    }
    assert(blocks_of(without) =~= blocks_of(with));
}

/// Place of a page: index of its segment in the heap and of the page in its
/// segment.
#[derive(Clone, Copy, Debug, PartialEq, Eq, Structural)]
pub struct PageId {
    pub segment: usize,
    pub page: usize,
}

/// Whether page `id` exists, belongs to a segment of the kind of `class` and
/// serves the class.
pub open spec fn page_serves_in(segments: Seq<Segment>, id: PageId, class: SizeClass) -> bool {
    &&& id.segment < segments.len()
    &&& segments[id.segment as int].spec_kind() == class.kind
    &&& segments[id.segment as int].serves(id.page as int, class.block_size)
}

/// A queue once `id` has been queued: `id` is added at the end unless it is
/// the last entry already.
pub open spec fn queued(entries: Seq<PageId>, id: PageId) -> Seq<PageId> {
    if entries.len() > 0 && entries.last() == id {
        entries
    } else {
        entries.push(id)
    }
}

/// A queue once the entries at its end that no longer serve `class` have
/// been dropped: it is empty, or its last entry serves.
pub open spec fn serving_prefix(segments: Seq<Segment>, entries: Seq<PageId>, class: SizeClass) -> Seq<
    PageId,
>
    decreases entries.len(),
{
    if entries.len() == 0 || page_serves_in(segments, entries.last(), class) {
        entries
    } else {
        serving_prefix(segments, entries.drop_last(), class)
    }
}

/// The entry of a queue that is tried first, if the queue has one.
pub open spec fn last_entry(entries: Seq<PageId>) -> Option<PageId> {
    if entries.len() > 0 {
        Some(entries.last())
    } else {
        None
    }
}

/// What the direct table answers for `class` from the entry `entry` of the
/// slot of the class: the page, if one is remembered and it still serves.
pub open spec fn direct_answer(segments: Seq<Segment>, entry: Option<PageId>, class: SizeClass) -> Option<
    PageId,
> {
    match entry {
        Some(id) => if page_serves_in(segments, id, class) {
            Some(id)
        } else {
            None
        },
        None => None,
    }
}

/// Why no block was handed out.
#[derive(Clone, Copy, Debug, PartialEq, Eq, Structural)]
pub enum AllocError {
    /// The alignment is not a power of two.
    BadAlignment,
    /// The request, padded to its alignment, exceeds the largest page.
    TooLarge,
    /// No segment can serve the request: a new segment of this kind has to
    /// be mapped and registered first.
    NeedSegment(PageType),
}

/// Why a segment was not registered.
#[derive(Clone, Copy, Debug, PartialEq, Eq, Structural)]
pub enum SegmentError {
    /// The address is null.
    Null,
    /// The address is not a multiple of the segment size.
    Misaligned,
    /// The segment would reach beyond the address range.
    OutOfRange,
    /// A segment at this address is registered already.
    Duplicate,
}

/// The heap of thread `thread_id`.
pub struct Heap {
    thread_id: u64,
    segments: Vec<Segment>,
    /// For each of the smallest classes, the page that served it last.
    page_direct: Vec<Option<PageId>>,
    /// For each of the other classes, pages that had room when they were
    /// queued; the last entry is tried first.
    page_queues: Vec<Vec<PageId>>,
}

/// The error that a request without a size class is answered with.
pub open spec fn class_failure(error: ClassError) -> AllocError {
    match error {
        ClassError::BadAlignment => AllocError::BadAlignment,
        ClassError::TooLarge => AllocError::TooLarge,
    }
}

/// What registering a segment at `base` is answered with.
pub open spec fn registration(segments: Seq<Segment>, base: u64) -> Result<(), SegmentError> {
    if base == 0 {
        Err(SegmentError::Null)
    } else if base % SEGMENT_SIZE != 0 {
        Err(SegmentError::Misaligned)
    } else if base + SEGMENT_SIZE > u64::MAX {
        Err(SegmentError::OutOfRange)
    } else if exists|i: int| 0 <= i < segments.len() && (#[trigger] segments[i]).spec_base() == base {
        Err(SegmentError::Duplicate)
    } else {
        Ok(())
    }
}

impl Heap {
    /// The segments that are registered.
    pub closed spec fn segments(&self) -> Seq<Segment> {
        self.segments@
    }

    /// The thread that owns the heap.
    pub closed spec fn spec_thread_id(&self) -> u64 {
        self.thread_id
    }

    /// The direct table: for each slot, the page that is remembered for the
    /// class of the slot.
    pub closed spec fn direct(&self) -> Seq<Option<PageId>> {
        self.page_direct@
    }

    /// Queue `q`: pages that are remembered for the class of the queue. The
    /// last entry is tried first.
    pub closed spec fn queue(&self, q: int) -> Seq<PageId> {
        self.page_queues@[q]@
    }

    /// The segments are well formed, distinct and the heap's own, and the
    /// tables have their fixed sizes.
    pub closed spec fn wf(&self) -> bool {
        &&& well_formed(self.segments@, self.thread_id)
        &&& self.page_direct@.len() == DIRECT_SLOTS
        &&& self.page_queues@.len() == QUEUE_COUNT
    }

    /// The blocks that are handed out: first byte and size of each.
    pub open spec fn blocks(&self) -> Map<u64, u64> {
        blocks_of(self.segments())
    }

    /// In a well-formed heap the segments are well formed, distinct, and the
    /// heap's own.
    pub proof fn lemma_wf(&self)
        requires
            self.wf(),
        ensures
            well_formed(self.segments(), self.spec_thread_id()),
    {
    }

    /// A heap for thread `thread_id` without any segment.
    pub fn new(thread_id: u64) -> (heap: Heap)
        ensures
            heap.wf(),
            heap.spec_thread_id() == thread_id,
            heap.segments().len() == 0,
            heap.blocks() == Map::<u64, u64>::empty(),
    {
        let mut page_direct: Vec<Option<PageId>> = Vec::new();
        let mut i: usize = 0;
        while i < DIRECT_SLOTS
            invariant
                i <= DIRECT_SLOTS,
                page_direct@.len() == i,
            decreases DIRECT_SLOTS - i,
        {
            page_direct.push(None);
            i = i + 1;
        }
        let mut page_queues: Vec<Vec<PageId>> = Vec::new();
        let mut q: usize = 0;
        while q < QUEUE_COUNT
            invariant
                q <= QUEUE_COUNT,
                page_queues@.len() == q,
            decreases QUEUE_COUNT - q,
        {
            page_queues.push(Vec::new());
            q = q + 1;
        }
        let heap = Heap { thread_id, segments: Vec::new(), page_direct, page_queues };
        proof {
            assert(heap.blocks() =~= Map::<u64, u64>::empty());
        }
        heap
    }

    #[verifier::when_used_as_spec(spec_thread_id)]
    pub fn thread_id(&self) -> (id: u64)
        ensures
            id == self.spec_thread_id(),
    {
        self.thread_id
    }

    /// Number of registered segments.
    pub fn segment_count(&self) -> (count: usize)
        ensures
            count == self.segments().len(),
    {
        self.segments.len()
    }

    /// Finds the registered segment that covers `addr`.
    pub fn find_segment(&self, addr: u64) -> (found: Option<usize>)
        requires
            self.wf(),
        ensures
            found matches Some(i) ==> i < self.segments().len() && self.segments()[i as int].covers(
                addr as int,
            ),
            found is None ==> forall|i: int|
                0 <= i < self.segments().len() ==> !(#[trigger] self.segments()[i]).covers(
                    addr as int,
                ),
    {
        let base: u64 = segment_base(addr);
        let mut i: usize = 0;
        while i < self.segments.len()
            invariant
                self.wf(),
                i <= self.segments().len(),
                base == segment_start(addr),
                base <= addr < base + SEGMENT_SIZE,
                base % SEGMENT_SIZE == 0,
                forall|k: int| 0 <= k < i ==> !(#[trigger] self.segments()[k]).covers(addr as int),
            decreases self.segments().len() - i,
        {
            assert(self.segments()[i as int].wf());
            if self.segments[i].base() == base {
                return Some(i);
            }
            proof {
                lemma_bases_apart(self.segments()[i as int].spec_base() as int, base as int);
            }
            i = i + 1;
        }
        None
    }

    /// Whether a block that is handed out begins at `addr`.
    pub fn is_live(&self, addr: u64) -> (live: bool)
        requires
            self.wf(),
        ensures
            live == self.blocks().contains_key(addr),
    {
        match self.find_segment(addr) {
            Some(i) => {
                assert(self.segments()[i as int].wf());
                self.segments[i].is_live(addr)
            },
            None => false,
        }
    }

    /// Size of the block that is handed out at `addr`, if one is.
    pub fn block_size_of(&self, addr: u64) -> (bytes: Option<u64>)
        requires
            self.wf(),
        ensures
            bytes is Some <==> self.blocks().contains_key(addr),
            bytes matches Some(b) ==> b == self.blocks()[addr],
    {
        match self.find_segment(addr) {
            Some(i) => {
                assert(self.segments()[i as int].wf());
                if self.segments[i].is_live(addr) {
                    proof {
                        lemma_size_in(self.segments(), self.spec_thread_id(), i as int, addr);
                    }
                    self.segments[i].block_size_of(addr)
                } else {
                    None
                }
            },
            None => None,
        }
    }

    /// Registers a segment of kind `kind` that the host has mapped at `base`.
    pub fn add_segment(&mut self, base: u64, kind: PageType) -> (result: Result<(), SegmentError>)
        requires
            old(self).wf(),
        ensures
            final(self).wf(),
            final(self).spec_thread_id() == old(self).spec_thread_id(),
            final(self).blocks() == old(self).blocks(),
            result == registration(old(self).segments(), base),
            result is Err ==> final(self).segments() == old(self).segments(),
            result is Ok ==> {
                &&& final(self).segments().len() == old(self).segments().len() + 1
                &&& final(self).segments().drop_last() == old(self).segments()
                &&& final(self).segments().last().spec_base() == base
                &&& final(self).segments().last().spec_kind() == kind
                &&& final(self).segments().last().pages().len() == 0
            },
    {
        if base == 0 {
            return Err(SegmentError::Null);
        }
        if base % SEGMENT_SIZE != 0 {
            return Err(SegmentError::Misaligned);
        }
        if base > u64::MAX - SEGMENT_SIZE {
            return Err(SegmentError::OutOfRange);
        }
        let mut i: usize = 0;
        while i < self.segments.len()
            invariant
                self.wf(),
                *self == *old(self),
                base != 0,
                base % SEGMENT_SIZE == 0,
                base + SEGMENT_SIZE <= u64::MAX,
                i <= self.segments().len(),
                forall|k: int| 0 <= k < i ==> (#[trigger] self.segments()[k]).spec_base() != base,
            decreases self.segments().len() - i,
        {
            if self.segments[i].base() == base {
                return Err(SegmentError::Duplicate);
            }
            i = i + 1;
        }
        let segment = Segment::new(base, kind, self.thread_id);
        self.segments.push(segment);
        proof {
            let with = self.segments();
            let last = with.len() - 1;
            assert(with.remove(last) =~= old(self).segments());
            assert(with.drop_last() =~= old(self).segments());
            assert(well_formed(with, self.spec_thread_id())) by {
                assert forall|k: int| 0 <= k < with.len() implies (#[trigger] with[k]).wf()
                    && with[k].spec_thread_id() == self.spec_thread_id() by {
                    if k < last {
                        assert(with[k] == old(self).segments()[k]);
                    }
                }
                assert forall|k: int, j: int|
                    0 <= k < with.len() && 0 <= j < with.len() && k != j implies (
                #[trigger] with[k]).spec_base() != (#[trigger] with[j]).spec_base() by {
                    if k < last {
                        assert(with[k] == old(self).segments()[k]);
                    }
                    if j < last {
                        assert(with[j] == old(self).segments()[j]);
                    }
                }
            }
            assert(with[last].unused());
            lemma_blocks_without_unused(with, old(self).segments(), self.spec_thread_id(), last);
        }
        Ok(())
    }

    /// Whether page `id` exists, belongs to a segment of the kind of `class`
    /// and serves the class.
    pub open spec fn page_serves(&self, id: PageId, class: SizeClass) -> bool {
        page_serves_in(self.segments(), id, class)
    }

    fn check_page(&self, id: PageId, class: SizeClass) -> (yes: bool)
        requires
            self.wf(),
        ensures
            yes == self.page_serves(id, class),
    {
        if id.segment >= self.segments.len() {
            return false;
        }
        assert(self.segments()[id.segment as int].wf());
        self.segments[id.segment].kind() == class.kind && self.segments[id.segment].page_serves(
            id.page,
            class.block_size,
        )
    }

    /// Remembers `id` as a page of class `class` that has room: in the
    /// direct table if the class has a slot there, at the end of the queue of
    /// the class otherwise. Nothing else changes.
    fn remember(&mut self, class: SizeClass, id: PageId)
        requires
            old(self).wf(),
        ensures
            final(self).wf(),
            final(self).segments() == old(self).segments(),
            final(self).spec_thread_id() == old(self).spec_thread_id(),
            final(self).direct() == match class.direct_slot() {
                Some(slot) => old(self).direct().update(slot as int, Some(id)),
                None => old(self).direct(),
            },
            forall|q: int|
                0 <= q < QUEUE_COUNT ==> #[trigger] final(self).queue(q) == if class.direct_slot()
                    is None && class.queue() == Some(q as usize) {
                    queued(old(self).queue(q), id)
                } else {
                    old(self).queue(q)
                },
    {
        if let Some(slot) = class.find_direct_slot() {
            self.page_direct[slot] = Some(id);
        } else if let Some(queue) = class.find_queue() {
            let length: usize = self.page_queues[queue].len();
            if length == 0 || self.page_queues[queue][length - 1] != id {
                self.page_queues[queue].push(id);
            }
        }
    }

    /// Looks a page of class `class` up that has room.
    ///
    /// A class with a slot in the direct table gets the page of its slot, if
    /// one is remembered there and it still serves. A class with a queue gets
    /// the last entry of its queue that still serves; the entries behind it
    /// are dropped from the queue. Nothing else changes.
    fn lookup(&mut self, class: SizeClass) -> (found: Option<PageId>)
        requires
            old(self).wf(),
        ensures
            final(self).wf(),
            final(self).segments() == old(self).segments(),
            final(self).spec_thread_id() == old(self).spec_thread_id(),
            final(self).direct() == old(self).direct(),
            forall|q: int|
                0 <= q < QUEUE_COUNT && !(class.direct_slot() is None && class.queue() == Some(
                    q as usize,
                )) ==> #[trigger] final(self).queue(q) == old(self).queue(q),
            class.direct_slot() matches Some(slot) ==> found == direct_answer(
                old(self).segments(),
                old(self).direct()[slot as int],
                class,
            ),
            class.direct_slot() is None ==> match class.queue() {
                Some(q) => {
                    &&& final(self).queue(q as int) == serving_prefix(
                        old(self).segments(),
                        old(self).queue(q as int),
                        class,
                    )
                    &&& found == last_entry(final(self).queue(q as int))
                },
                None => found is None,
            },
            found matches Some(id) ==> final(self).page_serves(id, class),
    {
        if let Some(slot) = class.find_direct_slot() {
            if let Some(id) = self.page_direct[slot] {
                if self.check_page(id, class) {
                    return Some(id);
                }
            }
            return None;
        }
        if let Some(queue) = class.find_queue() {
            while self.page_queues[queue].len() > 0
                invariant
                    self.wf(),
                    queue < QUEUE_COUNT,
                    class.direct_slot() is None,
                    class.queue() == Some(queue),
                    self.segments() == old(self).segments(),
                    self.spec_thread_id() == old(self).spec_thread_id(),
                    self.direct() == old(self).direct(),
                    forall|q: int|
                        0 <= q < QUEUE_COUNT && q != queue ==> #[trigger] self.queue(q) == old(
                            self,
                        ).queue(q),
                    serving_prefix(self.segments(), self.queue(queue as int), class)
                        == serving_prefix(
                        old(self).segments(),
                        old(self).queue(queue as int),
                        class,
                    ),
                decreases self.page_queues@[queue as int]@.len(),
            {
                let last: usize = self.page_queues[queue].len() - 1;
                let id: PageId = self.page_queues[queue][last];
                if self.check_page(id, class) {
                    return Some(id);
                }
                let ghost entries = self.queue(queue as int);
                let ghost held = *self;
                self.page_queues[queue].pop();
                proof {
                    assert(self.queue(queue as int) =~= entries.drop_last());
                    assert forall|q: int| 0 <= q < QUEUE_COUNT && q != queue implies #[trigger]
                        self.queue(q) == old(self).queue(q) by {
                        assert(self.page_queues@[q] == held.page_queues@[q]);
                        assert(held.queue(q) == old(self).queue(q));
                    }
                }
            }
        }
        None
    }

    /// Hands out a block of page `page` of segment `i`, which has one.
    fn take_from(&mut self, i: usize, page: usize, class: SizeClass, align: u64) -> (addr: u64)
        requires
            old(self).wf(),
            i < old(self).segments().len(),
            old(self).segments()[i as int].serves(page as int, class.block_size),
            old(self).segments()[i as int].spec_kind() == class.kind,
            valid_align(align),
            align <= SEGMENT_SIZE,
            class.block_size % align == 0,
            class.block_size >= WORD,
        ensures
            final(self).wf(),
            final(self).spec_thread_id() == old(self).spec_thread_id(),
            final(self).segments().len() == old(self).segments().len(),
            addr != 0,
            addr % align == 0,
            !old(self).blocks().contains_key(addr),
            final(self).blocks() == old(self).blocks().insert(addr, class.block_size),
            forall|other: u64| #[trigger]
                old(self).blocks().contains_key(other) ==> other + old(self).blocks()[other]
                    <= addr || addr + class.block_size <= other,
            final(self).segments() == old(self).segments().update(
                i as int,
                final(self).segments()[i as int],
            ),
            addr == old(self).segments()[i as int].block_address(
                page as int,
                old(self).segments()[i as int].pages()[page as int].next_slot() as int,
            ),
    {
        let ghost before = self.segments@;
        assert(before[i as int].wf());
        let taken = self.segments[i].take_block(page);
        let addr: u64 = taken.unwrap();
        proof {
            let after = self.segments@;
            assert(after =~= before.update(i as int, after[i as int]));
            lemma_blocks_after_take(before, after, self.thread_id, i as int, addr);
            assert forall|other: u64| #[trigger]
                blocks_of(before).contains_key(other) implies other + blocks_of(before)[other]
                <= addr || addr + class.block_size <= other by {
                assert(blocks_of(after).contains_key(other));
                assert(blocks_of(after).contains_key(addr));
                lemma_blocks_disjoint(after, self.thread_id, other, addr);
            }
            let segment = before[i as int];
            let slot = segment.pages()[page as int].next_slot() as int;
            assert(segment.pages()[page as int].wf());
            segment.pages()[page as int].lemma_next_slot();
            lemma_address_aligned(&segment, page as int, slot, align);
            segment.lemma_locate_address(page as int, slot);
        }
        self.remember(class, PageId { segment: i, page });
        addr
    }

    /// Hands out a block for a request of `size` bytes aligned to `align`.
    ///
    /// A request of zero bytes is served like a request of one byte. The
    /// block comes from the page that the direct table or the queue of its
    /// class names, or else from the first page of the first segment that
    /// has one, or else from a page that is carved for it. If no segment can serve the
    /// request, nothing changes and the answer names the kind of segment
    /// that is missing.
    pub fn allocate(&mut self, size: u64, align: u64) -> (result: Result<u64, AllocError>)
        requires
            old(self).wf(),
        ensures
            final(self).wf(),
            final(self).spec_thread_id() == old(self).spec_thread_id(),
            final(self).segments().len() == old(self).segments().len(),
            class_of(size, align) matches Err(error) ==> result == Err::<u64, AllocError>(
                class_failure(error),
            ),
            class_of(size, align) matches Ok(class) ==> {
                &&& result is Ok <==> can_serve(old(self).segments(), class)
                &&& result is Err ==> result == Err::<u64, AllocError>(
                    AllocError::NeedSegment(class.kind),
                )
                &&& result matches Ok(addr) ==> {
                    &&& addr != 0
                    &&& addr % align == 0
                    &&& !old(self).blocks().contains_key(addr)
                    &&& final(self).blocks() == old(self).blocks().insert(addr, class.block_size)
                    &&& forall|other: u64| #[trigger]
                        old(self).blocks().contains_key(other) ==> other + old(self).blocks()[other]
                            <= addr || addr + class.block_size <= other
                    &&& taken_in(old(self).segments(), final(self).segments(), addr, class)
                }
            },
            result is Err ==> final(self).segments() == old(self).segments(),
    {
        let class = match size_class(size, align) {
            Ok(class) => class,
            Err(ClassError::BadAlignment) => {
                return Err(AllocError::BadAlignment);
            },
            Err(ClassError::TooLarge) => {
                return Err(AllocError::TooLarge);
            },
        };
        proof {
            lemma_class_fits(size, align);
        }
        let bytes: u64 = class.block_size;
        if let Some(id) = self.lookup(class) {
            let addr: u64 = self.take_from(id.segment, id.page, class, align);
            proof {
                assert(taken_from(
                    old(self).segments()[id.segment as int],
                    id.page as int,
                    addr,
                    class,
                ));
            }
            return Ok(addr);
        }
        let mut i: usize = 0;
        while i < self.segments.len()
            invariant
                self.wf(),
                self.segments() == old(self).segments(),
                self.spec_thread_id() == old(self).spec_thread_id(),
                class_of(size, align) == Ok::<SizeClass, ClassError>(class),
                bytes == class.block_size,
                valid_align(align),
                align <= SEGMENT_SIZE,
                bytes % align == 0,
                bytes >= WORD,
                i <= self.segments().len(),
                forall|k: int, page: int|
                    0 <= k < i && self.segments()[k].spec_kind() == class.kind ==> !(
                    #[trigger] self.segments()[k].serves(page, bytes)),
            decreases self.segments().len() - i,
        {
            assert(self.segments()[i as int].wf());
            if self.segments[i].kind() == class.kind {
                if let Some(page) = self.segments[i].find_page(bytes) {
                    let addr: u64 = self.take_from(i, page, class, align);
                    proof {
                        assert(taken_from(old(self).segments()[i as int], page as int, addr, class));
                    }
                    return Ok(addr);
                }
            }
            i = i + 1;
        }
        let mut j: usize = 0;
        while j < self.segments.len()
            invariant
                self.wf(),
                self.segments() == old(self).segments(),
                self.spec_thread_id() == old(self).spec_thread_id(),
                class_of(size, align) == Ok::<SizeClass, ClassError>(class),
                bytes == class.block_size,
                bytes <= class.kind.size_spec(),
                valid_align(align),
                align <= SEGMENT_SIZE,
                bytes % align == 0,
                bytes >= WORD,
                j <= self.segments().len(),
                forall|k: int, page: int|
                    0 <= k < self.segments().len() && self.segments()[k].spec_kind() == class.kind
                        ==> !(#[trigger] self.segments()[k].serves(page, bytes)),
                forall|k: int|
                    0 <= k < j && (#[trigger] self.segments()[k]).spec_kind() == class.kind ==> !(
                    self.segments()[k].pages().len() < class.kind.per_segment_spec()),
            decreases self.segments().len() - j,
        {
            assert(self.segments()[j as int].wf());
            if self.segments[j].kind() == class.kind && self.segments[j].has_room() {
                let ghost before = self.segments@;
                let page: usize = self.segments[j].add_page(bytes);
                proof {
                    let carved = self.segments@;
                    assert(carved =~= before.update(j as int, carved[j as int]));
                    lemma_carved_well_formed(before, carved, self.thread_id, j as int);
                    assert(blocks_of(carved) =~= blocks_of(before)) by {
                        lemma_blocks_after_carve(before, carved, self.thread_id, j as int);
                    }
                    assert(carved[j as int].pages()[page as int].available() > 0);
                }
                let ghost carved = self.segments@;
                let addr: u64 = self.take_from(j, page, class, align);
                proof {
                    let after = self.segments@;
                    assert(after =~= before.update(j as int, after[j as int]));
                    assert(carved[j as int].block_address(page as int, 0) == before[j as int].spec_base()
                        + page * before[j as int].page_size());
                    assert(taken_from(before[j as int], page as int, addr, class));
                }
                return Ok(addr);
            }
            j = j + 1;
        }
        Err(AllocError::NeedSegment(class.kind))
    }

    /// Takes back the block that begins at `addr`, on behalf of thread
    /// `thread_id`.
    ///
    /// A block that the heap's own thread gives back goes to the local free
    /// list of its page, a block that another thread gives back to the
    /// page's list for other threads. When the heap's own thread gives back
    /// the last block of a segment, the segment is dropped and the answer
    /// tells what to unmap.
    pub fn deallocate(&mut self, addr: u64, thread_id: u64) -> (unmap: Option<UnmapRequest>)
        requires
            old(self).wf(),
            old(self).blocks().contains_key(addr),
        ensures
            final(self).wf(),
            final(self).spec_thread_id() == old(self).spec_thread_id(),
            final(self).blocks() == old(self).blocks().remove(addr),
            unmap is Some <==> thread_id == old(self).spec_thread_id() && alone_in_segment(
                old(self).blocks(),
                addr,
            ),
            unmap is None ==> final(self).segments().len() == old(self).segments().len(),
            unmap is None ==> freed_in(
                old(self).segments(),
                final(self).segments(),
                addr,
                thread_id == old(self).spec_thread_id(),
            ),
            unmap matches Some(request) ==> {
                &&& final(self).segments().len() == old(self).segments().len() - 1
                &&& request.addr == segment_start(addr)
                &&& request.len == SEGMENT_SIZE
                &&& forall|b: u64| #[trigger]
                    final(self).blocks().contains_key(b) ==> !(request.addr <= b < request.addr
                        + request.len)
            },
    {
        let ghost before = self.segments@;
        let found = self.find_segment(addr);
        proof {
            let k = choose|k: int|
                0 <= k < before.len() && (#[trigger] before[k]).live_at(addr as int);
            assert(before[k].covers(addr as int));
            if found is Some {
                lemma_one_owner(before, self.thread_id, k, found->0 as int, addr as int);
            }
        }
        let i: usize = found.unwrap();
        let by_owner: bool = thread_id == self.thread_id;
        assert(before[i as int].wf());
        let place = self.segments[i].locate(addr);
        let bytes = self.segments[i].block_size_of(addr);
        let kind: PageType = self.segments[i].kind();
        self.segments[i].free_block(addr, by_owner);
        proof {
            let after = self.segments@;
            assert(after =~= before.update(i as int, after[i as int]));
            lemma_blocks_after_free(before, after, self.thread_id, i as int, addr);
            assert(before[i as int].covers(addr as int));
            assert(freed_in(before, after, addr, by_owner));
        }
        if by_owner {
            let unused: bool = self.segments[i].is_unused();
            proof {
                let after = self.segments@;
                let segment = after[i as int];
                lemma_covered_start(before[i as int], addr);
                if unused {
                    assert forall|other: u64| #[trigger]
                        blocks_of(before).contains_key(other) && other != addr implies segment_start(
                        other,
                    ) != segment_start(addr) by {
                        assert(blocks_of(after).contains_key(other));
                        let k = choose|k: int|
                            0 <= k < after.len() && (#[trigger] after[k]).live_at(other as int);
                        segment.lemma_unused_has_no_live(other as int);
                        assert(k != i);
                        assert(after[k].wf());
                        lemma_covered_start(after[k], other);
                        assert(after[k].spec_base() != after[i as int].spec_base());
                    }
                } else {
                    let (p, slot) = choose|p: int, slot: int|
                        0 <= p < segment.pages().len() && #[trigger] segment.pages()[p].is_allocated(
                            slot,
                        );
                    segment.lemma_locate_address(p, slot);
                    let other = segment.block_address(p, slot) as u64;
                    assert(segment.live_at(other as int));
                    assert(blocks_of(after).contains_key(other));
                    assert(blocks_of(before).contains_key(other) && other != addr);
                    lemma_covered_start(segment, other);
                    assert(!alone_in_segment(blocks_of(before), addr));
                }
            }
            if unused {
                let ghost with = self.segments@;
                let segment = self.segments.remove(i);
                proof {
                    lemma_blocks_without_unused(with, self.segments@, self.thread_id, i as int);
                    let base = segment.spec_base();
                    assert(segment.wf());
                    assert(segment.covers(addr as int));
                    assert(base == segment_start(addr)) by {
                        if base != segment_start(addr) {
                            lemma_bases_apart(
                                base as int,
                                segment_start(addr) as int,
                            );
                        }
                    }
                    assert forall|b: u64| #[trigger]
                        self.blocks().contains_key(b) implies !(base <= b < base + SEGMENT_SIZE) by {
                        if base <= b < base + SEGMENT_SIZE {
                            let k = choose|k: int|
                                0 <= k < with.len() && (#[trigger] with[k]).live_at(b as int);
                            assert(blocks_of(with).contains_key(b));
                            lemma_one_owner(with, self.thread_id, k, i as int, b as int);
                            with[i as int].lemma_unused_has_no_live(b as int);
                        }
                    }
                }
                return Some(UnmapRequest { addr: segment.base(), len: SEGMENT_SIZE });
            }
        }
        if let (Some((page, _)), Some(block_size)) = (place, bytes) {
            self.remember(SizeClass { block_size, kind }, PageId { segment: i, page });
        }
        None
    }
}

/// The address of a slot is a multiple of every alignment that divides the
/// block size of its page.
pub proof fn lemma_address_aligned(segment: &Segment, page: int, slot: int, align: u64)
    requires
        segment.wf(),
        0 <= page < segment.pages().len(),
        0 <= slot < segment.pages()[page].spec_capacity(),
        valid_align(align),
        align <= SEGMENT_SIZE,
        segment.pages()[page].spec_block_size() % align == 0,
    ensures
        segment.block_address(page, slot) % (align as int) == 0,
{
    let a = align as int;
    let bytes = segment.pages()[page].spec_block_size() as int;
    let size = segment.page_size();
    let base = segment.spec_base() as int;
    lemma_align_divides(align);
    assert(segment.pages()[page].wf());
    assert(bytes <= size) by {
        segment.lemma_page_fits(page);
    }
    if bytes < a {
        vstd::arithmetic::div_mod::lemma_small_mod(bytes as nat, a as nat);
    }
    assert(size % a == 0);
    lemma_multiple_of_multiple(base, SEGMENT_SIZE as int, a);
    lemma_product_of_multiple(page, size, a);
    lemma_product_of_multiple(slot, bytes, a);
    lemma_sum_of_multiples(base, page * size, a);
    lemma_sum_of_multiples(base + page * size, slot * bytes, a);
}

/// The sum of two multiples of `a` is a multiple of `a`.
pub proof fn lemma_sum_of_multiples(x: int, y: int, a: int)
    requires
        a > 0,
        x % a == 0,
        y % a == 0,
    ensures
        (x + y) % a == 0,
{
    vstd::arithmetic::div_mod::lemma_fundamental_div_mod(x, a);
    vstd::arithmetic::div_mod::lemma_fundamental_div_mod(y, a);
    assert(x + y == (x / a + y / a) * a) by (nonlinear_arith)
        requires
            x == a * (x / a),
            y == a * (y / a),
    ;
    vstd::arithmetic::div_mod::lemma_mod_multiples_basic(x / a + y / a, a);
}

/// A multiple of a multiple of `a` is a multiple of `a`.
pub proof fn lemma_product_of_multiple(k: int, n: int, a: int)
    requires
        a > 0,
        n % a == 0,
    ensures
        (k * n) % a == 0,
{
    vstd::arithmetic::div_mod::lemma_fundamental_div_mod(n, a);
    let q = n / a;
    assert(k * n == (k * q) * a) by (nonlinear_arith)
        requires
            n == a * q,
    ;
    vstd::arithmetic::div_mod::lemma_mod_multiples_basic(k * q, a);
}

/// Carving a page in segment `i` keeps the segments well formed.
pub proof fn lemma_carved_well_formed(
    before: Seq<Segment>,
    after: Seq<Segment>,
    thread_id: u64,
    i: int,
)
    requires
        well_formed(before, thread_id),
        0 <= i < before.len(),
        after == before.update(i, after[i]),
        after[i].wf(),
        after[i].same_frame(&before[i]),
    ensures
        well_formed(after, thread_id),
{
    assert forall|k: int| 0 <= k < after.len() implies (#[trigger] after[k]).wf()
        && after[k].spec_thread_id() == thread_id by {
        if k != i {
            assert(after[k] == before[k]);
        }
        assert(before[k].wf());
    }
    assert forall|k: int, j: int|
        0 <= k < after.len() && 0 <= j < after.len() && k != j implies (
    #[trigger] after[k]).spec_base() != (#[trigger] after[j]).spec_base() by {
        assert(after[k].spec_base() == before[k].spec_base());
        assert(after[j].spec_base() == before[j].spec_base());
    }
}

/// Carving a page in segment `i` leaves the live blocks as they are.
pub proof fn lemma_blocks_after_carve(
    before: Seq<Segment>,
    after: Seq<Segment>,
    thread_id: u64,
    i: int,
)
    requires
        well_formed(before, thread_id),
        well_formed(after, thread_id),
        0 <= i < before.len(),
        after == before.update(i, after[i]),
        after[i].same_frame(&before[i]),
        after[i].pages().len() >= before[i].pages().len(),
        forall|p: int|
            0 <= p < before[i].pages().len() ==> after[i].pages()[p] == before[i].pages()[p],
        forall|b: int| after[i].live_at(b) == before[i].live_at(b),
    ensures
        blocks_of(after) == blocks_of(before),
{
    assert forall|b: u64| live_in(after, b) <==> live_in(before, b) by {
        if live_in(after, b) {
            let j = choose|j: int| 0 <= j < after.len() && (#[trigger] after[j]).live_at(b as int);
            assert(before[j].live_at(b as int));
        }
        if live_in(before, b) {
            let j = choose|j: int|
                0 <= j < before.len() && (#[trigger] before[j]).live_at(b as int);
            assert(after[j].live_at(b as int));
        }
    }
    assert forall|b: u64| blocks_of(after).contains_key(b) implies blocks_of(after)[b]
        == blocks_of(before)[b] by {
        let j = choose|j: int| 0 <= j < after.len() && (#[trigger] after[j]).live_at(b as int);
        assert(before[j].live_at(b as int));
        lemma_size_in(after, thread_id, j, b);
        lemma_size_in(before, thread_id, j, b);
        if j == i {
            assert(before[i].wf());
            before[i].lemma_address_of_location(b as int);
        }
    }
    assert(blocks_of(after) =~= blocks_of(before));
}

impl Heap {
    /// Every block that is handed out begins at a non-null address, ends
    /// inside the address range, and shares no byte with any other block that
    /// is handed out.
    pub proof fn lemma_live_blocks_disjoint(&self, a: u64, b: u64)
        requires
            self.wf(),
            self.blocks().contains_key(a),
            self.blocks().contains_key(b),
            a != b,
        ensures
            a != 0,
            a + self.blocks()[a] <= u64::MAX,
            a + self.blocks()[a] <= b || b + self.blocks()[b] <= a,
    {
        lemma_blocks_disjoint(self.segments(), self.spec_thread_id(), a, b);
    }

    /// A segment that has just been registered serves every class of its
    /// kind: the allocation that asked for it succeeds when it is repeated.
    pub proof fn lemma_registered_segment_serves(&self, class: SizeClass)
        requires
            self.segments().len() > 0,
            self.segments().last().spec_kind() == class.kind,
            self.segments().last().pages().len() == 0,
        ensures
            can_serve(self.segments(), class),
    {
        let last = self.segments().len() - 1;
        assert(self.segments()[last].spec_kind() == class.kind);
    }
}

/// Giving a block back and taking a block again, which may be the same one,
/// leaves every other block as it was, and apart from the block that is
/// taken.
pub proof fn lemma_round_trip(
    before: Heap,
    between: Heap,
    after: Heap,
    freed: u64,
    taken: u64,
    size: u64,
    other: u64,
)
    requires
        after.wf(),
        between.blocks() == before.blocks().remove(freed),
        !between.blocks().contains_key(taken),
        after.blocks() == between.blocks().insert(taken, size),
        before.blocks().contains_key(other),
        other != freed,
    ensures
        other != taken,
        after.blocks().contains_key(other),
        after.blocks()[other] == before.blocks()[other],
        other + before.blocks()[other] <= taken || taken + size <= other,
{
    assert(between.blocks().contains_key(other));
    assert(after.blocks().contains_key(taken));
    after.lemma_live_blocks_disjoint(other, taken);
}

/// A request of zero bytes has a size class like any other. Unless its
/// alignment asks for a page of its own, it gets the smallest block that the
/// alignment allows.
pub proof fn lemma_zero_size_class(align: u64)
    requires
        valid_align(align),
        align <= SEGMENT_SIZE,
    ensures
        class_of(0, align) matches Ok(class) && class.block_size >= WORD && class.block_size
            % align == 0 && (align <= SMALL_BLOCK_MAX ==> class.block_size
            == unit_of(align)),
{
    lemma_align_divides(align);
    let unit = unit_of(align) as int;
    lemma_round_up(1, unit);
    lemma_round_up(unit, unit);
    lemma_round_up_monotone(1, unit, unit);
    let need = padded(0, align);
    assert(need % unit == 0);
    if need < unit {
        vstd::arithmetic::div_mod::lemma_small_mod(need as nat, unit as nat);
    }
    assert(need == unit);
    lemma_class_fits(0, align);
    if unit > DIRECT_MAX {
        assert(unit % 1024 == 0);
        lemma_round_up(unit, 1024);
    }
}

} // verus!
