use bare_runtime::memory::class::PageType;
use bare_runtime::memory::heap::{AllocError, Heap, SegmentError};
use bare_runtime::memory::map::UnmapRequest;
use bare_runtime::memory::{HUGE_PAGE_SIZE, MID_PAGE_SIZE, SEGMENT_SIZE};

const BASE: u64 = 0x0400_0000_0000;
const OWNER: u64 = 11;
const OTHER: u64 = 12;

/// A heap whose host maps segments one after the other from `BASE`.
struct Hosted {
    heap: Heap,
    mapped: u64,
    unmapped: Vec<UnmapRequest>,
}

impl Hosted {
    fn new() -> Self {
        Hosted { heap: Heap::new(OWNER), mapped: 0, unmapped: Vec::new() }
    }

    fn allocate(&mut self, size: u64, align: u64) -> u64 {
        match self.heap.allocate(size, align) {
            Ok(addr) => addr,
            Err(AllocError::NeedSegment(kind)) => {
                let base = BASE + self.mapped * SEGMENT_SIZE;
                self.mapped += 1;
                assert_eq!(self.heap.add_segment(base, kind), Ok(()));
                self.heap.allocate(size, align).unwrap()
            }
            Err(error) => panic!("{:?}", error),
        }
    }

    fn deallocate(&mut self, addr: u64, thread: u64) {
        assert!(self.heap.is_live(addr));
        if let Some(request) = self.heap.deallocate(addr, thread) {
            self.unmapped.push(request);
        }
    }
}

fn overlap(a: (u64, u64), b: (u64, u64)) -> bool {
    a.0 < b.0 + b.1 && b.0 < a.0 + a.1
}

#[test]
fn empty_heap_asks_for_a_segment() {
    let mut heap = Heap::new(OWNER);
    assert_eq!(heap.thread_id(), OWNER);
    assert_eq!(heap.segment_count(), 0);
    assert_eq!(heap.allocate(24, 8), Err(AllocError::NeedSegment(PageType::Small)));
    assert_eq!(heap.allocate(100_000, 8), Err(AllocError::NeedSegment(PageType::Mid)));
    assert_eq!(heap.allocate(HUGE_PAGE_SIZE, 8), Err(AllocError::NeedSegment(PageType::Huge)));
    assert_eq!(heap.segment_count(), 0);
    assert!(!heap.is_live(BASE));
    assert_eq!(heap.find_segment(BASE), None);
}

#[test]
fn requests_that_no_segment_can_serve() {
    let mut heap = Heap::new(OWNER);
    assert_eq!(heap.allocate(8, 0), Err(AllocError::BadAlignment));
    assert_eq!(heap.allocate(8, 12), Err(AllocError::BadAlignment));
    assert_eq!(heap.allocate(HUGE_PAGE_SIZE + 1, 8), Err(AllocError::TooLarge));
    assert_eq!(heap.allocate(8, 2 * HUGE_PAGE_SIZE), Err(AllocError::TooLarge));
}

#[test]
fn segment_registration_errors() {
    let mut heap = Heap::new(OWNER);
    assert_eq!(heap.add_segment(0, PageType::Small), Err(SegmentError::Null));
    assert_eq!(heap.add_segment(BASE + 4096, PageType::Small), Err(SegmentError::Misaligned));
    assert_eq!(
        heap.add_segment(u64::MAX - SEGMENT_SIZE + 1, PageType::Small),
        Err(SegmentError::OutOfRange)
    );
    assert_eq!(heap.add_segment(BASE, PageType::Small), Ok(()));
    assert_eq!(heap.add_segment(BASE, PageType::Mid), Err(SegmentError::Duplicate));
    assert_eq!(heap.add_segment(BASE + SEGMENT_SIZE, PageType::Mid), Ok(()));
    assert_eq!(heap.segment_count(), 2);
    assert_eq!(heap.find_segment(BASE + 5), Some(0));
    assert_eq!(heap.find_segment(BASE + SEGMENT_SIZE), Some(1));
    assert_eq!(heap.find_segment(BASE + 2 * SEGMENT_SIZE), None);
}

#[test]
fn allocation_succeeds_after_the_segment_is_registered() {
    let mut heap = Heap::new(OWNER);
    assert_eq!(heap.allocate(24, 8), Err(AllocError::NeedSegment(PageType::Small)));
    heap.add_segment(BASE, PageType::Small).unwrap();
    assert_eq!(heap.allocate(24, 8), Ok(BASE));
    assert_eq!(heap.allocate(24, 8), Ok(BASE + 24));
    assert_eq!(heap.allocate(100, 8), Ok(BASE + 65536));
    assert_eq!(heap.allocate(24, 8), Ok(BASE + 48));
    assert_eq!(heap.block_size_of(BASE), Some(24));
    assert_eq!(heap.block_size_of(BASE + 65536), Some(104));
    assert_eq!(heap.block_size_of(BASE + 8), None);
    assert_eq!(heap.allocate(100_000, 8), Err(AllocError::NeedSegment(PageType::Mid)));
}

#[test]
fn segment_of_another_kind_does_not_serve() {
    let mut heap = Heap::new(OWNER);
    heap.add_segment(BASE, PageType::Mid).unwrap();
    assert_eq!(heap.allocate(24, 8), Err(AllocError::NeedSegment(PageType::Small)));
    assert_eq!(heap.allocate(MID_PAGE_SIZE, 8), Ok(BASE));
    assert_eq!(heap.allocate(70_000, 8), Ok(BASE + MID_PAGE_SIZE));
    assert_eq!(heap.block_size_of(BASE + MID_PAGE_SIZE), Some(MID_PAGE_SIZE));
}

#[test]
fn full_segment_asks_for_another() {
    let mut heap = Heap::new(OWNER);
    heap.add_segment(BASE, PageType::Mid).unwrap();
    for k in 0..8 {
        assert_eq!(heap.allocate(MID_PAGE_SIZE, 8), Ok(BASE + k * MID_PAGE_SIZE));
    }
    assert_eq!(heap.allocate(MID_PAGE_SIZE, 8), Err(AllocError::NeedSegment(PageType::Mid)));
    heap.add_segment(BASE + SEGMENT_SIZE, PageType::Mid).unwrap();
    assert_eq!(heap.allocate(MID_PAGE_SIZE, 8), Ok(BASE + SEGMENT_SIZE));
}

#[test]
fn live_blocks_are_aligned_and_disjoint() {
    let mut hosted = Hosted::new();
    let mut live: Vec<(u64, u64, u64)> = Vec::new();
    let mut state = 7u64;
    for round in 0..3000 {
        state = state.wrapping_mul(6364136223846793005).wrapping_add(1442695040888963407);
        let pick = state >> 33;
        if live.len() > 40 && pick % 3 == 0 {
            let (addr, _, _) = live.swap_remove((pick as usize / 3) % live.len());
            hosted.deallocate(addr, OWNER);
            continue;
        }
        let align = 1u64 << (pick % 13);
        let size = match round % 7 {
            0 => pick % 64,
            1 => pick % 1024,
            2 => pick % 16384,
            3 => pick % 600_000,
            4 => 0,
            5 => pick % (HUGE_PAGE_SIZE + 1),
            _ => pick % 256,
        };
        let addr = hosted.allocate(size, align);
        assert_ne!(addr, 0);
        assert_eq!(addr % align, 0);
        let block = hosted.heap.block_size_of(addr).unwrap();
        assert!(block >= size && block >= 8);
        for other in &live {
            assert!(!overlap((addr, block), (other.0, other.1)));
        }
        live.push((addr, block, size));
    }
    for (addr, block, _) in &live {
        assert!(hosted.heap.is_live(*addr));
        assert_eq!(hosted.heap.block_size_of(*addr), Some(*block));
    }
}

#[test]
fn round_trip_may_reuse_the_address_and_spares_the_neighbours() {
    let mut hosted = Hosted::new();
    let before = hosted.allocate(40, 8);
    let victim = hosted.allocate(40, 8);
    let keep = hosted.allocate(40, 8);
    let after = hosted.allocate(40, 8);
    assert_eq!(victim, before + 40);
    assert_eq!(after, before + 120);
    hosted.deallocate(victim, OWNER);
    assert!(!hosted.heap.is_live(victim));
    for addr in [before, keep, after] {
        assert!(hosted.heap.is_live(addr));
        assert_eq!(hosted.heap.block_size_of(addr), Some(40));
    }
    let mut seen = Vec::new();
    loop {
        let addr = hosted.allocate(40, 8);
        for kept in [before, keep, after] {
            assert!(!overlap((addr, 40), (kept, 40)));
        }
        assert!(!seen.contains(&addr));
        seen.push(addr);
        if addr == victim {
            break;
        }
        assert!(seen.len() < 65536 / 40);
    }
    assert!(hosted.heap.is_live(victim));
}

#[test]
fn zero_size_request_gets_a_block_of_its_own() {
    let mut hosted = Hosted::new();
    let a = hosted.allocate(0, 1);
    let b = hosted.allocate(0, 1);
    let c = hosted.allocate(0, 64);
    assert_ne!(a, 0);
    assert_ne!(a, b);
    assert_eq!(hosted.heap.block_size_of(a), Some(8));
    assert_eq!(hosted.heap.block_size_of(b), Some(8));
    assert_eq!(hosted.heap.block_size_of(c), Some(64));
    assert_eq!(c % 64, 0);
    hosted.deallocate(a, OWNER);
    assert!(hosted.heap.is_live(b));
}

#[test]
fn blocks_freed_by_another_thread_are_reused_by_the_owner() {
    let threads = 4usize;
    let per_thread = 50usize;
    let mut hosted = Hosted::new();
    let mut blocks = Vec::new();
    for _ in 0..threads * per_thread {
        blocks.push(hosted.allocate(128, 8));
    }
    let barrier = hosted.allocate(128, 8);
    assert_eq!(hosted.mapped, 1);
    for thread in 0..threads {
        for k in 0..per_thread {
            hosted.deallocate(blocks[k * threads + thread], OTHER + thread as u64);
        }
    }
    assert!(hosted.unmapped.is_empty());
    for addr in &blocks {
        assert!(!hosted.heap.is_live(*addr));
    }
    let mut reused = Vec::new();
    let mut fresh = Vec::new();
    for _ in 0..65536 / 128 - 1 {
        let addr = hosted.allocate(128, 8);
        assert_ne!(addr, barrier);
        if blocks.contains(&addr) {
            assert!(!reused.contains(&addr));
            reused.push(addr);
        } else {
            fresh.push(addr);
        }
    }
    assert_eq!(reused.len(), threads * per_thread);
    assert_eq!(fresh.len(), 65536 / 128 - 1 - threads * per_thread);
    assert_eq!(hosted.mapped, 1);
}

#[test]
fn last_block_of_a_segment_unmaps_it() {
    let mut hosted = Hosted::new();
    let a = hosted.allocate(64, 8);
    let b = hosted.allocate(64, 8);
    let big = hosted.allocate(HUGE_PAGE_SIZE, 8);
    assert_eq!(hosted.heap.segment_count(), 2);
    assert_eq!(big, BASE + SEGMENT_SIZE);
    hosted.deallocate(a, OWNER);
    assert!(hosted.unmapped.is_empty());
    hosted.deallocate(big, OWNER);
    assert_eq!(hosted.unmapped, vec![UnmapRequest { addr: BASE + SEGMENT_SIZE, len: SEGMENT_SIZE }]);
    assert_eq!(hosted.heap.segment_count(), 1);
    assert!(hosted.heap.is_live(b));
    hosted.deallocate(b, OWNER);
    assert_eq!(hosted.unmapped.len(), 2);
    assert_eq!(hosted.unmapped[1], UnmapRequest { addr: BASE, len: SEGMENT_SIZE });
    assert_eq!(hosted.heap.segment_count(), 0);
    assert_eq!(hosted.heap.allocate(64, 8), Err(AllocError::NeedSegment(PageType::Small)));
}

#[test]
fn another_thread_never_unmaps() {
    let mut hosted = Hosted::new();
    let a = hosted.allocate(64, 8);
    hosted.deallocate(a, OTHER);
    assert!(hosted.unmapped.is_empty());
    assert_eq!(hosted.heap.segment_count(), 1);
    assert!(!hosted.heap.is_live(a));
    assert_eq!(hosted.allocate(64, 8), a + 64);
}

#[test]
fn stale_direct_entry_is_not_trusted() {
    let mut hosted = Hosted::new();
    let huge = hosted.allocate(HUGE_PAGE_SIZE, 8);
    let small = hosted.allocate(16, 8);
    assert_eq!(small, BASE + SEGMENT_SIZE);
    hosted.deallocate(huge, OWNER);
    assert_eq!(hosted.heap.segment_count(), 1);
    let next = hosted.allocate(16, 8);
    assert_eq!(next, small + 16);
    let other = hosted.allocate(32, 8);
    assert_eq!(other, BASE + SEGMENT_SIZE + 65536);
    hosted.deallocate(small, OWNER);
    hosted.deallocate(next, OWNER);
    assert_eq!(hosted.heap.segment_count(), 1);
    assert_eq!(hosted.allocate(16, 8), small + 32);
}

#[test]
fn page_that_got_a_block_back_is_served_first() {
    let mut hosted = Hosted::new();
    let mut blocks = Vec::new();
    for _ in 0..40 {
        blocks.push(hosted.allocate(2048, 8));
    }
    assert_eq!(blocks[31], BASE + 31 * 2048);
    assert_eq!(blocks[32], BASE + 65536);
    hosted.deallocate(blocks[5], OWNER);
    assert_eq!(hosted.allocate(2048, 8), blocks[5]);
    assert_eq!(hosted.allocate(2048, 8), BASE + 65536 + 8 * 2048);
    hosted.deallocate(blocks[35], OTHER);
    hosted.deallocate(blocks[7], OTHER);
    assert_eq!(hosted.allocate(2048, 8), blocks[7]);
    assert_eq!(hosted.allocate(2048, 8), BASE + 65536 + 9 * 2048);
}

#[test]
fn small_class_in_the_direct_table_reuses_freed_blocks() {
    let mut hosted = Hosted::new();
    let per_page = 65536 / 512;
    let mut blocks = Vec::new();
    for _ in 0..per_page + 3 {
        blocks.push(hosted.allocate(512, 8));
    }
    assert_eq!(blocks[per_page], BASE + 65536);
    hosted.deallocate(blocks[10], OWNER);
    assert_eq!(hosted.allocate(512, 8), blocks[10]);
    assert_eq!(hosted.allocate(512, 8), BASE + 65536 + 3 * 512);
}

#[test]
fn queues_survive_the_loss_of_a_segment() {
    let mut hosted = Hosted::new();
    let first = hosted.allocate(MID_PAGE_SIZE, 8);
    let small = hosted.allocate(4096, 8);
    let more: Vec<u64> = (0..8).map(|_| hosted.allocate(MID_PAGE_SIZE, 8)).collect();
    assert_eq!(first, BASE);
    assert_eq!(small, BASE + SEGMENT_SIZE);
    assert_eq!(more[6], BASE + 7 * MID_PAGE_SIZE);
    assert_eq!(more[7], BASE + 2 * SEGMENT_SIZE);
    hosted.deallocate(first, OWNER);
    for addr in &more[..7] {
        hosted.deallocate(*addr, OWNER);
    }
    assert_eq!(hosted.unmapped, vec![UnmapRequest { addr: BASE, len: SEGMENT_SIZE }]);
    assert_eq!(hosted.heap.segment_count(), 2);
    assert_eq!(hosted.allocate(4096, 8), small + 4096);
    assert_eq!(hosted.allocate(MID_PAGE_SIZE, 8), BASE + 2 * SEGMENT_SIZE + MID_PAGE_SIZE);
    hosted.deallocate(more[7], OWNER);
    assert_eq!(hosted.allocate(MID_PAGE_SIZE, 8), more[7]);
}
