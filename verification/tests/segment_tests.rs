use bare_runtime::memory::class::PageType;
use bare_runtime::memory::segment::{segment_base, Segment};
use bare_runtime::memory::{SEGMENT_MASK, SEGMENT_SIZE};

const BASE: u64 = 0x0400_0000_0000;

#[test]
fn segment_base_masks_the_address() {
    assert_eq!(segment_base(BASE), BASE);
    assert_eq!(segment_base(BASE + 1), BASE);
    assert_eq!(segment_base(BASE + SEGMENT_SIZE - 1), BASE);
    assert_eq!(segment_base(BASE + SEGMENT_SIZE), BASE + SEGMENT_SIZE);
    assert_eq!(segment_base(12345), 0);
    assert_eq!(segment_base(u64::MAX), SEGMENT_MASK);
}

#[test]
fn new_segment_has_no_pages() {
    let segment = Segment::new(BASE, PageType::Mid, 9);
    assert_eq!(segment.base(), BASE);
    assert_eq!(segment.kind(), PageType::Mid);
    assert_eq!(segment.thread_id(), 9);
    assert_eq!(segment.page_count(), 0);
    assert!(segment.has_room());
    assert!(segment.is_unused());
    assert_eq!(segment.find_page(8), None);
    assert_eq!(segment.locate(BASE), None);
    assert!(!segment.is_live(BASE));
}

#[test]
fn blocks_are_laid_out_page_by_page() {
    let mut segment = Segment::new(BASE, PageType::Small, 1);
    assert_eq!(segment.add_page(48), 0);
    assert_eq!(segment.add_page(1024), 1);
    assert_eq!(segment.take_block(0), Some(BASE));
    assert_eq!(segment.take_block(0), Some(BASE + 48));
    assert_eq!(segment.take_block(1), Some(BASE + 65536));
    assert_eq!(segment.take_block(1), Some(BASE + 65536 + 1024));
    assert_eq!(segment.take_block(0), Some(BASE + 96));
}

#[test]
fn page_holds_as_many_blocks_as_fit() {
    let mut segment = Segment::new(BASE, PageType::Small, 1);
    segment.add_page(48);
    let mut count = 0;
    let mut last = 0;
    while let Some(addr) = segment.take_block(0) {
        count += 1;
        last = addr;
    }
    assert_eq!(count, 65536 / 48);
    assert!(last + 48 <= BASE + 65536);
    let mut mid = Segment::new(BASE, PageType::Mid, 1);
    mid.add_page(524288);
    assert_eq!(mid.take_block(0), Some(BASE));
    assert_eq!(mid.take_block(0), None);
}

#[test]
fn segment_has_room_for_its_pages_and_no_more() {
    let mut small = Segment::new(BASE, PageType::Small, 1);
    for k in 0..64 {
        assert!(small.has_room());
        assert_eq!(small.add_page(8), k);
    }
    assert!(!small.has_room());
    let mut huge = Segment::new(BASE, PageType::Huge, 1);
    huge.add_page(4194304);
    assert!(!huge.has_room());
    assert_eq!(huge.take_block(0), Some(BASE));
}

#[test]
fn locate_recovers_page_and_slot() {
    let mut segment = Segment::new(BASE, PageType::Small, 1);
    segment.add_page(48);
    segment.add_page(1024);
    assert_eq!(segment.locate(BASE), Some((0, 0)));
    assert_eq!(segment.locate(BASE + 48 * 7), Some((0, 7)));
    assert_eq!(segment.locate(BASE + 65536 + 3072), Some((1, 3)));
    assert_eq!(segment.locate(BASE + 1), None);
    assert_eq!(segment.locate(BASE + 48 * 1365), None);
    assert_eq!(segment.locate(BASE + 2 * 65536), None);
    assert_eq!(segment.locate(BASE - 48), None);
    assert_eq!(segment.locate(BASE + SEGMENT_SIZE), None);
    assert_eq!(segment.block_size_of(BASE + 96), Some(48));
    assert_eq!(segment.block_size_of(BASE + 65536), Some(1024));
    assert_eq!(segment.block_size_of(BASE + 5), None);
}

#[test]
fn free_block_makes_the_address_available_again() {
    let mut segment = Segment::new(BASE, PageType::Small, 1);
    segment.add_page(64);
    let a = segment.take_block(0).unwrap();
    let b = segment.take_block(0).unwrap();
    assert!(segment.is_live(a) && segment.is_live(b));
    assert!(!segment.is_live(b + 64));
    assert!(!segment.is_unused());
    segment.free_block(a, true);
    assert!(!segment.is_live(a));
    assert!(segment.is_live(b));
    segment.free_block(b, false);
    assert!(segment.is_unused());
    assert_eq!(segment.find_page(64), Some(0));
    assert_eq!(segment.find_page(32), None);
    assert!(segment.page_serves(0, 64));
    assert!(!segment.page_serves(0, 48));
    assert!(!segment.page_serves(1, 64));
}

#[test]
fn find_page_skips_exhausted_pages() {
    let mut segment = Segment::new(BASE, PageType::Mid, 1);
    segment.add_page(524288);
    segment.add_page(524288);
    assert_eq!(segment.find_page(524288), Some(0));
    segment.take_block(0);
    assert_eq!(segment.find_page(524288), Some(1));
    segment.take_block(1);
    assert_eq!(segment.find_page(524288), None);
}
