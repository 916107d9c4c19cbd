use bare_runtime::flag::{MAP_ANON, MAP_PRIVATE, PROT_READ, PROT_WRITE};
use bare_runtime::memory::hint::{PrivateCursor, SharedCursor, HINT_BASE};
use bare_runtime::memory::map::{
    first_attempt, hinted_mmap, munmap, trim_to_segment, MapAttempt, MapOutcome, MapRequest,
    NaiveAllocator, Trimmed, UnmapRequest,
};
use bare_runtime::memory::SEGMENT_SIZE;
use std::sync::atomic::AtomicU64;

const ENOMEM_RETURN: usize = usize::MAX - 11;

fn plain(addr: u64, len: u64) -> MapRequest {
    MapRequest { addr, len, prot: 3, flags: 0x22, fd: -1, offset: 0 }
}

#[test]
fn hint_is_tried_first_when_caller_has_no_address() {
    let attempt = first_attempt(0, HINT_BASE, SEGMENT_SIZE, 3, 0x22, -1);
    assert_eq!(attempt.request, plain(HINT_BASE, SEGMENT_SIZE));
    assert_eq!(attempt.fallback, Some(plain(0, SEGMENT_SIZE)));
}

#[test]
fn no_hint_means_a_single_plain_request() {
    let attempt = first_attempt(0, 0, 8192, 3, 0x22, -1);
    assert_eq!(attempt, MapAttempt { request: plain(0, 8192), fallback: None });
}

#[test]
fn caller_address_overrides_the_hint() {
    let attempt = first_attempt(0x7000_0000, HINT_BASE, 8192, 1, 2, 5);
    let request = MapRequest { addr: 0x7000_0000, len: 8192, prot: 1, flags: 2, fd: 5, offset: 0 };
    assert_eq!(attempt, MapAttempt { request, fallback: None });
}

#[test]
fn hinted_mmap_takes_hint_from_cursor() {
    let cursor = AtomicU64::new(0);
    let first = hinted_mmap(&mut SharedCursor { word: &cursor }, 0, SEGMENT_SIZE, SEGMENT_SIZE, 3, 0x22, -1);
    assert_eq!(first.request.addr, HINT_BASE);
    assert_eq!(first.fallback, Some(plain(0, SEGMENT_SIZE)));
    let second = hinted_mmap(&mut SharedCursor { word: &cursor }, 0, SEGMENT_SIZE, SEGMENT_SIZE, 3, 0x22, -1);
    assert_eq!(second.request.addr, HINT_BASE + SEGMENT_SIZE);
    let unaligned = hinted_mmap(&mut SharedCursor { word: &cursor }, 0, 4096, 4096, 3, 0x22, -1);
    assert_eq!(unaligned, MapAttempt { request: plain(0, 4096), fallback: None });
    let fixed = hinted_mmap(&mut SharedCursor { word: &cursor }, 0x1000, SEGMENT_SIZE, SEGMENT_SIZE, 3, 0x22, -1);
    assert_eq!(fixed, MapAttempt { request: plain(0x1000, SEGMENT_SIZE), fallback: None });
}

#[test]
fn successful_request_maps() {
    let attempt = first_attempt(0, HINT_BASE, SEGMENT_SIZE, 3, 0x22, -1);
    assert_eq!(attempt.resolve(HINT_BASE as usize), MapOutcome::Mapped(HINT_BASE));
    assert_eq!(attempt.resolve(0x7f00_0000_0000), MapOutcome::Mapped(0x7f00_0000_0000));
}

#[test]
fn failed_hinted_request_falls_back_once() {
    let attempt = first_attempt(0, HINT_BASE, SEGMENT_SIZE, 3, 0x22, -1);
    let retry = MapAttempt { request: plain(0, SEGMENT_SIZE), fallback: None };
    assert_eq!(attempt.resolve(ENOMEM_RETURN), MapOutcome::Retry(retry));
    assert_eq!(attempt.resolve(0), MapOutcome::Retry(retry));
    assert_eq!(retry.resolve(ENOMEM_RETURN), MapOutcome::Failed);
    assert_eq!(retry.resolve(0), MapOutcome::Failed);
    assert_eq!(retry.resolve(0x5000_0000), MapOutcome::Mapped(0x5000_0000));
}

#[test]
fn naive_allocator_maps_private_anonymous_memory() {
    let request = NaiveAllocator.allocate(312);
    assert_eq!(request.addr, 0);
    assert_eq!(request.len, 312);
    assert_eq!(request.prot, PROT_READ | PROT_WRITE);
    assert_eq!(request.flags, MAP_PRIVATE | MAP_ANON);
    assert_eq!(request.fd, -1);
    assert_eq!(request.offset, 0);
}

#[test]
fn naive_allocator_reports_failure_as_null() {
    assert_eq!(NaiveAllocator.allocate_result(0x7f12_3456_7000), 0x7f12_3456_7000);
    assert_eq!(NaiveAllocator.allocate_result(ENOMEM_RETURN), 0);
    assert_eq!(NaiveAllocator.allocate_result(usize::MAX), 0);
    assert_eq!(NaiveAllocator.allocate_result(usize::MAX - 4095), (usize::MAX - 4095) as u64);
}

#[test]
fn naive_allocator_unmaps_what_it_mapped() {
    assert_eq!(
        NaiveAllocator.deallocate(0x7f12_3456_7000, 312),
        UnmapRequest { addr: 0x7f12_3456_7000, len: 312 }
    );
}

#[test]
fn munmap_succeeds_unless_error() {
    assert!(munmap(0));
    assert!(!munmap(usize::MAX - 21));
}

#[test]
fn hinted_mmap_on_a_private_cursor() {
    let mut cursor = PrivateCursor { position: HINT_BASE + 7 * SEGMENT_SIZE };
    let attempt = hinted_mmap(&mut cursor, 0, 2 * SEGMENT_SIZE, SEGMENT_SIZE, 3, 0x22, -1);
    assert_eq!(attempt.request.addr, HINT_BASE + 7 * SEGMENT_SIZE);
    assert_eq!(attempt.request.len, 2 * SEGMENT_SIZE);
    assert_eq!(cursor.position, HINT_BASE + 9 * SEGMENT_SIZE);
}

#[test]
fn aligned_mapping_needs_no_trimming() {
    assert_eq!(
        trim_to_segment(HINT_BASE, SEGMENT_SIZE),
        Some(Trimmed { base: HINT_BASE, head: None, tail: None })
    );
    assert_eq!(
        trim_to_segment(HINT_BASE, SEGMENT_SIZE + 4096),
        Some(Trimmed {
            base: HINT_BASE,
            head: None,
            tail: Some(UnmapRequest { addr: HINT_BASE + SEGMENT_SIZE, len: 4096 }),
        })
    );
}

#[test]
fn wide_mapping_is_trimmed_on_both_sides() {
    let addr = HINT_BASE + 4096;
    assert_eq!(
        trim_to_segment(addr, 2 * SEGMENT_SIZE),
        Some(Trimmed {
            base: HINT_BASE + SEGMENT_SIZE,
            head: Some(UnmapRequest { addr, len: SEGMENT_SIZE - 4096 }),
            tail: Some(UnmapRequest { addr: HINT_BASE + 2 * SEGMENT_SIZE, len: 4096 }),
        })
    );
    assert_eq!(
        trim_to_segment(HINT_BASE + 1, 2 * SEGMENT_SIZE - 1),
        Some(Trimmed {
            base: HINT_BASE + SEGMENT_SIZE,
            head: Some(UnmapRequest { addr: HINT_BASE + 1, len: SEGMENT_SIZE - 1 }),
            tail: None,
        })
    );
}

#[test]
fn mapping_without_an_aligned_segment() {
    assert_eq!(trim_to_segment(HINT_BASE + 4096, SEGMENT_SIZE), None);
    assert_eq!(trim_to_segment(HINT_BASE + 1, 2 * SEGMENT_SIZE - 2), None);
    assert_eq!(trim_to_segment(HINT_BASE, SEGMENT_SIZE - 1), None);
    assert_eq!(trim_to_segment(HINT_BASE, 0), None);
    assert_eq!(trim_to_segment(u64::MAX - 4095, 8192), None);
    assert_eq!(trim_to_segment(u64::MAX - SEGMENT_SIZE + 2, SEGMENT_SIZE - 2), None);
}
