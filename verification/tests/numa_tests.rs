use bare_runtime::memory::numa::{
    current_numa_node, node_from_query, node_path, read_memo, settle, Memo, NodeQuery, NumaCache,
    NumaProbe, SharedNumaCache, NUMA_LIMIT,
};
use std::sync::atomic::{AtomicUsize, Ordering};

const ENOENT_RETURN: usize = usize::MAX - 1;

fn run_probe(present: impl Fn(u8) -> bool) -> usize {
    let mut probe = NumaProbe::new();
    while let Some(node) = probe.pending() {
        let path = probe.pending_path().unwrap();
        assert_eq!(path, node_path(node));
        let raw = if present(node) { 0 } else { ENOENT_RETURN };
        probe.record(raw);
    }
    probe.count().unwrap()
}

fn host_probe() -> usize {
    let mut probe = NumaProbe::new();
    while let Some(path) = probe.pending_path() {
        let text = String::from_utf8(path[..path.len() - 1].to_vec()).unwrap();
        let raw = if std::path::Path::new(&text).exists() { 0 } else { ENOENT_RETURN };
        probe.record(raw);
    }
    probe.count().unwrap()
}

#[test]
fn test_numa() {
    let word = AtomicUsize::new(0);
    let mut cache = SharedNumaCache { word: &word };
    let first = match cache.known() {
        Some(count) => count,
        None => cache.publish(host_probe()),
    };
    let second = match cache.known() {
        Some(count) => count,
        None => cache.publish(host_probe()),
    };
    println!("{}, {}", first, second);
    assert_eq!(first, second);
}

#[test]
fn test_numa_node() {
    let count = host_probe();
    let node = match current_numa_node(count) {
        NodeQuery::Known(node) => node,
        NodeQuery::AskProcessor => node_from_query(0, 0),
    };
    println!("{}", node);
    assert!(count <= 1 || node < count);
}

#[test]
fn node_path_formats_decimal_without_padding() {
    assert_eq!(node_path(0), b"/sys/devices/system/node/node0\0".to_vec());
    assert_eq!(node_path(7), b"/sys/devices/system/node/node7\0".to_vec());
    assert_eq!(node_path(10), b"/sys/devices/system/node/node10\0".to_vec());
    assert_eq!(node_path(42), b"/sys/devices/system/node/node42\0".to_vec());
    assert_eq!(node_path(99), b"/sys/devices/system/node/node99\0".to_vec());
    assert_eq!(node_path(100), b"/sys/devices/system/node/node100\0".to_vec());
    assert_eq!(node_path(205), b"/sys/devices/system/node/node205\0".to_vec());
    assert_eq!(node_path(255), b"/sys/devices/system/node/node255\0".to_vec());
}

#[test]
fn node_path_is_never_longer_than_thirty_three_bytes() {
    for node in 0..=255u8 {
        let path = node_path(node);
        assert!(path.len() <= 33);
        assert_eq!(*path.last().unwrap(), 0);
        let digits = String::from_utf8(path[29..path.len() - 1].to_vec()).unwrap();
        assert_eq!(digits, format!("{}", node));
    }
}

#[test]
fn probe_tests_every_candidate_once() {
    let mut probe = NumaProbe::new();
    let mut asked = Vec::new();
    while let Some(node) = probe.pending() {
        asked.push(node as usize);
        assert_eq!(probe.count(), None);
        probe.record(0);
    }
    assert_eq!(asked, (0..NUMA_LIMIT).collect::<Vec<usize>>());
    assert_eq!(probe.count(), Some(NUMA_LIMIT));
    assert_eq!(probe.pending_path(), None);
}

#[test]
fn probe_counts_present_domains() {
    assert_eq!(run_probe(|_| false), 0);
    assert_eq!(run_probe(|node| node == 0), 1);
    assert_eq!(run_probe(|node| node < 4), 4);
    assert_eq!(run_probe(|node| node % 2 == 1), 128);
    assert_eq!(run_probe(|_| true), 256);
}

#[test]
fn probe_counts_any_error_as_absent() {
    let mut probe = NumaProbe::new();
    probe.record(usize::MAX);
    probe.record(usize::MAX - 12);
    probe.record(usize::MAX - 4094);
    probe.record(usize::MAX - 4095);
    probe.record(5);
    while probe.pending().is_some() {
        probe.record(ENOENT_RETURN);
    }
    assert_eq!(probe.count(), Some(2));
}

#[test]
fn probe_ignores_answers_after_completion() {
    let mut probe = NumaProbe::new();
    while probe.pending().is_some() {
        probe.record(ENOENT_RETURN);
    }
    probe.record(0);
    probe.record(0);
    assert_eq!(probe.count(), Some(0));
}

#[test]
fn probe_is_idempotent_over_same_topology() {
    let topology = |node: u8| node < 2 || node == 200;
    assert_eq!(run_probe(topology), run_probe(topology));
    assert_eq!(run_probe(topology), 3);
}

#[test]
fn cache_keeps_first_nonzero_count() {
    let mut cache = NumaCache::new();
    assert_eq!(cache.known(), None);
    assert_eq!(cache.publish(0), 0);
    assert_eq!(cache.known(), None);
    assert_eq!(cache.publish(2), 2);
    assert_eq!(cache.known(), Some(2));
    assert_eq!(cache.publish(2), 2);
    assert_eq!(cache.publish(5), 2);
    assert_eq!(cache.publish(0), 2);
    assert_eq!(cache.known(), Some(2));
}

#[test]
fn single_domain_needs_no_query() {
    assert_eq!(current_numa_node(0), NodeQuery::Known(0));
    assert_eq!(current_numa_node(1), NodeQuery::Known(0));
    assert_eq!(current_numa_node(2), NodeQuery::AskProcessor);
    assert_eq!(current_numa_node(256), NodeQuery::AskProcessor);
}

#[test]
fn failed_query_degrades_to_domain_zero() {
    assert_eq!(node_from_query(0, 3), 3);
    assert_eq!(node_from_query(usize::MAX - 21, 3), 0);
    assert_eq!(node_from_query(usize::MAX, 1), 0);
}

#[test]
fn shared_cache_keeps_first_nonzero_count() {
    let word = AtomicUsize::new(0);
    let mut first = SharedNumaCache { word: &word };
    let mut second = SharedNumaCache { word: &word };
    assert_eq!(first.known(), None);
    assert_eq!(first.publish(0), 0);
    assert_eq!(second.known(), None);
    assert_eq!(first.publish(4), 4);
    assert_eq!(second.publish(4), 4);
    assert_eq!(second.publish(9), 4);
    assert_eq!(first.known(), Some(4));
    assert_eq!(second.known(), Some(4));
    assert_eq!(word.load(Ordering::SeqCst), 4);
}

#[test]
fn shared_and_private_cache_agree() {
    let word = AtomicUsize::new(0);
    let mut shared = SharedNumaCache { word: &word };
    let mut private = NumaCache::new();
    for probed in [0usize, 0, 3, 3, 0, 7, 1] {
        assert_eq!(shared.known(), private.known());
        assert_eq!(shared.publish(probed), private.publish(probed));
    }
    assert_eq!(private.count, 3);
}

#[test]
fn memo_that_holds_zero_knows_nothing() {
    assert_eq!(read_memo(0), None);
    assert_eq!(read_memo(1), Some(1));
    assert_eq!(read_memo(256), Some(256));
}

#[test]
fn offer_settles_on_what_the_memo_holds() {
    assert_eq!(settle(3, Ok(0)), 3);
    assert_eq!(settle(0, Ok(0)), 0);
    assert_eq!(settle(3, Err(2)), 2);
    assert_eq!(settle(0, Err(5)), 5);
}
