//! Tests for the circular history buffer: the capacity invariant, exact
//! eviction order, and the bounded newest-first queries.

use rustmark::buffer::CircularBuffer;
use rustmark::period::StatsForPeriod;

fn entry(started_at: u64, value: u64) -> StatsForPeriod {
    let mut e = StatsForPeriod::initialize(value);
    e.started_at = started_at;
    e
}

#[test]
fn capacity_invariant_and_eviction_order() {
    // Push N + 5 entries into a buffer of capacity N: the length stays
    // exactly N, the oldest entries are the ones evicted, and the newest
    // entries come first.
    let n: usize = 10;
    let mut buffer = CircularBuffer::new(n);
    for k in 0..(n + 5) {
        buffer.push_front(entry(k as u64, (k + 1) as u64));
        assert!(buffer.len() <= n);
    }
    assert_eq!(buffer.len(), n);
    // Newest first: started_at 14, 13, ..., 5; entries 0..=4 were evicted.
    for i in 0..n {
        assert_eq!(buffer.entry(i).started_at, (14 - i) as u64);
        assert_eq!(buffer.entry(i).sum, (15 - i) as u128);
    }
}

#[test]
fn recent_applies_since_and_limit() {
    let mut buffer = CircularBuffer::new(100);
    for k in 0..10u64 {
        buffer.push_front(entry(1000 + k, k + 1));
    }
    // Newest first, unbounded.
    let all = buffer.recent(None, None);
    assert_eq!(all.len(), 10);
    assert_eq!(all[0].started_at, 1009);
    assert_eq!(all[9].started_at, 1000);

    // A start time keeps the longest prefix at or after it.
    let since = buffer.recent(None, Some(1006));
    assert_eq!(since.len(), 4);
    assert_eq!(since[0].started_at, 1009);
    assert_eq!(since[3].started_at, 1006);

    // A limit bounds the output even when the start time would allow more.
    let both = buffer.recent(Some(2), Some(1006));
    assert_eq!(both.len(), 2);
    assert_eq!(both[0].started_at, 1009);
    assert_eq!(both[1].started_at, 1008);

    // A limit larger than the buffer returns everything.
    let large = buffer.recent(Some(50), None);
    assert_eq!(large.len(), 10);
}

#[test]
fn capacity_one_buffer_keeps_newest() {
    let mut buffer = CircularBuffer::new(1);
    buffer.push_front(entry(1, 10));
    buffer.push_front(entry(2, 20));
    buffer.push_front(entry(3, 30));
    assert_eq!(buffer.len(), 1);
    assert_eq!(buffer.entry(0).started_at, 3);
    assert_eq!(buffer.entry(0).sum, 30);
}
