//! Tests for the aggregation engine: rollover under a gap, quiet-period
//! ticks, and no data loss when draining a multi-producer queue.

use rustmark::engine::{stats_processor, AppStats, OpenStats, ResponseMetrics};
use rustmark::totals::Endpoint;

fn sample(started_at: u64, time_taken: u64, status_code: u16) -> ResponseMetrics {
    ResponseMetrics {
        endpoint: Endpoint { method: "GET".to_string(), path: "/api/stats".to_string() },
        started_at,
        time_taken,
        status_code,
        connections: 2,
        memory: 4096,
    }
}

#[test]
fn rollover_under_gap() {
    // A sample at second T, then the next sample at T + 5: the rollover must
    // flush five buckets — T holding the first sample's stats and T+1..T+4
    // empty — and publish one message per closed second, oldest first.
    let t: u64 = 1000;
    let mut data = AppStats::new(t, 86_400, 86_400, 86_400);
    let mut open = OpenStats::new(t);

    let first = sample(t, 500, 200);
    let none = stats_processor(&mut data, &mut open, Some(&first), t);
    assert_eq!(none.len(), 0);

    let second = sample(t + 5, 700, 200);
    let messages = stats_processor(&mut data, &mut open, Some(&second), t + 5);

    // Five new front entries, newest first: T+4 .. T+1 empty, then T with
    // the single sample's stats.
    assert_eq!(messages.len(), 5);
    for (k, message) in messages.iter().enumerate() {
        assert_eq!(message.times.started_at, t + k as u64);
        assert_eq!(message.connections.started_at, t + k as u64);
        assert_eq!(message.memory.started_at, t + k as u64);
        if k == 0 {
            assert_eq!(message.times.count, 1);
            assert_eq!(message.times.sum, 500);
        } else {
            assert_eq!(message.times.count, 0);
            assert_eq!(message.times.sum, 0);
        }
    }
    // The buffer mirrors the messages, newest first.
    let entries = data.buffers.responses.recent(None, None);
    assert_eq!(entries.len(), 5);
    for (i, entry) in entries.iter().enumerate() {
        assert_eq!(entry.started_at, t + 4 - i as u64);
    }
    assert_eq!(entries[4].count, 1);
    assert_eq!(entries[4].sum, 500);
    assert_eq!(entries[4].minimum, 500);
    assert_eq!(entries[4].maximum, 500);
    assert_eq!(entries[0].count, 0);

    // The second sample is accumulating in the newly opened second.
    assert_eq!(open.current_second, t + 5);
    assert_eq!(open.times.count, 1);
    assert_eq!(open.times.sum, 700);
    assert_eq!(data.last_second, t + 5);
    assert_eq!(data.totals.times.count, 2);
    assert_eq!(data.totals.times.sum, 1200);
}

#[test]
fn tick_closes_quiet_periods() {
    // Without traffic, the periodic tick still closes each second, so the
    // buffer head never goes stale.
    let t: u64 = 2000;
    let mut data = AppStats::new(t, 100, 100, 100);
    let mut open = OpenStats::new(t);

    let m = sample(t, 250, 200);
    stats_processor(&mut data, &mut open, Some(&m), t);

    let first_tick = stats_processor(&mut data, &mut open, None, t + 1);
    assert_eq!(first_tick.len(), 1);
    assert_eq!(first_tick[0].times.started_at, t);
    assert_eq!(first_tick[0].times.count, 1);

    let second_tick = stats_processor(&mut data, &mut open, None, t + 2);
    assert_eq!(second_tick.len(), 1);
    assert_eq!(second_tick[0].times.started_at, t + 1);
    assert_eq!(second_tick[0].times.count, 0);

    // A tick within the same second does nothing.
    let same_second = stats_processor(&mut data, &mut open, None, t + 2);
    assert_eq!(same_second.len(), 0);
    assert_eq!(data.buffers.responses.len(), 2);
    assert_eq!(data.last_second, t + 2);
}

#[test]
fn stale_sample_is_merged_into_the_open_second() {
    // A sample whose own timestamp is older than the engine's current
    // second causes no rollover: it is merged into the open accumulators.
    let t: u64 = 3000;
    let mut data = AppStats::new(t, 100, 100, 100);
    let mut open = OpenStats::new(t);
    let stale = sample(t - 10, 123, 200);
    let messages = stats_processor(&mut data, &mut open, Some(&stale), t);
    assert_eq!(messages.len(), 0);
    assert_eq!(open.current_second, t);
    assert_eq!(open.times.count, 1);
    assert_eq!(data.totals.times.count, 1);
}

#[test]
fn drain_queue_accounts_for_every_sample() {
    // The shutdown path: everything still queued is drained in order, and
    // every sample is counted exactly once.
    let (sender, receiver) = flume::unbounded();
    for k in 0..500u64 {
        sender.send(sample(9_000, k, 200)).unwrap();
    }
    drop(sender);
    let pending: Vec<ResponseMetrics> = receiver.drain().collect();
    let mut data = AppStats::new(9_000, 100, 100, 100);
    let mut open = OpenStats::new(9_000);
    rustmark::engine::drain_queue(&mut data, &mut open, &pending);
    assert_eq!(data.totals.times.count, 500);
    assert_eq!(data.totals.connections.count, 500);
    assert_eq!(data.totals.memory.count, 500);
    // All samples shared one second, so they sit in the open accumulator.
    assert_eq!(open.times.count, 500);
}

#[test]
fn no_data_loss_under_concurrent_producers() {
    // M producer tasks each send K samples into the queue; after the
    // consumer drains it, the cumulative counts are exactly M * K.
    const M: usize = 10;
    const K: usize = 1000;
    let runtime = tokio::runtime::Builder::new_multi_thread()
        .worker_threads(4)
        .build()
        .unwrap();
    let received: u64 = runtime.block_on(async {
        let (sender, receiver) = flume::unbounded::<ResponseMetrics>();
        let mut producers = Vec::new();
        for p in 0..M {
            let sender = sender.clone();
            producers.push(tokio::spawn(async move {
                for k in 0..K {
                    let m = sample(5000, (p * K + k) as u64, 200);
                    sender.send(m).expect("queue closed");
                }
            }));
        }
        for producer in producers {
            producer.await.unwrap();
        }
        drop(sender);

        let mut data = AppStats::new(5000, 100, 100, 100);
        let mut open = OpenStats::new(5000);
        while let Ok(m) = receiver.recv_async().await {
            stats_processor(&mut data, &mut open, Some(&m), m.started_at);
        }
        assert_eq!(data.totals.connections.count, (M * K) as u64);
        assert_eq!(data.totals.memory.count, (M * K) as u64);
        let code_total: u64 = data.totals.codes.iter().map(|(_, v)| *v).sum();
        assert_eq!(code_total, (M * K) as u64);
        data.totals.times.count
    });
    assert_eq!(received, (M * K) as u64);
}
