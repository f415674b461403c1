//! Tests for the live feed: ordered delivery of one message per closed
//! second, filtering, and the heartbeat protocol.

use rustmark::engine::{stats_processor, AllStatsForPeriod, AppStats, OpenStats, ResponseMetrics};
use rustmark::feed::{FeedAction, FeedConn, FeedEvent, FeedPayload, WsIncoming};
use rustmark::query::{GetStatsFeedParams, MeasurementType};
use rustmark::totals::Endpoint;

fn sample(started_at: u64, time_taken: u64) -> ResponseMetrics {
    ResponseMetrics {
        endpoint: Endpoint { method: "GET".to_string(), path: "/".to_string() },
        started_at,
        time_taken,
        status_code: 200,
        connections: 1,
        memory: 64,
    }
}

#[test]
fn live_feed_ordering() {
    // A subscriber connected through N consecutive second-rollovers receives
    // exactly N messages, in order, tagged with strictly increasing second
    // boundaries.
    let n: u64 = 5;
    let start: u64 = 7_000;
    let mut data = AppStats::new(start, 100, 100, 100);
    let mut open = OpenStats::new(start);
    let mut conn = FeedConn::new(None, 30_000, 0);

    let mut published: Vec<AllStatsForPeriod> = Vec::new();
    stats_processor(&mut data, &mut open, Some(&sample(start, 100)), start);
    for s in 1..=n {
        let batch = stats_processor(&mut data, &mut open, None, start + s);
        published.extend(batch);
    }
    assert_eq!(published.len(), n as usize);
    for (k, message) in published.iter().enumerate() {
        assert_eq!(message.times.started_at, start + k as u64);
        if k == 0 {
            assert_eq!(message.times.count, 1);
        } else {
            assert_eq!(message.times.count, 0);
        }
    }

    // Each broadcast message is forwarded to the subscriber unchanged.
    let mut delivered: Vec<FeedPayload> = Vec::new();
    for message in &published {
        match conn.feed_step(FeedEvent::Stats(*message), 0) {
            FeedAction::SendStats(payload) => delivered.push(payload),
            _ => panic!("a broadcast message must be forwarded"),
        }
    }
    assert_eq!(delivered.len(), n as usize);
    match &delivered[0] {
        FeedPayload::Full { times, .. } => {
            assert_eq!(times.count, 1);
            assert_eq!(times.average, 100);
        },
        FeedPayload::Single(_) => panic!("an unfiltered subscription delivers all quantities"),
    }
}

#[test]
fn feed_filter_selects_one_quantity() {
    let params = GetStatsFeedParams { filter: Some(MeasurementType::Connections) };
    let mut conn = FeedConn::new(params.filter, 30_000, 0);
    let mut data = AppStats::new(100, 10, 10, 10);
    let mut open = OpenStats::new(100);
    stats_processor(&mut data, &mut open, Some(&sample(100, 42)), 100);
    let batch = stats_processor(&mut data, &mut open, None, 101);
    assert_eq!(batch.len(), 1);
    match conn.feed_step(FeedEvent::Stats(batch[0]), 0) {
        FeedAction::SendStats(FeedPayload::Single(stats)) => {
            assert_eq!(stats.count, 1);
            assert_eq!(stats.average, 1);
        },
        _ => panic!("a filtered subscription delivers one quantity"),
    }
}

#[test]
fn heartbeat_probe_and_timeout() {
    let timeout: u64 = 30_000;
    let mut conn = FeedConn::new(None, timeout, 0);

    // The probe timer sends a ping and records its time.
    assert!(matches!(conn.feed_step(FeedEvent::PingTick, 10_000), FeedAction::SendPing));
    assert_eq!(conn.last_ping, Some(10_000));

    // Before the timeout has passed, the check does nothing.
    assert!(matches!(conn.feed_step(FeedEvent::TimeoutTick, 20_000), FeedAction::Ignore));

    // Once the probe has stayed unanswered past the timeout, disconnect.
    assert!(matches!(conn.feed_step(FeedEvent::TimeoutTick, 40_001), FeedAction::Disconnect));
}

#[test]
fn heartbeat_answer_keeps_the_connection() {
    let timeout: u64 = 30_000;
    let mut conn = FeedConn::new(None, timeout, 0);
    conn.feed_step(FeedEvent::PingTick, 10_000);
    // The peer answers in time.
    assert!(matches!(
        conn.feed_step(FeedEvent::Message(WsIncoming::Pong), 15_000),
        FeedAction::Ignore
    ));
    assert_eq!(conn.last_pong, 15_000);
    // The answered probe never times out.
    assert!(matches!(conn.feed_step(FeedEvent::TimeoutTick, 100_000), FeedAction::Ignore));
}

#[test]
fn peer_messages_are_handled() {
    let mut conn = FeedConn::new(None, 30_000, 0);
    // The peer's own probe is echoed back.
    match conn.feed_step(FeedEvent::Message(WsIncoming::Ping(vec![1, 2, 3])), 0) {
        FeedAction::SendPong(payload) => assert_eq!(payload, vec![1, 2, 3]),
        _ => panic!("a ping must be answered with a pong"),
    }
    // Unexpected application data is ignored (only logged by the driver).
    assert!(matches!(
        conn.feed_step(FeedEvent::Message(WsIncoming::Text), 0),
        FeedAction::Ignore
    ));
    assert!(matches!(
        conn.feed_step(FeedEvent::Message(WsIncoming::Binary), 0),
        FeedAction::Ignore
    ));
    // A close or an error ends the connection.
    assert!(matches!(
        conn.feed_step(FeedEvent::Message(WsIncoming::Close), 0),
        FeedAction::Disconnect
    ));
    assert!(matches!(
        conn.feed_step(FeedEvent::Message(WsIncoming::Error), 0),
        FeedAction::Disconnect
    ));
}
