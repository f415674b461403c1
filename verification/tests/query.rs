//! Tests for the read side: filter parsing, the snapshot with its named
//! period windows, and historical replay.

use rustmark::engine::{stats_processor, AppStats, OpenStats, ResponseMetrics};
use rustmark::period::StatsForPeriod;
use rustmark::query::{
    get_stats, get_stats_history, FilterError, GetStatsHistoryParams, MeasurementType,
    StatsResponseForPeriod,
};
use rustmark::totals::Endpoint;

fn sample(started_at: u64, time_taken: u64) -> ResponseMetrics {
    ResponseMetrics {
        endpoint: Endpoint { method: "GET".to_string(), path: "/api/stats".to_string() },
        started_at,
        time_taken,
        status_code: 200,
        connections: 1,
        memory: 1024,
    }
}

#[test]
fn measurement_type_from_str() {
    assert_eq!(MeasurementType::from_str("times"), Ok(MeasurementType::Times));
    assert_eq!(MeasurementType::from_str("connections"), Ok(MeasurementType::Connections));
    assert_eq!(MeasurementType::from_str("memory"), Ok(MeasurementType::Memory));
    // ASCII case is ignored: the filter name is lower-cased before matching.
    assert_eq!(MeasurementType::from_str("TIMES"), Ok(MeasurementType::Times));
    assert_eq!(MeasurementType::from_str("Memory"), Ok(MeasurementType::Memory));
    // Anything else is an invalid filter.
    assert_eq!(MeasurementType::from_str("time"), Err(FilterError::InvalidFilter));
    assert_eq!(MeasurementType::from_str(""), Err(FilterError::InvalidFilter));
    assert_eq!(MeasurementType::from_str("bogus"), Err(FilterError::InvalidFilter));
}

#[test]
fn stats() {
    // A snapshot over a crafted state: counters pass through, codes are
    // reported sorted, every configured window of the empty buffers is
    // zero, and the per-endpoint aggregate is reported exactly.
    let start: u64 = 1000;
    let mut data = AppStats::new(start, 86_400, 86_400, 86_400);
    data.totals.codes = vec![(500, 2), (200, 5), (404, 3), (401, 4)];
    data.totals.endpoints = vec![(
        Endpoint { method: "GET".to_string(), path: "/api/stats".to_string() },
        StatsForPeriod { started_at: start, sum: 5000, maximum: 1000, minimum: 100, count: 10 },
    )];
    data.totals.times.count = 10;
    data.totals.times.sum = 5000;
    data.totals.times.maximum = 1000;
    data.totals.times.minimum = 100;

    let periods: Vec<(String, usize)> = vec![
        ("hour".to_string(), 3600),
        ("second".to_string(), 1),
        ("day".to_string(), 86_400),
        ("minute".to_string(), 60),
    ];
    let response = get_stats(&data, &periods, start + 99, 5, 10);

    assert_eq!(response.started_at, start);
    assert_eq!(response.uptime, 99);
    assert_eq!(response.active, 5);
    assert_eq!(response.requests, 10);
    assert_eq!(response.codes, vec![(200, 5), (401, 4), (404, 3), (500, 2)]);

    // Periods come back sorted by window length, then the all-time entry.
    let names: Vec<&str> = response.times.iter().map(|(n, _)| n.as_str()).collect();
    assert_eq!(names, vec!["second", "minute", "hour", "day", "all"]);
    for (name, stats) in response.times.iter() {
        if name == "all" {
            assert_eq!(
                *stats,
                StatsResponseForPeriod { average: 500, maximum: 1000, minimum: 100, count: 10 },
            );
        } else {
            assert_eq!(
                *stats,
                StatsResponseForPeriod { average: 0, maximum: 0, minimum: 0, count: 0 },
            );
        }
    }
    for (name, stats) in response.connections.iter().chain(response.memory.iter()) {
        assert!(["second", "minute", "hour", "day", "all"].contains(&name.as_str()));
        assert_eq!(stats.count, 0);
    }

    assert_eq!(response.endpoints.len(), 1);
    assert_eq!(response.endpoints[0].0.method, "GET");
    assert_eq!(response.endpoints[0].0.path, "/api/stats");
    assert_eq!(
        response.endpoints[0].1,
        StatsResponseForPeriod { average: 500, maximum: 1000, minimum: 100, count: 10 },
    );
}

/// Drives the engine through 60 closed seconds with one sample per second,
/// taking the value of the sample for second `start + s` from `values[s]`.
fn engine_with_minute(start: u64, values: &[u64]) -> AppStats {
    let mut data = AppStats::new(start, 86_400, 86_400, 86_400);
    let mut open = OpenStats::new(start);
    for (s, &v) in values.iter().enumerate() {
        stats_processor(&mut data, &mut open, Some(&sample(start + s as u64, v)), start + s as u64);
    }
    stats_processor(&mut data, &mut open, None, start + values.len() as u64);
    data
}

#[test]
fn windowed_query_matches_buffer_content() {
    // With known synthetic entries for the last 60 seconds, the minute
    // window equals merging all 60 entries manually, and a window longer
    // than the available history merges only what exists.
    let start: u64 = 10_000;
    let values: Vec<u64> = (0..60u64).map(|s| (s + 1) * 10).collect();
    let data = engine_with_minute(start, &values);

    let periods: Vec<(String, usize)> =
        vec![("second".to_string(), 1), ("minute".to_string(), 60), ("hour".to_string(), 3600)];
    let response = get_stats(&data, &periods, start + 60, 0, 60);

    // Manual merge of all 60 entries.
    let mut manual = StatsForPeriod::default();
    for &v in &values {
        manual.update(&StatsForPeriod::initialize(v));
    }
    let expected = StatsResponseForPeriod {
        average: manual.average(),
        maximum: manual.maximum,
        minimum: manual.minimum,
        count: manual.count,
    };

    let by_name = |name: &str| -> StatsResponseForPeriod {
        response.times.iter().find(|(n, _)| n == name).map(|(_, s)| *s).unwrap()
    };
    assert_eq!(by_name("minute"), expected);
    // Only the newest entry falls in the one-second window.
    assert_eq!(
        by_name("second"),
        StatsResponseForPeriod { average: 600, maximum: 600, minimum: 600, count: 1 },
    );
    // The hour window has only 60 seconds of history to merge.
    assert_eq!(by_name("hour"), expected);
    // The all-time aggregate matches too: nothing was evicted.
    assert_eq!(by_name("all"), expected);
}

#[test]
fn unseen_status_codes_are_inserted_and_sorted() {
    let start: u64 = 30_000;
    let mut data = AppStats::new(start, 100, 100, 100);
    let mut open = OpenStats::new(start);
    let mut m = sample(start, 100);
    m.status_code = 418;
    stats_processor(&mut data, &mut open, Some(&m), start);
    let mut m2 = sample(start, 100);
    m2.status_code = 418;
    stats_processor(&mut data, &mut open, Some(&m2), start);
    let m3 = sample(start, 100);
    stats_processor(&mut data, &mut open, Some(&m3), start);

    let response = get_stats(&data, &vec![("second".to_string(), 1)], start, 0, 3);
    // The four default codes keep their zero counters; the new code is
    // inserted once, counted twice, and sorted into place.
    assert_eq!(
        response.codes,
        vec![(200, 1), (401, 0), (404, 0), (418, 2), (500, 0)],
    );
}

#[test]
fn history_filters_and_limits() {
    let start: u64 = 20_000;
    let values: Vec<u64> = (0..10u64).map(|s| s + 1).collect();
    let data = engine_with_minute(start, &values);

    // All three buffers, unbounded: newest first.
    let full = get_stats_history(
        &data,
        &GetStatsHistoryParams { buffer: None, from: None, limit: None },
    );
    assert_eq!(full.last_second, start + 10);
    assert_eq!(full.times.len(), 10);
    assert_eq!(full.connections.len(), 10);
    assert_eq!(full.memory.len(), 10);
    assert_eq!(full.times[0].average, 10);
    assert_eq!(full.times[9].average, 1);

    // Filtered to one buffer, the others stay empty.
    let only_memory = get_stats_history(
        &data,
        &GetStatsHistoryParams {
            buffer: Some(MeasurementType::Memory),
            from: None,
            limit: Some(3),
        },
    );
    assert_eq!(only_memory.times.len(), 0);
    assert_eq!(only_memory.connections.len(), 0);
    assert_eq!(only_memory.memory.len(), 3);

    // A start time keeps entries at or after it; the limit still wins.
    let since = get_stats_history(
        &data,
        &GetStatsHistoryParams {
            buffer: Some(MeasurementType::Times),
            from: Some(start + 6),
            limit: None,
        },
    );
    assert_eq!(since.times.len(), 4);
    assert_eq!(since.times[0].average, 10);
    assert_eq!(since.times[3].average, 7);

    let since_limited = get_stats_history(
        &data,
        &GetStatsHistoryParams {
            buffer: Some(MeasurementType::Times),
            from: Some(start + 6),
            limit: Some(2),
        },
    );
    assert_eq!(since_limited.times.len(), 2);
    assert_eq!(since_limited.times[0].average, 10);
    assert_eq!(since_limited.times[1].average, 9);
}
