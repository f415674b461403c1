//! Tests for the per-period accumulator: merge identity and the exactness
//! of the count-weighted average.

use rustmark::period::StatsForPeriod;

#[test]
fn accumulator_merge_identity() {
    // Three sequential updates with hand-computed expected values.
    let mut a = StatsForPeriod::default();
    assert_eq!(a.count, 0);

    a.update(&StatsForPeriod::initialize(100));
    assert_eq!(a.count, 1);
    assert_eq!(a.sum, 100);
    assert_eq!(a.minimum, 100);
    assert_eq!(a.maximum, 100);
    assert_eq!(a.average(), 100);

    a.update(&StatsForPeriod::initialize(50));
    // weighted average: 100 * (1 - 1/2) + 50 * 1/2 = 75
    assert_eq!(a.count, 2);
    assert_eq!(a.sum, 150);
    assert_eq!(a.minimum, 50);
    assert_eq!(a.maximum, 100);
    assert_eq!(a.average(), 75);

    a.update(&StatsForPeriod::initialize(250));
    // weighted average: 75 * (1 - 1/3) + 250 * 1/3 = 400 / 3, reported
    // rounded down.
    assert_eq!(a.count, 3);
    assert_eq!(a.sum, 400);
    assert_eq!(a.minimum, 50);
    assert_eq!(a.maximum, 250);
    assert_eq!(a.average(), 133);
}

#[test]
fn empty_accumulator_minimum_is_replaced() {
    // The sentinel minimum of an empty accumulator must never win the
    // comparison: merging a first value larger than zero takes that value.
    let mut a = StatsForPeriod::default();
    a.update(&StatsForPeriod::initialize(7));
    assert_eq!(a.minimum, 7);

    // Merging an empty accumulator into a non-empty one changes nothing.
    let mut b = StatsForPeriod::initialize(9);
    b.update(&StatsForPeriod::default());
    assert_eq!(b.count, 1);
    assert_eq!(b.sum, 9);
    assert_eq!(b.minimum, 9);
    assert_eq!(b.maximum, 9);
}

/// A small deterministic pseudo-random generator for property-style tests.
fn next_rand(state: &mut u64) -> u64 {
    *state = state.wrapping_mul(6364136223846793005).wrapping_add(1442695040888963407);
    *state >> 33
}

fn accumulate(values: &[u64]) -> StatsForPeriod {
    let mut acc = StatsForPeriod::default();
    for &v in values {
        acc.update(&StatsForPeriod::initialize(v));
    }
    acc
}

#[test]
fn merge_associativity() {
    // Merging [A, B, C] must produce the same aggregate regardless of the
    // pairing order, over random small sample sets.
    let mut state: u64 = 42;
    for _ in 0..50 {
        let len_a = (next_rand(&mut state) % 4) as usize;
        let len_b = (next_rand(&mut state) % 4) as usize;
        let len_c = (next_rand(&mut state) % 4) as usize;
        let vals_a: Vec<u64> = (0..len_a).map(|_| next_rand(&mut state) % 1000).collect();
        let vals_b: Vec<u64> = (0..len_b).map(|_| next_rand(&mut state) % 1000).collect();
        let vals_c: Vec<u64> = (0..len_c).map(|_| next_rand(&mut state) % 1000).collect();
        let a = accumulate(&vals_a);
        let b = accumulate(&vals_b);
        let c = accumulate(&vals_c);

        // ((A + B) + C)
        let mut left = a;
        left.update(&b);
        left.update(&c);

        // (A + (B + C))
        let mut bc = b;
        bc.update(&c);
        let mut right = a;
        right.update(&bc);

        assert_eq!(left.count, right.count);
        assert_eq!(left.sum, right.sum);
        assert_eq!(left.minimum, right.minimum);
        assert_eq!(left.maximum, right.maximum);
    }
}
