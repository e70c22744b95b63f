use connection_handler::backoff::{
    next_interval, next_timeout, INITIAL_INTERVAL, INITIAL_TIMEOUT, MAX_INTERVAL, MAX_TIMEOUT,
};

#[test]
fn intervals_double_up_to_the_longest() {
    let mut intervals: Vec<u64> = vec![INITIAL_INTERVAL];
    for _ in 0..7 {
        intervals.push(next_interval(intervals[intervals.len() - 1]));
    }
    assert_eq!(intervals, vec![200, 400, 800, 1600, 3200, 5000, 5000, 5000]);
}

#[test]
fn an_interval_near_the_longest_is_cut() {
    assert_eq!(next_interval(2500), 5000);
    assert_eq!(next_interval(2501), MAX_INTERVAL);
    assert_eq!(next_interval(0), 0);
}

#[test]
fn timeouts_grow_by_a_fifth() {
    let mut timeouts: Vec<u64> = vec![INITIAL_TIMEOUT];
    for _ in 0..20 {
        timeouts.push(next_timeout(timeouts[timeouts.len() - 1]));
    }
    assert_eq!(
        timeouts,
        vec![
            15, 18, 21, 25, 30, 36, 43, 51, 61, 73, 87, 104, 124, 148, 177, 212, 254, 304, 364,
            436, 523
        ]
    );
}

#[test]
fn timeouts_are_those_of_a_float_multiplier() {
    for timeout in 0..=MAX_TIMEOUT {
        let grown = (timeout as f64 * 1.2) as u64;
        assert_eq!(next_timeout(timeout), grown.min(MAX_TIMEOUT));
    }
}

#[test]
fn the_longest_timeout_stays() {
    assert_eq!(next_timeout(50_000), 60_000);
    assert_eq!(next_timeout(50_001), 60_000);
    assert_eq!(next_timeout(60_000), 60_000);
}
