use http_cmp::statistics::{
    summarize, update_stats, Duration, RttSummary, SingleRunStatistics,
};

fn micros(micros: u64) -> Duration {
    Duration::new(micros / 1_000_000, (micros % 1_000_000) as u32 * 1_000)
}

fn run(a: u64, b: u64, c: u64, d: u64) -> SingleRunStatistics {
    SingleRunStatistics {
        get_index_rtt: micros(a),
        get_count_rtt: micros(b),
        put_count_rtt: micros(c),
        post_count_rtt: micros(d),
    }
}

#[test]
fn durations_agree_with_the_standard_library() {
    for (secs, nanos) in [
        (0u64, 0u32),
        (0, 999),
        (0, 1_000),
        (1, 999_999_999),
        (3, 2_500_000_000),
        (u64::MAX, 999_999_999),
    ] {
        let ours = Duration::new(secs, nanos);
        let theirs = std::time::Duration::new(secs, nanos);
        assert_eq!(ours.as_secs(), theirs.as_secs());
        assert_eq!(ours.subsec_nanos(), theirs.subsec_nanos());
        assert_eq!(ours.as_micros(), theirs.as_micros());
        let sum = ours.checked_add(&Duration::new(1, 999_999_999));
        let expected = theirs.checked_add(std::time::Duration::new(1, 999_999_999));
        assert_eq!(
            sum.map(|sum| (sum.as_secs(), sum.subsec_nanos())),
            expected.map(|sum| (sum.as_secs(), sum.subsec_nanos()))
        );
    }
    let almost = Duration::new(u64::MAX, 0);
    assert!(almost.checked_add(&Duration::new(0, 999_999_999)).is_some());
    assert!(Duration::new(u64::MAX, 1)
        .checked_add(&Duration::new(0, 999_999_999))
        .is_none());
    assert!(almost.checked_add(&Duration::new(1, 0)).is_none());
}

#[test]
fn total_adds_the_four_times() {
    let total = run(1_500_000, 2, 30, 400).total();
    assert_eq!(total.as_micros(), 1_500_432);
    let long = SingleRunStatistics {
        get_index_rtt: Duration::new(u64::MAX, 0),
        get_count_rtt: Duration::new(1, 0),
        put_count_rtt: micros(0),
        post_count_rtt: micros(0),
    };
    assert!(long.checked_total().is_none());
}

#[test]
fn total_counts_nanoseconds_that_no_single_time_shows() {
    let part = Duration::new(0, 400);
    let run = SingleRunStatistics {
        get_index_rtt: part,
        get_count_rtt: part,
        put_count_rtt: part,
        post_count_rtt: part,
    };
    assert_eq!(part.as_micros(), 0);
    assert_eq!(run.total().as_micros(), 1);
}

#[test]
fn stats_are_updated() {
    let mut min: u128 = u128::MAX;
    let mut max: u128 = u128::MIN;
    let mut total: u128 = 0;
    for cur in [5u128, 2, 9] {
        update_stats(cur, &mut min, &mut max, &mut total);
    }
    assert_eq!((min, max, total), (2, 9, 16));
}

#[test]
fn runs_are_summed_up() {
    let summary = summarize(&[run(10, 20, 30, 40), run(5, 60, 30, 1), run(7, 7, 7, 7)]);
    assert_eq!(summary.runs, 3);
    assert_eq!(
        summary.get_index,
        RttSummary {
            min: 5,
            max: 10,
            total: 22
        }
    );
    assert_eq!(
        summary.get_count,
        RttSummary {
            min: 7,
            max: 60,
            total: 87
        }
    );
    assert_eq!(
        summary.put_count,
        RttSummary {
            min: 7,
            max: 30,
            total: 67
        }
    );
    assert_eq!(
        summary.post_count,
        RttSummary {
            min: 1,
            max: 40,
            total: 48
        }
    );
    assert_eq!(
        summary.total,
        RttSummary {
            min: 28,
            max: 100,
            total: 224
        }
    );
    for part in [summary.get_index, summary.get_count, summary.total] {
        assert!(part.min * 3 <= part.total && part.total <= part.max * 3);
        assert!(part.max <= summary.total.max);
    }
}

#[test]
fn no_runs_at_all() {
    let summary = summarize(&[]);
    assert_eq!(summary.runs, 0);
    assert_eq!(summary.total, RttSummary::none());
    assert_eq!(
        summary.get_index,
        RttSummary {
            min: u128::MAX,
            max: 0,
            total: 0
        }
    );
}

#[test]
fn order_of_runs_plays_no_part() {
    let one = summarize(&[run(1, 2, 3, 4), run(9, 8, 7, 6), run(5, 5, 5, 5)]);
    let two = summarize(&[run(5, 5, 5, 5), run(1, 2, 3, 4), run(9, 8, 7, 6)]);
    assert_eq!(one.get_index, two.get_index);
    assert_eq!(one.post_count, two.post_count);
    assert_eq!(one.total, two.total);
}
