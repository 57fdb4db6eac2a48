use eng_learner::calendar::date_text;
use eng_learner::calendar::datetime_text;
use eng_learner::calendar::parse_datetime_minutes;
use eng_learner::strength::MemoryDistribution;
use eng_learner::strength::elapsed_minutes;
use eng_learner::strength::half_life_tenths;
use eng_learner::strength::last_activity_minutes;
use eng_learner::strength::memory_distribution;

// 2024-01-01T00:00 UTC, in minutes since the epoch.
const JAN_2024_MIN: u64 = 19_723 * 24 * 60;

#[test]
fn datetime_rendering() {
    assert_eq!(datetime_text(0), "1970-01-01T00:00:00");
    assert_eq!(datetime_text(JAN_2024_MIN + 90), "2024-01-01T01:30:00");
    assert_eq!(date_text(JAN_2024_MIN + 90), "2024-01-01");
}

#[test]
fn datetime_parsing_accepts_both_shapes() {
    assert_eq!(parse_datetime_minutes("2024-01-01 00:00:00"), Some(JAN_2024_MIN));
    assert_eq!(parse_datetime_minutes("2024-01-01T01:30:00"), Some(JAN_2024_MIN + 90));
    assert_eq!(parse_datetime_minutes("not a timestamp"), None);
    assert_eq!(parse_datetime_minutes("2024-13-01 00:00:00"), None);
    // Pre-epoch timestamps count as unparseable.
    assert_eq!(parse_datetime_minutes("1961-04-12 09:07:00"), None);
}

#[test]
fn parse_round_trips_rendering() {
    let m = JAN_2024_MIN + 12_345;
    assert_eq!(parse_datetime_minutes(&datetime_text(m)), Some(m));
}

#[test]
fn last_activity_falls_back_in_order() {
    let now = JAN_2024_MIN + 500;
    // A parseable last review wins.
    assert_eq!(
        last_activity_minutes(Some("2024-01-01 00:00:00"), "2023-01-01 00:00:00", now),
        JAN_2024_MIN
    );
    // A malformed last review falls back to the creation time.
    assert_eq!(
        last_activity_minutes(Some("garbage"), "2024-01-01 01:30:00", now),
        JAN_2024_MIN + 90
    );
    // When neither is readable the clock itself is used, so the record
    // reads as fully fresh.
    assert_eq!(last_activity_minutes(Some("garbage"), "also garbage", now), now);
    assert_eq!(last_activity_minutes(None, "bad", now), now);
}

#[test]
fn elapsed_clamps_clock_skew() {
    assert_eq!(elapsed_minutes(100, 160), 60);
    assert_eq!(elapsed_minutes(160, 100), 0);
    assert_eq!(elapsed_minutes(100, 100), 0);
}

#[test]
fn half_life_follows_the_interval() {
    // A freshly introduced word: fixed 15-minute half-life.
    assert_eq!(half_life_tenths(0, 20), 150);
    // Otherwise 40% of the interval, floored at 10 minutes.
    assert_eq!(half_life_tenths(1, 60), 240);
    assert_eq!(half_life_tenths(0, 21), 100);
    assert_eq!(half_life_tenths(2, 10), 100);
    assert_eq!(half_life_tenths(4, 2 * 24 * 60), 4 * 2 * 24 * 60);
}

#[test]
fn decay_curve_stays_in_unit_interval() {
    // The exponential itself is the caller's floating-point step; fed with
    // the verified elapsed time and half-life it stays within [0, 1],
    // starts at exactly 1 and vanishes for large elapsed times.
    let strength = |elapsed: u64, hl_tenths: u64| -> f64 {
        let s = (-(elapsed as f64) / (hl_tenths as f64 / 10.0)).exp();
        s.clamp(0.0, 1.0)
    };
    let hl = half_life_tenths(0, 20);
    assert_eq!(strength(elapsed_minutes(500, 500), hl), 1.0);
    for e in [1u64, 10, 100, 1_000, 100_000] {
        let s = strength(e, hl);
        assert!((0.0..=1.0).contains(&s));
    }
    assert!(strength(1_000_000, hl) < 1e-9);
}

#[test]
fn memory_distribution_buckets() {
    let strengths: Vec<u32> = vec![750, 700, 500, 400, 250, 100, 0, 1000];
    let d = memory_distribution(&strengths);
    assert_eq!(
        d,
        MemoryDistribution { strong: 3, good: 2, weak: 1, critical: 2, total: 8 }
    );
}

#[test]
fn memory_distribution_of_nothing() {
    let d = memory_distribution(&Vec::new());
    assert_eq!(d.total, 0);
    assert_eq!(d.strong + d.good + d.weak + d.critical, 0);
}
