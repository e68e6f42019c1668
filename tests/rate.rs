use pvfilt::eta::estimate_eta;
use pvfilt::{analyze_rate, rate_changes, RatePoint, Sample};

fn s(t: u64, v: u64) -> Sample {
    Sample { instant: t, time: 0, value: v, max: 100 }
}

#[test]
fn rate_skips_flat_interval() {
    let samples = vec![s(0, 0), s(1_000, 0), s(2_000, 10)];
    let changes = rate_changes(&samples);
    // the 0 -> 0 pair gives nothing; the 0 -> 10 pair gives 10 per (2 - 1) s
    assert_eq!(changes, vec![RatePoint { at: 1_000, delta_value: 10, delta_time: 1_000 }]);
    let series = analyze_rate(&samples);
    assert!(series.iter().all(|p| p.delta_value != 0));
    assert!(series.is_empty());
}

#[test]
fn rate_drops_warm_up_entry() {
    let samples = vec![s(0, 0), s(1_000, 0), s(2_000, 10), s(3_000, 10), s(5_000, 30)];
    assert_eq!(
        analyze_rate(&samples),
        vec![RatePoint { at: 3_000, delta_value: 20, delta_time: 2_000 }]
    );
}

#[test]
fn rate_of_falling_value_is_negative() {
    let samples = vec![s(0, 5), s(1_000, 7), s(2_000, 3)];
    assert_eq!(
        analyze_rate(&samples),
        vec![RatePoint { at: 1_000, delta_value: -4, delta_time: 1_000 }]
    );
}

#[test]
fn rate_of_few_or_identical_samples_is_empty() {
    assert!(analyze_rate(&[]).is_empty());
    assert!(analyze_rate(&[s(0, 1)]).is_empty());
    assert!(rate_changes(&[s(0, 1)]).is_empty());
    let flat = vec![s(0, 4), s(1_000, 4), s(2_000, 4), s(3_000, 4)];
    assert!(rate_changes(&flat).is_empty());
    assert!(analyze_rate(&flat).is_empty());
}

#[test]
fn rate_ignores_pairs_without_elapsed_time() {
    let samples = vec![s(1_000, 1), s(1_000, 2), s(2_000, 4)];
    assert_eq!(
        rate_changes(&samples),
        vec![RatePoint { at: 1_000, delta_value: 2, delta_time: 1_000 }]
    );
}

#[test]
fn eta_from_half_way_in_ten_seconds() {
    assert_eq!(estimate_eta(0, 50, 100, 10_000), Some(10));
}

#[test]
fn eta_unknown_without_speed() {
    assert_eq!(estimate_eta(50, 50, 100, 10_000), None);
    assert_eq!(estimate_eta(60, 50, 100, 10_000), None);
    assert_eq!(estimate_eta(0, 50, 100, 0), None);
}

#[test]
fn eta_unknown_past_target() {
    assert_eq!(estimate_eta(0, 150, 100, 10_000), None);
}

#[test]
fn eta_at_target_is_zero() {
    assert_eq!(estimate_eta(0, 10, 10, 2_000), Some(0));
}

#[test]
fn eta_truncates_to_whole_seconds() {
    // 2 left at 3 per 2 s: 1.33 s
    assert_eq!(estimate_eta(0, 3, 5, 2_000), Some(1));
}

#[test]
fn eta_largest_inputs() {
    let r = estimate_eta(0, 1, u64::MAX, u64::MAX);
    assert_eq!(r, Some((u64::MAX as u128 - 1) * u64::MAX as u128 / 1000));
}
