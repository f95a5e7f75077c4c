use playback::clock::Clock;
use playback::clock::pts_to_ns;

#[test]
fn pts_conversion_rounds_toward_zero_at_one_third() {
    // 1 unit at time base 1/3 is 333_333_333.33.. ns; rounding is toward zero.
    assert_eq!(pts_to_ns(1, 1, 3), 333_333_333);
}

#[test]
fn pts_conversion_negative_timestamp_rounds_toward_zero() {
    assert_eq!(pts_to_ns(-1, 1, 3), -333_333_333);
}

#[test]
fn pts_conversion_zero_timestamp() {
    assert_eq!(pts_to_ns(0, 17, 23), 0);
}

#[test]
fn pts_conversion_millisecond_time_base_is_exact() {
    assert_eq!(pts_to_ns(33, 1, 1000), 33_000_000);
    assert_eq!(pts_to_ns(66, 1, 1000), 66_000_000);
}

#[test]
fn pts_conversion_common_video_time_base() {
    // 90 kHz clock: one unit is 11111.11.. ns, truncated.
    assert_eq!(pts_to_ns(1, 1, 90000), 11_111);
    // A full second of 90 kHz units is exact.
    assert_eq!(pts_to_ns(90000, 1, 90000), 1_000_000_000);
}

#[test]
fn pts_conversion_extreme_values_do_not_overflow() {
    // i64::MAX units, numerator i32::MAX, denominator 1.
    assert_eq!(
        pts_to_ns(i64::MAX, i32::MAX, 1),
        9_223_372_036_854_775_807i128 * 2_147_483_647i128 * 1_000_000_000i128
    );
    assert_eq!(
        pts_to_ns(i64::MIN, i32::MAX, i32::MAX),
        -9_223_372_036_854_775_808i128 * 1_000_000_000i128
    );
}

#[test]
fn pace_first_frame_never_sleeps() {
    let mut c = Clock::new();
    assert_eq!(c.pace(1_000_000, 500), 0);
    assert_eq!(c.prev, Some(1_000_000));
}

#[test]
fn pace_sleeps_for_gap_minus_elapsed() {
    let mut c = Clock::new();
    c.pace(0, 0);
    assert_eq!(c.pace(33_000_000, 3_000_000), 30_000_000);
}

#[test]
fn pace_no_sleep_when_elapsed_covers_gap() {
    let mut c = Clock::new();
    c.pace(0, 0);
    assert_eq!(c.pace(33_000_000, 40_000_000), 0);
    // The state is still re-based on the new time.
    assert_eq!(c.prev, Some(33_000_000));
}

#[test]
fn pace_backwards_timestamp_never_sleeps_and_still_rebases() {
    let mut c = Clock::new();
    c.pace(66_000_000, 0);
    assert_eq!(c.pace(33_000_000, 0), 0);
    assert_eq!(c.prev, Some(33_000_000));
    assert_eq!(c.pace(33_000_000, 0), 0);
    assert_eq!(c.prev, Some(33_000_000));
}

#[test]
fn pace_evenly_spaced_times_accumulate_no_drift() {
    // Zero wall-clock time outside the waits: each wait is one full gap,
    // and the waits sum to the whole span.
    let mut c = Clock::new();
    let times: [i128; 4] = [0, 33_000_000, 66_000_000, 99_000_000];
    let mut total: u128 = 0;
    for t in times {
        total += c.pace(t, 0);
    }
    assert_eq!(total, 99_000_000);
}
