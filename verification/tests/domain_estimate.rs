use rigbat::domain::double::lasting;
use rigbat::domain::estimate::{estimate, format_coarse, round_coarse, Estimate};
use rigbat::domain::time::{BootTime, Duration};
use rigbat::domain::types::{BatteryReading, ChargeState};
use rigbat::i18n::Lang;

fn hours(n: u64) -> Duration {
    Duration::from_secs(n * 3600)
}

fn at(mins: u64) -> BootTime {
    BootTime::from_boot(Duration::from_secs(7 * 24 * 60 * 60)) + Duration::from_secs(mins * 60)
}

fn cur(percent: u8) -> BatteryReading {
    BatteryReading::new(percent, ChargeState::Discharging)
}

/// 1% every 6 minutes, 60% down to 54%.
fn steady() -> Vec<(BootTime, u8)> {
    (0..=6).map(|i| (at(i * 6), 60 - i as u8)).collect()
}

#[test]
fn empty_history_is_unknown() {
    assert_eq!(estimate(&[], cur(50)), Estimate::Unknown);
}

#[test]
fn single_transition_is_unknown() {
    let history = [(at(0), 80), (at(10), 79)];
    assert_eq!(estimate(&history, cur(79)), Estimate::Unknown);
}

#[test]
fn bucketed_device_is_unknown_not_confidently_wrong() {
    let history = [(at(0), 100), (at(20), 70), (at(40), 40)];
    assert_eq!(estimate(&history, cur(40)), Estimate::Unknown);
}

#[test]
fn mixed_direction_is_unknown() {
    let history = [(at(0), 50), (at(40), 40), (at(80), 45)];
    assert_eq!(estimate(&history, cur(45)), Estimate::Unknown);
}

#[test]
fn steady_discharge_yields_remaining_time() {
    // 54% at 1% per 6 minutes: 5.4h.
    assert_eq!(estimate(&steady(), cur(54)), Estimate::Remaining(hours(5)));
}

#[test]
fn charging_or_full_device_holding_its_percent_has_no_remaining_time() {
    for state in [ChargeState::Charging, ChargeState::Full] {
        let current = BatteryReading::new(54, state);
        assert_eq!(estimate(&steady(), current), Estimate::Unknown, "{state:?}");
    }
}

#[test]
fn rate_is_measured_from_the_first_edge_not_the_first_observation() {
    // 60% first seen a minute before it dropped; after that, 1% per hour.
    let history = [(at(0), 60), (at(1), 59), (at(61), 58), (at(121), 57)];
    assert_eq!(estimate(&history, cur(57)), Estimate::Remaining(hours(57)));
}

#[test]
fn the_first_observation_counts_for_nothing() {
    for first in [(at(0), 54), (at(0), 100), (at(0), 0), (at(59), 60)] {
        let history = [first, (at(61), 59), (at(121), 58), (at(181), 57)];
        assert_eq!(
            estimate(&history, cur(57)),
            Estimate::Remaining(hours(57)),
            "{first:?}"
        );
    }
}

#[test]
fn outlier_step_restarts_the_window_instead_of_disabling_the_estimate() {
    // 1% per hour, a 10% jump, then 1% per hour again.
    let history = [
        (at(0), 80),
        (at(60), 79),
        (at(120), 78),
        (at(180), 68),
        (at(240), 67),
        (at(300), 66),
    ];
    assert_eq!(estimate(&history, cur(66)), Estimate::Remaining(hours(66)));
}

#[test]
fn outlier_step_as_the_latest_edge_leaves_no_window() {
    let history = [(at(0), 80), (at(60), 79), (at(120), 78), (at(180), 68)];
    assert_eq!(estimate(&history, cur(68)), Estimate::Unknown);
}

#[test]
fn host_suspend_between_edges_counts_as_elapsed_time() {
    // 1h awake, 8h suspended, 1h awake: the boot clock says 10h per 1%.
    let history = [
        (at(0), 51),
        (at(60), 50),
        (at(60 + 10 * 60), 49),
        (at(60 + 20 * 60), 48),
    ];
    assert_eq!(estimate(&history, cur(48)), Estimate::Remaining(hours(480)));
}

#[test]
fn coarse_reading_is_unknown_even_on_a_steady_history() {
    let coarse = BatteryReading::new_coarse(54, ChargeState::Discharging);
    assert_eq!(estimate(&steady(), coarse), Estimate::Unknown);
}

#[test]
fn short_window_is_unknown_even_with_two_transitions() {
    let history = [(at(0), 60), (at(5), 59), (at(10), 58), (at(15), 57)];
    assert_eq!(estimate(&history, cur(57)), Estimate::Unknown);
}

#[test]
fn round_coarse_boundaries() {
    assert_eq!(format_coarse(Duration::from_secs(59 * 60), Lang::En), "~1h");
    assert_eq!(format_coarse(Duration::from_secs(61 * 60), Lang::En), "~1h");
    assert_eq!(format_coarse(hours(25), Lang::En), "~25h");
}

#[test]
fn round_coarse_under_an_hour_rounds_to_nearest_quarter() {
    assert_eq!(format_coarse(Duration::from_secs(5 * 60), Lang::En), "~15m");
    assert_eq!(
        format_coarse(Duration::from_secs(44 * 60), Lang::En),
        "~45m"
    );
}

#[test]
fn coarse_rounding_values() {
    for (mins, rounded) in [(0, 15), (5, 15), (44, 45), (59, 60), (89, 60), (91, 120)] {
        assert_eq!(
            round_coarse(Duration::from_secs(mins * 60)),
            Duration::from_secs(rounded * 60),
            "{mins}"
        );
    }
}

#[test]
fn format_coarse_in_russian() {
    let ru = |d| format_coarse(d, Lang::Ru);
    assert_eq!(ru(Duration::from_secs(44 * 60)), "~45 мин");
    assert_eq!(ru(hours(25)), "~25 ч");
}

#[test]
fn format_coarse_caps_at_four_days_in_both_languages() {
    assert_eq!(format_coarse(hours(96), Lang::En), "~96h");
    assert_eq!(format_coarse(hours(97), Lang::En), ">4d");
    assert_eq!(format_coarse(hours(300), Lang::En), ">4d");
    assert_eq!(format_coarse(hours(300), Lang::Ru), ">4 д");
}

/// The nanoseconds double-precision arithmetic gives.
fn in_doubles(percent: u8, span: u64, drop: u8) -> u128 {
    let span = std::time::Duration::from_nanos(span);
    let rate_per_sec = f64::from(drop) / span.as_secs_f64();
    std::time::Duration::from_secs_f64(f64::from(percent) / rate_per_sec).as_nanos()
}

#[test]
fn time_left_is_that_of_double_precision() {
    const SECOND: u64 = 1_000_000_000;
    let mut spans = vec![
        1800 * SECOND,
        1800 * SECOND + 1,
        2048 * SECOND - 1,
        2048 * SECOND,
        2047 * SECOND + SECOND / 2,
        86_400 * SECOND + 999_999_999,
        4_147_200 * SECOND,
        (1 << 33) * SECOND - 1,
        (1 << 33) * SECOND,
        i64::MAX as u64 - 1,
        i64::MAX as u64,
    ];
    let mut state: u64 = 0x9e37_79b9_7f4a_7c15;
    for bits in (41..=63).cycle().take(4_000) {
        state = state.wrapping_mul(6_364_136_223_846_793_005).wrapping_add(1);
        let span = (state >> (64 - bits)).clamp(1800 * SECOND, i64::MAX as u64);
        spans.push(span);
        spans.push((span / SECOND) * SECOND);
        spans.push((span / SECOND) * SECOND + 1 + state % 7);
        spans.push((span / SECOND) * SECOND + (state % 1000) * 1_000_000);
    }
    for (i, &span) in spans.iter().enumerate() {
        for drop in [1, 2, 3, 1 + (i % 99) as u8, 100, 255] {
            for percent in [0, 1, 7, (i % 101) as u8, 100, 255] {
                assert_eq!(
                    lasting(percent, u128::from(span), drop),
                    in_doubles(percent, span, drop),
                    "{percent} {span} {drop}"
                );
            }
        }
    }
}

/// Whole minutes and hours, where a nanosecond more or less shows.
#[test]
fn estimates_on_a_boundary_are_those_of_double_precision() {
    for minutes in (30..20_000u64).step_by(7) {
        for extra in [0, 1, 60_000_000_000 - 1] {
            let span = minutes * 60_000_000_000 + extra;
            for (drop, percent) in [(3, 45), (7, 90), (10, 75), (49, 50), (3, 100), (1, 99)] {
                let start = BootTime::from_boot(Duration::from_secs(1_000_000));
                let mut history: Vec<(BootTime, u8)> = vec![(start, 200)];
                for step in 0..=drop {
                    let at = start + Duration::from_nanos(span / u64::from(drop) * u64::from(step));
                    history.push((at, 150 - step));
                }
                let last = history.len() - 1;
                history[last].0 = start + Duration::from_nanos(span);
                let nanos = in_doubles(percent, span, drop);
                let whole = Duration::from_secs((nanos / 1_000_000_000) as u64);
                assert_eq!(
                    estimate(&history, cur(percent)),
                    Estimate::Remaining(round_coarse(whole)),
                    "{percent} {span} {drop}"
                );
            }
        }
    }
}
