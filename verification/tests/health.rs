use fleet::health::{
    classify, fuel_window_extremes, AlertSet, FUEL_DROP_PCT_BITS, UNSAFE_SPEED_KMH_BITS,
};
use fleet::proto::{GpsFix, HealthKind, LoadStatus, Telemetry, TruckState};

const FUEL_DROP_PCT: f32 = 0.05;

fn t(ts: i64) -> Telemetry {
    Telemetry {
        truck_id: "T-1".into(),
        ts_unix_ms: ts,
        gps: Some(GpsFix {
            lat_bits: 0.0f64.to_bits(),
            lon_bits: 0.0f64.to_bits(),
            alt_m_bits: 0.0f64.to_bits(),
            hdop_bits: 1.0f64.to_bits(),
        }),
        speed_kmh_bits: 10.0f64.to_bits(),
        rpm: 1500,
        load: LoadStatus::Empty as i32,
        fuel_pct_bits: 0.8f32.to_bits(),
        state: TruckState::Idle as i32,
    }
}

/// The fuel verdict in `f32` arithmetic, as the backend computes it.
fn fuel_spread(s: &[Telemetry]) -> bool {
    match fuel_window_extremes(s) {
        Some(e) => f32::from_bits(e.high_bits) - f32::from_bits(e.low_bits) > FUEL_DROP_PCT,
        None => false,
    }
}

fn run(s: &[Telemetry], now: i64) -> AlertSet {
    classify(s, now, fuel_spread(s))
}

#[test]
fn over_rev_fires_after_5s_sustained() {
    let mut s: Vec<_> = (0..=6)
        .map(|i| {
            let mut x = t(i * 1000);
            x.rpm = 2300;
            x
        })
        .collect();
    s.insert(0, t(-1000));
    assert!(run(&s, 7000).contains(&HealthKind::OverRev));
}

#[test]
fn over_rev_does_not_fire_for_single_spike() {
    let mut s = vec![t(0), t(1000), t(2000), t(3000), t(4000)];
    s[2].rpm = 2400;
    assert!(!run(&s, 5000).contains(&HealthKind::OverRev));
}

#[test]
fn over_rev_does_not_fire_for_short_burst() {
    let mut s = vec![t(0), t(1000), t(2000), t(3000), t(4000)];
    for i in 1..=3 {
        s[i].rpm = 2400;
    }
    assert!(!run(&s, 5000).contains(&HealthKind::OverRev));
}

#[test]
fn unsafe_speed_under_load_fires() {
    let s: Vec<_> = (0..=4)
        .map(|i| {
            let mut x = t(i * 1000);
            x.speed_kmh_bits = 50.0f64.to_bits();
            x.load = LoadStatus::Loaded as i32;
            x.state = TruckState::Hauling as i32;
            x
        })
        .collect();
    assert!(run(&s, 5000).contains(&HealthKind::UnsafeSpeedUnderLoad));
}

#[test]
fn unsafe_speed_does_not_fire_when_empty() {
    let s: Vec<_> = (0..=4)
        .map(|i| {
            let mut x = t(i * 1000);
            x.speed_kmh_bits = 50.0f64.to_bits();
            x.load = LoadStatus::Empty as i32;
            x.state = TruckState::Returning as i32;
            x
        })
        .collect();
    assert!(!run(&s, 5000).contains(&HealthKind::UnsafeSpeedUnderLoad));
}

#[test]
fn fuel_anomaly_fires_on_5pct_drop_in_60s() {
    let mut s = vec![t(0), t(30_000), t(60_000)];
    s[0].fuel_pct_bits = 0.80f32.to_bits();
    s[1].fuel_pct_bits = 0.79f32.to_bits();
    s[2].fuel_pct_bits = 0.74f32.to_bits();
    assert!(run(&s, 60_000).contains(&HealthKind::FuelAnomaly));
}

#[test]
fn fuel_anomaly_does_not_fire_on_normal_drain() {
    let mut s = vec![t(0), t(30_000), t(60_000)];
    s[0].fuel_pct_bits = 0.80f32.to_bits();
    s[1].fuel_pct_bits = 0.79f32.to_bits();
    s[2].fuel_pct_bits = 0.78f32.to_bits();
    assert!(!run(&s, 60_000).contains(&HealthKind::FuelAnomaly));
}

#[test]
fn gps_stale_fires_when_last_fix_is_old() {
    let mut s = vec![t(0)];
    s[0].gps = None;
    assert!(run(&s, 15_000).contains(&HealthKind::GpsStale));
}

#[test]
fn gps_stale_does_not_fire_for_fresh_fix() {
    let s = vec![t(14_000)];
    assert!(!run(&s, 15_000).contains(&HealthKind::GpsStale));
}

#[test]
fn load_mismatch_fires_on_returning_loaded() {
    let mut s = vec![t(0)];
    s[0].state = TruckState::Returning as i32;
    s[0].load = LoadStatus::Loaded as i32;
    assert!(run(&s, 0).contains(&HealthKind::LoadMismatch));
}

#[test]
fn empty_window_yields_no_alerts() {
    assert!(run(&[], 0).is_empty());
}

// ---------------------------------------------------------------------------

#[test]
fn thresholds_match_their_float_values() {
    assert_eq!(f64::from_bits(UNSAFE_SPEED_KMH_BITS), 40.0);
    assert_eq!(f32::from_bits(FUEL_DROP_PCT_BITS), FUEL_DROP_PCT);
}

#[test]
fn over_rev_fires_exactly_at_five_seconds() {
    let s: Vec<_> = (0..=5)
        .map(|i| {
            let mut x = t(i * 1000);
            x.rpm = 2201;
            x
        })
        .collect();
    assert!(run(&s, 5000).contains(&HealthKind::OverRev));
    let s4: Vec<_> = s[..5].to_vec();
    assert!(!run(&s4, 5000).contains(&HealthKind::OverRev));
}

#[test]
fn over_rev_at_threshold_rpm_does_not_count() {
    let s: Vec<_> = (0..=8)
        .map(|i| {
            let mut x = t(i * 1000);
            x.rpm = 2200;
            x
        })
        .collect();
    assert!(!run(&s, 8000).contains(&HealthKind::OverRev));
}

#[test]
fn over_rev_run_restarts_after_a_break() {
    let mut s: Vec<_> = (0..=8)
        .map(|i| {
            let mut x = t(i * 1000);
            x.rpm = 2300;
            x
        })
        .collect();
    s[4].rpm = 1000;
    assert!(!run(&s, 8000).contains(&HealthKind::OverRev));
}

#[test]
fn unsafe_speed_exactly_forty_does_not_count() {
    let s: Vec<_> = (0..=4)
        .map(|i| {
            let mut x = t(i * 1000);
            x.speed_kmh_bits = 40.0f64.to_bits();
            x.load = LoadStatus::Loaded as i32;
            x
        })
        .collect();
    assert!(!run(&s, 5000).contains(&HealthKind::UnsafeSpeedUnderLoad));
}

#[test]
fn unsafe_speed_nan_does_not_count() {
    let s: Vec<_> = (0..=4)
        .map(|i| {
            let mut x = t(i * 1000);
            x.speed_kmh_bits = f64::NAN.to_bits();
            x.load = LoadStatus::Loaded as i32;
            x
        })
        .collect();
    assert!(!run(&s, 5000).contains(&HealthKind::UnsafeSpeedUnderLoad));
}

#[test]
fn excessive_idle_counts_from_last_non_idle_sample() {
    let mut s = vec![t(0), t(1000), t(2000)];
    s[1].state = TruckState::Hauling as i32;
    assert!(run(&s, 1000 + 600_001).contains(&HealthKind::ExcessiveIdle));
    assert!(!run(&s, 1000 + 600_000).contains(&HealthKind::ExcessiveIdle));
}

#[test]
fn excessive_idle_counts_from_first_sample_when_always_idle() {
    let s = vec![t(5), t(1000)];
    assert!(run(&s, 600_006).contains(&HealthKind::ExcessiveIdle));
    assert!(!run(&s, 600_005).contains(&HealthKind::ExcessiveIdle));
}

#[test]
fn excessive_idle_needs_an_idle_sample() {
    let mut s = vec![t(0)];
    s[0].state = TruckState::Hauling as i32;
    assert!(!run(&s, 10_000_000).contains(&HealthKind::ExcessiveIdle));
}

#[test]
fn excessive_idle_not_raised_once_the_truck_moves_again() {
    let mut s = vec![t(0), t(1000)];
    s[1].state = TruckState::Hauling as i32;
    assert!(!run(&s, 700_000).contains(&HealthKind::ExcessiveIdle));
}

#[test]
fn gps_fix_exactly_ten_seconds_old_is_not_stale() {
    let s = vec![t(5_000)];
    assert!(!run(&s, 15_000).contains(&HealthKind::GpsStale));
    assert!(run(&s, 15_001).contains(&HealthKind::GpsStale));
}

#[test]
fn stuck_after_more_than_two_minutes_of_silence() {
    let s = vec![t(1000)];
    assert!(run(&s, 121_001).contains(&HealthKind::Stuck));
    assert!(!run(&s, 121_000).contains(&HealthKind::Stuck));
}

#[test]
fn load_mismatch_only_looks_at_latest_three() {
    let mut s = vec![t(0), t(1), t(2), t(3)];
    s[0].state = TruckState::Hauling as i32;
    s[0].load = LoadStatus::Empty as i32;
    assert!(!run(&s, 3).contains(&HealthKind::LoadMismatch));
    s[1].state = TruckState::Hauling as i32;
    s[1].load = LoadStatus::Empty as i32;
    assert!(run(&s, 3).contains(&HealthKind::LoadMismatch));
}

#[test]
fn fuel_window_extremes_exact_values() {
    let mut s = vec![t(0), t(30_000), t(60_000), t(130_000)];
    s[0].fuel_pct_bits = 0.10f32.to_bits();
    s[1].fuel_pct_bits = 0.80f32.to_bits();
    s[2].fuel_pct_bits = 0.70f32.to_bits();
    s[3].fuel_pct_bits = 0.75f32.to_bits();
    // window: samples at or after 70_000 -> only the last one
    assert!(fuel_window_extremes(&s).is_none());
    s[3].ts_unix_ms = 90_000;
    let e = fuel_window_extremes(&s).unwrap();
    assert_eq!(f32::from_bits(e.high_bits), 0.80);
    assert_eq!(f32::from_bits(e.low_bits), 0.70);
}

#[test]
fn fuel_window_ignores_nan_readings() {
    let mut s = vec![t(0), t(1), t(2)];
    s[0].fuel_pct_bits = f32::NAN.to_bits();
    s[1].fuel_pct_bits = 0.5f32.to_bits();
    s[2].fuel_pct_bits = 0.3f32.to_bits();
    let e = fuel_window_extremes(&s).unwrap();
    assert_eq!(f32::from_bits(e.high_bits), 0.5);
    assert_eq!(f32::from_bits(e.low_bits), 0.3);
    // all NaN: the folds stay at f32::MIN and f32::MAX
    s[1].fuel_pct_bits = f32::NAN.to_bits();
    s[2].fuel_pct_bits = f32::NAN.to_bits();
    let e = fuel_window_extremes(&s).unwrap();
    assert_eq!(f32::from_bits(e.high_bits), f32::MIN);
    assert_eq!(f32::from_bits(e.low_bits), f32::MAX);
    assert!(!run(&s, 2).contains(&HealthKind::FuelAnomaly));
}

#[test]
fn single_sample_never_fuel_anomaly() {
    let s = vec![t(0)];
    assert!(fuel_window_extremes(&s).is_none());
    assert!(!classify(&s, 0, true).contains(&HealthKind::FuelAnomaly));
}

#[test]
fn isolated_spikes_never_over_rev() {
    let s: Vec<_> = (0..20)
        .map(|i| {
            let mut x = t(i * 1000);
            if i % 2 == 0 {
                x.rpm = 3000;
            }
            x
        })
        .collect();
    assert!(!run(&s, 20_000).contains(&HealthKind::OverRev));
}

#[test]
fn alert_set_operations() {
    let mut a = AlertSet::new();
    assert!(a.is_empty());
    a.insert(HealthKind::Stuck);
    a.insert(HealthKind::OverRev);
    let mut b = AlertSet::new();
    b.insert(HealthKind::Stuck);
    assert!(a.contains(&HealthKind::Stuck) && !a.contains(&HealthKind::GpsStale));
    assert_eq!(a.difference(&b), vec![HealthKind::OverRev]);
    assert_eq!(a.difference(&AlertSet::new()), vec![HealthKind::OverRev, HealthKind::Stuck]);
    assert!(b.difference(&a).is_empty());
}
