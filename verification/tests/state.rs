use fleet::health::FUEL_DROP_PCT_BITS;
use fleet::ingest::HistoryQuery;
use fleet::error::AppError;
use fleet::proto::{FleetUpdate, HealthKind, LoadStatus, Payload, Severity, Telemetry, TruckState};
use fleet::state::{message_for, severity_for, AppState, HISTORY_CAPACITY};

fn frame(id: &str, fuel: f32) -> Telemetry {
    Telemetry {
        truck_id: id.into(),
        ts_unix_ms: 0,
        gps: None,
        speed_kmh_bits: 0.0f64.to_bits(),
        rpm: 0,
        load: LoadStatus::Empty as i32,
        fuel_pct_bits: fuel.to_bits(),
        state: TruckState::Idle as i32,
    }
}

/// Records a frame the way the backend does: fuel verdict first, then apply.
fn apply(state: &mut AppState, f: Telemetry) -> Vec<FleetUpdate> {
    let fuel = match state.fuel_extremes_after(&f) {
        Some(e) => f32::from_bits(e.high_bits) - f32::from_bits(e.low_bits) > f32::from_bits(FUEL_DROP_PCT_BITS),
        None => false,
    };
    state.apply_telemetry(f, 0, fuel)
}

#[test]
fn apply_telemetry_replaces_snapshot_and_pushes_history() {
    let mut state = AppState::new();
    for i in 0..3 {
        let mut f = frame("T-01", 0.9 - i as f32 * 0.01);
        f.ts_unix_ms = i;
        apply(&mut state, f);
    }
    assert_eq!(state.fleet_len(), 1);
    let hist = state.history_since("T-01", 0);
    assert_eq!(hist.len(), 3);
}

#[test]
fn history_caps_at_capacity_and_evicts_oldest() {
    let mut state = AppState::new();
    for i in 0..(HISTORY_CAPACITY as i64 + 5) {
        let mut f = frame("T-01", 0.9);
        f.ts_unix_ms = i;
        apply(&mut state, f);
    }
    let hist = state.history_since("T-01", 0);
    assert_eq!(hist.len(), HISTORY_CAPACITY);
    assert_eq!(hist.first().unwrap().ts_unix_ms, 5);
}

fn bus_frame(i: i64) -> Telemetry {
    Telemetry {
        truck_id: format!("T-{:02}", (i % 5) + 1),
        ts_unix_ms: i,
        gps: None,
        speed_kmh_bits: 12.0f64.to_bits(),
        rpm: 1500,
        load: LoadStatus::Empty as i32,
        fuel_pct_bits: 0.7f32.to_bits(),
        state: TruckState::Hauling as i32,
    }
}

#[test]
fn history_ring_buffer_evicts_oldest() {
    let mut state = AppState::new();
    let n = HISTORY_CAPACITY + 5;
    for i in 0..n {
        let mut f = bus_frame(i as i64);
        f.truck_id = "T-01".into();
        apply(&mut state, f);
    }
    let hist = state.history_since("T-01", 0);
    assert_eq!(hist.len(), HISTORY_CAPACITY);
    assert_eq!(hist.first().unwrap().ts_unix_ms, 5);
    assert_eq!(hist.last().unwrap().ts_unix_ms, n as i64 - 1);
}

// ---------------------------------------------------------------------------

#[test]
fn snapshot_is_replaced_and_listing_is_sorted() {
    let mut state = AppState::new();
    for id in ["T-03", "T-01", "T-02", "T-01"] {
        let mut f = frame(id, 0.5);
        f.rpm = if id == "T-01" { state.fleet_len() as u32 } else { 7 };
        apply(&mut state, f);
    }
    let snaps = state.snapshots();
    let ids: Vec<&str> = snaps.iter().map(|s| s.telemetry.truck_id.as_str()).collect();
    assert_eq!(ids, vec!["T-01", "T-02", "T-03"]);
    assert_eq!(snaps[0].telemetry.rpm, 3);
    assert_eq!(state.history_since("T-01", 0).len(), 2);
    assert_eq!(state.history_since("T-02", 0).len(), 1);
}

#[test]
fn history_since_filters_by_timestamp() {
    let mut state = AppState::new();
    for ts in [10, 20, 30, 40] {
        let mut f = frame("T-09", 0.5);
        f.ts_unix_ms = ts;
        apply(&mut state, f);
    }
    let rows: Vec<i64> = state.history_since("T-09", 25).iter().map(|t| t.ts_unix_ms).collect();
    assert_eq!(rows, vec![30, 40]);
    assert!(state.history_since("nope", 0).is_empty());
}

#[test]
fn history_endpoint_unknown_truck_is_not_found() {
    let mut state = AppState::new();
    apply(&mut state, frame("T-01", 0.5));
    assert!(matches!(state.history("T-02", HistoryQuery { since_ms: 0 }), Err(AppError::NotFound)));
    assert_eq!(state.history("T-01", HistoryQuery { since_ms: 1 }).unwrap().len(), 0);
    assert_eq!(state.history("T-01", HistoryQuery { since_ms: 0 }).unwrap().len(), 1);
}

#[test]
fn updates_announce_only_transitions() {
    let mut state = AppState::new();
    let mut f = frame("T-01", 0.5);
    f.state = TruckState::Returning as i32;
    f.load = LoadStatus::Loaded as i32;
    f.ts_unix_ms = 1_000;
    let ups = apply(&mut state, f.clone());
    // telemetry first, then GPS stale (no fix) and load mismatch, in wire order
    assert_eq!(ups.len(), 3);
    assert!(matches!(&ups[0].payload, Some(Payload::Telemetry(t)) if t.ts_unix_ms == 1_000));
    match &ups[1].payload {
        Some(Payload::Health(e)) => {
            assert_eq!(e.kind, HealthKind::GpsStale as i32);
            assert_eq!(e.severity, Severity::Info as i32);
            assert_eq!(e.message, "GPS fix is stale");
            assert_eq!(e.truck_id, "T-01");
            assert_eq!(e.ts_unix_ms, 1_000);
        }
        _ => panic!("expected a health event"),
    }
    match &ups[2].payload {
        Some(Payload::Health(e)) => {
            assert_eq!(e.kind, HealthKind::LoadMismatch as i32);
            assert_eq!(e.severity, Severity::Warn as i32);
        }
        _ => panic!("expected a health event"),
    }
    // the same conditions stay active: nothing new is announced
    f.ts_unix_ms = 1_500;
    let ups = apply(&mut state, f);
    assert_eq!(ups.len(), 1);
}

#[test]
fn severity_and_messages() {
    assert_eq!(severity_for(HealthKind::OverRev), Severity::Fault);
    assert_eq!(severity_for(HealthKind::FuelAnomaly), Severity::Fault);
    assert_eq!(severity_for(HealthKind::Stuck), Severity::Warn);
    assert_eq!(severity_for(HealthKind::GpsStale), Severity::Info);
    assert_eq!(severity_for(HealthKind::Unspecified), Severity::Unspecified);
    assert_eq!(message_for(HealthKind::Stuck), "No telemetry — truck may be stuck");
    assert_eq!(message_for(HealthKind::Unspecified), "");
}

#[test]
fn snapshot_age_saturates() {
    let mut state = AppState::new();
    let f = frame("T-01", 0.5);
    state.apply_telemetry(f, 1_000, false);
    let snaps = state.snapshots();
    assert_eq!(snaps[0].received_at_ms, 1_000);
    assert_eq!(snaps[0].age_ms(1_250), 250);
    assert_eq!(snaps[0].age_ms(10), 0);
}

#[test]
fn history_endpoint_orders_by_timestamp() {
    let mut state = AppState::new();
    for ts in [5, 3, 9, 3] {
        let mut f = frame("T-01", 0.5);
        f.ts_unix_ms = ts;
        f.state = TruckState::Hauling as i32;
        f.rpm = ts as u32 * 10 + state.history_since("T-01", i64::MIN).len() as u32;
        apply(&mut state, f);
    }
    let rows = state.history("T-01", HistoryQuery { since_ms: 0 }).unwrap();
    let ts: Vec<i64> = rows.iter().map(|t| t.ts_unix_ms).collect();
    assert_eq!(ts, vec![3, 3, 5, 9]);
    // equal timestamps keep their order of arrival
    assert_eq!(rows[0].rpm, 31);
    assert_eq!(rows[1].rpm, 33);
    let rows = state.history("T-01", HistoryQuery { since_ms: 4 }).unwrap();
    let ts: Vec<i64> = rows.iter().map(|t| t.ts_unix_ms).collect();
    assert_eq!(ts, vec![5, 9]);
    // the raw buffer keeps arrival order
    let raw: Vec<i64> = state.history_since("T-01", 0).iter().map(|t| t.ts_unix_ms).collect();
    assert_eq!(raw, vec![5, 3, 9, 3]);
}
