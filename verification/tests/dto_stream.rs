use fleet::dto::{kind_label, load_label, severity_label, state_label, HealthEventDto};
use fleet::proto::{
    FleetSnapshot, FleetUpdate, HealthEvent, HealthKind, LoadStatus, Payload, Severity, Telemetry,
    TruckState,
};
use fleet::state::AppState;
use fleet::stream::{initial_event, live_event, StreamEvent};

fn frame(id: &str) -> Telemetry {
    Telemetry {
        truck_id: id.into(),
        ts_unix_ms: 1,
        gps: None,
        speed_kmh_bits: 12.0f64.to_bits(),
        rpm: 1500,
        load: LoadStatus::Empty as i32,
        fuel_pct_bits: 0.7f32.to_bits(),
        state: TruckState::Hauling as i32,
    }
}

#[test]
fn labels_of_known_and_unknown_codes() {
    assert_eq!(load_label(LoadStatus::Empty as i32), "EMPTY");
    assert_eq!(load_label(LoadStatus::Loaded as i32), "LOADED");
    assert_eq!(load_label(0), "UNKNOWN");
    assert_eq!(load_label(99), "UNKNOWN");
    assert_eq!(state_label(TruckState::Hauling as i32), "HAULING");
    assert_eq!(state_label(TruckState::LoadingQueue as i32), "LOADING_QUEUE");
    assert_eq!(state_label(TruckState::AtCrusher as i32), "AT_CRUSHER");
    assert_eq!(state_label(-3), "UNKNOWN");
    assert_eq!(kind_label(HealthKind::UnsafeSpeedUnderLoad as i32), "UNSAFE_SPEED_UNDER_LOAD");
    assert_eq!(kind_label(HealthKind::GpsStale as i32), "GPS_STALE");
    assert_eq!(kind_label(0), "UNKNOWN");
    assert_eq!(severity_label(Severity::Fault as i32), "FAULT");
    assert_eq!(severity_label(Severity::Info as i32), "INFO");
    assert_eq!(severity_label(8), "UNKNOWN");
}

#[test]
fn wire_codes_round_trip() {
    for v in -2..10 {
        if let Some(s) = TruckState::from_i32(v) {
            assert_eq!(s.as_i32(), v);
            assert_eq!(s as i32, v);
        }
        if let Some(k) = HealthKind::from_i32(v) {
            assert_eq!(k.as_i32(), v);
        }
    }
    assert_eq!(TruckState::from_i32(7), Some(TruckState::Returning));
    assert_eq!(TruckState::from_i32(8), None);
}

#[test]
fn health_event_dto_from_event() {
    let e = HealthEvent {
        truck_id: "T-02".into(),
        ts_unix_ms: 42,
        kind: HealthKind::OverRev as i32,
        severity: Severity::Fault as i32,
        message: "Sustained engine over-rev".into(),
    };
    let d = HealthEventDto::from_event(&e);
    assert_eq!(d.truck_id, "T-02");
    assert_eq!(d.ts_unix_ms, 42);
    assert_eq!(d.kind, "OVER_REV");
    assert_eq!(d.severity, "FAULT");
    assert_eq!(d.message, "Sustained engine over-rev");
}

#[test]
fn live_events_forward_skip_and_resync() {
    let ev = live_event(Ok(FleetUpdate { payload: Some(Payload::Telemetry(frame("T-01"))) }));
    assert!(matches!(ev, Some(StreamEvent::Telemetry(t)) if t.truck_id == "T-01"));
    let h = HealthEvent {
        truck_id: "T-01".into(),
        ts_unix_ms: 3,
        kind: HealthKind::Stuck as i32,
        severity: Severity::Warn as i32,
        message: "m".into(),
    };
    let ev = live_event(Ok(FleetUpdate { payload: Some(Payload::Health(h)) }));
    assert!(matches!(ev, Some(StreamEvent::Health(d)) if d.kind == "STUCK" && d.severity == "WARN"));
    let snap = FleetSnapshot { trucks: vec![frame("T-01")] };
    assert!(live_event(Ok(FleetUpdate { payload: Some(Payload::Snapshot(snap)) })).is_none());
    assert!(live_event(Ok(FleetUpdate { payload: None })).is_none());
    assert!(matches!(live_event(Err(17)), Some(StreamEvent::Resync)));
}

#[test]
fn initial_event_lists_fleet_in_id_order() {
    let mut state = AppState::new();
    state.apply_telemetry(frame("T-05"), 0, false);
    state.apply_telemetry(frame("T-02"), 0, false);
    match initial_event(&state) {
        StreamEvent::Snapshot(rows) => {
            let ids: Vec<&str> = rows.iter().map(|r| r.telemetry.truck_id.as_str()).collect();
            assert_eq!(ids, vec!["T-02", "T-05"]);
        }
        _ => panic!("expected a snapshot"),
    }
}
