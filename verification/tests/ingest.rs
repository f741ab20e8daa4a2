use fleet::error::AppError;
use fleet::ingest::{accept_frame, check_frame_size, MAX_FRAME_BYTES};
use fleet::proto::{LoadStatus, Telemetry, TruckState};

fn good_frame() -> Telemetry {
    Telemetry {
        truck_id: "T-01".into(),
        ts_unix_ms: 1,
        gps: None,
        speed_kmh_bits: 10.0f64.to_bits(),
        rpm: 1500,
        load: LoadStatus::Empty as i32,
        fuel_pct_bits: 0.8f32.to_bits(),
        state: TruckState::Idle as i32,
    }
}

#[test]
fn oversized_body_returns_bad_request() {
    let res = check_frame_size(MAX_FRAME_BYTES + 1);
    match res {
        Err(AppError::BadRequest(m)) => assert_eq!(m, "frame too large: 65537 bytes (max 65536)"),
        _ => panic!("expected bad request"),
    }
    assert!(check_frame_size(MAX_FRAME_BYTES).is_ok());
    assert!(check_frame_size(0).is_ok());
}

#[test]
fn missing_truck_id_returns_bad_request() {
    let mut t = good_frame();
    t.truck_id = String::new();
    match accept_frame(Ok(t)) {
        Err(AppError::BadRequest(m)) => assert_eq!(m, "missing truck_id"),
        _ => panic!("expected bad request"),
    }
}

#[test]
fn missing_state_returns_bad_request() {
    let mut t = good_frame();
    t.state = TruckState::Unspecified as i32;
    match accept_frame(Ok(t)) {
        Err(AppError::BadRequest(m)) => assert_eq!(m, "missing state"),
        _ => panic!("expected bad request"),
    }
}

#[test]
fn decode_failure_returns_bad_request() {
    match accept_frame(Err("buffer underflow".to_string())) {
        Err(e) => {
            assert_eq!(e.status_code(), 400);
            assert_eq!(e.response_body(), "decode failed: buffer underflow");
            assert_eq!(e.message(), "bad request: decode failed: buffer underflow");
        }
        _ => panic!("expected bad request"),
    }
}

#[test]
fn good_frame_is_admitted_unchanged() {
    let t = accept_frame(Ok(good_frame())).unwrap();
    assert_eq!(t.truck_id, "T-01");
    assert_eq!(t.rpm, 1500);
}

#[test]
fn not_found_answer() {
    assert_eq!(AppError::NotFound.status_code(), 404);
    assert_eq!(AppError::NotFound.response_body(), "not found");
    assert_eq!(AppError::NotFound.message(), "not found");
}

#[test]
fn happy_path_returns_202_and_updates_state() {
    let mut app = fleet::state::AppState::new();
    assert!(check_frame_size(64).is_ok());
    let frame = accept_frame(Ok(good_frame())).unwrap();
    app.apply_telemetry(frame, 0, false);
    assert!(app.contains_truck("T-01"));
}

#[test]
fn malformed_body_returns_bad_request() {
    let app = fleet::state::AppState::new();
    let res = accept_frame(Err("invalid wire type".to_string()));
    assert!(matches!(res, Err(AppError::BadRequest(_))));
    assert_eq!(app.fleet_len(), 0, "state must not change on decode failure");
}
