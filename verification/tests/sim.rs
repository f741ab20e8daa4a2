use fleet::proto::{LoadStatus, TruckState};
use fleet::sim::{
    fault_profile_for, ingest_url, over_rev_burst_active, route_index, truck_id_for,
    try_over_rev_burst_active, FaultProfile, RetryBackoff, RouteEnd, SimState,
};
use rand::rngs::StdRng;
use rand::{Rng, SeedableRng};
use std::time::Duration;

/// One state change as the simulator makes it: the linger draw, then the
/// dwell draw.
fn step(state: SimState, rng: &mut StdRng) -> (SimState, Duration) {
    let linger = state.may_linger() && rng.gen_bool(0.2);
    let (next, secs) = state.advance(linger, rng);
    (next, Duration::from_secs(secs))
}

#[test]
fn full_cycle_visits_all_states_within_30_min() {
    let mut rng = StdRng::seed_from_u64(7);
    let mut state = SimState::Idle;
    let mut elapsed = Duration::ZERO;
    let mut seen = std::collections::HashSet::new();
    seen.insert(state);

    for _ in 0..200 {
        let (next, dwell) = step(state, &mut rng);
        elapsed += dwell;
        state = next;
        seen.insert(state);
        if seen.len() == 7 {
            break;
        }
    }
    assert_eq!(seen.len(), 7, "did not visit every state");
    assert!(elapsed < Duration::from_secs(30 * 60), "cycle too slow: {elapsed:?}");
}

#[test]
fn telemetry_load_matches_state() {
    assert_eq!(SimState::Hauling.load_status() as i32, LoadStatus::Loaded as i32);
    assert_eq!(SimState::Returning.load_status() as i32, LoadStatus::Empty as i32);
}

// ---------------------------------------------------------------------------

#[test]
fn transitions_and_dwell_ranges() {
    assert_eq!(SimState::Idle.transition(true), (SimState::Idle, (20, 60)));
    assert_eq!(SimState::Idle.transition(false), (SimState::LoadingQueue, (10, 30)));
    assert_eq!(SimState::Loading.transition(true), (SimState::Hauling, (60, 120)));
    assert_eq!(SimState::Returning.transition(false), (SimState::Idle, (5, 15)));
    assert!(!SimState::Hauling.may_linger());
    let mut rng = StdRng::seed_from_u64(3);
    for _ in 0..100 {
        let (next, secs) = SimState::Dumping.advance(false, &mut rng);
        assert_eq!(next, SimState::Returning);
        assert!((50..=100).contains(&secs));
    }
}

#[test]
fn states_map_to_wire_states() {
    assert_eq!(SimState::Idle.to_proto(), TruckState::Idle);
    assert_eq!(SimState::AtCrusher.to_proto(), TruckState::AtCrusher);
    assert!(SimState::Hauling.is_moving() && SimState::Returning.is_moving());
    assert!(!SimState::Dumping.is_moving());
    assert!(SimState::Dumping.is_loaded() && !SimState::Returning.is_loaded());
    assert_eq!(SimState::Loading.progress_anchor(), Some(RouteEnd::Start));
    assert_eq!(SimState::Dumping.progress_anchor(), Some(RouteEnd::End));
    assert_eq!(SimState::Hauling.progress_anchor(), None);
}

#[test]
fn initial_states_are_spread() {
    let mut rng = StdRng::seed_from_u64(11);
    for _ in 0..50 {
        let s = SimState::initial(&mut rng);
        assert!(s != SimState::Loading && s != SimState::Dumping);
    }
}

#[test]
fn fault_wiring_and_ids() {
    assert_eq!(fault_profile_for(2), FaultProfile::OverRevBursts);
    assert_eq!(fault_profile_for(4), FaultProfile::FuelDrop);
    assert_eq!(fault_profile_for(0), FaultProfile::GpsDropoutOnly);
    assert_eq!(truck_id_for(0), "T-01");
    assert_eq!(truck_id_for(8), "T-09");
    assert_eq!(truck_id_for(9), "T-10");
    assert_eq!(truck_id_for(122), "T-123");
    assert_eq!(route_index(7, 5), 2);
}

#[test]
fn over_rev_bursts_follow_the_period() {
    let s = 1_000_000_000u128;
    // before the first full period: never
    assert!(!over_rev_burst_active(5 * s, 180 * s, 8 * s));
    assert!(over_rev_burst_active(180 * s, 180 * s, 8 * s));
    assert!(over_rev_burst_active(188 * s, 180 * s, 8 * s));
    assert!(!over_rev_burst_active(188 * s + 1, 180 * s, 8 * s));
    assert!(over_rev_burst_active(361 * s, 180 * s, 8 * s));
    assert_eq!(try_over_rev_burst_active(5 * s, s / 2, 8 * s), None);
    assert_eq!(try_over_rev_burst_active(181 * s, 180 * s, 8 * s), Some(true));
}

#[test]
fn backoff_doubles_caps_and_resets() {
    let mut b = RetryBackoff::new();
    assert_eq!(b.current_ms(), 250);
    let waits: Vec<u64> = (0..7).map(|_| b.after_send(false).unwrap()).collect();
    assert_eq!(waits, vec![250, 500, 1000, 2000, 4000, 5000, 5000]);
    assert_eq!(b.after_send(true), None);
    assert_eq!(b.current_ms(), 250);
}

#[test]
fn ingest_url_trims_trailing_slashes() {
    assert_eq!(ingest_url("http://localhost:8080"), "http://localhost:8080/ingest");
    assert_eq!(ingest_url("http://backend:8080//"), "http://backend:8080/ingest");
    assert_eq!(ingest_url(""), "/ingest");
}

#[test]
fn initial_state_follows_the_draw() {
    assert_eq!(SimState::initial_for_draw(0), SimState::Idle);
    assert_eq!(SimState::initial_for_draw(1), SimState::LoadingQueue);
    assert_eq!(SimState::initial_for_draw(2), SimState::Hauling);
    assert_eq!(SimState::initial_for_draw(3), SimState::AtCrusher);
    assert_eq!(SimState::initial_for_draw(4), SimState::Returning);
}
