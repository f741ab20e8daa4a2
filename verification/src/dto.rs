//! Dashboard-facing records and the labels they show.
//!
//! The browser reads plain JSON, so wire codes become upper-case labels;
//! an unknown code is shown as `UNKNOWN`.

use vstd::prelude::*;
use crate::proto::{HealthEvent, HealthKind, LoadStatus, Severity, TruckState};

verus! {

pub open spec fn load_label_of(v: i32) -> Seq<char> {
    match LoadStatus::decode(v) {
        Some(LoadStatus::Empty) => "EMPTY"@,
        Some(LoadStatus::Loaded) => "LOADED"@,
        _ => "UNKNOWN"@,
    }
}

pub open spec fn state_label_of(v: i32) -> Seq<char> {
    match TruckState::decode(v) {
        Some(TruckState::Idle) => "IDLE"@,
        Some(TruckState::LoadingQueue) => "LOADING_QUEUE"@,
        Some(TruckState::Loading) => "LOADING"@,
        Some(TruckState::Hauling) => "HAULING"@,
        Some(TruckState::AtCrusher) => "AT_CRUSHER"@,
        Some(TruckState::Dumping) => "DUMPING"@,
        Some(TruckState::Returning) => "RETURNING"@,
        _ => "UNKNOWN"@,
    }
}

pub open spec fn kind_label_of(v: i32) -> Seq<char> {
    match HealthKind::decode(v) {
        Some(HealthKind::OverRev) => "OVER_REV"@,
        Some(HealthKind::UnsafeSpeedUnderLoad) => "UNSAFE_SPEED_UNDER_LOAD"@,
        Some(HealthKind::ExcessiveIdle) => "EXCESSIVE_IDLE"@,
        Some(HealthKind::FuelAnomaly) => "FUEL_ANOMALY"@,
        Some(HealthKind::GpsStale) => "GPS_STALE"@,
        Some(HealthKind::Stuck) => "STUCK"@,
        Some(HealthKind::LoadMismatch) => "LOAD_MISMATCH"@,
        _ => "UNKNOWN"@,
    }
}

pub open spec fn severity_label_of(v: i32) -> Seq<char> {
    match Severity::decode(v) {
        Some(Severity::Info) => "INFO"@,
        Some(Severity::Warn) => "WARN"@,
        Some(Severity::Fault) => "FAULT"@,
        _ => "UNKNOWN"@,
    }
}

/// Label of a load-status wire code.
pub fn load_label(v: i32) -> (l: &'static str)
    ensures
        l@ == load_label_of(v),
{
    match LoadStatus::from_i32(v) {
        Some(LoadStatus::Empty) => "EMPTY",
        Some(LoadStatus::Loaded) => "LOADED",
        _ => "UNKNOWN",
    }
}

/// Label of a truck-state wire code.
pub fn state_label(v: i32) -> (l: &'static str)
    ensures
        l@ == state_label_of(v),
{
    match TruckState::from_i32(v) {
        Some(TruckState::Idle) => "IDLE",
        Some(TruckState::LoadingQueue) => "LOADING_QUEUE",
        Some(TruckState::Loading) => "LOADING",
        Some(TruckState::Hauling) => "HAULING",
        Some(TruckState::AtCrusher) => "AT_CRUSHER",
        Some(TruckState::Dumping) => "DUMPING",
        Some(TruckState::Returning) => "RETURNING",
        _ => "UNKNOWN",
    }
}

/// Label of a health-kind wire code.
pub fn kind_label(v: i32) -> (l: &'static str)
    ensures
        l@ == kind_label_of(v),
{
    match HealthKind::from_i32(v) {
        Some(HealthKind::OverRev) => "OVER_REV",
        Some(HealthKind::UnsafeSpeedUnderLoad) => "UNSAFE_SPEED_UNDER_LOAD",
        Some(HealthKind::ExcessiveIdle) => "EXCESSIVE_IDLE",
        Some(HealthKind::FuelAnomaly) => "FUEL_ANOMALY",
        Some(HealthKind::GpsStale) => "GPS_STALE",
        Some(HealthKind::Stuck) => "STUCK",
        Some(HealthKind::LoadMismatch) => "LOAD_MISMATCH",
        _ => "UNKNOWN",
    }
}

/// Label of a severity wire code.
pub fn severity_label(v: i32) -> (l: &'static str)
    ensures
        l@ == severity_label_of(v),
{
    match Severity::from_i32(v) {
        Some(Severity::Info) => "INFO",
        Some(Severity::Warn) => "WARN",
        Some(Severity::Fault) => "FAULT",
        _ => "UNKNOWN",
    }
}

/// A health event as the dashboard shows it.
#[derive(Debug)]
pub struct HealthEventDto {
    pub truck_id: String,
    pub ts_unix_ms: i64,
    pub kind: &'static str,
    pub severity: &'static str,
    pub message: String,
}

impl HealthEventDto {
    /// The dashboard form of `e`: codes become labels, the rest is copied.
    pub fn from_event(e: &HealthEvent) -> (d: HealthEventDto)
        ensures
            d.truck_id@ == e.truck_id@,
            d.ts_unix_ms == e.ts_unix_ms,
            d.kind@ == kind_label_of(e.kind),
            d.severity@ == severity_label_of(e.severity),
            d.message@ == e.message@,
    {
        HealthEventDto {
            truck_id: e.truck_id.clone(),
            ts_unix_ms: e.ts_unix_ms,
            kind: kind_label(e.kind),
            severity: severity_label(e.severity),
            message: e.message.clone(),
        }
    }
}

} // verus!
