//! Wire records exchanged between the simulator and the backend.
//!
//! Floating-point fields travel as their IEEE-754 bit patterns: the library
//! never does float arithmetic, it only carries, compares and orders them
//! (see `floatbits`).

use vstd::prelude::*;

verus! {

/// Lifecycle state of a haul truck, numbered as on the wire
/// (declaration order gives the code, `Unspecified` is 0).
#[derive(Clone, Copy, Debug, PartialEq, Eq, Structural)]
pub enum TruckState {
    Unspecified,
    Idle,
    LoadingQueue,
    Loading,
    Hauling,
    AtCrusher,
    Dumping,
    Returning,
}

impl TruckState {
    pub open spec fn code_of(self) -> i32 {
        match self {
            TruckState::Unspecified => 0,
            TruckState::Idle => 1,
            TruckState::LoadingQueue => 2,
            TruckState::Loading => 3,
            TruckState::Hauling => 4,
            TruckState::AtCrusher => 5,
            TruckState::Dumping => 6,
            TruckState::Returning => 7,
        }
    }

    pub open spec fn decode(v: i32) -> Option<TruckState> {
        if v == 0 {
            Some(TruckState::Unspecified)
        } else if v == 1 {
            Some(TruckState::Idle)
        } else if v == 2 {
            Some(TruckState::LoadingQueue)
        } else if v == 3 {
            Some(TruckState::Loading)
        } else if v == 4 {
            Some(TruckState::Hauling)
        } else if v == 5 {
            Some(TruckState::AtCrusher)
        } else if v == 6 {
            Some(TruckState::Dumping)
        } else if v == 7 {
            Some(TruckState::Returning)
        } else {
            None
        }
    }

    /// The wire code of this state.
    pub fn as_i32(self) -> (c: i32)
        ensures
            c == self.code_of(),
    {
        match self {
            TruckState::Unspecified => 0,
            TruckState::Idle => 1,
            TruckState::LoadingQueue => 2,
            TruckState::Loading => 3,
            TruckState::Hauling => 4,
            TruckState::AtCrusher => 5,
            TruckState::Dumping => 6,
            TruckState::Returning => 7,
        }
    }

    /// The state with wire code `v`, if `v` is a known code.
    pub fn from_i32(v: i32) -> (r: Option<TruckState>)
        ensures
            r == Self::decode(v),
            r matches Some(s) ==> s.code_of() == v,
    {
        if v == 0 {
            Some(TruckState::Unspecified)
        } else if v == 1 {
            Some(TruckState::Idle)
        } else if v == 2 {
            Some(TruckState::LoadingQueue)
        } else if v == 3 {
            Some(TruckState::Loading)
        } else if v == 4 {
            Some(TruckState::Hauling)
        } else if v == 5 {
            Some(TruckState::AtCrusher)
        } else if v == 6 {
            Some(TruckState::Dumping)
        } else if v == 7 {
            Some(TruckState::Returning)
        } else {
            None
        }
    }
}


/// Whether a truck carries a load, numbered as on the wire.
#[derive(Clone, Copy, Debug, PartialEq, Eq, Structural)]
pub enum LoadStatus {
    Unspecified,
    Empty,
    Loaded,
}

impl LoadStatus {
    pub open spec fn code_of(self) -> i32 {
        match self {
            LoadStatus::Unspecified => 0,
            LoadStatus::Empty => 1,
            LoadStatus::Loaded => 2,
        }
    }

    pub open spec fn decode(v: i32) -> Option<LoadStatus> {
        if v == 0 {
            Some(LoadStatus::Unspecified)
        } else if v == 1 {
            Some(LoadStatus::Empty)
        } else if v == 2 {
            Some(LoadStatus::Loaded)
        } else {
            None
        }
    }

    /// The wire code of this load status.
    pub fn as_i32(self) -> (c: i32)
        ensures
            c == self.code_of(),
    {
        match self {
            LoadStatus::Unspecified => 0,
            LoadStatus::Empty => 1,
            LoadStatus::Loaded => 2,
        }
    }

    /// The load status with wire code `v`, if `v` is a known code.
    pub fn from_i32(v: i32) -> (r: Option<LoadStatus>)
        ensures
            r == Self::decode(v),
            r matches Some(s) ==> s.code_of() == v,
    {
        if v == 0 {
            Some(LoadStatus::Unspecified)
        } else if v == 1 {
            Some(LoadStatus::Empty)
        } else if v == 2 {
            Some(LoadStatus::Loaded)
        } else {
            None
        }
    }
}

/// The health conditions the classifier can raise, numbered as on the wire.
#[derive(Clone, Copy, Debug, PartialEq, Eq, Structural)]
pub enum HealthKind {
    Unspecified,
    OverRev,
    UnsafeSpeedUnderLoad,
    ExcessiveIdle,
    FuelAnomaly,
    GpsStale,
    Stuck,
    LoadMismatch,
}

impl HealthKind {
    pub open spec fn code_of(self) -> i32 {
        match self {
            HealthKind::Unspecified => 0,
            HealthKind::OverRev => 1,
            HealthKind::UnsafeSpeedUnderLoad => 2,
            HealthKind::ExcessiveIdle => 3,
            HealthKind::FuelAnomaly => 4,
            HealthKind::GpsStale => 5,
            HealthKind::Stuck => 6,
            HealthKind::LoadMismatch => 7,
        }
    }

    pub open spec fn decode(v: i32) -> Option<HealthKind> {
        if v == 0 {
            Some(HealthKind::Unspecified)
        } else if v == 1 {
            Some(HealthKind::OverRev)
        } else if v == 2 {
            Some(HealthKind::UnsafeSpeedUnderLoad)
        } else if v == 3 {
            Some(HealthKind::ExcessiveIdle)
        } else if v == 4 {
            Some(HealthKind::FuelAnomaly)
        } else if v == 5 {
            Some(HealthKind::GpsStale)
        } else if v == 6 {
            Some(HealthKind::Stuck)
        } else if v == 7 {
            Some(HealthKind::LoadMismatch)
        } else {
            None
        }
    }

    /// The wire code of this kind.
    pub fn as_i32(self) -> (c: i32)
        ensures
            c == self.code_of(),
    {
        match self {
            HealthKind::Unspecified => 0,
            HealthKind::OverRev => 1,
            HealthKind::UnsafeSpeedUnderLoad => 2,
            HealthKind::ExcessiveIdle => 3,
            HealthKind::FuelAnomaly => 4,
            HealthKind::GpsStale => 5,
            HealthKind::Stuck => 6,
            HealthKind::LoadMismatch => 7,
        }
    }

    /// The kind with wire code `v`, if `v` is a known code.
    pub fn from_i32(v: i32) -> (r: Option<HealthKind>)
        ensures
            r == Self::decode(v),
            r matches Some(k) ==> k.code_of() == v,
    {
        if v == 0 {
            Some(HealthKind::Unspecified)
        } else if v == 1 {
            Some(HealthKind::OverRev)
        } else if v == 2 {
            Some(HealthKind::UnsafeSpeedUnderLoad)
        } else if v == 3 {
            Some(HealthKind::ExcessiveIdle)
        } else if v == 4 {
            Some(HealthKind::FuelAnomaly)
        } else if v == 5 {
            Some(HealthKind::GpsStale)
        } else if v == 6 {
            Some(HealthKind::Stuck)
        } else if v == 7 {
            Some(HealthKind::LoadMismatch)
        } else {
            None
        }
    }
}

/// How urgently a dispatcher should look at a health event.
#[derive(Clone, Copy, Debug, PartialEq, Eq, Structural)]
pub enum Severity {
    Unspecified,
    Info,
    Warn,
    Fault,
}

impl Severity {
    pub open spec fn code_of(self) -> i32 {
        match self {
            Severity::Unspecified => 0,
            Severity::Info => 1,
            Severity::Warn => 2,
            Severity::Fault => 3,
        }
    }

    pub open spec fn decode(v: i32) -> Option<Severity> {
        if v == 0 {
            Some(Severity::Unspecified)
        } else if v == 1 {
            Some(Severity::Info)
        } else if v == 2 {
            Some(Severity::Warn)
        } else if v == 3 {
            Some(Severity::Fault)
        } else {
            None
        }
    }

    /// The wire code of this severity.
    pub fn as_i32(self) -> (c: i32)
        ensures
            c == self.code_of(),
    {
        match self {
            Severity::Unspecified => 0,
            Severity::Info => 1,
            Severity::Warn => 2,
            Severity::Fault => 3,
        }
    }

    /// The severity with wire code `v`, if `v` is a known code.
    pub fn from_i32(v: i32) -> (r: Option<Severity>)
        ensures
            r == Self::decode(v),
            r matches Some(s) ==> s.code_of() == v,
    {
        if v == 0 {
            Some(Severity::Unspecified)
        } else if v == 1 {
            Some(Severity::Info)
        } else if v == 2 {
            Some(Severity::Warn)
        } else if v == 3 {
            Some(Severity::Fault)
        } else {
            None
        }
    }
}

/// A GPS fix; each coordinate is the bit pattern of an `f64`.
#[derive(Clone, Copy, Debug, PartialEq, Eq, Structural)]
pub struct GpsFix {
    pub lat_bits: u64,
    pub lon_bits: u64,
    pub alt_m_bits: u64,
    pub hdop_bits: u64,
}

/// One telemetry frame from a truck.
///
/// `speed_kmh_bits` is the bit pattern of the `f64` speed and
/// `fuel_pct_bits` that of the `f32` fuel fraction; `load` and `state` are
/// wire codes and may hold values outside the known enumerations.
#[derive(Debug)]
pub struct Telemetry {
    pub truck_id: String,
    pub ts_unix_ms: i64,
    pub gps: Option<GpsFix>,
    pub speed_kmh_bits: u64,
    pub rpm: u32,
    pub load: i32,
    pub fuel_pct_bits: u32,
    pub state: i32,
}

impl Clone for Telemetry {
    fn clone(&self) -> (r: Self)
        ensures
            r == *self,
    {
        Telemetry {
            truck_id: self.truck_id.clone(),
            ts_unix_ms: self.ts_unix_ms,
            gps: self.gps,
            speed_kmh_bits: self.speed_kmh_bits,
            rpm: self.rpm,
            load: self.load,
            fuel_pct_bits: self.fuel_pct_bits,
            state: self.state,
        }
    }
}

/// A health condition that became active for a truck.
#[derive(Debug)]
pub struct HealthEvent {
    pub truck_id: String,
    pub ts_unix_ms: i64,
    pub kind: i32,
    pub severity: i32,
    pub message: String,
}

impl Clone for HealthEvent {
    fn clone(&self) -> (r: Self)
        ensures
            r == *self,
    {
        HealthEvent {
            truck_id: self.truck_id.clone(),
            ts_unix_ms: self.ts_unix_ms,
            kind: self.kind,
            severity: self.severity,
            message: self.message.clone(),
        }
    }
}


/// The fleet as a list of latest frames.
#[derive(Debug)]
pub struct FleetSnapshot {
    pub trucks: Vec<Telemetry>,
}

impl Clone for FleetSnapshot {
    fn clone(&self) -> (r: Self)
        ensures
            r.trucks@ == self.trucks@,
    {
        let mut trucks: Vec<Telemetry> = Vec::new();
        let mut i: usize = 0;
        while i < self.trucks.len()
            invariant
                i <= self.trucks@.len(),
                trucks@ == self.trucks@.subrange(0, i as int),
            decreases self.trucks@.len() - i,
        {
            trucks.push(self.trucks[i].clone());
            assert(trucks@ =~= self.trucks@.subrange(0, i + 1));
            i += 1;
        }
        assert(trucks@ =~= self.trucks@);
        FleetSnapshot { trucks }
    }
}

/// What a fleet update carries.
#[derive(Debug)]
pub enum Payload {
    Telemetry(Telemetry),
    Health(HealthEvent),
    Snapshot(FleetSnapshot),
}

/// `b` carries the same content as `a`.
pub open spec fn same_payload(a: Payload, b: Payload) -> bool {
    match (a, b) {
        (Payload::Telemetry(x), Payload::Telemetry(y)) => x == y,
        (Payload::Health(x), Payload::Health(y)) => x == y,
        (Payload::Snapshot(x), Payload::Snapshot(y)) => x.trucks@ == y.trucks@,
        _ => false,
    }
}

impl Clone for Payload {
    fn clone(&self) -> (r: Self)
        ensures
            same_payload(*self, r),
    {
        match self {
            Payload::Telemetry(t) => Payload::Telemetry(t.clone()),
            Payload::Health(h) => Payload::Health(h.clone()),
            Payload::Snapshot(s) => Payload::Snapshot(s.clone()),
        }
    }
}

/// One message on the live update bus.
#[derive(Debug)]
pub struct FleetUpdate {
    pub payload: Option<Payload>,
}

impl Clone for FleetUpdate {
    fn clone(&self) -> (r: Self)
        ensures
            match (self.payload, r.payload) {
                (Some(a), Some(b)) => same_payload(a, b),
                (None, None) => true,
                _ => false,
            },
    {
        match &self.payload {
            Some(p) => FleetUpdate { payload: Some(p.clone()) },
            None => FleetUpdate { payload: None },
        }
    }
}

} // verus!
