//! What the live stream sends.
//!
//! A client first gets a snapshot of the fleet, then one event per update
//! on the bus: telemetry frames and health events are forwarded, snapshot
//! payloads and empty updates are skipped, and when the client has fallen
//! behind the bus (it lagged) it is told to resync, i.e. to refetch the
//! fleet and keep listening.

use vstd::prelude::*;
use crate::dto::{HealthEventDto, kind_label_of, severity_label_of};
use crate::proto::{FleetUpdate, Payload, Telemetry};
use crate::state::{AppState, TruckSnapshot, sorted_by_id};

verus! {

/// One event of the live stream.
#[derive(Debug)]
pub enum StreamEvent {
    /// The fleet as it stands, in truck-identifier order.
    Snapshot(Vec<TruckSnapshot>),
    Telemetry(Telemetry),
    Health(HealthEventDto),
    /// The client lagged behind the bus and must refetch the fleet.
    Resync,
}

/// The first event of a stream.
pub fn initial_event(state: &AppState) -> (e: StreamEvent)
    ensures
        e matches StreamEvent::Snapshot(rows) && {
            &&& sorted_by_id(rows@)
            &&& forall|i: int|
                0 <= i < rows@.len() ==> state@.dom().contains((#[trigger] rows@[i]).telemetry.truck_id@)
                    && state@[rows@[i].telemetry.truck_id@].snapshot == rows@[i]
            &&& forall|k: Seq<char>|
                #[trigger] state@.dom().contains(k) ==> exists|i: int|
                    0 <= i < rows@.len() && (#[trigger] rows@[i]).telemetry.truck_id@ == k
        },
{
    StreamEvent::Snapshot(state.snapshots())
}

/// The event sent for one item received from the bus: `Ok` carries an
/// update, `Err(n)` says that `n` updates were missed.
pub fn live_event(item: Result<FleetUpdate, u64>) -> (e: Option<StreamEvent>)
    ensures
        match item {
            Err(_) => e matches Some(StreamEvent::Resync),
            Ok(update) => match update.payload {
                Some(Payload::Telemetry(t)) => e == Some(StreamEvent::Telemetry(t)),
                Some(Payload::Health(h)) => e matches Some(StreamEvent::Health(d)) && {
                    &&& d.truck_id@ == h.truck_id@
                    &&& d.ts_unix_ms == h.ts_unix_ms
                    &&& d.kind@ == kind_label_of(h.kind)
                    &&& d.severity@ == severity_label_of(h.severity)
                    &&& d.message@ == h.message@
                },
                _ => e is None,
            },
        },
{
    match item {
        Ok(update) => match update.payload {
            Some(Payload::Telemetry(t)) => Some(StreamEvent::Telemetry(t)),
            Some(Payload::Health(h)) => Some(StreamEvent::Health(HealthEventDto::from_event(&h))),
            _ => None,
        },
        Err(_) => Some(StreamEvent::Resync),
    }
}

} // verus!
