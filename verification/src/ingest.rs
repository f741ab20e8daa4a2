//! Admission of telemetry frames and of history queries.
//!
//! A frame is refused, with a short reason, when its body is too large,
//! when it does not decode, when it names no truck, or when its producer
//! left the truck state unset (so that producer bugs surface at once rather
//! than as ghost trucks). A refused frame leaves the fleet store untouched.

use vstd::prelude::*;
use crate::error::AppError;
use crate::proto::{Telemetry, TruckState};
use crate::state::{frames_since, sort_by_ts, sorted_by_timestamp, AppState};
use crate::text::{decimal, push_decimal};

verus! {

/// Largest accepted frame body, in bytes.
pub const MAX_FRAME_BYTES: usize = 64 * 1024;

/// The reason given for a body of `len` bytes that is too large.
pub open spec fn too_large_reason(len: usize) -> Seq<char> {
    "frame too large: "@ + decimal(len as nat) + " bytes (max "@ + decimal(MAX_FRAME_BYTES as nat)
        + ")"@
}

/// Refuses a frame body longer than `MAX_FRAME_BYTES`.
pub fn check_frame_size(len: usize) -> (r: Result<(), AppError>)
    ensures
        r is Ok <==> len <= MAX_FRAME_BYTES,
        r matches Err(e) ==> e matches AppError::BadRequest(m) && m@ == too_large_reason(len),
{
    if len > MAX_FRAME_BYTES {
        let mut m = String::from_str("frame too large: ");
        push_decimal(&mut m, len as u64);
        m.append(" bytes (max ");
        push_decimal(&mut m, MAX_FRAME_BYTES as u64);
        m.append(")");
        return Err(AppError::BadRequest(m));
    }
    Ok(())
}

/// The outcome of admitting a decoded frame (see `accept_frame`).
pub open spec fn admission(decoded: Result<Telemetry, String>) -> Result<Telemetry, Seq<char>> {
    match decoded {
        Err(reason) => Err("decode failed: "@ + reason@),
        Ok(frame) => if frame.truck_id@.len() == 0 {
            Err("missing truck_id"@)
        } else if frame.state == TruckState::Unspecified.code_of() {
            Err("missing state"@)
        } else {
            Ok(frame)
        },
    }
}

/// Admits the outcome of decoding a frame body: a decoding failure (with
/// the decoder's message) is refused, and so is a frame without a truck
/// identifier or with the unspecified truck state.
pub fn accept_frame(decoded: Result<Telemetry, String>) -> (r: Result<Telemetry, AppError>)
    ensures
        match admission(decoded) {
            Ok(frame) => r == Ok::<Telemetry, AppError>(frame),
            Err(reason) => r matches Err(AppError::BadRequest(m)) && m@ == reason,
        },
{
    match decoded {
        Err(reason) => {
            let mut m = String::from_str("decode failed: ");
            m.append(reason.as_str());
            Err(AppError::BadRequest(m))
        },
        Ok(frame) => {
            if frame.truck_id.as_str().is_empty() {
                Err(AppError::BadRequest(String::from_str("missing truck_id")))
            } else if frame.state == TruckState::Unspecified.as_i32() {
                Err(AppError::BadRequest(String::from_str("missing state")))
            } else {
                Ok(frame)
            }
        },
    }
}

/// Admission only checks: a decoded frame is admitted, unchanged, exactly
/// when it names a truck and its state is not the unspecified code 0 (every
/// other state code, known or not, passes); an admitted frame is always the
/// one that was decoded.
pub proof fn lemma_admission_checks_only_required_fields(decoded: Result<Telemetry, String>)
    ensures
        admission(decoded) is Ok <==> (decoded matches Ok(f) && f.truck_id@.len() > 0 && f.state != 0),
        decoded matches Ok(f) ==> (f.truck_id@.len() > 0 && f.state != 0 ==> admission(decoded)
            == Ok::<Telemetry, Seq<char>>(f)),
        admission(decoded) matches Ok(g) ==> decoded == Ok::<Telemetry, String>(g),
{
}

/// Query of the history endpoint.
#[derive(Debug, Clone, Copy, PartialEq, Eq, Structural)]
pub struct HistoryQuery {
    /// Lower bound on `ts_unix_ms`; 0 returns the whole buffer.
    pub since_ms: i64,
}

impl AppState {
    /// The history endpoint: the truck's frames stamped at or after
    /// `q.since_ms`, in ascending timestamp order (frames with equal
    /// timestamps in order of arrival), or `NotFound` for an unknown truck
    /// (an unknown truck is told apart from a truck without recent frames).
    pub fn history(&self, truck_id: &str, q: HistoryQuery) -> (r: Result<Vec<Telemetry>, AppError>)
        ensures
            r is Err <==> !self@.dom().contains(truck_id@),
            r matches Err(e) ==> e is NotFound,
            r matches Ok(rows) ==> rows@ == sort_by_ts(frames_since(self@[truck_id@].history, q.since_ms)),
    {
        if !self.contains_truck(truck_id) {
            return Err(AppError::NotFound);
        }
        Ok(sorted_by_timestamp(self.history_since(truck_id, q.since_ms)))
    }
}

} // verus!
