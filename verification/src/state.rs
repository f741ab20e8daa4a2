//! In-memory fleet state.
//!
//! For every truck the store keeps its latest frame (the snapshot), a
//! bounded history of its frames (a ring buffer of `HISTORY_CAPACITY`
//! frames, oldest evicted first) and the set of its currently active health
//! conditions, which is used to publish only inactive-to-active transitions.
//! The records live in a `DashMap` keyed by truck identifier; listings are
//! sorted by identifier so that the dashboard does not shimmer.
//!
//! Applying a frame returns the updates to publish on the live bus; the
//! caller owns the bus and the wall clock.

use vstd::prelude::*;
use crate::health::{
    lemma_in_wire_order, AlertSet, FuelExtremes, classify, classify_spec, fuel_extremes_spec, fuel_window_extremes,
    in_wire_order,
};
use crate::order::{id_lt, lemma_id_lt_total, lemma_id_lt_transitive, str_lt};
use crate::proto::{FleetUpdate, HealthEvent, HealthKind, Payload, Severity, Telemetry};
use dashmap::DashMap;
use std::collections::VecDeque;

verus! {

/// Capacity of the live update bus (slower subscribers lag and resync).
pub const BROADCAST_CAPACITY: usize = 256;

/// Frames kept per truck: ten minutes at 2 Hz.
pub const HISTORY_CAPACITY: usize = 1200;

/// The latest frame of a truck and when it was received, in milliseconds
/// of the receiver's monotonic clock.
#[derive(Debug)]
pub struct TruckSnapshot {
    pub telemetry: Telemetry,
    pub received_at_ms: u64,
}

impl Clone for TruckSnapshot {
    fn clone(&self) -> (r: Self)
        ensures
            r == *self,
    {
        TruckSnapshot { telemetry: self.telemetry.clone(), received_at_ms: self.received_at_ms }
    }
}

impl TruckSnapshot {
    /// Age of the snapshot at monotonic time `now_ms` (zero if `now_ms` is
    /// earlier than the reception).
    pub fn age_ms(&self, now_ms: u64) -> (r: u64)
        ensures
            r == (if now_ms >= self.received_at_ms { now_ms - self.received_at_ms } else { 0 }),
    {
        if now_ms >= self.received_at_ms {
            now_ms - self.received_at_ms
        } else {
            0
        }
    }
}

/// What the store knows about one truck.
pub struct TruckView {
    pub snapshot: TruckSnapshot,
    pub history: Seq<Telemetry>,
    pub alerts: Set<HealthKind>,
}

/// What the store holds for one truck: its identifier, latest snapshot,
/// bounded history and active conditions.
pub struct TruckRecord {
    truck_id: String,
    snapshot: TruckSnapshot,
    history: VecDeque<Telemetry>,
    alerts: AlertSet,
}

pub closed spec fn record_view(r: TruckRecord) -> TruckView {
    TruckView { snapshot: r.snapshot, history: r.history@, alerts: r.alerts@ }
}

spec fn record_wf(r: TruckRecord) -> bool {
    &&& r.snapshot.telemetry.truck_id@ == r.truck_id@
    &&& 1 <= r.history@.len() <= HISTORY_CAPACITY
    &&& forall|i: int| 0 <= i < r.history@.len() ==> (#[trigger] r.history@[i]).truck_id@ == r.truck_id@
}

/// The history after appending `t` to `h`, evicting the oldest frame when
/// `h` is full.
pub open spec fn pushed_history(h: Seq<Telemetry>, t: Telemetry) -> Seq<Telemetry> {
    if h.len() >= HISTORY_CAPACITY {
        h.drop_first().push(t)
    } else {
        h.push(t)
    }
}

/// The frames of `h`, in order, stamped at or after `since_ms`.
pub open spec fn frames_since(h: Seq<Telemetry>, since_ms: i64) -> Seq<Telemetry>
    decreases h.len(),
{
    if h.len() == 0 {
        Seq::empty()
    } else {
        let rest = frames_since(h.drop_last(), since_ms);
        if h.last().ts_unix_ms >= since_ms {
            rest.push(h.last())
        } else {
            rest
        }
    }
}

/// `s` with `t` inserted after every frame stamped no later than `t`
/// that ends it: the step of a stable insertion sort by timestamp.
pub open spec fn insert_by_ts(s: Seq<Telemetry>, t: Telemetry) -> Seq<Telemetry>
    decreases s.len(),
{
    if s.len() == 0 {
        seq![t]
    } else if s.last().ts_unix_ms <= t.ts_unix_ms {
        s.push(t)
    } else {
        insert_by_ts(s.drop_last(), t).push(s.last())
    }
}

/// The frames of `h` ordered by ascending timestamp; frames with equal
/// timestamps keep their order of arrival.
pub open spec fn sort_by_ts(h: Seq<Telemetry>) -> Seq<Telemetry>
    decreases h.len(),
{
    if h.len() == 0 {
        Seq::empty()
    } else {
        insert_by_ts(sort_by_ts(h.drop_last()), h.last())
    }
}

/// Frames in ascending timestamp order.
pub open spec fn ts_ascending(h: Seq<Telemetry>) -> bool {
    forall|i: int, j: int| 0 <= i <= j < h.len() ==> (#[trigger] h[i]).ts_unix_ms <= (#[trigger] h[j]).ts_unix_ms
}

pub open spec fn severity_of(kind: HealthKind) -> Severity {
    match kind {
        HealthKind::OverRev | HealthKind::UnsafeSpeedUnderLoad | HealthKind::FuelAnomaly => Severity::Fault,
        HealthKind::ExcessiveIdle | HealthKind::LoadMismatch | HealthKind::Stuck => Severity::Warn,
        HealthKind::GpsStale => Severity::Info,
        HealthKind::Unspecified => Severity::Unspecified,
    }
}

pub open spec fn message_of(kind: HealthKind) -> Seq<char> {
    match kind {
        HealthKind::OverRev => "Sustained engine over-rev"@,
        HealthKind::UnsafeSpeedUnderLoad => "Unsafe speed while loaded"@,
        HealthKind::ExcessiveIdle => "Excessive idle time"@,
        HealthKind::FuelAnomaly => "Fuel level dropped sharply"@,
        HealthKind::GpsStale => "GPS fix is stale"@,
        HealthKind::Stuck => "No telemetry — truck may be stuck"@,
        HealthKind::LoadMismatch => "Load status disagrees with state"@,
        HealthKind::Unspecified => ""@,
    }
}

/// How urgent each health kind is.
pub fn severity_for(kind: HealthKind) -> (s: Severity)
    ensures
        s == severity_of(kind),
{
    match kind {
        HealthKind::OverRev | HealthKind::UnsafeSpeedUnderLoad | HealthKind::FuelAnomaly => Severity::Fault,
        HealthKind::ExcessiveIdle | HealthKind::LoadMismatch | HealthKind::Stuck => Severity::Warn,
        HealthKind::GpsStale => Severity::Info,
        HealthKind::Unspecified => Severity::Unspecified,
    }
}

/// The dispatcher-facing text of each health kind.
pub fn message_for(kind: HealthKind) -> (m: &'static str)
    ensures
        m@ == message_of(kind),
{
    match kind {
        HealthKind::OverRev => "Sustained engine over-rev",
        HealthKind::UnsafeSpeedUnderLoad => "Unsafe speed while loaded",
        HealthKind::ExcessiveIdle => "Excessive idle time",
        HealthKind::FuelAnomaly => "Fuel level dropped sharply",
        HealthKind::GpsStale => "GPS fix is stale",
        HealthKind::Stuck => "No telemetry — truck may be stuck",
        HealthKind::LoadMismatch => "Load status disagrees with state",
        HealthKind::Unspecified => "",
    }
}

/// `u` publishes the activation of `kind` for truck `id` at `ts`.
pub open spec fn is_health_update(u: FleetUpdate, id: Seq<char>, ts: i64, kind: HealthKind) -> bool {
    &&& u.payload matches Some(Payload::Health(e))
    &&& e.truck_id@ == id
    &&& e.ts_unix_ms == ts
    &&& e.kind == kind.code_of()
    &&& e.severity == severity_of(kind).code_of()
    &&& e.message@ == message_of(kind)
}

/// The history the store holds for `id`, empty for an unknown truck.
pub open spec fn prior_history(m: Map<Seq<char>, TruckView>, id: Seq<char>) -> Seq<Telemetry> {
    if m.dom().contains(id) {
        m[id].history
    } else {
        Seq::empty()
    }
}

/// The active conditions the store holds for `id`, none for an unknown truck.
pub open spec fn prior_alerts(m: Map<Seq<char>, TruckView>, id: Seq<char>) -> Set<HealthKind> {
    if m.dom().contains(id) {
        m[id].alerts
    } else {
        Set::empty()
    }
}

/// The history of the truck of `t` once `t` is recorded.
pub open spec fn next_history(m: Map<Seq<char>, TruckView>, t: Telemetry) -> Seq<Telemetry> {
    pushed_history(prior_history(m, t.truck_id@), t)
}

/// The conditions active for the truck of `t` once `t` is recorded.
pub open spec fn next_alerts(m: Map<Seq<char>, TruckView>, t: Telemetry, fuel_spread_exceeded: bool) -> Set<HealthKind> {
    classify_spec(next_history(m, t), t.ts_unix_ms as int, fuel_spread_exceeded)
}

/// The conditions that become active when `t` is recorded, in wire order.
pub open spec fn newly_active(m: Map<Seq<char>, TruckView>, t: Telemetry, fuel_spread_exceeded: bool) -> Seq<HealthKind> {
    in_wire_order(next_alerts(m, t, fuel_spread_exceeded).difference(prior_alerts(m, t.truck_id@)))
}

fn deque_to_vec(h: &VecDeque<Telemetry>) -> (r: Vec<Telemetry>)
    ensures
        r@ == h@,
{
    let mut r: Vec<Telemetry> = Vec::new();
    let mut i: usize = 0;
    while i < h.len()
        invariant
            i <= h@.len(),
            r@ == h@.subrange(0, i as int),
        decreases h@.len() - i,
    {
        r.push(h[i].clone());
        assert(r@ =~= h@.subrange(0, i + 1));
        i += 1;
    }
    assert(r@ =~= h@);
    r
}

/// `h` with `t` appended and, when `h` is full, its oldest frame dropped.
fn pushed_copy(h: &VecDeque<Telemetry>, t: &Telemetry) -> (r: Vec<Telemetry>)
    requires
        h@.len() <= HISTORY_CAPACITY,
    ensures
        r@ == pushed_history(h@, *t),
{
    let start: usize = if h.len() >= HISTORY_CAPACITY {
        1
    } else {
        0
    };
    let mut r: Vec<Telemetry> = Vec::new();
    let mut i: usize = start;
    while i < h.len()
        invariant
            start <= i <= h@.len(),
            start == (if h@.len() >= HISTORY_CAPACITY { 1int } else { 0int }),
            r@ == h@.subrange(start as int, i as int),
        decreases h@.len() - i,
    {
        r.push(h[i].clone());
        assert(r@ =~= h@.subrange(start as int, i + 1));
        i += 1;
    }
    r.push(t.clone());
    assert(r@ =~= pushed_history(h@, *t));
    r
}

/// The frames of `h`, in order, stamped at or after `since_ms`.
fn copy_since(h: &VecDeque<Telemetry>, since_ms: i64) -> (r: Vec<Telemetry>)
    ensures
        r@ == frames_since(h@, since_ms),
{
    let mut r: Vec<Telemetry> = Vec::new();
    let mut i: usize = 0;
    while i < h.len()
        invariant
            i <= h@.len(),
            r@ == frames_since(h@.subrange(0, i as int), since_ms),
        decreases h@.len() - i,
    {
        assert(h@.subrange(0, i + 1).drop_last() =~= h@.subrange(0, i as int));
        if h[i].ts_unix_ms >= since_ms {
            r.push(h[i].clone());
        }
        i += 1;
    }
    assert(h@.subrange(0, h@.len() as int) =~= h@);
    r
}

/// Appends `t` to `h`, evicting the oldest frame first when `h` is full.
fn push_bounded(h: &mut VecDeque<Telemetry>, t: Telemetry)
    requires
        old(h)@.len() <= HISTORY_CAPACITY,
    ensures
        final(h)@ == pushed_history(old(h)@, t),
{
    if h.len() == HISTORY_CAPACITY {
        h.pop_front();
    }
    h.push_back(t);
    assert(h@ =~= pushed_history(old(h)@, t));
}

/// The health events announcing `kinds` for truck `truck_id` at `ts`.
fn health_updates(truck_id: &String, ts: i64, kinds: &Vec<HealthKind>, out: &mut Vec<FleetUpdate>)
    ensures
        final(out)@.len() == old(out)@.len() + kinds@.len(),
        forall|i: int| 0 <= i < old(out)@.len() ==> #[trigger] final(out)@[i] == old(out)@[i],
        forall|i: int|
            0 <= i < kinds@.len() ==> is_health_update(
                #[trigger] final(out)@[old(out)@.len() + i],
                truck_id@,
                ts,
                kinds@[i],
            ),
{
    let ghost base = old(out)@.len();
    let mut i: usize = 0;
    while i < kinds.len()
        invariant
            i <= kinds@.len(),
            out@.len() == base + i,
            base == old(out)@.len(),
            forall|j: int| 0 <= j < base ==> #[trigger] out@[j] == old(out)@[j],
            forall|j: int|
                0 <= j < i ==> is_health_update(#[trigger] out@[base + j], truck_id@, ts, kinds@[j]),
        decreases kinds@.len() - i,
    {
        let kind = kinds[i];
        let event = HealthEvent {
            truck_id: truck_id.clone(),
            ts_unix_ms: ts,
            kind: kind.as_i32(),
            severity: severity_for(kind).as_i32(),
            message: String::from_str(message_for(kind)),
        };
        out.push(FleetUpdate { payload: Some(Payload::Health(event)) });
        proof {
            assert(is_health_update(out@[base + i], truck_id@, ts, kinds@[i as int]));
        }
        i += 1;
    }
}

/// Inserting at the place found by scanning back past later frames is
/// `insert_by_ts`.
proof fn lemma_insert_by_ts_at(s: Seq<Telemetry>, t: Telemetry, p: int)
    requires
        0 <= p <= s.len(),
        forall|j: int| p <= j < s.len() ==> (#[trigger] s[j]).ts_unix_ms > t.ts_unix_ms,
        p == 0 || s[p - 1].ts_unix_ms <= t.ts_unix_ms,
    ensures
        insert_by_ts(s, t) == s.insert(p, t),
    decreases s.len(),
{
    if s.len() == 0 {
        assert(s.insert(p, t) =~= seq![t]);
    } else if p == s.len() {
        assert(s.insert(p, t) =~= s.push(t));
    } else {
        let d = s.drop_last();
        assert(s.last() == s[s.len() - 1]);
        assert forall|j: int| p <= j < d.len() implies (#[trigger] d[j]).ts_unix_ms > t.ts_unix_ms by {
            assert(d[j] == s[j]);
        }
        if p > 0 {
            assert(d[p - 1] == s[p - 1]);
        }
        lemma_insert_by_ts_at(d, t, p);
        assert(d.insert(p, t).push(s.last()) =~= s.insert(p, t));
    }
}

/// The frames of `h` ordered by ascending timestamp, stable.
pub(crate) fn sorted_by_timestamp(h: Vec<Telemetry>) -> (r: Vec<Telemetry>)
    ensures
        r@ == sort_by_ts(h@),
{
    let mut out: Vec<Telemetry> = Vec::new();
    let mut i: usize = 0;
    while i < h.len()
        invariant
            i <= h@.len(),
            out@ == sort_by_ts(h@.subrange(0, i as int)),
        decreases h@.len() - i,
    {
        let t = h[i].clone();
        let mut p: usize = out.len();
        while p > 0 && out[p - 1].ts_unix_ms > t.ts_unix_ms
            invariant
                p <= out@.len(),
                forall|j: int| p <= j < out@.len() ==> (#[trigger] out@[j]).ts_unix_ms > t.ts_unix_ms,
            decreases p,
        {
            p -= 1;
        }
        proof {
            lemma_insert_by_ts_at(out@, t, p as int);
            let pre = h@.subrange(0, i + 1);
            assert(pre.drop_last() =~= h@.subrange(0, i as int));
            assert(pre.last() == t);
        }
        out.insert(p, t);
        i += 1;
    }
    assert(h@.subrange(0, h@.len() as int) =~= h@);
    out
}

// ---------------------------------------------------------------------------
// The concurrent map that holds the records.

/// The sharded concurrent map of the `dashmap` crate.
#[verifier::external_type_specification]
#[verifier::external_body]
#[verifier::reject_recursive_types(K)]
#[verifier::reject_recursive_types(V)]
#[verifier::reject_recursive_types(S)]
pub struct ExDashMap<K, V, S>(DashMap<K, V, S>);

/// What the fleet map holds: the record of each truck, by identifier.
pub uninterp spec fn fleet_records(m: DashMap<String, TruckRecord>) -> Map<Seq<char>, TruckRecord>;

pub open spec fn no_records() -> Map<Seq<char>, TruckRecord> {
    Map::empty()
}

/// `s` is finite and has `n` members.
pub open spec fn finite_count(s: Set<Seq<char>>, n: usize) -> bool {
    s.finite() && s.len() == n
}

/// Calls `DashMap::new`, which creates an empty map.
#[verifier::external_body]
fn fleet_map_new() -> (r: DashMap<String, TruckRecord>)
    ensures
        fleet_records(r) == no_records(),
{
    DashMap::new()
}

/// Calls `DashMap::insert`, which maps `key` to `value`, replacing the
/// value a key with the same text had.
#[verifier::external_body]
fn fleet_map_insert(m: &mut DashMap<String, TruckRecord>, key: String, value: TruckRecord)
    ensures
        fleet_records(*final(m)) == fleet_records(*old(m)).insert(key@, value),
{
    m.insert(key, value);
}

/// Calls `DashMap::remove`, which takes the entry of `key` out of the map
/// and hands back its value, or nothing when there is no such entry.
#[verifier::external_body]
fn fleet_map_remove(m: &mut DashMap<String, TruckRecord>, key: &str) -> (r: Option<TruckRecord>)
    ensures
        fleet_records(*final(m)) == fleet_records(*old(m)).remove(key@),
        r == (if fleet_records(*old(m)).dom().contains(key@) {
            Some(fleet_records(*old(m))[key@])
        } else {
            None
        }),
{
    m.remove(key).map(|(_, v)| v)
}

/// Calls `DashMap::contains_key`, which tells whether `key` has an entry.
#[verifier::external_body]
fn fleet_map_contains(m: &DashMap<String, TruckRecord>, key: &str) -> (r: bool)
    ensures
        r == fleet_records(*m).dom().contains(key@),
{
    m.contains_key(key)
}

/// Calls `DashMap::len`, the number of entries (the map is finite).
#[verifier::external_body]
fn fleet_map_len(m: &DashMap<String, TruckRecord>) -> (r: usize)
    ensures
        finite_count(fleet_records(*m).dom(), r),
{
    m.len()
}

/// `a` holds the same as `b`.
pub closed spec fn same_record(a: TruckRecord, b: TruckRecord) -> bool {
    record_view(a) == record_view(b) && a.truck_id@ == b.truck_id@
}

/// Calls `DashMap::get` and hands back a copy (made by the verified
/// `TruckRecord::duplicate`) of the value of `key`, or nothing when there
/// is no such entry.
#[verifier::external_body]
fn fleet_map_get(m: &DashMap<String, TruckRecord>, key: &str) -> (r: Option<TruckRecord>)
    ensures
        r is Some <==> fleet_records(*m).dom().contains(key@),
        r matches Some(x) ==> same_record(x, fleet_records(*m)[key@]),
{
    m.get(key).map(|entry| entry.value().duplicate())
}

/// No two rows have the same key.
pub open spec fn keys_distinct(rows: Seq<(String, TruckSnapshot)>) -> bool {
    forall|i: int, j: int| 0 <= i < j < rows.len() ==> (#[trigger] rows[i]).0@ != (#[trigger] rows[j]).0@
}

/// Calls `DashMap::iter`, which visits every entry once in an unspecified
/// order, and hands back each key with a copy (made by the verified
/// `TruckSnapshot::clone`) of its record's snapshot.
#[verifier::external_body]
fn fleet_map_snapshots(m: &DashMap<String, TruckRecord>) -> (r: Vec<(String, TruckSnapshot)>)
    ensures
        r@.len() == fleet_records(*m).dom().len(),
        forall|i: int|
            0 <= i < r@.len() ==> fleet_records(*m).dom().contains((#[trigger] r@[i]).0@) && r@[i].1
                == fleet_records(*m)[r@[i].0@].snapshot,
        keys_distinct(r@),
        forall|k: Seq<char>|
            #[trigger] fleet_records(*m).dom().contains(k) ==> exists|i: int| 0 <= i < r@.len() && (#[trigger] r@[i]).0@ == k,
{
    m.iter().map(|entry| (entry.key().clone(), entry.value().snapshot.clone())).collect()
}

fn copy_deque(h: &VecDeque<Telemetry>) -> (r: VecDeque<Telemetry>)
    ensures
        r@ == h@,
{
    let mut r: VecDeque<Telemetry> = VecDeque::new();
    let mut i: usize = 0;
    while i < h.len()
        invariant
            i <= h@.len(),
            r@ == h@.subrange(0, i as int),
        decreases h@.len() - i,
    {
        r.push_back(h[i].clone());
        assert(r@ =~= h@.subrange(0, i + 1));
        i += 1;
    }
    assert(r@ =~= h@);
    r
}

impl TruckRecord {
    /// A copy of the record.
    pub fn duplicate(&self) -> (r: TruckRecord)
        ensures
            same_record(r, *self),
    {
        TruckRecord {
            truck_id: self.truck_id.clone(),
            snapshot: self.snapshot.clone(),
            history: copy_deque(&self.history),
            alerts: self.alerts.copy(),
        }
    }
}

// ---------------------------------------------------------------------------
// The store.

/// The per-truck fleet store.
pub struct AppState {
    fleet: DashMap<String, TruckRecord>,
}

impl AppState {
    #[verifier::type_invariant]
    spec fn wf(self) -> bool {
        forall|k: Seq<char>|
            #[trigger] fleet_records(self.fleet).dom().contains(k) ==> record_wf(fleet_records(self.fleet)[k])
                && fleet_records(self.fleet)[k].truck_id@ == k
    }
}

impl View for AppState {
    type V = Map<Seq<char>, TruckView>;

    closed spec fn view(&self) -> Map<Seq<char>, TruckView> {
        fleet_records(self.fleet).map_values(|r: TruckRecord| record_view(r))
    }
}

/// Truck identifiers in strictly increasing order.
pub open spec fn sorted_by_id(rows: Seq<TruckSnapshot>) -> bool {
    forall|i: int, j: int|
        0 <= i < j < rows.len() ==> id_lt(
            (#[trigger] rows[i]).telemetry.truck_id@,
            (#[trigger] rows[j]).telemetry.truck_id@,
        )
}

/// Inserts `row` into `out` at its place in identifier order.
fn insert_sorted(out: &mut Vec<(String, TruckSnapshot)>, row: (String, TruckSnapshot))
    requires
        forall|i: int, j: int|
            0 <= i < j < old(out)@.len() ==> id_lt((#[trigger] old(out)@[i]).0@, (#[trigger] old(out)@[j]).0@),
        forall|i: int| 0 <= i < old(out)@.len() ==> (#[trigger] old(out)@[i]).0@ != row.0@,
    ensures
        final(out)@.len() == old(out)@.len() + 1,
        forall|i: int, j: int|
            0 <= i < j < final(out)@.len() ==> id_lt((#[trigger] final(out)@[i]).0@, (#[trigger] final(out)@[j]).0@),
        forall|x: (String, TruckSnapshot)| #[trigger] final(out)@.contains(x) <==> (old(out)@.contains(x) || x == row),
{
    let mut p: usize = 0;
    while p < out.len() && str_lt(out[p].0.as_str(), row.0.as_str())
        invariant
            p <= out@.len(),
            out@ == old(out)@,
            forall|j: int| 0 <= j < p ==> id_lt((#[trigger] out@[j]).0@, row.0@),
        decreases out@.len() - p,
    {
        p += 1;
    }
    proof {
        if p < out@.len() {
            lemma_id_lt_total(out@[p as int].0@, row.0@);
            assert forall|j: int| p <= j < out@.len() implies id_lt(row.0@, (#[trigger] out@[j]).0@) by {
                if j > p {
                    lemma_id_lt_transitive(row.0@, out@[p as int].0@, out@[j].0@);
                }
            }
        }
    }
    let ghost before = out@;
    let ghost r = row;
    out.insert(p, row);
    proof {
        assert(out@ =~= before.insert(p as int, r));
        assert forall|i: int, j: int| 0 <= i < j < out@.len() implies id_lt((#[trigger] out@[i]).0@, (#[trigger] out@[j]).0@) by {
            if j < p {
            } else if i > p {
                assert(out@[i] == before[i - 1]);
                assert(out@[j] == before[j - 1]);
            } else if i == p {
                assert(out@[j] == before[j - 1]);
            } else {
                if j != p {
                    assert(out@[j] == before[j - 1]);
                }
            }
        }
        assert forall|x: (String, TruckSnapshot)| #[trigger] out@.contains(x) <==> (before.contains(x) || x == r) by {
            if out@.contains(x) {
                let i = choose|i: int| 0 <= i < out@.len() && out@[i] == x;
                if i < p {
                    assert(before[i] == x);
                } else if i > p {
                    assert(before[i - 1] == x);
                }
            }
            if before.contains(x) {
                let i = choose|i: int| 0 <= i < before.len() && before[i] == x;
                if i < p {
                    assert(out@[i] == x);
                } else {
                    assert(out@[i + 1] == x);
                }
            }
            if x == r {
                assert(out@[p as int] == x);
            }
        }
    }
}

impl AppState {
    /// An empty store.
    pub fn new() -> (s: AppState)
        ensures
            s@ == Map::<Seq<char>, TruckView>::empty(),
    {
        let s = AppState { fleet: fleet_map_new() };
        assert(s@ =~= Map::<Seq<char>, TruckView>::empty());
        s
    }

    /// Number of known trucks.
    pub fn fleet_len(&self) -> (n: usize)
        ensures
            self@.dom().finite(),
            n == self@.dom().len(),
    {
        let n = fleet_map_len(&self.fleet);
        assert(self@.dom() =~= fleet_records(self.fleet).dom());
        n
    }

    /// Whether the store knows truck `truck_id`.
    pub fn contains_truck(&self, truck_id: &str) -> (r: bool)
        ensures
            r == self@.dom().contains(truck_id@),
    {
        fleet_map_contains(&self.fleet, truck_id)
    }

    /// A copy of the history of `truck_id` filtered to frames stamped at or
    /// after `since_ms`, oldest first; empty for an unknown truck.
    pub fn history_since(&self, truck_id: &str, since_ms: i64) -> (r: Vec<Telemetry>)
        ensures
            r@ == (if self@.dom().contains(truck_id@) {
                frames_since(self@[truck_id@].history, since_ms)
            } else {
                Seq::empty()
            }),
    {
        match fleet_map_get(&self.fleet, truck_id) {
            Some(rec) => copy_since(&rec.history, since_ms),
            None => Vec::new(),
        }
    }

    /// The latest snapshot of every known truck, in identifier order.
    pub fn snapshots(&self) -> (r: Vec<TruckSnapshot>)
        ensures
            sorted_by_id(r@),
            forall|i: int|
                0 <= i < r@.len() ==> self@.dom().contains((#[trigger] r@[i]).telemetry.truck_id@)
                    && self@[r@[i].telemetry.truck_id@].snapshot == r@[i],
            forall|k: Seq<char>|
                #[trigger] self@.dom().contains(k) ==> exists|i: int|
                    0 <= i < r@.len() && (#[trigger] r@[i]).telemetry.truck_id@ == k,
    {
        proof {
            use_type_invariant(self);
        }
        let rows = fleet_map_snapshots(&self.fleet);
        let ghost recs = fleet_records(self.fleet);
        let mut sorted: Vec<(String, TruckSnapshot)> = Vec::new();
        let mut i: usize = 0;
        while i < rows.len()
            invariant
                i <= rows@.len(),
                recs == fleet_records(self.fleet),
                forall|a: int| 0 <= a < rows@.len() ==> recs.dom().contains((#[trigger] rows@[a]).0@) && rows@[a].1 == recs[rows@[a].0@].snapshot,
                forall|a: int, b: int| 0 <= a < b < rows@.len() ==> (#[trigger] rows@[a]).0@ != (#[trigger] rows@[b]).0@,
                sorted@.len() == i,
                forall|a: int, b: int| 0 <= a < b < sorted@.len() ==> id_lt((#[trigger] sorted@[a]).0@, (#[trigger] sorted@[b]).0@),
                forall|x: (String, TruckSnapshot)| #[trigger] sorted@.contains(x) <==> rows@.subrange(0, i as int).contains(x),
            decreases rows@.len() - i,
        {
            let row = (rows[i].0.clone(), rows[i].1.clone());
            proof {
                assert(row == rows@[i as int]);
                assert forall|a: int| 0 <= a < sorted@.len() implies (#[trigger] sorted@[a]).0@ != row.0@ by {
                    assert(sorted@.contains(sorted@[a]));
                    let pre = rows@.subrange(0, i as int);
                    assert(pre.contains(sorted@[a]));
                    let b = choose|b: int| 0 <= b < pre.len() && pre[b] == sorted@[a];
                    assert(rows@[b] == sorted@[a]);
                }
            }
            insert_sorted(&mut sorted, row);
            proof {
                let pre = rows@.subrange(0, i as int);
                let post = rows@.subrange(0, i + 1);
                assert(post =~= pre.push(rows@[i as int]));
                assert forall|x: (String, TruckSnapshot)| #[trigger] sorted@.contains(x) <==> post.contains(x) by {
                    if post.contains(x) {
                        let b = choose|b: int| 0 <= b < post.len() && post[b] == x;
                        if b < i {
                            assert(pre[b] == x);
                        }
                    }
                    if pre.contains(x) {
                        let b = choose|b: int| 0 <= b < pre.len() && pre[b] == x;
                        assert(post[b] == x);
                    }
                    if x == rows@[i as int] {
                        assert(post[i as int] == x);
                    }
                }
            }
            i += 1;
        }
        assert(rows@.subrange(0, rows@.len() as int) =~= rows@);
        let mut r: Vec<TruckSnapshot> = Vec::new();
        let mut j: usize = 0;
        while j < sorted.len()
            invariant
                j <= sorted@.len(),
                r@.len() == j,
                forall|a: int| 0 <= a < j ==> #[trigger] r@[a] == sorted@[a].1,
            decreases sorted@.len() - j,
        {
            r.push(sorted[j].1.clone());
            j += 1;
        }
        proof {
            assert forall|a: int| 0 <= a < sorted@.len() implies recs.dom().contains((#[trigger] sorted@[a]).0@)
                && sorted@[a].1 == recs[sorted@[a].0@].snapshot && sorted@[a].1.telemetry.truck_id@ == sorted@[a].0@ by {
                assert(sorted@.contains(sorted@[a]));
                let b = choose|b: int| 0 <= b < rows@.len() && rows@[b] == sorted@[a];
                assert(rows@[b] == sorted@[a]);
            }
            assert forall|a: int, b: int| 0 <= a < b < r@.len() implies id_lt(
                (#[trigger] r@[a]).telemetry.truck_id@,
                (#[trigger] r@[b]).telemetry.truck_id@,
            ) by {
                assert(sorted@[a].1.telemetry.truck_id@ == sorted@[a].0@);
                assert(sorted@[b].1.telemetry.truck_id@ == sorted@[b].0@);
            }
            assert forall|k: Seq<char>| #[trigger] self@.dom().contains(k) implies exists|a: int|
                0 <= a < r@.len() && (#[trigger] r@[a]).telemetry.truck_id@ == k by {
                assert(recs.dom().contains(k));
                let b = choose|b: int| 0 <= b < rows@.len() && (#[trigger] rows@[b]).0@ == k;
                assert(sorted@.contains(rows@[b]));
                let a = choose|a: int| 0 <= a < sorted@.len() && sorted@[a] == rows@[b];
                assert(r@[a] == sorted@[a].1);
            }
        }
        r
    }

    /// The extremes of the fuel window the classifier will see once
    /// `telemetry` is recorded (see `health::fuel_window_extremes`).
    pub fn fuel_extremes_after(&self, telemetry: &Telemetry) -> (r: Option<FuelExtremes>)
        ensures
            r == fuel_extremes_spec(next_history(self@, *telemetry)),
    {
        proof {
            use_type_invariant(self);
        }
        match fleet_map_get(&self.fleet, telemetry.truck_id.as_str()) {
            Some(rec) => {
                let samples = pushed_copy(&rec.history, telemetry);
                fuel_window_extremes(samples.as_slice())
            },
            None => {
                let empty: VecDeque<Telemetry> = VecDeque::new();
                let samples = pushed_copy(&empty, telemetry);
                fuel_window_extremes(samples.as_slice())
            },
        }
    }

    /// Records a telemetry frame received at monotonic time
    /// `received_at_ms`: replaces the truck's snapshot, appends the frame to
    /// its history (evicting the oldest frame when full), runs the
    /// classifier over the history at the frame's timestamp and remembers
    /// the active conditions.
    ///
    /// `fuel_spread_exceeded` is the caller's `f32` verdict on the extremes
    /// that `fuel_extremes_after(&telemetry)` reported just before this call.
    ///
    /// Returns the updates to publish, in order: the frame itself, then one
    /// health event per condition that was not active before, in wire order.
    pub fn apply_telemetry(&mut self, telemetry: Telemetry, received_at_ms: u64, fuel_spread_exceeded: bool)
        -> (updates: Vec<FleetUpdate>)
        ensures
            final(self)@ == old(self)@.insert(
                telemetry.truck_id@,
                TruckView {
                    snapshot: TruckSnapshot { telemetry: telemetry, received_at_ms: received_at_ms },
                    history: next_history(old(self)@, telemetry),
                    alerts: next_alerts(old(self)@, telemetry, fuel_spread_exceeded),
                },
            ),
            updates@.len() == 1 + newly_active(old(self)@, telemetry, fuel_spread_exceeded).len(),
            updates@[0] == (FleetUpdate { payload: Some(Payload::Telemetry(telemetry)) }),
            forall|i: int|
                0 <= i < newly_active(old(self)@, telemetry, fuel_spread_exceeded).len()
                    ==> is_health_update(
                    #[trigger] updates@[i + 1],
                    telemetry.truck_id@,
                    telemetry.ts_unix_ms,
                    newly_active(old(self)@, telemetry, fuel_spread_exceeded)[i],
                ),
    {
        proof {
            use_type_invariant(&*self);
        }
        let ghost m = self@;
        let ghost id = telemetry.truck_id@;
        let mut fleet = fleet_map_new();
        std::mem::swap(&mut fleet, &mut self.fleet);
        let ghost recs = fleet_records(fleet);
        assert(m == recs.map_values(|r: TruckRecord| record_view(r)));
        let prev = fleet_map_remove(&mut fleet, telemetry.truck_id.as_str());
        let (mut history, prev_alerts) = match prev {
            Some(rec) => (rec.history, rec.alerts),
            None => (VecDeque::with_capacity(HISTORY_CAPACITY), AlertSet::new()),
        };
        assert(history@ == prior_history(m, id));
        assert(prev_alerts@ == prior_alerts(m, id));
        push_bounded(&mut history, telemetry.clone());
        let samples = deque_to_vec(&history);
        let active = classify(samples.as_slice(), telemetry.ts_unix_ms, fuel_spread_exceeded);
        let new_kinds = active.difference(&prev_alerts);
        let truck_id = telemetry.truck_id.clone();
        let record = TruckRecord {
            truck_id: telemetry.truck_id.clone(),
            snapshot: TruckSnapshot { telemetry: telemetry.clone(), received_at_ms },
            history,
            alerts: active,
        };
        proof {
            assert forall|i: int| 0 <= i < record.history@.len() implies (#[trigger] record.history@[i]).truck_id@ == id by {
                if i < record.history@.len() - 1 && recs.dom().contains(id) {
                    let h = prior_history(m, id);
                    assert(record_wf(recs[id]));
                    if h.len() >= HISTORY_CAPACITY {
                        assert(record.history@[i] == h[i + 1]);
                    } else {
                        assert(record.history@[i] == h[i]);
                    }
                }
            }
            assert(record_wf(record));
        }
        let ghost rv = record_view(record);
        fleet_map_insert(&mut fleet, telemetry.truck_id.clone(), record);
        proof {
            assert(fleet_records(fleet) == recs.remove(id).insert(id, record));
            assert forall|k: Seq<char>| #[trigger] fleet_records(fleet).dom().contains(k) implies record_wf(
                fleet_records(fleet)[k],
            ) && fleet_records(fleet)[k].truck_id@ == k by {
                if k != id {
                    assert(recs.dom().contains(k));
                }
            }
        }
        std::mem::swap(&mut fleet, &mut self.fleet);
        proof {
            assert(self@ =~= m.insert(id, rv));
        }
        let ts = telemetry.ts_unix_ms;
        let mut updates: Vec<FleetUpdate> = Vec::new();
        updates.push(FleetUpdate { payload: Some(Payload::Telemetry(telemetry)) });
        health_updates(&truck_id, ts, &new_kinds, &mut updates);
        proof {
            assert(new_kinds@ == newly_active(m, telemetry, fuel_spread_exceeded));
            assert forall|i: int| 0 <= i < new_kinds@.len() implies is_health_update(
                #[trigger] updates@[i + 1],
                id,
                ts,
                new_kinds@[i],
            ) by {
                assert(updates@[1 + i] == updates@[i + 1]);
            }
        }
        updates
    }
}

impl Default for AppState {
    fn default() -> (s: AppState)
        ensures
            s@ == Map::<Seq<char>, TruckView>::empty(),
    {
        AppState::new()
    }
}

// ---------------------------------------------------------------------------
// Laws of the store.

/// The history a truck has after the frames `frames`, in order.
pub open spec fn history_after(frames: Seq<Telemetry>) -> Seq<Telemetry>
    decreases frames.len(),
{
    if frames.len() == 0 {
        Seq::empty()
    } else {
        pushed_history(history_after(frames.drop_last()), frames.last())
    }
}

/// The history is a ring buffer: after any sequence of frames it holds the
/// latest `HISTORY_CAPACITY` of them (all of them when there are fewer),
/// oldest first.
pub proof fn lemma_history_keeps_latest(frames: Seq<Telemetry>)
    ensures
        history_after(frames) == frames.skip(
            if frames.len() > HISTORY_CAPACITY { frames.len() - HISTORY_CAPACITY } else { 0 },
        ),
        history_after(frames).len() <= HISTORY_CAPACITY,
    decreases frames.len(),
{
    if frames.len() > 0 {
        let prev = frames.drop_last();
        lemma_history_keeps_latest(prev);
        let n = frames.len();
        if n - 1 > HISTORY_CAPACITY {
            assert(history_after(prev).drop_first().push(frames.last()) =~= frames.skip(n - HISTORY_CAPACITY));
        } else if n - 1 == HISTORY_CAPACITY {
            assert(history_after(prev).drop_first().push(frames.last()) =~= frames.skip(n - HISTORY_CAPACITY));
        } else {
            assert(history_after(prev).push(frames.last()) =~= frames.skip(0));
        }
    } else {
        assert(frames.skip(0) =~= Seq::<Telemetry>::empty());
    }
}

/// Only transitions are announced: the health events published for a frame
/// are, each once, exactly the conditions active after it that were not
/// active before it.
pub proof fn lemma_announced_are_transitions(m: Map<Seq<char>, TruckView>, t: Telemetry, fuel_spread_exceeded: bool)
    ensures
        newly_active(m, t, fuel_spread_exceeded).no_duplicates(),
        forall|k: HealthKind|
            #[trigger] newly_active(m, t, fuel_spread_exceeded).contains(k) <==> (next_alerts(
                m,
                t,
                fuel_spread_exceeded,
            ).contains(k) && !prior_alerts(m, t.truck_id@).contains(k)),
{
    lemma_in_wire_order(next_alerts(m, t, fuel_spread_exceeded).difference(prior_alerts(m, t.truck_id@)));
}

/// The conditions remembered for a truck after a frame are exactly those
/// the classifier raises over its new history at the frame's timestamp:
/// a condition active before the frame stays active only if the classifier
/// raises it again, and one is announced exactly when the classifier raises
/// it and it was not active before.
pub proof fn lemma_alerts_follow_classifier(m: Map<Seq<char>, TruckView>, t: Telemetry, fuel_spread_exceeded: bool)
    ensures
        next_alerts(m, t, fuel_spread_exceeded) == classify_spec(
            pushed_history(prior_history(m, t.truck_id@), t),
            t.ts_unix_ms as int,
            fuel_spread_exceeded,
        ),
        forall|k: HealthKind|
            prior_alerts(m, t.truck_id@).contains(k) && !classify_spec(
                pushed_history(prior_history(m, t.truck_id@), t),
                t.ts_unix_ms as int,
                fuel_spread_exceeded,
            ).contains(k) ==> !#[trigger] next_alerts(m, t, fuel_spread_exceeded).contains(k),
        forall|k: HealthKind|
            #[trigger] newly_active(m, t, fuel_spread_exceeded).contains(k) <==> (classify_spec(
                pushed_history(prior_history(m, t.truck_id@), t),
                t.ts_unix_ms as int,
                fuel_spread_exceeded,
            ).contains(k) && !prior_alerts(m, t.truck_id@).contains(k)),
{
    lemma_announced_are_transitions(m, t, fuel_spread_exceeded);
}

/// A condition that one frame clears and the next frame of the same truck
/// raises again is announced again by that next frame.
pub proof fn lemma_cleared_condition_announced_again(
    m: Map<Seq<char>, TruckView>,
    first: Telemetry,
    first_received_at_ms: u64,
    first_fuel_spread_exceeded: bool,
    second: Telemetry,
    second_fuel_spread_exceeded: bool,
    k: HealthKind,
)
    requires
        second.truck_id@ == first.truck_id@,
        !classify_spec(
            pushed_history(prior_history(m, first.truck_id@), first),
            first.ts_unix_ms as int,
            first_fuel_spread_exceeded,
        ).contains(k),
        classify_spec(
            pushed_history(pushed_history(prior_history(m, first.truck_id@), first), second),
            second.ts_unix_ms as int,
            second_fuel_spread_exceeded,
        ).contains(k),
    ensures
        ({
            let after_first = m.insert(
                first.truck_id@,
                TruckView {
                    snapshot: TruckSnapshot { telemetry: first, received_at_ms: first_received_at_ms },
                    history: next_history(m, first),
                    alerts: next_alerts(m, first, first_fuel_spread_exceeded),
                },
            );
            newly_active(after_first, second, second_fuel_spread_exceeded).contains(k)
        }),
{
    let after_first = m.insert(
        first.truck_id@,
        TruckView {
            snapshot: TruckSnapshot { telemetry: first, received_at_ms: first_received_at_ms },
            history: next_history(m, first),
            alerts: next_alerts(m, first, first_fuel_spread_exceeded),
        },
    );
    assert(prior_history(after_first, second.truck_id@) == next_history(m, first));
    assert(prior_alerts(after_first, second.truck_id@) == next_alerts(m, first, first_fuel_spread_exceeded));
    lemma_alerts_follow_classifier(after_first, second, second_fuel_spread_exceeded);
}

/// The history endpoint returns exactly the frames stamped at or after the
/// bound, and the whole history when every frame is.
pub proof fn lemma_frames_since(h: Seq<Telemetry>, since_ms: i64)
    ensures
        forall|x: Telemetry| #[trigger] frames_since(h, since_ms).contains(x) <==> (h.contains(x)
            && x.ts_unix_ms >= since_ms),
        (forall|i: int| 0 <= i < h.len() ==> (#[trigger] h[i]).ts_unix_ms >= since_ms) ==> frames_since(h, since_ms) == h,
    decreases h.len(),
{
    if h.len() > 0 {
        let p = h.drop_last();
        lemma_frames_since(p, since_ms);
        let r = frames_since(h, since_ms);
        let rp = frames_since(p, since_ms);
        assert(h =~= p.push(h.last()));
        assert forall|x: Telemetry| #[trigger] r.contains(x) <==> (h.contains(x) && x.ts_unix_ms >= since_ms) by {
            if r.contains(x) {
                let j = choose|j: int| 0 <= j < r.len() && r[j] == x;
                if j < rp.len() {
                    assert(rp.contains(x));
                    let i = choose|i: int| 0 <= i < p.len() && p[i] == x;
                    assert(h[i] == x);
                } else {
                    assert(h[h.len() - 1] == x);
                }
            }
            if h.contains(x) && x.ts_unix_ms >= since_ms {
                let i = choose|i: int| 0 <= i < h.len() && h[i] == x;
                if i < h.len() - 1 {
                    assert(p[i] == x);
                    assert(rp.contains(x));
                    let j = choose|j: int| 0 <= j < rp.len() && rp[j] == x;
                    assert(r[j] == x);
                } else {
                    assert(r[r.len() - 1] == x);
                }
            }
        }
        if forall|i: int| 0 <= i < h.len() ==> (#[trigger] h[i]).ts_unix_ms >= since_ms {
            assert forall|i: int| 0 <= i < p.len() implies (#[trigger] p[i]).ts_unix_ms >= since_ms by {
                assert(p[i] == h[i]);
            }
            assert(h.last() == h[h.len() - 1]);
        }
    }
}

/// Inserting by timestamp keeps a sequence in ascending order, adds
/// exactly the inserted frame and loses none.
pub proof fn lemma_insert_by_ts(s: Seq<Telemetry>, t: Telemetry)
    requires
        ts_ascending(s),
    ensures
        ts_ascending(insert_by_ts(s, t)),
        insert_by_ts(s, t).len() == s.len() + 1,
        forall|x: Telemetry| #[trigger] insert_by_ts(s, t).contains(x) <==> (s.contains(x) || x == t),
    decreases s.len(),
{
    let r = insert_by_ts(s, t);
    if s.len() == 0 {
        assert(r[0] == t);
    } else if s.last().ts_unix_ms <= t.ts_unix_ms {
        assert(r =~= s.push(t));
        assert forall|x: Telemetry| #[trigger] r.contains(x) <==> (s.contains(x) || x == t) by {
            if r.contains(x) {
                let j = choose|j: int| 0 <= j < r.len() && r[j] == x;
                if j < s.len() {
                    assert(s[j] == x);
                }
            }
            if s.contains(x) {
                let j = choose|j: int| 0 <= j < s.len() && s[j] == x;
                assert(r[j] == x);
            }
            if x == t {
                assert(r[s.len() as int] == x);
            }
        }
        assert forall|i: int, j: int| 0 <= i <= j < r.len() implies (#[trigger] r[i]).ts_unix_ms <= (#[trigger] r[j]).ts_unix_ms by {
            if j == s.len() {
                if i < s.len() {
                    assert(s[i].ts_unix_ms <= s[s.len() - 1].ts_unix_ms);
                }
            }
        }
    } else {
        let d = s.drop_last();
        let last = s.last();
        assert(ts_ascending(d)) by {
            assert forall|i: int, j: int| 0 <= i <= j < d.len() implies (#[trigger] d[i]).ts_unix_ms <= (#[trigger] d[j]).ts_unix_ms by {
                assert(d[i] == s[i] && d[j] == s[j]);
            }
        }
        lemma_insert_by_ts(d, t);
        let q = insert_by_ts(d, t);
        assert(r == q.push(last));
        assert(s =~= d.push(last));
        assert forall|x: Telemetry| #[trigger] r.contains(x) <==> (s.contains(x) || x == t) by {
            if r.contains(x) {
                let j = choose|j: int| 0 <= j < r.len() && r[j] == x;
                if j < q.len() {
                    assert(q[j] == x);
                    assert(q.contains(x));
                    if d.contains(x) {
                        let k = choose|k: int| 0 <= k < d.len() && d[k] == x;
                        assert(s[k] == x);
                    }
                } else {
                    assert(s[s.len() - 1] == x);
                }
            }
            if s.contains(x) {
                let k = choose|k: int| 0 <= k < s.len() && s[k] == x;
                if k < d.len() {
                    assert(d[k] == x);
                    assert(q.contains(x));
                    let j = choose|j: int| 0 <= j < q.len() && q[j] == x;
                    assert(r[j] == x);
                } else {
                    assert(r[q.len() as int] == x);
                }
            }
            if x == t {
                assert(q.contains(t));
                let j = choose|j: int| 0 <= j < q.len() && q[j] == t;
                assert(r[j] == x);
            }
        }
        assert forall|i: int, j: int| 0 <= i <= j < r.len() implies (#[trigger] r[i]).ts_unix_ms <= (#[trigger] r[j]).ts_unix_ms by {
            if j == q.len() && i < q.len() {
                let y = q[i];
                assert(q.contains(y));
                if y == t {
                } else {
                    assert(d.contains(y));
                    let k = choose|k: int| 0 <= k < d.len() && d[k] == y;
                    assert(s[k] == y);
                    assert(s[k].ts_unix_ms <= s[s.len() - 1].ts_unix_ms);
                }
            } else if j < q.len() {
                assert(r[i] == q[i] && r[j] == q[j]);
            }
        }
    }
}

/// The history endpoint's order: the sorted frames are in ascending
/// timestamp order and are exactly the given frames.
pub proof fn lemma_sort_by_ts(h: Seq<Telemetry>)
    ensures
        ts_ascending(sort_by_ts(h)),
        sort_by_ts(h).len() == h.len(),
        forall|x: Telemetry| #[trigger] sort_by_ts(h).contains(x) <==> h.contains(x),
    decreases h.len(),
{
    if h.len() > 0 {
        let d = h.drop_last();
        lemma_sort_by_ts(d);
        lemma_insert_by_ts(sort_by_ts(d), h.last());
        assert(h =~= d.push(h.last()));
        assert forall|x: Telemetry| #[trigger] sort_by_ts(h).contains(x) <==> h.contains(x) by {
            if h.contains(x) {
                let k = choose|k: int| 0 <= k < h.len() && h[k] == x;
                if k < d.len() {
                    assert(d[k] == x);
                }
            }
            if d.contains(x) {
                let k = choose|k: int| 0 <= k < d.len() && d[k] == x;
                assert(h[k] == x);
            }
        }
    }
}

/// Frames that arrive in timestamp order are returned in arrival order.
pub proof fn lemma_sort_by_ts_ordered(h: Seq<Telemetry>)
    requires
        ts_ascending(h),
    ensures
        sort_by_ts(h) == h,
    decreases h.len(),
{
    if h.len() > 0 {
        let d = h.drop_last();
        assert(ts_ascending(d)) by {
            assert forall|i: int, j: int| 0 <= i <= j < d.len() implies (#[trigger] d[i]).ts_unix_ms <= (#[trigger] d[j]).ts_unix_ms by {
                assert(d[i] == h[i] && d[j] == h[j]);
            }
        }
        lemma_sort_by_ts_ordered(d);
        if d.len() > 0 {
            assert(d.last() == h[h.len() - 2]);
        }
        assert(d.push(h.last()) =~= h);
    }
}

} // verus!
