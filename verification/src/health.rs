//! Rule-based health classifier.
//!
//! `classify` is a pure function over a window of telemetry samples (meant
//! to be sorted ascending by `ts_unix_ms`). It returns the set of health
//! conditions that are active for the truck; deciding which of them are new
//! is the fleet store's job.
//!
//! Every rule works on integers and on the order of float bit patterns. The
//! fuel rule needs one float subtraction (the spread between the highest
//! and lowest fuel reading of the last minute); the library finds those two
//! readings (`fuel_window_extremes`) and takes the caller's verdict on their
//! spread as `fuel_spread_exceeded`.

use vstd::prelude::*;
use crate::floatbits::{f64_greater, f64_gt, f32_nan, f32_key, f32_is_nan, f32_order_key, F32_MIN_BITS, F32_MAX_BITS};
use crate::proto::{HealthKind, LoadStatus, Telemetry, TruckState};

verus! {

/// RPM above which the engine is over-revving.
pub const OVER_REV_RPM: u32 = 2200;

/// How long over-revving must last before it is raised.
pub const OVER_REV_MIN_DURATION_MS: i64 = 5_000;

/// Bit pattern of the `f64` speed limit for a loaded truck, 40 km/h.
pub const UNSAFE_SPEED_KMH_BITS: u64 = 0x4044_0000_0000_0000;

/// How long unsafe speed under load must last before it is raised.
pub const UNSAFE_SPEED_MIN_DURATION_MS: i64 = 3_000;

/// Idle time beyond which a truck is reported as excessively idle.
pub const EXCESSIVE_IDLE_MS: i64 = 10 * 60 * 1_000;

/// Length of the window, ending at the latest sample, of the fuel rule.
pub const FUEL_WINDOW_MS: i64 = 60 * 1_000;

/// Bit pattern of the `f32` fuel spread (0.05) beyond which a fuel anomaly
/// is raised.
pub const FUEL_DROP_PCT_BITS: u32 = 0x3D4C_CCCD;

/// Age of the latest GPS fix beyond which GPS is stale.
pub const GPS_STALE_MS: i64 = 10_000;

/// Silence beyond which a truck is reported as stuck.
pub const STUCK_NO_TELEMETRY_MS: i64 = 2 * 60 * 1_000;

// ---------------------------------------------------------------------------
// The set of active conditions.

/// A set of health kinds.
pub struct AlertSet {
    unspecified: bool,
    over_rev: bool,
    unsafe_speed_under_load: bool,
    excessive_idle: bool,
    fuel_anomaly: bool,
    gps_stale: bool,
    stuck: bool,
    load_mismatch: bool,
}

/// The health kinds in wire order: the order in which sets are listed.
pub open spec fn all_kinds() -> Seq<HealthKind> {
    seq![
        HealthKind::Unspecified,
        HealthKind::OverRev,
        HealthKind::UnsafeSpeedUnderLoad,
        HealthKind::ExcessiveIdle,
        HealthKind::FuelAnomaly,
        HealthKind::GpsStale,
        HealthKind::Stuck,
        HealthKind::LoadMismatch,
    ]
}

pub open spec fn pick(set: Set<HealthKind>, k: HealthKind) -> Seq<HealthKind> {
    if set.contains(k) {
        seq![k]
    } else {
        Seq::empty()
    }
}

/// The members of `set` among the first `n` kinds, in wire order.
pub open spec fn listed(set: Set<HealthKind>, n: nat) -> Seq<HealthKind>
    decreases n,
{
    if n == 0 {
        Seq::empty()
    } else {
        listed(set, (n - 1) as nat) + pick(set, all_kinds()[n - 1])
    }
}

/// The members of `set`, listed in wire order.
pub open spec fn in_wire_order(set: Set<HealthKind>) -> Seq<HealthKind> {
    listed(set, 8)
}

impl View for AlertSet {
    type V = Set<HealthKind>;

    closed spec fn view(&self) -> Set<HealthKind> {
        Set::new(|k: HealthKind| self.has(k))
    }
}

impl AlertSet {
    pub closed spec fn has(self, k: HealthKind) -> bool {
        match k {
            HealthKind::Unspecified => self.unspecified,
            HealthKind::OverRev => self.over_rev,
            HealthKind::UnsafeSpeedUnderLoad => self.unsafe_speed_under_load,
            HealthKind::ExcessiveIdle => self.excessive_idle,
            HealthKind::FuelAnomaly => self.fuel_anomaly,
            HealthKind::GpsStale => self.gps_stale,
            HealthKind::Stuck => self.stuck,
            HealthKind::LoadMismatch => self.load_mismatch,
        }
    }

    /// The empty set.
    pub fn new() -> (s: AlertSet)
        ensures
            s@ == Set::<HealthKind>::empty(),
    {
        let s = AlertSet {
            unspecified: false,
            over_rev: false,
            unsafe_speed_under_load: false,
            excessive_idle: false,
            fuel_anomaly: false,
            gps_stale: false,
            stuck: false,
            load_mismatch: false,
        };
        assert(s@ =~= Set::<HealthKind>::empty());
        s
    }

    /// Adds `k` to the set.
    pub fn insert(&mut self, k: HealthKind)
        ensures
            final(self)@ == old(self)@.insert(k),
    {
        match k {
            HealthKind::Unspecified => self.unspecified = true,
            HealthKind::OverRev => self.over_rev = true,
            HealthKind::UnsafeSpeedUnderLoad => self.unsafe_speed_under_load = true,
            HealthKind::ExcessiveIdle => self.excessive_idle = true,
            HealthKind::FuelAnomaly => self.fuel_anomaly = true,
            HealthKind::GpsStale => self.gps_stale = true,
            HealthKind::Stuck => self.stuck = true,
            HealthKind::LoadMismatch => self.load_mismatch = true,
        }
        assert(self@ =~= old(self)@.insert(k));
    }

    /// Whether `k` is in the set.
    pub fn contains(&self, k: &HealthKind) -> (r: bool)
        ensures
            r == self@.contains(*k),
    {
        match *k {
            HealthKind::Unspecified => self.unspecified,
            HealthKind::OverRev => self.over_rev,
            HealthKind::UnsafeSpeedUnderLoad => self.unsafe_speed_under_load,
            HealthKind::ExcessiveIdle => self.excessive_idle,
            HealthKind::FuelAnomaly => self.fuel_anomaly,
            HealthKind::GpsStale => self.gps_stale,
            HealthKind::Stuck => self.stuck,
            HealthKind::LoadMismatch => self.load_mismatch,
        }
    }

    /// Whether the set is empty.
    pub fn is_empty(&self) -> (r: bool)
        ensures
            r == (self@ == Set::<HealthKind>::empty()),
    {
        let r = !(self.unspecified || self.over_rev || self.unsafe_speed_under_load
            || self.excessive_idle || self.fuel_anomaly || self.gps_stale || self.stuck
            || self.load_mismatch);
        proof {
            if r {
                assert(self@ =~= Set::<HealthKind>::empty());
            } else {
                let k = if self.unspecified {
                    HealthKind::Unspecified
                } else if self.over_rev {
                    HealthKind::OverRev
                } else if self.unsafe_speed_under_load {
                    HealthKind::UnsafeSpeedUnderLoad
                } else if self.excessive_idle {
                    HealthKind::ExcessiveIdle
                } else if self.fuel_anomaly {
                    HealthKind::FuelAnomaly
                } else if self.gps_stale {
                    HealthKind::GpsStale
                } else if self.stuck {
                    HealthKind::Stuck
                } else {
                    HealthKind::LoadMismatch
                };
                assert(self@.contains(k));
                assert(!Set::<HealthKind>::empty().contains(k));
            }
        }
        r
    }

    /// A copy of the set.
    pub fn copy(&self) -> (r: AlertSet)
        ensures
            r@ == self@,
    {
        AlertSet {
            unspecified: self.unspecified,
            over_rev: self.over_rev,
            unsafe_speed_under_load: self.unsafe_speed_under_load,
            excessive_idle: self.excessive_idle,
            fuel_anomaly: self.fuel_anomaly,
            gps_stale: self.gps_stale,
            stuck: self.stuck,
            load_mismatch: self.load_mismatch,
        }
    }

    /// The members of `self` that are not in `other`, in wire order.
    #[verifier::rlimit(40)]
    pub fn difference(&self, other: &AlertSet) -> (r: Vec<HealthKind>)
        ensures
            r@ == in_wire_order(self@.difference(other@)),
    {
        let mut r: Vec<HealthKind> = Vec::new();
        push_if(&mut r, self.unspecified && !other.unspecified, HealthKind::Unspecified);
        push_if(&mut r, self.over_rev && !other.over_rev, HealthKind::OverRev);
        push_if(
            &mut r,
            self.unsafe_speed_under_load && !other.unsafe_speed_under_load,
            HealthKind::UnsafeSpeedUnderLoad,
        );
        push_if(&mut r, self.excessive_idle && !other.excessive_idle, HealthKind::ExcessiveIdle);
        push_if(&mut r, self.fuel_anomaly && !other.fuel_anomaly, HealthKind::FuelAnomaly);
        push_if(&mut r, self.gps_stale && !other.gps_stale, HealthKind::GpsStale);
        push_if(&mut r, self.stuck && !other.stuck, HealthKind::Stuck);
        push_if(&mut r, self.load_mismatch && !other.load_mismatch, HealthKind::LoadMismatch);
        proof {
            let d = self@.difference(other@);
            assert forall|k: HealthKind| d.contains(k) == (self.has(k) && !other.has(k)) by {}
            reveal_with_fuel(listed, 9);
            assert(r@ =~= in_wire_order(d));
        }
        r
    }
}

fn push_if(r: &mut Vec<HealthKind>, cond: bool, k: HealthKind)
    ensures
        final(r)@ == old(r)@ + (if cond { seq![k] } else { Seq::<HealthKind>::empty() }),
{
    if cond {
        r.push(k);
    }
    assert(r@ =~= old(r)@ + (if cond { seq![k] } else { Seq::<HealthKind>::empty() }));
}

// ---------------------------------------------------------------------------
// The rules, stated over the sequence of samples.

/// The two rules that must hold continuously for a while.
#[derive(Clone, Copy, Debug, PartialEq, Eq, Structural)]
pub enum SustainedRule {
    /// Engine RPM above `OVER_REV_RPM`.
    OverRev,
    /// Speed above 40 km/h while the truck reports being loaded.
    UnsafeSpeedUnderLoad,
}

pub open spec fn rule_holds(rule: SustainedRule, t: Telemetry) -> bool {
    match rule {
        SustainedRule::OverRev => t.rpm > OVER_REV_RPM,
        SustainedRule::UnsafeSpeedUnderLoad => f64_greater(t.speed_kmh_bits, UNSAFE_SPEED_KMH_BITS)
            && t.load == LoadStatus::Loaded.code_of(),
    }
}

/// Index of the first sample of the run of consecutive samples satisfying
/// `rule` that ends at `j` (or `j` itself when the previous sample breaks it).
pub open spec fn run_start(s: Seq<Telemetry>, rule: SustainedRule, j: int) -> int
    decreases j,
{
    if j > 0 && rule_holds(rule, s[j - 1]) {
        run_start(s, rule, j - 1)
    } else {
        j
    }
}

/// Sample `j` satisfies `rule`, and the run it ends began at least
/// `min_ms` of telemetry time before it.
pub open spec fn sustained_at(s: Seq<Telemetry>, rule: SustainedRule, min_ms: int, j: int) -> bool {
    &&& 0 <= j < s.len()
    &&& rule_holds(rule, s[j])
    &&& s[j].ts_unix_ms - s[run_start(s, rule, j)].ts_unix_ms >= min_ms
}

pub open spec fn sustained_spec(s: Seq<Telemetry>, rule: SustainedRule, min_ms: int) -> bool {
    exists|j: int| #[trigger] sustained_at(s, rule, min_ms, j)
}

pub open spec fn is_idle(t: Telemetry) -> bool {
    t.state == TruckState::Idle.code_of()
}

/// Index of the last sample among the first `n` whose idleness is `idle`,
/// or -1 when there is none.
pub open spec fn last_with_idleness(s: Seq<Telemetry>, idle: bool, n: int) -> int
    decreases n,
{
    if n <= 0 {
        -1
    } else if is_idle(s[n - 1]) == idle {
        n - 1
    } else {
        last_with_idleness(s, idle, n - 1)
    }
}

/// When the truck's current idle spell began: the latest non-idle sample,
/// or the first sample when every sample is idle.
pub open spec fn idle_since(s: Seq<Telemetry>) -> int {
    let non_idle = last_with_idleness(s, false, s.len() as int);
    if non_idle < 0 {
        s[0].ts_unix_ms as int
    } else {
        s[non_idle].ts_unix_ms as int
    }
}

/// The truck is still idle (its latest sample is idle) and has been for
/// more than `EXCESSIVE_IDLE_MS`.
pub open spec fn excessive_idle_spec(s: Seq<Telemetry>, now_ms: int) -> bool {
    &&& s.len() > 0
    &&& is_idle(s[s.len() - 1])
    &&& now_ms - idle_since(s) > EXCESSIVE_IDLE_MS
}

/// Timestamp of the latest sample, 0 for an empty window.
pub open spec fn last_ts(s: Seq<Telemetry>) -> int {
    if s.len() == 0 {
        0
    } else {
        s[s.len() - 1].ts_unix_ms as int
    }
}

/// Samples at or after this time make up the fuel window.
pub open spec fn fuel_cutoff(s: Seq<Telemetry>) -> int {
    last_ts(s) - FUEL_WINDOW_MS
}

/// The larger of two `f32` readings as `f32::max` picks it: a NaN gives way
/// to the other argument.
pub open spec fn f32_max_bits(acc: u32, v: u32) -> u32 {
    if f32_nan(v) {
        acc
    } else if f32_nan(acc) {
        v
    } else if f32_key(v) > f32_key(acc) {
        v
    } else {
        acc
    }
}

/// The smaller of two `f32` readings as `f32::min` picks it.
pub open spec fn f32_min_bits(acc: u32, v: u32) -> u32 {
    if f32_nan(v) {
        acc
    } else if f32_nan(acc) {
        v
    } else if f32_key(v) < f32_key(acc) {
        v
    } else {
        acc
    }
}

/// Number of samples among the first `n` that are in the fuel window.
pub open spec fn fuel_count(s: Seq<Telemetry>, cutoff: int, n: int) -> nat
    decreases n,
{
    if n <= 0 {
        0
    } else if s[n - 1].ts_unix_ms >= cutoff {
        fuel_count(s, cutoff, n - 1) + 1
    } else {
        fuel_count(s, cutoff, n - 1)
    }
}

/// Fold of `f32_max_bits` from `f32::MIN` over the window readings among
/// the first `n` samples.
pub open spec fn fuel_high(s: Seq<Telemetry>, cutoff: int, n: int) -> u32
    decreases n,
{
    if n <= 0 {
        F32_MIN_BITS
    } else if s[n - 1].ts_unix_ms >= cutoff {
        f32_max_bits(fuel_high(s, cutoff, n - 1), s[n - 1].fuel_pct_bits)
    } else {
        fuel_high(s, cutoff, n - 1)
    }
}

/// Fold of `f32_min_bits` from `f32::MAX` over the window readings among
/// the first `n` samples.
pub open spec fn fuel_low(s: Seq<Telemetry>, cutoff: int, n: int) -> u32
    decreases n,
{
    if n <= 0 {
        F32_MAX_BITS
    } else if s[n - 1].ts_unix_ms >= cutoff {
        f32_min_bits(fuel_low(s, cutoff, n - 1), s[n - 1].fuel_pct_bits)
    } else {
        fuel_low(s, cutoff, n - 1)
    }
}

/// The highest and lowest fuel readings of the fuel window.
#[derive(Clone, Copy, Debug, PartialEq, Eq, Structural)]
pub struct FuelExtremes {
    pub high_bits: u32,
    pub low_bits: u32,
}

/// The extremes of the fuel window, when it holds at least two samples.
pub open spec fn fuel_extremes_spec(s: Seq<Telemetry>) -> Option<FuelExtremes> {
    let c = fuel_cutoff(s);
    let n = s.len() as int;
    if fuel_count(s, c, n) < 2 {
        None
    } else {
        Some(FuelExtremes { high_bits: fuel_high(s, c, n), low_bits: fuel_low(s, c, n) })
    }
}

/// Index of the last sample among the first `n` that has a GPS fix, or -1.
pub open spec fn last_with_fix(s: Seq<Telemetry>, n: int) -> int
    decreases n,
{
    if n <= 0 {
        -1
    } else if s[n - 1].gps is Some {
        n - 1
    } else {
        last_with_fix(s, n - 1)
    }
}

pub open spec fn gps_stale_spec(s: Seq<Telemetry>, now_ms: int) -> bool {
    let i = last_with_fix(s, s.len() as int);
    i < 0 || now_ms - s[i].ts_unix_ms > GPS_STALE_MS
}

pub open spec fn stuck_spec(s: Seq<Telemetry>, now_ms: int) -> bool {
    now_ms - last_ts(s) > STUCK_NO_TELEMETRY_MS
}

/// Loaded while returning, or empty while hauling.
pub open spec fn load_disagrees(t: Telemetry) -> bool {
    ||| t.state == TruckState::Hauling.code_of() && t.load == LoadStatus::Empty.code_of()
    ||| t.state == TruckState::Returning.code_of() && t.load == LoadStatus::Loaded.code_of()
}

/// One of the latest three samples disagrees about its load.
pub open spec fn load_mismatch_spec(s: Seq<Telemetry>) -> bool {
    exists|i: int| s.len() - 3 <= i < s.len() && 0 <= i && #[trigger] load_disagrees(s[i])
}

/// Whether rule `k` is raised by `s` at `now_ms`, the fuel verdict being
/// `fuel_spread_exceeded`.
pub open spec fn raised(s: Seq<Telemetry>, now_ms: int, fuel_spread_exceeded: bool, k: HealthKind) -> bool {
    match k {
        HealthKind::Unspecified => false,
        HealthKind::OverRev => sustained_spec(s, SustainedRule::OverRev, OVER_REV_MIN_DURATION_MS as int),
        HealthKind::UnsafeSpeedUnderLoad => sustained_spec(
            s,
            SustainedRule::UnsafeSpeedUnderLoad,
            UNSAFE_SPEED_MIN_DURATION_MS as int,
        ),
        HealthKind::ExcessiveIdle => excessive_idle_spec(s, now_ms),
        HealthKind::FuelAnomaly => fuel_extremes_spec(s) is Some && fuel_spread_exceeded,
        HealthKind::GpsStale => gps_stale_spec(s, now_ms),
        HealthKind::Stuck => stuck_spec(s, now_ms),
        HealthKind::LoadMismatch => load_mismatch_spec(s),
    }
}

/// The active conditions for the window `s` at `now_ms`: none for an empty
/// window, else every raised rule.
pub open spec fn classify_spec(s: Seq<Telemetry>, now_ms: int, fuel_spread_exceeded: bool) -> Set<HealthKind> {
    Set::new(|k: HealthKind| s.len() > 0 && raised(s, now_ms, fuel_spread_exceeded, k))
}

// ---------------------------------------------------------------------------
// The executable rules.

fn rule_holds_exec(rule: SustainedRule, t: &Telemetry) -> (r: bool)
    ensures
        r == rule_holds(rule, *t),
{
    match rule {
        SustainedRule::OverRev => t.rpm > OVER_REV_RPM,
        SustainedRule::UnsafeSpeedUnderLoad => f64_gt(t.speed_kmh_bits, UNSAFE_SPEED_KMH_BITS)
            && t.load == LoadStatus::Loaded.as_i32(),
    }
}

/// True iff the rule is continuously satisfied across a run of consecutive
/// samples spanning at least `min_ms` of telemetry time.
fn sustained(samples: &[Telemetry], min_ms: i64, rule: SustainedRule) -> (r: bool)
    ensures
        r == sustained_spec(samples@, rule, min_ms as int),
{
    let ghost s = samples@;
    let mut run_start_ts: Option<i64> = None;
    let mut i: usize = 0;
    while i < samples.len()
        invariant
            s == samples@,
            0 <= i <= s.len(),
            forall|j: int| 0 <= j < i ==> !#[trigger] sustained_at(s, rule, min_ms as int, j),
            run_start_ts == (if i > 0 && rule_holds(rule, s[i - 1]) {
                Some(s[run_start(s, rule, i - 1)].ts_unix_ms)
            } else {
                None::<i64>
            }),
        decreases s.len() - i,
    {
        let t = &samples[i];
        if rule_holds_exec(rule, t) {
            let start = match run_start_ts {
                Some(x) => x,
                None => {
                    run_start_ts = Some(t.ts_unix_ms);
                    t.ts_unix_ms
                },
            };
            assert(start == s[run_start(s, rule, i as int)].ts_unix_ms);
            if (t.ts_unix_ms as i128) - (start as i128) >= min_ms as i128 {
                assert(sustained_at(s, rule, min_ms as int, i as int));
                return true;
            }
        } else {
            run_start_ts = None;
        }
        i += 1;
    }
    false
}

fn last_index_with_idleness(samples: &[Telemetry], idle: bool) -> (r: Option<usize>)
    ensures
        match r {
            Some(i) => i == last_with_idleness(samples@, idle, samples@.len() as int),
            None => last_with_idleness(samples@, idle, samples@.len() as int) == -1,
        },
        r matches Some(i) ==> i < samples@.len(),
{
    let ghost s = samples@;
    let mut n: usize = samples.len();
    while n > 0
        invariant
            s == samples@,
            n <= s.len(),
            last_with_idleness(s, idle, s.len() as int) == last_with_idleness(s, idle, n as int),
        decreases n,
    {
        if (samples[n - 1].state == TruckState::Idle.as_i32()) == idle {
            return Some(n - 1);
        }
        n -= 1;
    }
    None
}

/// Whether the truck is still idle and has been for too long: measured
/// from the most recent non-idle sample, or from the first sample when
/// every sample is idle.
fn excessive_idle(samples: &[Telemetry], now_ms: i64) -> (r: bool)
    ensures
        r == excessive_idle_spec(samples@, now_ms as int),
{
    if samples.len() == 0 || samples[samples.len() - 1].state != TruckState::Idle.as_i32() {
        return false;
    }
    let since: i64 = match last_index_with_idleness(samples, false) {
        None => samples[0].ts_unix_ms,
        Some(n) => samples[n].ts_unix_ms,
    };
    (now_ms as i128) - (since as i128) > EXCESSIVE_IDLE_MS as i128
}

fn f32_max_exec(acc: u32, v: u32) -> (r: u32)
    ensures
        r == f32_max_bits(acc, v),
{
    if f32_is_nan(v) {
        acc
    } else if f32_is_nan(acc) {
        v
    } else if f32_order_key(v) > f32_order_key(acc) {
        v
    } else {
        acc
    }
}

fn f32_min_exec(acc: u32, v: u32) -> (r: u32)
    ensures
        r == f32_min_bits(acc, v),
{
    if f32_is_nan(v) {
        acc
    } else if f32_is_nan(acc) {
        v
    } else if f32_order_key(v) < f32_order_key(acc) {
        v
    } else {
        acc
    }
}

/// The highest and lowest fuel readings among the samples of the last
/// `FUEL_WINDOW_MS` (ending at the latest sample), as `f32::max` and
/// `f32::min` folds from `f32::MIN` and `f32::MAX` find them; `None` when
/// fewer than two samples are in that window.
pub fn fuel_window_extremes(samples: &[Telemetry]) -> (r: Option<FuelExtremes>)
    ensures
        r == fuel_extremes_spec(samples@),
{
    let ghost s = samples@;
    let last: i64 = if samples.len() == 0 {
        0
    } else {
        samples[samples.len() - 1].ts_unix_ms
    };
    let cutoff: i128 = (last as i128) - (FUEL_WINDOW_MS as i128);
    assert(cutoff == fuel_cutoff(s));
    let mut count: usize = 0;
    let mut high: u32 = F32_MIN_BITS;
    let mut low: u32 = F32_MAX_BITS;
    let mut i: usize = 0;
    while i < samples.len()
        invariant
            s == samples@,
            0 <= i <= s.len(),
            cutoff == fuel_cutoff(s),
            count == fuel_count(s, cutoff as int, i as int),
            count <= i,
            high == fuel_high(s, cutoff as int, i as int),
            low == fuel_low(s, cutoff as int, i as int),
        decreases s.len() - i,
    {
        let t = &samples[i];
        if (t.ts_unix_ms as i128) >= cutoff {
            count += 1;
            high = f32_max_exec(high, t.fuel_pct_bits);
            low = f32_min_exec(low, t.fuel_pct_bits);
        }
        i += 1;
    }
    if count < 2 {
        None
    } else {
        Some(FuelExtremes { high_bits: high, low_bits: low })
    }
}

/// The fuel rule: at least two samples in the window, and the caller's
/// verdict that their spread exceeds `FUEL_DROP_PCT`.
fn fuel_anomaly(samples: &[Telemetry], fuel_spread_exceeded: bool) -> (r: bool)
    ensures
        r == (fuel_extremes_spec(samples@) is Some && fuel_spread_exceeded),
{
    fuel_window_extremes(samples).is_some() && fuel_spread_exceeded
}

/// Stale if no sample has a GPS fix, or the latest fix is more than
/// `GPS_STALE_MS` old.
fn gps_stale(samples: &[Telemetry], now_ms: i64) -> (r: bool)
    ensures
        r == gps_stale_spec(samples@, now_ms as int),
{
    let ghost s = samples@;
    let mut n: usize = samples.len();
    while n > 0
        invariant
            s == samples@,
            n <= s.len(),
            last_with_fix(s, s.len() as int) == last_with_fix(s, n as int),
        decreases n,
    {
        if samples[n - 1].gps.is_some() {
            return (now_ms as i128) - (samples[n - 1].ts_unix_ms as i128) > GPS_STALE_MS as i128;
        }
        n -= 1;
    }
    true
}

/// No new sample for more than `STUCK_NO_TELEMETRY_MS`.
fn stuck(samples: &[Telemetry], now_ms: i64) -> (r: bool)
    ensures
        r == stuck_spec(samples@, now_ms as int),
{
    let last: i64 = if samples.len() == 0 {
        0
    } else {
        samples[samples.len() - 1].ts_unix_ms
    };
    (now_ms as i128) - (last as i128) > STUCK_NO_TELEMETRY_MS as i128
}

fn load_disagrees_exec(t: &Telemetry) -> (r: bool)
    ensures
        r == load_disagrees(*t),
{
    (t.state == TruckState::Hauling.as_i32() && t.load == LoadStatus::Empty.as_i32()) || (t.state
        == TruckState::Returning.as_i32() && t.load == LoadStatus::Loaded.as_i32())
}

/// One of the latest three samples reports `Loaded` while returning or
/// `Empty` while hauling.
fn load_mismatch(samples: &[Telemetry]) -> (r: bool)
    ensures
        r == load_mismatch_spec(samples@),
{
    let ghost s = samples@;
    let len = samples.len();
    let mut n: usize = len;
    let stop: usize = if len >= 3 {
        len - 3
    } else {
        0
    };
    while n > stop
        invariant
            s == samples@,
            len == s.len(),
            stop <= n <= len,
            stop == (if len >= 3 { len - 3 } else { 0 }),
            forall|i: int| n <= i < len ==> !#[trigger] load_disagrees(s[i]),
        decreases n,
    {
        if load_disagrees_exec(&samples[n - 1]) {
            return true;
        }
        n -= 1;
    }
    false
}

/// Runs every rule over `samples` (which should be sorted ascending by
/// `ts_unix_ms`) at wall-clock `now_ms`. `fuel_spread_exceeded` is the
/// caller's verdict, in `f32` arithmetic, that the `high_bits` reading of
/// `fuel_window_extremes(samples)` minus its `low_bits` reading exceeds
/// `FUEL_DROP_PCT`.
pub fn classify(samples: &[Telemetry], now_ms: i64, fuel_spread_exceeded: bool) -> (out: AlertSet)
    ensures
        out@ == classify_spec(samples@, now_ms as int, fuel_spread_exceeded),
{
    let mut out = AlertSet::new();
    if samples.len() == 0 {
        assert(out@ =~= classify_spec(samples@, now_ms as int, fuel_spread_exceeded));
        return out;
    }
    if sustained(samples, OVER_REV_MIN_DURATION_MS, SustainedRule::OverRev) {
        out.insert(HealthKind::OverRev);
    }
    if sustained(samples, UNSAFE_SPEED_MIN_DURATION_MS, SustainedRule::UnsafeSpeedUnderLoad) {
        out.insert(HealthKind::UnsafeSpeedUnderLoad);
    }
    if excessive_idle(samples, now_ms) {
        out.insert(HealthKind::ExcessiveIdle);
    }
    if fuel_anomaly(samples, fuel_spread_exceeded) {
        out.insert(HealthKind::FuelAnomaly);
    }
    if gps_stale(samples, now_ms) {
        out.insert(HealthKind::GpsStale);
    }
    if stuck(samples, now_ms) {
        out.insert(HealthKind::Stuck);
    }
    if load_mismatch(samples) {
        out.insert(HealthKind::LoadMismatch);
    }
    assert(out@ =~= classify_spec(samples@, now_ms as int, fuel_spread_exceeded));
    out
}

// ---------------------------------------------------------------------------
// Laws of the classifier.

/// An empty window raises nothing.
pub proof fn lemma_empty_window_no_alerts(now_ms: int, fuel_spread_exceeded: bool)
    ensures
        classify_spec(Seq::<Telemetry>::empty(), now_ms, fuel_spread_exceeded) == Set::<HealthKind>::empty(),
{
    assert(classify_spec(Seq::<Telemetry>::empty(), now_ms, fuel_spread_exceeded) =~= Set::<HealthKind>::empty());
}

/// Every sample from the start of a run up to its end satisfies the rule.
proof fn lemma_run_start_run(s: Seq<Telemetry>, rule: SustainedRule, j: int)
    requires
        0 <= j < s.len(),
    ensures
        0 <= run_start(s, rule, j) <= j,
        forall|k: int| run_start(s, rule, j) <= k < j ==> rule_holds(rule, #[trigger] s[k]),
    decreases j,
{
    if j > 0 && rule_holds(rule, s[j - 1]) {
        lemma_run_start_run(s, rule, j - 1);
    }
}

/// A run ending at `j` whose samples all satisfy the rule begins no later
/// than the first of them.
proof fn lemma_run_start_reaches(s: Seq<Telemetry>, rule: SustainedRule, i: int, j: int)
    requires
        0 <= i <= j < s.len(),
        forall|k: int| i <= k < j ==> rule_holds(rule, #[trigger] s[k]),
    ensures
        run_start(s, rule, j) <= i,
    decreases j,
{
    lemma_run_start_run(s, rule, j);
    if j > i {
        assert(rule_holds(rule, s[j - 1]));
        lemma_run_start_reaches(s, rule, i, j - 1);
        assert(run_start(s, rule, j) == run_start(s, rule, j - 1));
    }
}

/// Samples ordered by timestamp.
pub open spec fn time_ordered(s: Seq<Telemetry>) -> bool {
    forall|i: int, j: int| 0 <= i <= j < s.len() ==> #[trigger] s[i].ts_unix_ms <= #[trigger] s[j].ts_unix_ms
}

/// On a time-ordered window a sustained rule is raised exactly when some
/// contiguous run of samples, all satisfying it, spans at least `min_ms`
/// of telemetry time.
pub proof fn lemma_sustained_means_contiguous_run(s: Seq<Telemetry>, rule: SustainedRule, min_ms: int)
    requires
        time_ordered(s),
    ensures
        sustained_spec(s, rule, min_ms) <==> exists|i: int, j: int|
            #![trigger s[i], s[j]]
            0 <= i <= j < s.len() && (forall|k: int| i <= k <= j ==> rule_holds(rule, #[trigger] s[k]))
                && s[j].ts_unix_ms - s[i].ts_unix_ms >= min_ms,
{
    if sustained_spec(s, rule, min_ms) {
        let j = choose|j: int| #[trigger] sustained_at(s, rule, min_ms, j);
        lemma_run_start_run(s, rule, j);
        let i = run_start(s, rule, j);
        assert(s[i] == s[i] && s[j] == s[j]);
        assert(forall|k: int| i <= k <= j ==> rule_holds(rule, #[trigger] s[k]));
    }
    if exists|i: int, j: int|
        #![trigger s[i], s[j]]
        0 <= i <= j < s.len() && (forall|k: int| i <= k <= j ==> rule_holds(rule, #[trigger] s[k]))
            && s[j].ts_unix_ms - s[i].ts_unix_ms >= min_ms {
        let (i, j) = choose|i: int, j: int|
            #![trigger s[i], s[j]]
            0 <= i <= j < s.len() && (forall|k: int| i <= k <= j ==> rule_holds(rule, #[trigger] s[k]))
                && s[j].ts_unix_ms - s[i].ts_unix_ms >= min_ms;
        lemma_run_start_reaches(s, rule, i, j);
        lemma_run_start_run(s, rule, j);
        let r = run_start(s, rule, j);
        assert(s[r].ts_unix_ms <= s[i].ts_unix_ms);
        assert(sustained_at(s, rule, min_ms, j));
    }
}

/// A condition that never holds on two consecutive samples is never
/// raised by a rule that must be sustained for a positive time: a single
/// RPM spike does not trigger over-rev, a one-sample speed blip while
/// loaded does not trigger unsafe speed.
pub proof fn lemma_isolated_samples_not_sustained(s: Seq<Telemetry>, rule: SustainedRule, min_ms: int)
    requires
        min_ms > 0,
        forall|j: int| 0 < j < s.len() ==> !(rule_holds(rule, #[trigger] s[j - 1]) && rule_holds(rule, s[j])),
    ensures
        !sustained_spec(s, rule, min_ms),
{
    assert forall|j: int| !#[trigger] sustained_at(s, rule, min_ms, j) by {
        if 0 <= j < s.len() && rule_holds(rule, s[j]) {
            if j > 0 {
                assert(!(rule_holds(rule, s[j - 1]) && rule_holds(rule, s[j])));
            }
            assert(run_start(s, rule, j) == j);
        }
    }
}

/// In particular, isolated RPM spikes never raise `OverRev`.
pub proof fn lemma_single_spike_no_over_rev(s: Seq<Telemetry>, now_ms: int, fuel_spread_exceeded: bool)
    requires
        forall|j: int| 0 < j < s.len() ==> !(#[trigger] s[j - 1].rpm > OVER_REV_RPM && s[j].rpm > OVER_REV_RPM),
    ensures
        !classify_spec(s, now_ms, fuel_spread_exceeded).contains(HealthKind::OverRev),
{
    assert forall|j: int| 0 < j < s.len() implies !(rule_holds(SustainedRule::OverRev, #[trigger] s[j - 1])
        && rule_holds(SustainedRule::OverRev, s[j])) by {
        assert(!(s[j - 1].rpm > OVER_REV_RPM && s[j].rpm > OVER_REV_RPM));
    }
    lemma_isolated_samples_not_sustained(s, SustainedRule::OverRev, OVER_REV_MIN_DURATION_MS as int);
}

/// A fuel window with a single sample never raises a fuel anomaly,
/// whatever the verdict on its spread.
pub proof fn lemma_fuel_needs_two_samples(s: Seq<Telemetry>, now_ms: int, fuel_spread_exceeded: bool)
    requires
        fuel_count(s, fuel_cutoff(s), s.len() as int) < 2,
    ensures
        !classify_spec(s, now_ms, fuel_spread_exceeded).contains(HealthKind::FuelAnomaly),
{
}

/// `last_with_fix(s, n)` is the greatest index below `n` whose sample has
/// a fix, and -1 when none of the first `n` samples has one.
proof fn lemma_last_with_fix_is_latest(s: Seq<Telemetry>, n: int)
    requires
        0 <= n <= s.len(),
    ensures
        -1 <= last_with_fix(s, n) < n,
        last_with_fix(s, n) >= 0 ==> s[last_with_fix(s, n)].gps is Some,
        forall|j: int| last_with_fix(s, n) < j < n ==> (#[trigger] s[j]).gps is None,
    decreases n,
{
    if n > 0 && s[n - 1].gps is None {
        lemma_last_with_fix_is_latest(s, n - 1);
    }
}

/// GPS is reported stale exactly when the window is non-empty and either
/// no sample has a fix, or the latest sample that has one is more than
/// `GPS_STALE_MS` older than `now_ms`. Earlier fixes play no part.
pub proof fn lemma_gps_stale_uses_latest_fix(s: Seq<Telemetry>, now_ms: int, fuel_spread_exceeded: bool)
    ensures
        classify_spec(s, now_ms, fuel_spread_exceeded).contains(HealthKind::GpsStale) <==> (s.len() > 0 && (
            (forall|j: int| 0 <= j < s.len() ==> (#[trigger] s[j]).gps is None)
            || exists|i: int| 0 <= i < s.len() && (#[trigger] s[i]).gps is Some
                && (forall|j: int| i < j < s.len() ==> (#[trigger] s[j]).gps is None)
                && now_ms - s[i].ts_unix_ms > GPS_STALE_MS)),
{
    let n = s.len() as int;
    lemma_last_with_fix_is_latest(s, n);
    let i = last_with_fix(s, n);
    if n > 0 && i >= 0 {
        assert(!(forall|j: int| 0 <= j < s.len() ==> (#[trigger] s[j]).gps is None)) by {
            assert(s[i].gps is Some);
        }
        if exists|k: int| 0 <= k < s.len() && (#[trigger] s[k]).gps is Some
            && (forall|j: int| k < j < s.len() ==> (#[trigger] s[j]).gps is None)
            && now_ms - s[k].ts_unix_ms > GPS_STALE_MS {
            let k = choose|k: int| 0 <= k < s.len() && (#[trigger] s[k]).gps is Some
                && (forall|j: int| k < j < s.len() ==> (#[trigger] s[j]).gps is None)
                && now_ms - s[k].ts_unix_ms > GPS_STALE_MS;
            if k < i {
                assert(s[i].gps is None);
            }
            if k > i {
                assert(s[k].gps is None);
            }
            assert(k == i);
        }
        if now_ms - s[i].ts_unix_ms > GPS_STALE_MS {
            assert(s[i].gps is Some);
        }
    }
}

/// A window whose last sample carries a fix at most `GPS_STALE_MS` older
/// than `now_ms` (for instance one stamped `now_ms`) never raises
/// `GpsStale`, whatever came before it.
pub proof fn lemma_fresh_last_fix_not_stale(s: Seq<Telemetry>, now_ms: int, fuel_spread_exceeded: bool)
    requires
        s.len() > 0,
        s[s.len() - 1].gps is Some,
        now_ms - s[s.len() - 1].ts_unix_ms <= GPS_STALE_MS,
    ensures
        !classify_spec(s, now_ms, fuel_spread_exceeded).contains(HealthKind::GpsStale),
{
    lemma_gps_stale_uses_latest_fix(s, now_ms, fuel_spread_exceeded);
    let n = s.len() as int;
    if exists|i: int| 0 <= i < s.len() && (#[trigger] s[i]).gps is Some
        && (forall|j: int| i < j < s.len() ==> (#[trigger] s[j]).gps is None)
        && now_ms - s[i].ts_unix_ms > GPS_STALE_MS {
        let i = choose|i: int| 0 <= i < s.len() && (#[trigger] s[i]).gps is Some
            && (forall|j: int| i < j < s.len() ==> (#[trigger] s[j]).gps is None)
            && now_ms - s[i].ts_unix_ms > GPS_STALE_MS;
        if i < n - 1 {
            assert(s[n - 1].gps is None);
        }
    }
    assert(s[n - 1].gps is Some);
}

/// `last_with_idleness(s, idle, n)` is the greatest index below `n` whose
/// idleness is `idle`, and -1 when there is none.
proof fn lemma_last_with_idleness_is_latest(s: Seq<Telemetry>, idle: bool, n: int)
    requires
        0 <= n <= s.len(),
    ensures
        -1 <= last_with_idleness(s, idle, n) < n,
        last_with_idleness(s, idle, n) >= 0 ==> is_idle(s[last_with_idleness(s, idle, n)]) == idle,
        forall|j: int| last_with_idleness(s, idle, n) < j < n ==> is_idle(#[trigger] s[j]) != idle,
    decreases n,
{
    if n > 0 && is_idle(s[n - 1]) != idle {
        lemma_last_with_idleness_is_latest(s, idle, n - 1);
    }
}

/// Excessive idle is raised exactly when the latest sample is idle (state
/// code 1) and the idle spell has lasted more than `EXCESSIVE_IDLE_MS`: the
/// spell is measured from the latest sample that is not idle, or from the
/// first sample when every sample is idle.
pub proof fn lemma_idle_measured_from_latest_activity(s: Seq<Telemetry>, now_ms: int, fuel_spread_exceeded: bool)
    ensures
        classify_spec(s, now_ms, fuel_spread_exceeded).contains(HealthKind::ExcessiveIdle) <==> (s.len() > 0
            && s[s.len() - 1].state == 1 && (((forall|j: int| 0 <= j < s.len() ==> (#[trigger] s[j]).state == 1)
            && now_ms - s[0].ts_unix_ms > EXCESSIVE_IDLE_MS) || exists|i: int|
            0 <= i < s.len() && (#[trigger] s[i]).state != 1 && (forall|j: int| i < j < s.len() ==> (#[trigger] s[j]).state
                == 1) && now_ms - s[i].ts_unix_ms > EXCESSIVE_IDLE_MS)),
{
    let n = s.len() as int;
    lemma_last_with_idleness_is_latest(s, false, n);
    let i = last_with_idleness(s, false, n);
    if n > 0 && i >= 0 {
        assert(!(forall|j: int| 0 <= j < s.len() ==> (#[trigger] s[j]).state == 1)) by {
            assert(!is_idle(s[i]));
        }
        if exists|k: int| 0 <= k < s.len() && (#[trigger] s[k]).state != 1
            && (forall|j: int| k < j < s.len() ==> (#[trigger] s[j]).state == 1)
            && now_ms - s[k].ts_unix_ms > EXCESSIVE_IDLE_MS {
            let k = choose|k: int| 0 <= k < s.len() && (#[trigger] s[k]).state != 1
                && (forall|j: int| k < j < s.len() ==> (#[trigger] s[j]).state == 1)
                && now_ms - s[k].ts_unix_ms > EXCESSIVE_IDLE_MS;
            if k < i {
                assert(s[i].state == 1);
            }
            if k > i {
                assert(is_idle(s[k]) != false);
            }
            assert(k == i);
        }
        if now_ms - s[i].ts_unix_ms > EXCESSIVE_IDLE_MS {
            assert(!is_idle(s[i]));
        }
    }
    if n > 0 && i < 0 {
        assert forall|j: int| 0 <= j < s.len() implies (#[trigger] s[j]).state == 1 by {
            assert(is_idle(s[j]) != false);
        }
        if exists|k: int| 0 <= k < s.len() && (#[trigger] s[k]).state != 1
            && (forall|j: int| k < j < s.len() ==> (#[trigger] s[j]).state == 1)
            && now_ms - s[k].ts_unix_ms > EXCESSIVE_IDLE_MS {
            let k = choose|k: int| 0 <= k < s.len() && (#[trigger] s[k]).state != 1
                && (forall|j: int| k < j < s.len() ==> (#[trigger] s[j]).state == 1)
                && now_ms - s[k].ts_unix_ms > EXCESSIVE_IDLE_MS;
            assert(s[k].state == 1);
        }
    }
}

/// A non-empty window raises `Stuck` exactly when its latest sample is more
/// than `STUCK_NO_TELEMETRY_MS` older than `now_ms`.
pub proof fn lemma_stuck_measured_from_latest_sample(s: Seq<Telemetry>, now_ms: int, fuel_spread_exceeded: bool)
    requires
        s.len() > 0,
    ensures
        classify_spec(s, now_ms, fuel_spread_exceeded).contains(HealthKind::Stuck) <==> now_ms - s[s.len()
            - 1].ts_unix_ms > STUCK_NO_TELEMETRY_MS,
{
}

/// A load mismatch is raised exactly when one of the latest three samples
/// reports being empty while hauling (state 4, load 1) or loaded while
/// returning (state 7, load 2).
pub proof fn lemma_load_mismatch_latest_three(s: Seq<Telemetry>, now_ms: int, fuel_spread_exceeded: bool)
    ensures
        classify_spec(s, now_ms, fuel_spread_exceeded).contains(HealthKind::LoadMismatch) <==> exists|i: int|
            0 <= i < s.len() && s.len() - 3 <= i && ((#[trigger] s[i]).state == 4 && s[i].load == 1 || s[i].state == 7
                && s[i].load == 2),
{
    if exists|i: int|
        0 <= i < s.len() && s.len() - 3 <= i && ((#[trigger] s[i]).state == 4 && s[i].load == 1 || s[i].state == 7
            && s[i].load == 2) {
        let i = choose|i: int|
            0 <= i < s.len() && s.len() - 3 <= i && ((#[trigger] s[i]).state == 4 && s[i].load == 1 || s[i].state == 7
                && s[i].load == 2);
        assert(load_disagrees(s[i]));
    }
}

proof fn lemma_listed(set: Set<HealthKind>, n: nat)
    requires
        n <= 8,
    ensures
        listed(set, n).no_duplicates(),
        forall|k: HealthKind|
            #![trigger listed(set, n).contains(k)]
            listed(set, n).contains(k) <==> (set.contains(k) && exists|i: int|
                0 <= i < n && #[trigger] all_kinds()[i] == k),
    decreases n,
{
    if n > 0 {
        lemma_listed(set, (n - 1) as nat);
        let prev = listed(set, (n - 1) as nat);
        let k0 = all_kinds()[n - 1];
        let cur = listed(set, n);
        assert(cur == prev + pick(set, k0));
        assert forall|k: HealthKind| cur.contains(k) <==> (set.contains(k) && exists|i: int|
            0 <= i < n && #[trigger] all_kinds()[i] == k) by {
            if cur.contains(k) {
                let j = choose|j: int| 0 <= j < cur.len() && cur[j] == k;
                if j < prev.len() {
                    assert(prev[j] == k);
                    assert(prev.contains(k));
                } else {
                    assert(pick(set, k0)[j - prev.len()] == k);
                    assert(all_kinds()[n - 1] == k);
                }
            }
            if set.contains(k) && exists|i: int| 0 <= i < n && #[trigger] all_kinds()[i] == k {
                let i = choose|i: int| 0 <= i < n && #[trigger] all_kinds()[i] == k;
                if i < n - 1 {
                    assert(prev.contains(k));
                    let j = choose|j: int| 0 <= j < prev.len() && prev[j] == k;
                    assert(cur[j] == k);
                } else {
                    assert(cur[prev.len() as int] == k);
                }
            }
        }
        assert forall|a: int, b: int| 0 <= a < cur.len() && 0 <= b < cur.len() && a != b implies cur[a] != cur[b] by {
            if a < prev.len() && b < prev.len() {
            } else if a >= prev.len() && b >= prev.len() {
            } else {
                let (p, q) = if a < prev.len() { (a, b) } else { (b, a) };
                assert(prev.contains(cur[p]));
                assert(cur[q] == k0);
                if cur[p] == k0 {
                    let i = choose|i: int| 0 <= i < n - 1 && #[trigger] all_kinds()[i] == k0;
                    assert(all_kinds()[i] != all_kinds()[n - 1]);
                }
            }
        }
    }
}

/// Each member of a set is listed once, and only members are listed.
pub proof fn lemma_in_wire_order(set: Set<HealthKind>)
    ensures
        in_wire_order(set).no_duplicates(),
        forall|k: HealthKind| #[trigger] in_wire_order(set).contains(k) <==> set.contains(k),
{
    lemma_listed(set, 8);
    assert forall|k: HealthKind| #[trigger] in_wire_order(set).contains(k) <==> set.contains(k) by {
        let i: int = match k {
            HealthKind::Unspecified => 0,
            HealthKind::OverRev => 1,
            HealthKind::UnsafeSpeedUnderLoad => 2,
            HealthKind::ExcessiveIdle => 3,
            HealthKind::FuelAnomaly => 4,
            HealthKind::GpsStale => 5,
            HealthKind::Stuck => 6,
            HealthKind::LoadMismatch => 7,
        };
        assert(all_kinds()[i] == k);
    }
}

} // verus!
