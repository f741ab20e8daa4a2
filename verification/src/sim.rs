//! Decisions of the haul-truck simulator.
//!
//! A truck cycles deterministically
//! Idle → LoadingQueue → Loading → Hauling → AtCrusher → Dumping → Returning → Idle,
//! and occasionally lingers in Idle. Each visit to a state lasts a dwell
//! time drawn from that state's (min, max) range in seconds, so trucks
//! running the same machine still look different.

use vstd::prelude::*;
use crate::proto::{LoadStatus, TruckState};
use crate::text::{decimal, push_decimal};
use rand::rngs::StdRng;

verus! {

/// The simulator's random number generator.
#[verifier::external_type_specification]
#[verifier::external_body]
pub struct ExStdRng(StdRng);

/// Calls `rand::Rng::gen_range` with the inclusive range `lo..=hi`, which
/// returns a value drawn from that range; the call panics on an empty
/// range, which the `requires` leaves out. Which value is drawn depends on
/// the generator's state and is not stated.
#[verifier::external_body]
fn draw_in_range(rng: &mut StdRng, lo: u64, hi: u64) -> (r: u64)
    requires
        lo <= hi,
    ensures
        lo <= r <= hi,
{
    rand::Rng::gen_range(rng, lo..=hi)
}

/// Calls `rand::Rng::gen_range` with the half-open range `0..n`, which
/// returns a value drawn from that range; the call panics when `n` is 0,
/// which the `requires` leaves out. Which value is drawn is not stated.
#[verifier::external_body]
fn draw_below(rng: &mut StdRng, n: usize) -> (r: usize)
    requires
        n > 0,
    ensures
        r < n,
{
    rand::Rng::gen_range(rng, 0..n)
}

/// The simulator's lifecycle state of a truck.
#[derive(Clone, Copy, Debug, PartialEq, Eq, Hash, Structural)]
pub enum SimState {
    Idle,
    LoadingQueue,
    Loading,
    Hauling,
    AtCrusher,
    Dumping,
    Returning,
}

/// Where on its route a truck sits when it enters a state.
#[derive(Clone, Copy, Debug, PartialEq, Eq, Structural)]
pub enum RouteEnd {
    /// The load point (progress 0).
    Start,
    /// The crusher (progress 1).
    End,
}

pub open spec fn to_proto_spec(s: SimState) -> TruckState {
    match s {
        SimState::Idle => TruckState::Idle,
        SimState::LoadingQueue => TruckState::LoadingQueue,
        SimState::Loading => TruckState::Loading,
        SimState::Hauling => TruckState::Hauling,
        SimState::AtCrusher => TruckState::AtCrusher,
        SimState::Dumping => TruckState::Dumping,
        SimState::Returning => TruckState::Returning,
    }
}

pub open spec fn moving(s: SimState) -> bool {
    s == SimState::Hauling || s == SimState::Returning
}

pub open spec fn loaded(s: SimState) -> bool {
    s == SimState::Hauling || s == SimState::AtCrusher || s == SimState::Dumping
}

/// The state after `s`; from Idle the truck stays Idle when it lingers.
pub open spec fn next_state(s: SimState, linger: bool) -> SimState {
    match s {
        SimState::Idle => if linger {
            SimState::Idle
        } else {
            SimState::LoadingQueue
        },
        SimState::LoadingQueue => SimState::Loading,
        SimState::Loading => SimState::Hauling,
        SimState::Hauling => SimState::AtCrusher,
        SimState::AtCrusher => SimState::Dumping,
        SimState::Dumping => SimState::Returning,
        SimState::Returning => SimState::Idle,
    }
}

/// The (min, max) dwell in seconds of the visit that follows `s`.
pub open spec fn dwell_range(s: SimState, linger: bool) -> (u64, u64) {
    match s {
        SimState::Idle => if linger {
            (20, 60)
        } else {
            (10, 30)
        },
        SimState::LoadingQueue => (15, 30),
        SimState::Loading => (60, 120),
        SimState::Hauling => (10, 25),
        SimState::AtCrusher => (15, 30),
        SimState::Dumping => (50, 100),
        SimState::Returning => (5, 15),
    }
}

pub open spec fn anchor_of(s: SimState) -> Option<RouteEnd> {
    match s {
        SimState::Loading | SimState::Idle | SimState::LoadingQueue => Some(RouteEnd::Start),
        SimState::AtCrusher | SimState::Dumping => Some(RouteEnd::End),
        _ => None,
    }
}

/// The states a truck may start in.
pub open spec fn initial_states() -> Seq<SimState> {
    seq![
        SimState::Idle,
        SimState::LoadingQueue,
        SimState::Hauling,
        SimState::AtCrusher,
        SimState::Returning,
    ]
}

impl SimState {
    /// The wire state of this simulator state.
    pub fn to_proto(self) -> (t: TruckState)
        ensures
            t == to_proto_spec(self),
    {
        match self {
            SimState::Idle => TruckState::Idle,
            SimState::LoadingQueue => TruckState::LoadingQueue,
            SimState::Loading => TruckState::Loading,
            SimState::Hauling => TruckState::Hauling,
            SimState::AtCrusher => TruckState::AtCrusher,
            SimState::Dumping => TruckState::Dumping,
            SimState::Returning => TruckState::Returning,
        }
    }

    /// Whether the truck moves along its route in this state.
    pub fn is_moving(self) -> (r: bool)
        ensures
            r == moving(self),
    {
        matches!(self, SimState::Hauling | SimState::Returning)
    }

    /// Whether the truck carries a load in this state.
    pub fn is_loaded(self) -> (r: bool)
        ensures
            r == loaded(self),
    {
        matches!(self, SimState::Hauling | SimState::AtCrusher | SimState::Dumping)
    }

    /// The load status a truck reports in this state.
    pub fn load_status(self) -> (l: LoadStatus)
        ensures
            l == (if loaded(self) { LoadStatus::Loaded } else { LoadStatus::Empty }),
    {
        if self.is_loaded() {
            LoadStatus::Loaded
        } else {
            LoadStatus::Empty
        }
    }

    /// Whether leaving this state involves the chance to linger (a draw
    /// the caller makes, with probability one in five).
    pub fn may_linger(self) -> (r: bool)
        ensures
            r == (self == SimState::Idle),
    {
        self == SimState::Idle
    }

    /// The next state and the (min, max) dwell range of the visit to it.
    pub fn transition(self, linger: bool) -> (r: (SimState, (u64, u64)))
        ensures
            r.0 == next_state(self, linger),
            r.1 == dwell_range(self, linger),
    {
        match self {
            SimState::Idle => if linger {
                (SimState::Idle, (20, 60))
            } else {
                (SimState::LoadingQueue, (10, 30))
            },
            SimState::LoadingQueue => (SimState::Loading, (15, 30)),
            SimState::Loading => (SimState::Hauling, (60, 120)),
            SimState::Hauling => (SimState::AtCrusher, (10, 25)),
            SimState::AtCrusher => (SimState::Dumping, (15, 30)),
            SimState::Dumping => (SimState::Returning, (50, 100)),
            SimState::Returning => (SimState::Idle, (5, 15)),
        }
    }

    /// Returns the next state and the dwell time, in seconds, the truck
    /// will spend in it, drawn uniformly from the transition's range.
    /// `linger` is the outcome of the linger draw (see `may_linger`).
    pub fn advance(self, linger: bool, rng: &mut StdRng) -> (r: (SimState, u64))
        ensures
            r.0 == next_state(self, linger),
            dwell_range(self, linger).0 <= r.1 <= dwell_range(self, linger).1,
    {
        let (next, (lo, hi)) = self.transition(linger);
        let secs = draw_in_range(rng, lo, hi);
        (next, secs)
    }

    /// Where the route progress snaps to when a truck enters this state:
    /// the load point before hauling, the crusher until returning.
    pub fn progress_anchor(self) -> (a: Option<RouteEnd>)
        ensures
            a == anchor_of(self),
    {
        match self {
            SimState::Loading | SimState::Idle | SimState::LoadingQueue => Some(RouteEnd::Start),
            SimState::AtCrusher | SimState::Dumping => Some(RouteEnd::End),
            _ => None,
        }
    }

    /// A starting state drawn among Idle, LoadingQueue, Hauling, AtCrusher
    /// and Returning, so that the fleet does not move in lockstep.
    pub fn initial(rng: &mut StdRng) -> (s: SimState)
        ensures
            initial_states().contains(s),
    {
        let i = draw_below(rng, 5);
        let s = SimState::initial_for_draw(i);
        assert(initial_states()[i as int] == s);
        s
    }

    /// The starting state picked by a draw `i` from `0..5`: the `i`-th of
    /// Idle, LoadingQueue, Hauling, AtCrusher and Returning.
    pub fn initial_for_draw(i: usize) -> (s: SimState)
        requires
            i < 5,
        ensures
            s == initial_states()[i as int],
    {
        if i == 0 {
            SimState::Idle
        } else if i == 1 {
            SimState::LoadingQueue
        } else if i == 2 {
            SimState::Hauling
        } else if i == 3 {
            SimState::AtCrusher
        } else {
            SimState::Returning
        }
    }
}

/// Which synthetic fault a truck is wired with.
#[derive(Clone, Copy, Debug, PartialEq, Eq, Structural)]
pub enum FaultProfile {
    /// Periodic over-rev bursts, plus rare GPS dropouts.
    OverRevBursts,
    /// A one-shot sharp fuel drop, plus rare GPS dropouts.
    FuelDrop,
    /// Rare GPS dropouts only.
    GpsDropoutOnly,
}

/// The fault wiring of the truck at position `index` (0-based): the third
/// truck over-revs, the fifth drops fuel, every other only loses GPS now
/// and then.
pub fn fault_profile_for(index: usize) -> (p: FaultProfile)
    ensures
        p == (if index == 2 {
            FaultProfile::OverRevBursts
        } else if index == 4 {
            FaultProfile::FuelDrop
        } else {
            FaultProfile::GpsDropoutOnly
        }),
{
    if index == 2 {
        FaultProfile::OverRevBursts
    } else if index == 4 {
        FaultProfile::FuelDrop
    } else {
        FaultProfile::GpsDropoutOnly
    }
}

/// Period of the over-rev bursts of an `OverRevBursts` truck, in seconds.
pub const OVER_REV_PERIOD_SECS: u64 = 180;

/// Length of each over-rev burst, in seconds: longer than the classifier's
/// sustained window, with margin for timing skew.
pub const OVER_REV_BURST_SECS: u64 = 8;

/// When a `FuelDrop` truck loses fuel sharply, in seconds after its start.
pub const FUEL_DROP_AT_SECS: u64 = 90;

/// A burst of the over-rev fault lasts longer than the classifier needs to
/// raise over-rev, and fits within its period.
pub proof fn lemma_burst_raises_over_rev()
    ensures
        OVER_REV_BURST_SECS * 1000 > crate::health::OVER_REV_MIN_DURATION_MS,
        OVER_REV_BURST_SECS < OVER_REV_PERIOD_SECS,
{
}

/// Identifier of the truck at position `index` (0-based): `T-` and the
/// 1-based position, padded to two digits.
pub open spec fn truck_id_of(index: nat) -> Seq<char> {
    "T-"@ + (if index + 1 < 10 { "0"@ } else { ""@ }) + decimal(index + 1)
}

/// Identifier of the truck at position `index` (0-based).
pub fn truck_id_for(index: u64) -> (id: String)
    requires
        index < u64::MAX,
    ensures
        id@ == truck_id_of(index as nat),
{
    let mut id = String::from_str("T-");
    if index + 1 < 10 {
        id.append("0");
    }
    let ghost prefix = id@;
    push_decimal(&mut id, index + 1);
    proof {
        reveal_strlit("");
        assert(prefix =~= "T-"@ + (if index + 1 < 10 { "0"@ } else { ""@ }));
    }
    id
}

/// The route of the truck at position `index`, routes being shared round
/// robin.
pub fn route_index(index: usize, route_count: usize) -> (r: usize)
    requires
        route_count > 0,
    ensures
        r == index % route_count,
        r < route_count,
{
    index % route_count
}

pub const NANOS_PER_SEC: u128 = 1_000_000_000;

/// Largest `Duration`, in nanoseconds.
pub const DURATION_MAX_NANOS: u128 = 18_446_744_073_709_551_615_999_999_999;

/// Number of whole over-rev periods since the truck started (as whole
/// seconds over whole seconds).
pub open spec fn burst_cycle(since_start_ns: u128, period_ns: u128) -> int {
    (since_start_ns / NANOS_PER_SEC) as int / (period_ns / NANOS_PER_SEC) as int
}

/// Offset from the start of the latest cycle start; the cycle count is
/// taken modulo 2^32 as the `Duration` multiplication takes a `u32`.
pub open spec fn burst_cycle_offset(since_start_ns: u128, period_ns: u128) -> int {
    period_ns * (burst_cycle(since_start_ns, period_ns) % 0x1_0000_0000)
}

/// The inputs for which the cycle start can be computed: a period of at
/// least one second, and a cycle start within `Duration`'s range.
pub open spec fn burst_inputs_ok(since_start_ns: u128, period_ns: u128) -> bool {
    &&& period_ns >= NANOS_PER_SEC
    &&& burst_cycle_offset(since_start_ns, period_ns) <= DURATION_MAX_NANOS
}

pub open spec fn burst_active(since_start_ns: u128, period_ns: u128, burst_ns: u128) -> bool {
    let offset = burst_cycle_offset(since_start_ns, period_ns);
    let into_cycle = if since_start_ns >= offset { since_start_ns - offset } else { 0 };
    burst_cycle(since_start_ns, period_ns) > 0 && into_cycle <= burst_ns
}

/// Whether a truck wired for periodic over-rev bursts is in a burst: after
/// the first full period, each period starts with `burst_ns` of elevated
/// RPM. `since_start_ns` is the time since the truck started.
pub fn over_rev_burst_active(since_start_ns: u128, period_ns: u128, burst_ns: u128) -> (r: bool)
    requires
        burst_inputs_ok(since_start_ns, period_ns),
    ensures
        r == burst_active(since_start_ns, period_ns, burst_ns),
{
    let cycle: u128 = (since_start_ns / NANOS_PER_SEC) / (period_ns / NANOS_PER_SEC);
    if cycle == 0 {
        return false;
    }
    let wrapped: u128 = cycle % 0x1_0000_0000;
    assert(period_ns * wrapped <= DURATION_MAX_NANOS);
    let offset: u128 = period_ns * wrapped;
    let into_cycle: u128 = if since_start_ns >= offset {
        since_start_ns - offset
    } else {
        0
    };
    into_cycle <= burst_ns
}

/// `over_rev_burst_active` where its inputs allow it, `None` otherwise
/// (a period under one second, or a cycle start beyond `Duration`).
pub fn try_over_rev_burst_active(since_start_ns: u128, period_ns: u128, burst_ns: u128) -> (r: Option<bool>)
    ensures
        r is Some <==> burst_inputs_ok(since_start_ns, period_ns),
        r matches Some(b) ==> b == burst_active(since_start_ns, period_ns, burst_ns),
{
    if period_ns < NANOS_PER_SEC {
        return None;
    }
    let cycle: u128 = (since_start_ns / NANOS_PER_SEC) / (period_ns / NANOS_PER_SEC);
    let wrapped: u128 = cycle % 0x1_0000_0000;
    if wrapped > DURATION_MAX_NANOS / period_ns {
        proof {
            assert(period_ns * wrapped > DURATION_MAX_NANOS) by (nonlinear_arith)
                requires
                    wrapped > DURATION_MAX_NANOS / period_ns,
                    period_ns > 0,
            ;
        }
        return None;
    }
    proof {
        assert(period_ns * wrapped <= DURATION_MAX_NANOS) by (nonlinear_arith)
            requires
                wrapped <= DURATION_MAX_NANOS / period_ns,
                period_ns > 0,
        ;
    }
    Some(over_rev_burst_active(since_start_ns, period_ns, burst_ns))
}

/// For a period of whole seconds, and fewer than 2^32 periods since the
/// start, a burst is active exactly when at least one full period has passed
/// and at most `burst_ns` have passed since the latest period began.
pub proof fn lemma_burst_window(since_start_ns: u128, period_ns: u128, burst_ns: u128)
    requires
        period_ns >= NANOS_PER_SEC,
        period_ns % NANOS_PER_SEC == 0,
        since_start_ns / period_ns < 0x1_0000_0000,
    ensures
        burst_active(since_start_ns, period_ns, burst_ns) == (since_start_ns >= period_ns && since_start_ns
            % period_ns <= burst_ns),
{
    let t = since_start_ns as int;
    let big_p = period_ns as int;
    let n = NANOS_PER_SEC as int;
    let p = big_p / n;
    vstd::arithmetic::div_mod::lemma_fundamental_div_mod(big_p, n);
    assert(big_p == n * p);
    assert(p > 0) by (nonlinear_arith)
        requires
            big_p == n * p,
            big_p >= n,
            n > 0,
    ;
    vstd::arithmetic::div_mod::lemma_div_denominator(t, n, p);
    let c = t / big_p;
    assert(burst_cycle(since_start_ns, period_ns) == c);
    assert(c % 0x1_0000_0000 == c);
    assert(burst_cycle_offset(since_start_ns, period_ns) == big_p * c);
    vstd::arithmetic::div_mod::lemma_fundamental_div_mod(t, big_p);
    let r = t % big_p;
    assert(0 <= r < big_p);
    assert(t == big_p * c + r);
    assert(c >= 0);
    assert(c > 0 <==> t >= big_p) by (nonlinear_arith)
        requires
            t == big_p * c + r,
            0 <= r < big_p,
            c >= 0,
    ;
}

/// Bursts repeat with the period: one period after a moment at least one
/// period in, a burst is active exactly when it was active at that moment
/// (for a period of whole seconds, and fewer than 2^32 periods).
pub proof fn lemma_burst_periodic(since_start_ns: u128, period_ns: u128, burst_ns: u128)
    requires
        period_ns >= NANOS_PER_SEC,
        period_ns % NANOS_PER_SEC == 0,
        since_start_ns >= period_ns,
        since_start_ns + period_ns <= u128::MAX,
        (since_start_ns + period_ns) / (period_ns as int) < 0x1_0000_0000,
    ensures
        burst_active((since_start_ns + period_ns) as u128, period_ns, burst_ns) == burst_active(
            since_start_ns,
            period_ns,
            burst_ns,
        ),
{
    let t = since_start_ns as int;
    let big_p = period_ns as int;
    let later = (since_start_ns + period_ns) as u128;
    vstd::arithmetic::div_mod::lemma_div_plus_one(t, big_p);
    vstd::arithmetic::div_mod::lemma_mod_add_multiples_vanish(t, big_p);
    assert(later / period_ns == 1 + t / big_p);
    assert(later % period_ns == t % big_p);
    lemma_burst_window(since_start_ns, period_ns, burst_ns);
    lemma_burst_window(later, period_ns, burst_ns);
}

/// Every period after the first begins with a burst (for a period of whole
/// seconds, and fewer than 2^32 periods).
pub proof fn lemma_burst_at_each_period_start(k: u128, period_ns: u128, burst_ns: u128)
    requires
        period_ns >= NANOS_PER_SEC,
        period_ns % NANOS_PER_SEC == 0,
        1 <= k < 0x1_0000_0000,
        k * period_ns <= u128::MAX,
    ensures
        burst_active((k * period_ns) as u128, period_ns, burst_ns),
{
    let big_p = period_ns as int;
    let start = (k * period_ns) as u128;
    vstd::arithmetic::div_mod::lemma_div_multiples_vanish(k as int, big_p);
    vstd::arithmetic::div_mod::lemma_mod_multiples_basic(k as int, big_p);
    assert(big_p * k == k * big_p) by (nonlinear_arith);
    assert(start / period_ns == k);
    assert(start % period_ns == 0);
    assert(k * big_p >= big_p) by (nonlinear_arith)
        requires
            k >= 1,
            big_p > 0,
    ;
    lemma_burst_window(start, period_ns, burst_ns);
}

/// Delay before the first retry of a failed send, in milliseconds.
pub const INITIAL_BACKOFF_MS: u64 = 250;

/// Ceiling of the retry delay, in milliseconds.
pub const MAX_BACKOFF_MS: u64 = 5_000;

/// Exponential back-off of the simulator's sends: a failed send waits the
/// current delay, which then doubles up to `MAX_BACKOFF_MS`; a successful
/// send resets it.
pub struct RetryBackoff {
    current_ms: u64,
}

impl RetryBackoff {
    #[verifier::type_invariant]
    spec fn bounded(self) -> bool {
        INITIAL_BACKOFF_MS <= self.current_ms <= MAX_BACKOFF_MS
    }

    pub closed spec fn delay(self) -> u64 {
        self.current_ms
    }

    /// A fresh back-off, at its initial delay.
    pub fn new() -> (b: RetryBackoff)
        ensures
            b.delay() == INITIAL_BACKOFF_MS,
    {
        RetryBackoff { current_ms: INITIAL_BACKOFF_MS }
    }

    /// The delay the next failure would wait.
    pub fn current_ms(&self) -> (d: u64)
        ensures
            d == self.delay(),
            INITIAL_BACKOFF_MS <= d <= MAX_BACKOFF_MS,
    {
        proof {
            use_type_invariant(self);
        }
        self.current_ms
    }

    /// Records the outcome of a send; returns how long to wait before the
    /// next one (nothing after a success).
    pub fn after_send(&mut self, succeeded: bool) -> (wait_ms: Option<u64>)
        ensures
            succeeded ==> wait_ms is None && final(self).delay() == INITIAL_BACKOFF_MS,
            !succeeded ==> wait_ms == Some(old(self).delay()) && final(self).delay() == (if 2
                * old(self).delay() <= MAX_BACKOFF_MS {
                2 * old(self).delay()
            } else {
                MAX_BACKOFF_MS as int
            }),
    {
        proof {
            use_type_invariant(&*self);
        }
        if succeeded {
            self.current_ms = INITIAL_BACKOFF_MS;
            None
        } else {
            let wait = self.current_ms;
            let doubled = wait * 2;
            self.current_ms = if doubled <= MAX_BACKOFF_MS {
                doubled
            } else {
                MAX_BACKOFF_MS
            };
            Some(wait)
        }
    }
}

/// `s` with its trailing `/` characters removed.
pub open spec fn trim_trailing_slashes(s: Seq<char>) -> Seq<char>
    decreases s.len(),
{
    if s.len() > 0 && s.last() == '/' {
        trim_trailing_slashes(s.drop_last())
    } else {
        s
    }
}

/// The ingest endpoint of the backend at `backend_url`.
pub fn ingest_url(backend_url: &str) -> (u: String)
    ensures
        u@ == trim_trailing_slashes(backend_url@) + "/ingest"@,
{
    let mut n = backend_url.unicode_len();
    assert(backend_url@.subrange(0, n as int) =~= backend_url@);
    while n > 0 && backend_url.get_char(n - 1) == '/'
        invariant
            n <= backend_url@.len(),
            trim_trailing_slashes(backend_url@) == trim_trailing_slashes(backend_url@.subrange(0, n as int)),
        decreases n,
    {
        assert(backend_url@.subrange(0, n as int).drop_last() =~= backend_url@.subrange(0, n - 1));
        n -= 1;
    }
    let base = backend_url.substring_char(0, n);
    let mut u = String::from_str(base);
    u.append("/ingest");
    u
}

/// The state reached from `s` after `n` transitions without lingering.
pub open spec fn state_after(s: SimState, n: nat) -> SimState
    decreases n,
{
    if n == 0 {
        s
    } else {
        next_state(state_after(s, (n - 1) as nat), false)
    }
}

/// Longest time, in seconds, spent on the `n` visits that follow `s`
/// without lingering.
pub open spec fn max_dwell_after(s: SimState, n: nat) -> int
    decreases n,
{
    if n == 0 {
        0
    } else {
        max_dwell_after(s, (n - 1) as nat) + dwell_range(state_after(s, (n - 1) as nat), false).1
    }
}

/// Position of a state in the cycle, from Idle.
pub open spec fn cycle_pos(s: SimState) -> int {
    match s {
        SimState::Idle => 0,
        SimState::LoadingQueue => 1,
        SimState::Loading => 2,
        SimState::Hauling => 3,
        SimState::AtCrusher => 4,
        SimState::Dumping => 5,
        SimState::Returning => 6,
    }
}

proof fn lemma_state_after_pos(s: SimState, n: nat)
    ensures
        cycle_pos(state_after(s, n)) == (cycle_pos(s) + n) % 7,
    decreases n,
{
    if n > 0 {
        lemma_state_after_pos(s, (n - 1) as nat);
    }
}

proof fn lemma_cycle_duration(s: SimState)
    ensures
        max_dwell_after(s, 7) == 350,
{
    reveal_with_fuel(max_dwell_after, 8);
    let s1 = next_state(s, false);
    let s2 = next_state(s1, false);
    let s3 = next_state(s2, false);
    let s4 = next_state(s3, false);
    let s5 = next_state(s4, false);
    let s6 = next_state(s5, false);
    assert(state_after(s, 1) == s1);
    assert(state_after(s, 2) == s2);
    assert(state_after(s, 3) == s3);
    assert(state_after(s, 4) == s4);
    assert(state_after(s, 5) == s5);
    assert(state_after(s, 6) == s6);
}

proof fn lemma_pos_injective(a: SimState, b: SimState)
    requires
        cycle_pos(a) == cycle_pos(b),
    ensures
        a == b,
{
}

/// Without lingering a truck goes through all seven states and is back
/// where it started after seven transitions, and a full cycle lasts at most
/// 350 simulated seconds, well within 30 minutes.
pub proof fn lemma_full_cycle(s: SimState)
    ensures
        state_after(s, 7) == s,
        forall|i: nat, j: nat| i < j < 7 ==> state_after(s, i) != state_after(s, j),
        max_dwell_after(s, 7) == 350,
        max_dwell_after(s, 7) < 30 * 60,
{
    lemma_state_after_pos(s, 7);
    lemma_pos_injective(state_after(s, 7), s);
    assert forall|i: nat, j: nat| i < j < 7 implies state_after(s, i) != state_after(s, j) by {
        lemma_state_after_pos(s, i);
        lemma_state_after_pos(s, j);
        let p = cycle_pos(s);
        assert((p + i) % 7 != (p + j) % 7);
    }
    lemma_cycle_duration(s);
}

/// Every dwell range is well formed, so a transition's draw cannot fail.
pub proof fn lemma_dwell_ranges_nonempty(s: SimState, linger: bool)
    ensures
        dwell_range(s, linger).0 <= dwell_range(s, linger).1,
{
}

} // verus!
