//! A bounded, time-windowed history of telemetry readings, with series and
//! statistics over it.
use vstd::prelude::*;
use std::collections::VecDeque;
use std::time::{Duration, Instant};
use crate::telemetry::Telemetry;

verus! {

broadcast use vstd::std_specs::vecdeque::group_vec_dequeue_axioms;

/// `std::time::Instant`, carried opaquely as the moment a history began.
#[verifier::external_type_specification]
#[verifier::external_body]
pub struct ExInstant(Instant);

/// Calls `Instant::now`; the moment it gives depends on the clock, so nothing is stated of it.
#[verifier::external_body]
fn instant_now() -> Instant {
    Instant::now()
}

/// Calls `Instant::elapsed`; the time it gives depends on the clock, so nothing is stated of it.
#[verifier::external_body]
fn instant_elapsed(origin: &Instant) -> Duration {
    origin.elapsed()
}

/// The whole nanoseconds of a duration, as `Duration::as_nanos` gives them.
pub uninterp spec fn duration_nanos(d: Duration) -> nat;

/// Calls `Duration::as_nanos`, which gives the whole nanoseconds of the duration.
#[verifier::external_body]
fn duration_as_nanos(d: &Duration) -> (r: u128)
    ensures
        r as nat == duration_nanos(*d),
{
    d.as_nanos()
}

/// A reading and when it was recorded, in nanoseconds since the history began.
#[derive(Debug, Clone, Copy, PartialEq, Eq, Structural)]
pub struct TelemetrySnapshot {
    pub timestamp_ns: u128,
    pub telemetry: Telemetry,
}

/// The readings of the recent past: at most `max_samples` of them (at least
/// one is always kept), none older than the time window.
pub struct TelemetryHistory {
    buffer: VecDeque<TelemetrySnapshot>,
    window_ns: u128,
    max_samples: usize,
    origin: Instant,
}

/// Minimum, maximum and sum of each series of a history, with the number of
/// readings, so that each mean is exactly `sum / sample_count`; the AI clock
/// mean is also given in whole megahertz, rounded down.
#[derive(Debug, Clone, Copy, PartialEq, Eq, Structural)]
pub struct TelemetryStats {
    pub sample_count: usize,
    pub min_voltage_mv: u32,
    pub max_voltage_mv: u32,
    pub voltage_sum_mv: i128,
    pub min_current: u32,
    pub max_current: u32,
    pub current_sum: i128,
    pub min_power: u32,
    pub max_power: u32,
    pub power_sum: i128,
    pub min_temperature_q16: i64,
    pub max_temperature_q16: i64,
    pub temperature_sum_q16: i128,
    pub min_aiclk: u32,
    pub max_aiclk: u32,
    pub avg_aiclk: u32,
}

/// The snapshots of `s` that are younger than `window` at time `now`, in order.
pub open spec fn retain_recent(s: Seq<TelemetrySnapshot>, now: int, window: int) -> Seq<TelemetrySnapshot>
    decreases s.len(),
{
    if s.len() == 0 {
        s
    } else {
        let r = retain_recent(s.drop_last(), now, window);
        if s.last().timestamp_ns + window > now {
            r.push(s.last())
        } else {
            r
        }
    }
}

/// The samples after recording `t` at time `now`: readings older than the
/// window are dropped, then the oldest when the history is full, then the
/// new reading is appended.
pub open spec fn pushed(s: Seq<TelemetrySnapshot>, window: int, max_samples: nat, now: int, t: Telemetry) -> Seq<TelemetrySnapshot> {
    let kept = retain_recent(s, now, window);
    let room = if kept.len() >= max_samples && kept.len() > 0 {
        kept.drop_first()
    } else {
        kept
    };
    room.push(TelemetrySnapshot { timestamp_ns: now as u128, telemetry: t })
}

/// Whether the snapshots are in the order of their times, oldest first.
pub open spec fn in_time_order(s: Seq<TelemetrySnapshot>) -> bool {
    forall|i: int, j: int| 0 <= i <= j < s.len() ==> #[trigger] s[i].timestamp_ns <= #[trigger] s[j].timestamp_ns
}

/// The capacity of a history: `max_samples`, but at least one.
pub open spec fn capacity(max_samples: nat) -> nat {
    if max_samples == 0 {
        1
    } else {
        max_samples
    }
}

pub open spec fn seq_min(s: Seq<int>) -> int
    decreases s.len(),
{
    if s.len() <= 1 {
        s[0]
    } else {
        let m = seq_min(s.drop_last());
        if s.last() < m {
            s.last()
        } else {
            m
        }
    }
}

pub open spec fn seq_max(s: Seq<int>) -> int
    decreases s.len(),
{
    if s.len() <= 1 {
        s[0]
    } else {
        let m = seq_max(s.drop_last());
        if s.last() > m {
            s.last()
        } else {
            m
        }
    }
}

pub open spec fn seq_sum(s: Seq<int>) -> int
    decreases s.len(),
{
    if s.len() == 0 {
        0
    } else {
        seq_sum(s.drop_last()) + s.last()
    }
}

/// The mean of a non-empty series, rounded down.
pub open spec fn seq_avg(s: Seq<int>) -> int {
    seq_sum(s) / (s.len() as int)
}

pub open spec fn voltage_series(s: Seq<TelemetrySnapshot>) -> Seq<int> {
    s.map_values(|x: TelemetrySnapshot| x.telemetry.voltage_mv as int)
}

pub open spec fn current_series(s: Seq<TelemetrySnapshot>) -> Seq<int> {
    s.map_values(|x: TelemetrySnapshot| x.telemetry.current as int)
}

pub open spec fn power_series(s: Seq<TelemetrySnapshot>) -> Seq<int> {
    s.map_values(|x: TelemetrySnapshot| x.telemetry.power as int)
}

pub open spec fn temperature_series(s: Seq<TelemetrySnapshot>) -> Seq<int> {
    s.map_values(|x: TelemetrySnapshot| x.telemetry.temperature_q16 as int)
}

pub open spec fn aiclk_series(s: Seq<TelemetrySnapshot>) -> Seq<int> {
    s.map_values(|x: TelemetrySnapshot| x.telemetry.aiclk as int)
}

proof fn lemma_bounds(s: Seq<int>)
    requires
        s.len() > 0,
    ensures
        forall|i: int| 0 <= i < s.len() ==> seq_min(s) <= #[trigger] s[i] <= seq_max(s),
        s.len() * seq_min(s) <= seq_sum(s) <= s.len() * seq_max(s),
        exists|i: int| 0 <= i < s.len() && s[i] == seq_min(s),
        exists|i: int| 0 <= i < s.len() && s[i] == seq_max(s),
    decreases s.len(),
{
    if s.len() == 1 {
        assert(s.drop_last() =~= Seq::<int>::empty());
        assert(seq_sum(s.drop_last()) == 0);
        assert(seq_sum(s) == s[0]);
    } else {
        let p = s.drop_last();
        lemma_bounds(p);
        assert forall|i: int| 0 <= i < s.len() implies seq_min(s) <= #[trigger] s[i] <= seq_max(s) by {
            if i < p.len() {
                assert(s[i] == p[i]);
            }
        }
        let a = seq_min(p);
        let b = seq_max(p);
        let n = p.len() as int;
        assert(n * seq_min(s) <= n * a) by (nonlinear_arith)
            requires
                seq_min(s) <= a,
                n >= 0,
        ;
        assert(n * b <= n * seq_max(s)) by (nonlinear_arith)
            requires
                b <= seq_max(s),
                n >= 0,
        ;
        assert(s.len() * seq_min(s) == n * seq_min(s) + seq_min(s)) by (nonlinear_arith)
            requires
                s.len() == n + 1,
        ;
        assert(s.len() * seq_max(s) == n * seq_max(s) + seq_max(s)) by (nonlinear_arith)
            requires
                s.len() == n + 1,
        ;
        let im = choose|i: int| 0 <= i < p.len() && p[i] == seq_min(p);
        let iM = choose|i: int| 0 <= i < p.len() && p[i] == seq_max(p);
        assert(s[im] == p[im]);
        assert(s[iM] == p[iM]);
        assert(s[s.len() - 1] == s.last());
    }
}

/// Minimum, maximum and sum of a non-empty series.
fn series_stats(values: &Vec<i64>) -> (r: (i64, i64, i128))
    requires
        values@.len() > 0,
    ensures
        r.0 as int == seq_min(values@.map_values(|v: i64| v as int)),
        r.1 as int == seq_max(values@.map_values(|v: i64| v as int)),
        r.2 as int == seq_sum(values@.map_values(|v: i64| v as int)),
{
    let ghost s = values@.map_values(|v: i64| v as int);
    let n = values.len();
    let mut lo: i64 = values[0];
    let mut hi: i64 = values[0];
    let mut sum: i128 = values[0] as i128;
    let mut i: usize = 1;
    assert(s.take(1).drop_last() =~= Seq::<int>::empty());
    assert(seq_sum(s.take(1).drop_last()) == 0);
    assert(s.take(1) =~= seq![s[0]]);
    while i < n
        invariant
            1 <= i <= n,
            n == values@.len(),
            s == values@.map_values(|v: i64| v as int),
            lo as int == seq_min(s.take(i as int)),
            hi as int == seq_max(s.take(i as int)),
            sum as int == seq_sum(s.take(i as int)),
            -(i as int) * 0x8000_0000_0000_0000 <= sum <= (i as int) * 0x8000_0000_0000_0000,
        decreases n - i,
    {
        let v = values[i];
        assert(s.take(i + 1).drop_last() =~= s.take(i as int));
        assert(s.take(i + 1).last() == v as int);
        if v < lo {
            lo = v;
        }
        if v > hi {
            hi = v;
        }
        sum = sum + v as i128;
        i = i + 1;
    }
    assert(s.take(n as int) =~= s);
    (lo, hi, sum)
}

impl View for TelemetryHistory {
    type V = Seq<TelemetrySnapshot>;

    closed spec fn view(&self) -> Seq<TelemetrySnapshot> {
        self.buffer@
    }
}

impl TelemetryHistory {
    /// The length of the time window in nanoseconds.
    pub closed spec fn window(&self) -> nat {
        self.window_ns as nat
    }

    /// The most samples kept.
    pub closed spec fn max_samples_spec(&self) -> nat {
        self.max_samples as nat
    }

    /// The history never holds more than its capacity, and its snapshots are
    /// in the order of their times.
    pub closed spec fn wf(&self) -> bool {
        &&& self.buffer@.len() <= capacity(self.max_samples as nat)
        &&& in_time_order(self.buffer@)
    }

    /// What a valid history holds: no more than its capacity, in time order.
    pub proof fn lemma_wf(&self)
        requires
            self.wf(),
        ensures
            self@.len() <= capacity(self.max_samples_spec()),
            in_time_order(self@),
    {
    }

    /// An empty history keeping at most `max_samples` readings for at most `max_duration`.
    pub fn new(max_duration: Duration, max_samples: usize) -> (r: TelemetryHistory)
        ensures
            r.wf(),
            r@ == Seq::<TelemetrySnapshot>::empty(),
            in_time_order(r@),
            r.window() == duration_nanos(max_duration),
            r.max_samples_spec() == max_samples,
    {
        TelemetryHistory {
            buffer: VecDeque::with_capacity(max_samples),
            window_ns: duration_as_nanos(&max_duration),
            max_samples,
            origin: instant_now(),
        }
    }

    /// Records a reading taken `now_ns` nanoseconds after the history began.
    pub fn push_at(&mut self, now_ns: u128, telemetry: Telemetry)
        requires
            old(self).wf(),
            forall|i: int| 0 <= i < old(self)@.len() ==> #[trigger] old(self)@[i].timestamp_ns <= now_ns,
        ensures
            final(self).wf(),
            final(self)@ == pushed(old(self)@, old(self).window() as int, old(self).max_samples_spec(), now_ns as int, telemetry),
            in_time_order(final(self)@),
            final(self).window() == old(self).window(),
            final(self).max_samples_spec() == old(self).max_samples_spec(),
    {
        let ghost old_buf = self.buffer@;
        let mut kept: VecDeque<TelemetrySnapshot> = VecDeque::new();
        let n = self.buffer.len();
        let mut i: usize = 0;
        assert(old_buf.take(0) =~= Seq::<TelemetrySnapshot>::empty());
        while i < n
            invariant
                i <= n,
                n == old_buf.len(),
                self.buffer@ == old_buf,
                kept@ == retain_recent(old_buf.take(i as int), now_ns as int, self.window_ns as int),
                kept@.len() <= i,
            decreases n - i,
        {
            let snap = self.buffer[i];
            assert(old_buf.take(i + 1).drop_last() =~= old_buf.take(i as int));
            assert(old_buf.take(i + 1).last() == snap);
            if snap.timestamp_ns > now_ns || now_ns - snap.timestamp_ns < self.window_ns {
                kept.push_back(snap);
            }
            i = i + 1;
        }
        assert(old_buf.take(n as int) =~= old_buf);
        if kept.len() >= self.max_samples && kept.len() > 0 {
            let _ = kept.pop_front();
        }
        kept.push_back(TelemetrySnapshot { timestamp_ns: now_ns, telemetry });
        self.buffer = kept;
        proof {
            assert forall|i: int| 0 <= i < old_buf.len() implies #[trigger] old_buf[i].timestamp_ns <= now_ns as int by {
                assert(old(self)@[i] == old_buf[i]);
            }
            lemma_pushed_in_time_order(old_buf, self.window_ns as int, self.max_samples as nat, now_ns as int, telemetry);
        }
    }

    /// Records a reading taken now: at the time elapsed since the history
    /// began, or at the newest recorded time where the clock reads earlier.
    pub fn push(&mut self, telemetry: Telemetry)
        requires
            old(self).wf(),
        ensures
            final(self).wf(),
            exists|now: u128|
                (forall|i: int| 0 <= i < old(self)@.len() ==> #[trigger] old(self)@[i].timestamp_ns <= now)
                    && final(self)@ == pushed(old(self)@, old(self).window() as int, old(self).max_samples_spec(), now as int, telemetry),
            in_time_order(final(self)@),
            final(self).window() == old(self).window(),
            final(self).max_samples_spec() == old(self).max_samples_spec(),
    {
        let elapsed = instant_elapsed(&self.origin);
        let mut now = duration_as_nanos(&elapsed);
        let mut i: usize = 0;
        while i < self.buffer.len()
            invariant
                i <= self@.len(),
                forall|k: int| 0 <= k < i ==> #[trigger] self@[k].timestamp_ns <= now,
            decreases self@.len() - i,
        {
            if self.buffer[i].timestamp_ns > now {
                now = self.buffer[i].timestamp_ns;
            }
            i = i + 1;
        }

        self.push_at(now, telemetry);
    }

    /// The recorded snapshots, oldest first.
    pub fn get_samples(&self) -> (r: &VecDeque<TelemetrySnapshot>)
        ensures
            r@ == self@,
    {
        &self.buffer
    }

    /// What `getter` gives for each recorded reading, oldest first.
    pub fn get_series<T, F: Fn(&Telemetry) -> T>(&self, getter: F) -> (r: Vec<T>)
        requires
            forall|t: Telemetry| #[trigger] getter.requires((&t,)),
        ensures
            r@.len() == self@.len(),
            forall|i: int| 0 <= i < self@.len() ==> getter.ensures((&self@[i].telemetry,), #[trigger] r@[i]),
    {
        let mut r: Vec<T> = Vec::new();
        let mut i: usize = 0;
        while i < self.buffer.len()
            invariant
                i <= self@.len(),
                r@.len() == i,
                forall|t: Telemetry| #[trigger] getter.requires((&t,)),
                forall|k: int| 0 <= k < i ==> getter.ensures((&self@[k].telemetry,), #[trigger] r@[k]),
            decreases self@.len() - i,
        {
            let v = getter(&self.buffer[i].telemetry);
            r.push(v);
            i = i + 1;
        }
        r
    }

    /// The core voltages in millivolts, oldest first.
    pub fn get_voltage_series(&self) -> (r: Vec<u32>)
        ensures
            r@.len() == self@.len(),
            forall|i: int| 0 <= i < self@.len() ==> #[trigger] r@[i] == self@[i].telemetry.voltage_mv,
    {
        self.get_series(|t: &Telemetry| -> (v: u32)
            ensures
                v == t.voltage_mv,
            { t.voltage_mv })
    }

    /// The core currents in amperes, oldest first.
    pub fn get_current_series(&self) -> (r: Vec<u32>)
        ensures
            r@.len() == self@.len(),
            forall|i: int| 0 <= i < self@.len() ==> #[trigger] r@[i] == self@[i].telemetry.current,
    {
        self.get_series(|t: &Telemetry| -> (v: u32)
            ensures
                v == t.current,
            { t.current })
    }

    /// The core powers in watts, oldest first.
    pub fn get_power_series(&self) -> (r: Vec<u32>)
        ensures
            r@.len() == self@.len(),
            forall|i: int| 0 <= i < self@.len() ==> #[trigger] r@[i] == self@[i].telemetry.power,
    {
        self.get_series(|t: &Telemetry| -> (v: u32)
            ensures
                v == t.power,
            { t.power })
    }

    /// The temperatures in 1/65536 degree, oldest first.
    pub fn get_temperature_series(&self) -> (r: Vec<i64>)
        ensures
            r@.len() == self@.len(),
            forall|i: int| 0 <= i < self@.len() ==> #[trigger] r@[i] == self@[i].telemetry.temperature_q16,
    {
        self.get_series(|t: &Telemetry| -> (v: i64)
            ensures
                v == t.temperature_q16,
            { t.temperature_q16 })
    }

    /// The AI clocks in MHz, oldest first.
    pub fn get_aiclk_series(&self) -> (r: Vec<u32>)
        ensures
            r@.len() == self@.len(),
            forall|i: int| 0 <= i < self@.len() ==> #[trigger] r@[i] == self@[i].telemetry.aiclk,
    {
        self.get_series(|t: &Telemetry| -> (v: u32)
            ensures
                v == t.aiclk,
            { t.aiclk })
    }

    /// Minimum, maximum and sum of each series, with the number of readings,
    /// or nothing for an empty history.
    pub fn get_stats(&self) -> (r: Option<TelemetryStats>)
        ensures
            match r {
                None => self@.len() == 0,
                Some(st) => {
                    let s = self@;
                    &&& s.len() > 0
                    &&& st.sample_count == s.len()
                    &&& st.min_voltage_mv == seq_min(voltage_series(s))
                    &&& st.max_voltage_mv == seq_max(voltage_series(s))
                    &&& st.voltage_sum_mv == seq_sum(voltage_series(s))
                    &&& st.min_current == seq_min(current_series(s))
                    &&& st.max_current == seq_max(current_series(s))
                    &&& st.current_sum == seq_sum(current_series(s))
                    &&& st.min_power == seq_min(power_series(s))
                    &&& st.max_power == seq_max(power_series(s))
                    &&& st.power_sum == seq_sum(power_series(s))
                    &&& st.min_temperature_q16 == seq_min(temperature_series(s))
                    &&& st.max_temperature_q16 == seq_max(temperature_series(s))
                    &&& st.temperature_sum_q16 == seq_sum(temperature_series(s))
                    &&& st.min_aiclk == seq_min(aiclk_series(s))
                    &&& st.max_aiclk == seq_max(aiclk_series(s))
                    &&& st.avg_aiclk == seq_avg(aiclk_series(s))
                },
            },
    {
        if self.buffer.len() == 0 {
            return None;
        }
        let (min_voltage_mv, max_voltage_mv, voltage_sum_mv) = self.u32_stats(0);
        let (min_current, max_current, current_sum) = self.u32_stats(1);
        let (min_power, max_power, power_sum) = self.u32_stats(2);
        let (min_aiclk, max_aiclk, aiclk_sum) = self.u32_stats(3);
        let temperatures = self.get_temperature_series();
        assert(temperatures@.map_values(|v: i64| v as int) =~= temperature_series(self@));
        let (min_temperature_q16, max_temperature_q16, temperature_sum_q16) = series_stats(&temperatures);
        let n = self.buffer.len();
        proof {
            let s = aiclk_series(self@);
            lemma_bounds(s);
            assert((aiclk_sum as int) / (n as int) <= max_aiclk) by (nonlinear_arith)
                requires
                    aiclk_sum <= n * max_aiclk,
                    n > 0,
                    aiclk_sum >= 0,
            ;
            assert(aiclk_sum >= 0) by (nonlinear_arith)
                requires
                    aiclk_sum >= n * min_aiclk,
                    n > 0,
                    min_aiclk >= 0,
            ;
        }
        let avg_aiclk = (aiclk_sum / (n as i128)) as u32;
        Some(TelemetryStats {
            sample_count: n,
            min_voltage_mv,
            max_voltage_mv,
            voltage_sum_mv,
            min_current,
            max_current,
            current_sum,
            min_power,
            max_power,
            power_sum,
            min_temperature_q16,
            max_temperature_q16,
            temperature_sum_q16,
            min_aiclk,
            max_aiclk,
            avg_aiclk,
        })
    }

    /// Statistics of one of the unsigned series: 0 voltage, 1 current, 2 power, 3 AI clock.
    fn u32_stats(&self, which: u8) -> (r: (u32, u32, i128))
        requires
            self@.len() > 0,
            which < 4,
        ensures
            ({
                let s = if which == 0 {
                    voltage_series(self@)
                } else if which == 1 {
                    current_series(self@)
                } else if which == 2 {
                    power_series(self@)
                } else {
                    aiclk_series(self@)
                };
                &&& r.0 == seq_min(s)
                &&& r.1 == seq_max(s)
                &&& r.2 == seq_sum(s)
            }),
    {
        let ghost s = if which == 0 {
            voltage_series(self@)
        } else if which == 1 {
            current_series(self@)
        } else if which == 2 {
            power_series(self@)
        } else {
            aiclk_series(self@)
        };
        let series = if which == 0 {
            self.get_voltage_series()
        } else if which == 1 {
            self.get_current_series()
        } else if which == 2 {
            self.get_power_series()
        } else {
            self.get_aiclk_series()
        };
        let mut wide: Vec<i64> = Vec::new();
        let mut i: usize = 0;
        while i < series.len()
            invariant
                i <= series@.len(),
                wide@.len() == i,
                forall|k: int| 0 <= k < i ==> #[trigger] wide@[k] == series@[k] as i64,
            decreases series@.len() - i,
        {
            wide.push(series[i] as i64);
            i = i + 1;
        }
        assert(wide@.map_values(|v: i64| v as int) =~= s);
        let (lo, hi, sum) = series_stats(&wide);
        proof {
            lemma_bounds(s);
            let k = choose|k: int| 0 <= k < s.len() && s[k] == seq_max(s);
            assert(s[k] == series@[k] as int);
            let j = choose|j: int| 0 <= j < s.len() && s[j] == seq_min(s);
            assert(s[j] == series@[j] as int);
        }
        (lo as u32, hi as u32, sum)
    }

    /// The number of recorded snapshots.
    pub fn len(&self) -> (r: usize)
        ensures
            r == self@.len(),
    {
        self.buffer.len()
    }

    /// Whether nothing is recorded.
    pub fn is_empty(&self) -> (r: bool)
        ensures
            r == (self@.len() == 0),
    {
        self.buffer.len() == 0
    }
}

// ---------------------------------------------------------------------------
// Laws of the history.

proof fn lemma_retain_shrinks(s: Seq<TelemetrySnapshot>, now: int, window: int)
    ensures
        retain_recent(s, now, window).len() <= s.len(),
        forall|i: int| 0 <= i < retain_recent(s, now, window).len() ==> #[trigger] retain_recent(s, now, window)[i].timestamp_ns + window > now,
    decreases s.len(),
{
    if s.len() > 0 {
        lemma_retain_shrinks(s.drop_last(), now, window);
    }
}

/// Recording a reading never takes a history over its capacity, the new
/// reading is the newest, and every older reading kept is within the window.
pub proof fn lemma_push_keeps_bound(s: Seq<TelemetrySnapshot>, window: int, max_samples: nat, now: int, t: Telemetry)
    requires
        s.len() <= capacity(max_samples),
        0 <= now,
        now <= u128::MAX,
    ensures
        pushed(s, window, max_samples, now, t).len() <= capacity(max_samples),
        pushed(s, window, max_samples, now, t).last() == (TelemetrySnapshot { timestamp_ns: now as u128, telemetry: t }),
        forall|i: int| 0 <= i < pushed(s, window, max_samples, now, t).len() - 1 ==> #[trigger] pushed(s, window, max_samples, now, t)[i].timestamp_ns + window > now,
{
    lemma_retain_shrinks(s, now, window);
    let kept = retain_recent(s, now, window);
    let room = if kept.len() >= max_samples && kept.len() > 0 {
        kept.drop_first()
    } else {
        kept
    };
    assert forall|i: int| 0 <= i < room.len() implies #[trigger] room[i].timestamp_ns + window > now by {
        if kept.len() >= max_samples && kept.len() > 0 {
            assert(room[i] == kept[i + 1]);
        }
    }
    let p = pushed(s, window, max_samples, now, t);
    assert forall|i: int| 0 <= i < p.len() - 1 implies #[trigger] p[i].timestamp_ns + window > now by {
        assert(p[i] == room[i]);
    }
}

proof fn lemma_retain_bounded(s: Seq<TelemetrySnapshot>, now: int, window: int, bound: u128)
    requires
        forall|i: int| 0 <= i < s.len() ==> #[trigger] s[i].timestamp_ns <= bound,
    ensures
        forall|i: int| 0 <= i < retain_recent(s, now, window).len() ==> #[trigger] retain_recent(s, now, window)[i].timestamp_ns <= bound,
    decreases s.len(),
{
    if s.len() > 0 {
        let p = s.drop_last();
        assert forall|i: int| 0 <= i < p.len() implies #[trigger] p[i].timestamp_ns <= bound by {
            assert(p[i] == s[i]);
        }
        lemma_retain_bounded(p, now, window, bound);
        let r = retain_recent(p, now, window);
        if s.last().timestamp_ns + window > now {
            assert forall|i: int| 0 <= i < r.len() + 1 implies #[trigger] r.push(s.last())[i].timestamp_ns <= bound by {
                if i < r.len() {
                    assert(r.push(s.last())[i] == r[i]);
                }
            }
        }
    }
}

proof fn lemma_retain_in_time_order(s: Seq<TelemetrySnapshot>, now: int, window: int)
    requires
        in_time_order(s),
    ensures
        in_time_order(retain_recent(s, now, window)),
    decreases s.len(),
{
    if s.len() > 0 {
        let p = s.drop_last();
        lemma_retain_in_time_order(p, now, window);
        lemma_retain_bounded(p, now, window, s.last().timestamp_ns);
    }
}

/// Recording a reading no older than any recorded one keeps a history in
/// the order of its times.
pub proof fn lemma_pushed_in_time_order(s: Seq<TelemetrySnapshot>, window: int, max_samples: nat, now: int, t: Telemetry)
    requires
        in_time_order(s),
        0 <= now <= u128::MAX,
        forall|i: int| 0 <= i < s.len() ==> #[trigger] s[i].timestamp_ns <= now,
    ensures
        in_time_order(pushed(s, window, max_samples, now, t)),
{
    lemma_retain_in_time_order(s, now, window);
    lemma_retain_bounded(s, now, window, now as u128);
    let kept = retain_recent(s, now, window);
    let room = if kept.len() >= max_samples && kept.len() > 0 {
        kept.drop_first()
    } else {
        kept
    };
    assert forall|i: int| 0 <= i < room.len() implies #[trigger] room[i].timestamp_ns <= now by {
        if kept.len() >= max_samples && kept.len() > 0 {
            assert(room[i] == kept[i + 1]);
        }
    }
    assert(in_time_order(room)) by {
        if kept.len() >= max_samples && kept.len() > 0 {
            assert forall|i: int, j: int| 0 <= i <= j < room.len() implies #[trigger] room[i].timestamp_ns <= #[trigger] room[j].timestamp_ns by {
                assert(room[i] == kept[i + 1] && room[j] == kept[j + 1]);
            }
        }
    }
    let p = pushed(s, window, max_samples, now, t);
    assert forall|i: int, j: int| 0 <= i <= j < p.len() implies #[trigger] p[i].timestamp_ns <= #[trigger] p[j].timestamp_ns by {
        if j < p.len() - 1 {
            assert(p[i] == room[i] && p[j] == room[j]);
        } else if i < p.len() - 1 {
            assert(p[i] == room[i]);
        }
    }
}

/// The snapshots kept within the window are exactly those younger than the
/// window at time `now`, in their order.
pub proof fn lemma_retain_is_filter(s: Seq<TelemetrySnapshot>, now: int, window: int)
    ensures
        retain_recent(s, now, window) == s.filter(|x: TelemetrySnapshot| x.timestamp_ns + window > now),
    decreases s.len(),
{
    reveal(Seq::filter);
    if s.len() > 0 {
        lemma_retain_is_filter(s.drop_last(), now, window);
    }
}

/// Recording a reading keeps the readings still within the window, in order,
/// drops no more of them than the capacity forces (the oldest one, when the
/// history is full), and appends the new reading: the result is the newest
/// `min(kept + 1, capacity)` of the kept readings and the new one.
pub proof fn lemma_push_drops_at_most_one(s: Seq<TelemetrySnapshot>, window: int, max_samples: nat, now: int, t: Telemetry)
    requires
        s.len() <= capacity(max_samples),
    ensures
        ({
            let kept = s.filter(|x: TelemetrySnapshot| x.timestamp_ns + window > now);
            let n = if kept.len() + 1 <= capacity(max_samples) {
                kept.len() + 1int
            } else {
                capacity(max_samples) as int
            };
            &&& pushed(s, window, max_samples, now, t).len() == n
            &&& pushed(s, window, max_samples, now, t) == kept.subrange(kept.len() + 1 - n, kept.len() as int).push(
                TelemetrySnapshot { timestamp_ns: now as u128, telemetry: t },
            )
        }),
{
    lemma_retain_is_filter(s, now, window);
    lemma_retain_shrinks(s, now, window);
    let kept = retain_recent(s, now, window);
    let n = if kept.len() + 1 <= capacity(max_samples) {
        kept.len() + 1int
    } else {
        capacity(max_samples) as int
    };
    let room = if kept.len() >= max_samples && kept.len() > 0 {
        kept.drop_first()
    } else {
        kept
    };
    assert(room =~= kept.subrange(kept.len() + 1 - n, kept.len() as int));
}

/// For every non-empty series, the minimum is at most the mean, which is at
/// most the maximum: `count * min <= sum <= count * max`, and likewise for the
/// rounded-down mean.
pub proof fn lemma_stats_ordered(s: Seq<int>)
    requires
        s.len() > 0,
    ensures
        s.len() * seq_min(s) <= seq_sum(s) <= s.len() * seq_max(s),
        seq_min(s) <= seq_avg(s) <= seq_max(s),
{
    lemma_bounds(s);
    let n = s.len() as int;
    let sum = seq_sum(s);
    let lo = seq_min(s);
    let hi = seq_max(s);
    assert(lo <= sum / n <= hi) by (nonlinear_arith)
        requires
            n * lo <= sum <= n * hi,
            n > 0,
    ;
}

} // verus!
