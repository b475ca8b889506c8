//! Scalar recursive estimator with adaptive gain and dead-zone output hold.
use vstd::prelude::*;
use crate::fixed::{abs, clamp, div_trunc, lemma_trunc_div_bounds, trunc_div, SCALE};

verus! {

/// Largest magnitude of a measurement, in micro-units.
pub const MAX_MEASUREMENT: i64 = 1_000_000_000_000;

/// Largest process or measurement noise, in micro-units.
pub const MAX_NOISE: i64 = 1_000_000_000_000;

/// Dead zone of a filter made by `new`: 0.01 units.
pub const DEFAULT_DEAD_ZONE: i64 = 10_000;

/// State of one filter. All quantities are in micro-units; the gain `k` is a
/// fraction of `SCALE`.
#[derive(Debug, Clone, Copy)]
pub struct KalmanFilter1D {
    pub q: i64,
    pub r: i64,
    pub p: i64,
    pub x: i64,
    pub k: i64,
    pub initialized: bool,
    pub dead_zone: i64,
    pub last_output: i64,
}

/// Least covariance for measurement noise `r`: the smallest `p` with `10 * p >= r`.
pub open spec fn cov_floor(r: int) -> int {
    (r + 9) / 10
}

/// Greatest covariance for measurement noise `r`.
pub open spec fn cov_ceiling(r: int) -> int {
    10 * r
}

/// A step of `alpha / s` of the way toward a target `d` away, with `alpha` at
/// most one and a half times `s`, stays on the target's side and overshoots
/// it by at most half of `d`.
proof fn lemma_step_bounds(alpha: int, d: int, s: int)
    requires
        s > 0,
        0 <= alpha,
        2 * alpha <= 3 * s,
    ensures
        d >= 0 ==> 0 <= trunc_div(alpha * d, s) && 2 * trunc_div(alpha * d, s) <= 3 * d,
        d < 0 ==> trunc_div(alpha * d, s) <= 0 && 2 * trunc_div(alpha * d, s) >= 3 * d,
        alpha <= s && d >= 0 ==> trunc_div(alpha * d, s) <= d,
        alpha <= s && d < 0 ==> trunc_div(alpha * d, s) >= d,
{
    let t = trunc_div(alpha * d, s);
    lemma_trunc_div_bounds(alpha * d, s);
    if d >= 0 {
        assert(alpha * d >= 0) by (nonlinear_arith)
            requires alpha >= 0, d >= 0;
        assert(2 * (s * t) <= 3 * (s * d)) by (nonlinear_arith)
            requires 2 * alpha <= 3 * s, d >= 0, s * t <= alpha * d, alpha >= 0;
        assert(2 * t <= 3 * d) by (nonlinear_arith)
            requires 2 * (s * t) <= 3 * (s * d), s > 0;
        if alpha <= s {
            assert(s * t <= s * d) by (nonlinear_arith)
                requires alpha <= s, d >= 0, s * t <= alpha * d, alpha >= 0;
            assert(t <= d) by (nonlinear_arith)
                requires s * t <= s * d, s > 0;
        }
    } else {
        assert(alpha * d <= 0) by (nonlinear_arith)
            requires alpha >= 0, d < 0;
        assert(2 * (s * t) >= 3 * (s * d)) by (nonlinear_arith)
            requires 2 * alpha <= 3 * s, d < 0, s * t >= alpha * d, alpha >= 0;
        assert(2 * t >= 3 * d) by (nonlinear_arith)
            requires 2 * (s * t) >= 3 * (s * d), s > 0;
        if alpha <= s {
            assert(s * t >= s * d) by (nonlinear_arith)
                requires alpha <= s, d < 0, s * t >= alpha * d, alpha >= 0;
            assert(t >= d) by (nonlinear_arith)
                requires s * t >= s * d, s > 0;
        }
    }
}

impl KalmanFilter1D {
    /// The filter's invariant.
    pub open spec fn wf(&self) -> bool {
        &&& 0 <= self.q <= MAX_NOISE
        &&& 0 < self.r <= MAX_NOISE
        &&& cov_floor(self.r as int) <= self.p <= cov_ceiling(self.r as int)
        &&& 0 <= self.k < SCALE
        &&& 0 <= self.dead_zone
        &&& abs(self.x as int) <= 3 * MAX_MEASUREMENT
        &&& abs(self.last_output as int) <= 3 * MAX_MEASUREMENT
    }

    /// Covariance after the prediction step.
    pub open spec fn predicted(&self) -> int {
        self.p + self.q
    }

    /// Gain of the next update, as a fraction of `SCALE`.
    pub open spec fn gain(&self) -> int {
        self.predicted() * SCALE / (self.predicted() + self.r)
    }

    /// Gain actually applied for measurement `m`: faster for large steps.
    pub open spec fn alpha(&self, m: int) -> int {
        if abs(m - self.x) > SCALE {
            self.gain() * 3 / 2
        } else {
            self.gain() * 4 / 5
        }
    }

    /// Estimate after an update with measurement `m` of an initialized filter.
    pub open spec fn next_estimate(&self, m: int) -> int {
        self.x + trunc_div(self.alpha(m) * (m - self.x), SCALE as int)
    }

    /// Covariance after an update of an initialized filter.
    pub open spec fn next_cov(&self) -> int {
        clamp(
            self.predicted() * (SCALE - self.gain()) / (SCALE as int),
            cov_floor(self.r as int),
            cov_ceiling(self.r as int),
        )
    }

    /// Value that `update(m)` returns.
    pub open spec fn output(&self, m: i64) -> i64 {
        if !self.initialized {
            m
        } else if abs(self.next_estimate(m as int) - self.last_output) < self.dead_zone {
            self.last_output
        } else {
            self.next_estimate(m as int) as i64
        }
    }

    /// State after `update(m)`.
    pub open spec fn next(&self, m: i64) -> KalmanFilter1D {
        if !self.initialized {
            KalmanFilter1D { x: m, last_output: m, initialized: true, ..*self }
        } else {
            KalmanFilter1D {
                p: self.next_cov() as i64,
                k: self.gain() as i64,
                x: self.next_estimate(m as int) as i64,
                last_output: self.output(m),
                ..*self
            }
        }
    }

    /// State after `reset()`.
    pub open spec fn cleared(&self) -> KalmanFilter1D {
        KalmanFilter1D { x: 0, last_output: 0, p: self.r, k: 0, initialized: false, ..*self }
    }

    /// A fresh filter with process noise `q`, measurement noise `r` and the
    /// default dead zone.
    pub fn new(q: i64, r: i64) -> (f: KalmanFilter1D)
        requires
            0 <= q <= MAX_NOISE,
            0 < r <= MAX_NOISE,
        ensures
            f.wf(),
            f == (KalmanFilter1D {
                q,
                r,
                p: r,
                x: 0,
                k: 0,
                initialized: false,
                dead_zone: DEFAULT_DEAD_ZONE,
                last_output: 0,
            }),
    {
        KalmanFilter1D {
            q,
            r,
            p: r,
            x: 0,
            k: 0,
            initialized: false,
            dead_zone: DEFAULT_DEAD_ZONE,
            last_output: 0,
        }
    }

    /// The same filter with dead zone `threshold`.
    pub fn with_dead_zone(self, threshold: i64) -> (f: KalmanFilter1D)
        requires
            self.wf(),
            threshold >= 0,
        ensures
            f.wf(),
            f == (KalmanFilter1D { dead_zone: threshold, ..self }),
    {
        KalmanFilter1D { dead_zone: threshold, ..self }
    }

    /// Feeds one measurement and returns the gated output.
    pub fn update(&mut self, measurement: i64) -> (out: i64)
        requires
            old(self).wf(),
            -MAX_MEASUREMENT <= measurement <= MAX_MEASUREMENT,
        ensures
            final(self).wf(),
            *final(self) == old(self).next(measurement),
            out == old(self).output(measurement),
    {
        if !self.initialized {
            self.x = measurement;
            self.last_output = measurement;
            self.initialized = true;
            return measurement;
        }
        let s: i128 = SCALE as i128;
        let r: i128 = self.r as i128;
        let prior: i128 = self.p as i128 + self.q as i128;
        assert(0 <= prior * s / (prior + r) < s) by (nonlinear_arith)
            requires prior >= 0, r > 0, s > 0;
        let k: i128 = prior * s / (prior + r);
        let d: i128 = measurement as i128 - self.x as i128;
        let delta: i128 = if d < 0 { -d } else { d };
        let alpha: i128 = if delta > s { k * 3 / 2 } else { k * 4 / 5 };
        assert(alpha * d <= 2 * s * (4 * MAX_MEASUREMENT) && alpha * d >= -(2 * s * (4
            * MAX_MEASUREMENT))) by (nonlinear_arith)
            requires
                0 <= alpha <= 2 * s,
                -(4 * MAX_MEASUREMENT) <= d <= 4 * MAX_MEASUREMENT,
        ;
        let t: i128 = div_trunc(alpha * d, s);
        proof {
            lemma_step_bounds(alpha as int, d as int, s as int);
        }
        let x_new: i128 = self.x as i128 + t;
        assert(0 <= prior * (s - k) <= prior * s) by (nonlinear_arith)
            requires prior >= 0, 0 <= k < s;
        assert(prior * s <= 100 * MAX_NOISE * SCALE) by (nonlinear_arith)
            requires 0 <= prior <= 100 * MAX_NOISE, s == SCALE;
        let shrunk: i128 = prior * (s - k) / s;
        let lo: i128 = (r + 9) / 10;
        let hi: i128 = r * 10;
        let bounded_p: i128 = if shrunk < lo { lo } else if shrunk > hi { hi } else { shrunk };
        self.p = bounded_p as i64;
        self.k = k as i64;
        self.x = x_new as i64;
        let gap: i128 = x_new - self.last_output as i128;
        let change: i128 = if gap < 0 { -gap } else { gap };
        if change < self.dead_zone as i128 {
            self.last_output
        } else {
            self.last_output = x_new as i64;
            x_new as i64
        }
    }

    /// Returns the filter to its state before the first measurement.
    pub fn reset(&mut self)
        requires
            old(self).wf(),
        ensures
            final(self).wf(),
            *final(self) == old(self).cleared(),
    {
        self.x = 0;
        self.p = self.r;
        self.k = 0;
        self.initialized = false;
        self.last_output = 0;
    }

    /// The current estimate.
    pub fn get_estimate(&self) -> (e: i64)
        ensures
            e == self.x,
    {
        self.x
    }

    /// Whether a measurement has been seen since creation or the last reset.
    pub fn is_initialized(&self) -> (b: bool)
        ensures
            b == self.initialized,
    {
        self.initialized
    }
}

} // verus!

verus! {

/// A filter as `new(q, r).with_dead_zone(dead_zone)` makes it.
pub open spec fn fresh(q: i64, r: i64, dead_zone: i64) -> KalmanFilter1D {
    KalmanFilter1D { q, r, p: r, x: 0, k: 0, initialized: false, dead_zone, last_output: 0 }
}

/// Whether every measurement of `ms` is within the filter's measurement bound.
pub open spec fn in_range(ms: Seq<i64>) -> bool {
    forall|i: int| 0 <= i < ms.len() ==> -MAX_MEASUREMENT <= #[trigger] ms[i] <= MAX_MEASUREMENT
}

/// The filter after it has been fed the measurements of `ms` in order.
pub open spec fn feed(f: KalmanFilter1D, ms: Seq<i64>) -> KalmanFilter1D
    decreases ms.len(),
{
    if ms.len() == 0 {
        f
    } else {
        feed(f, ms.drop_last()).next(ms.last())
    }
}

/// One update keeps the invariant.
pub proof fn lemma_next_wf(f: KalmanFilter1D, m: i64)
    requires
        f.wf(),
        -MAX_MEASUREMENT <= m <= MAX_MEASUREMENT,
    ensures
        f.next(m).wf(),
{
    if f.initialized {
        let prior = f.predicted();
        let r = f.r as int;
        let s = SCALE as int;
        assert(0 <= prior * s / (prior + r) < s) by (nonlinear_arith)
            requires prior >= 0, r > 0, s > 0;
        let d = m - f.x;
        lemma_step_bounds(f.alpha(m as int), d, s);
    }
}

/// Feeding a sequence keeps the invariant.
pub proof fn lemma_feed_wf(f: KalmanFilter1D, ms: Seq<i64>)
    requires
        f.wf(),
        in_range(ms),
    ensures
        feed(f, ms).wf(),
    decreases ms.len(),
{
    if ms.len() > 0 {
        assert(in_range(ms.drop_last()));
        lemma_feed_wf(f, ms.drop_last());
        lemma_next_wf(feed(f, ms.drop_last()), ms.last());
    }
}

/// A fresh filter returns its first measurement unchanged and takes it as
/// its estimate.
pub proof fn lemma_first_update_identity(q: i64, r: i64, dead_zone: i64, m: i64)
    ensures
        fresh(q, r, dead_zone).output(m) == m,
        fresh(q, r, dead_zone).next(m).x == m,
{
}

/// Once a first measurement `v` has been taken, the output stays exactly `v`
/// for as long as each following measurement is within the dead zone of it.
/// Stated for dead zones of at most half a unit: a wider zone admits two
/// measurements more than a unit apart, whose faster gain can carry the
/// estimate past the zone.
pub proof fn lemma_dead_zone_hold(f: KalmanFilter1D, v: i64, ms: Seq<i64>)
    requires
        f.wf(),
        !f.initialized,
        2 * f.dead_zone <= SCALE,
        -MAX_MEASUREMENT <= v <= MAX_MEASUREMENT,
        in_range(ms),
        forall|i: int| 0 <= i < ms.len() ==> abs(#[trigger] ms[i] - v) < f.dead_zone,
    ensures
        f.output(v) == v,
        forall|i: int| 0 <= i < ms.len() ==> #[trigger] feed(f.next(v), ms.take(i)).output(ms[i]) == v,
{
    assert forall|i: int| 0 <= i < ms.len() implies #[trigger] feed(f.next(v), ms.take(i)).output(
        ms[i],
    ) == v by {
        lemma_hold_prefix(f, v, ms, i);
        let g = feed(f.next(v), ms.take(i));
        lemma_hold_step(g, v, ms[i]);
    }
}

/// The state in which the dead zone holds the output at `v`.
spec fn holding(g: KalmanFilter1D, v: i64) -> bool {
    &&& g.wf()
    &&& g.initialized
    &&& g.last_output == v
    &&& (g.x == v || abs(g.x - v) < g.dead_zone)
}

proof fn lemma_hold_step(g: KalmanFilter1D, v: i64, m: i64)
    requires
        holding(g, v),
        2 * g.dead_zone <= SCALE,
        -MAX_MEASUREMENT <= m <= MAX_MEASUREMENT,
        abs(m - v) < g.dead_zone,
    ensures
        g.output(m) == v,
        holding(g.next(m), v),
{
    lemma_next_wf(g, m);
    let prior = g.predicted();
    let r = g.r as int;
    let s = SCALE as int;
    assert(0 <= prior * s / (prior + r) < s) by (nonlinear_arith)
        requires prior >= 0, r > 0, s > 0;
    let d = m - g.x;
    assert(abs(d) <= s);
    lemma_step_bounds(g.alpha(m as int), d, s);
}

proof fn lemma_hold_prefix(f: KalmanFilter1D, v: i64, ms: Seq<i64>, i: int)
    requires
        f.wf(),
        !f.initialized,
        2 * f.dead_zone <= SCALE,
        -MAX_MEASUREMENT <= v <= MAX_MEASUREMENT,
        in_range(ms),
        forall|j: int| 0 <= j < ms.len() ==> abs(#[trigger] ms[j] - v) < f.dead_zone,
        0 <= i <= ms.len(),
    ensures
        holding(feed(f.next(v), ms.take(i)), v),
        feed(f.next(v), ms.take(i)).dead_zone == f.dead_zone,
    decreases i,
{
    lemma_next_wf(f, v);
    if i > 0 {
        lemma_hold_prefix(f, v, ms, i - 1);
        assert(ms.take(i).drop_last() =~= ms.take(i - 1));
        lemma_hold_step(feed(f.next(v), ms.take(i - 1)), v, ms[i - 1]);
    } else {
        assert(ms.take(0) =~= Seq::<i64>::empty());
    }
}

/// In every state a filter reaches, `0.1 * r <= p <= 10 * r`.
pub proof fn lemma_covariance_bounds(f: KalmanFilter1D, ms: Seq<i64>)
    requires
        f.wf(),
        in_range(ms),
    ensures
        feed(f, ms).r == f.r,
        f.r <= 10 * feed(f, ms).p <= 100 * f.r,
    decreases ms.len(),
{
    lemma_feed_wf(f, ms);
    if ms.len() > 0 {
        assert(in_range(ms.drop_last()));
        lemma_covariance_bounds(f, ms.drop_last());
    }
}

/// After `reset` the estimate is zero, the filter is uninitialized, and the
/// next measurement comes back unchanged.
pub proof fn lemma_reset_law(f: KalmanFilter1D, m: i64)
    requires
        f.wf(),
    ensures
        f.cleared().x == 0,
        !f.cleared().initialized,
        f.cleared().output(m) == m,
        f.cleared().next(m).x == m,
{
}

} // verus!
