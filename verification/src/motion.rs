//! Projectile kinematics: parabolic arcs over integer coordinates.
//!
//! A thrown ingredient freezes its launch parameters (gravity `g`, vertical
//! launch speed `v`, horizontal drift `drift`, spawn point `(x0, y0)`) and
//! its position is a pure function of the time elapsed since launch:
//! `y(t) = -g*t^2 + v*t + y0` and `x(t) = drift*t + x0`.
//!
//! Lengths are in micro-units, time in milliseconds.

use vstd::prelude::*;

verus! {

/// Largest coordinate magnitude the play area may use (micro-units).
pub const MAX_COORD: i64 = 2_000_000_000;

/// Largest apex height a throw may aim for (micro-units).
pub const MAX_APEX_HEIGHT: i64 = 3_000_000_000;

/// Largest magnitude of `v`, `g` or `drift` a well-formed throw may carry.
pub const MAX_RATE: i64 = 100_000_000;

/// A projectile's stopwatch saturates here (milliseconds); any projectile
/// this old sits far below the play area and is long since unreachable.
pub const MAX_ELAPSED_MS: u64 = 60_000;

/// Shortest time-to-apex a throw may be derived from (milliseconds).
pub const MIN_APEX_TIME_MS: i64 = 100;

/// Longest time-to-apex a throw may be derived from (milliseconds).
pub const MAX_APEX_TIME_MS: i64 = 5_000;

/// Largest magnitude of the random lateral offset a drift is derived from.
pub const DRIFT_OFFSET_RANGE: i64 = 100_000_000;

/// Launch parameters of one projectile, frozen at spawn time, plus the
/// stopwatch of milliseconds elapsed since the launch.
#[derive(Clone, Copy)]
pub struct Throw {
    /// Gravity coefficient (micro-units per millisecond squared).
    pub g: i64,
    /// Initial vertical speed (micro-units per millisecond).
    pub v: i64,
    /// Constant horizontal speed (micro-units per millisecond).
    pub drift: i64,
    /// Horizontal spawn coordinate (micro-units).
    pub x0: i64,
    /// Vertical spawn coordinate (micro-units).
    pub y0: i64,
    /// Milliseconds since launch, saturating at `MAX_ELAPSED_MS`.
    pub elapsed_ms: u64,
}

/// Vertical position after `t` milliseconds: `-g*t^2 + v*t + y0`.
pub open spec fn y_at(g: int, v: int, y0: int, t: int) -> int {
    y0 + v * t - g * t * t
}

/// Horizontal position after `t` milliseconds: `drift*t + x0`.
pub open spec fn x_at(drift: int, x0: int, t: int) -> int {
    x0 + drift * t
}

/// Bounds under which the position formulas stay well inside `i64`.
pub open spec fn throw_wf(th: Throw) -> bool {
    &&& 0 <= th.g <= MAX_RATE
    &&& 0 <= th.v <= MAX_RATE
    &&& -MAX_RATE <= th.drift <= MAX_RATE
    &&& -MAX_COORD <= th.x0 <= MAX_COORD
    &&& -MAX_COORD <= th.y0 <= MAX_COORD
    &&& th.elapsed_ms <= MAX_ELAPSED_MS
}

/// Current vertical position of a throw.
pub open spec fn spec_pos_y(th: Throw) -> int {
    y_at(th.g as int, th.v as int, th.y0 as int, th.elapsed_ms as int)
}

/// Current horizontal position of a throw.
pub open spec fn spec_pos_x(th: Throw) -> int {
    x_at(th.drift as int, th.x0 as int, th.elapsed_ms as int)
}

/// All positions a well-formed throw can reach fit comfortably in `i64`.
pub proof fn lemma_pos_bounds(th: Throw)
    requires
        throw_wf(th),
    ensures
        -400_000_000_000_000_000 <= spec_pos_y(th) <= 400_000_000_000_000_000,
        -400_000_000_000_000_000 <= spec_pos_x(th) <= 400_000_000_000_000_000,
{
    let g = th.g as int;
    let v = th.v as int;
    let d = th.drift as int;
    let t = th.elapsed_ms as int;
    assert(0 <= g * t * t <= 360_000_000_000_000_000) by (nonlinear_arith)
        requires
            0 <= g <= 100_000_000,
            0 <= t <= 60_000,
    ;
    assert(0 <= v * t <= 6_000_000_000_000) by (nonlinear_arith)
        requires
            0 <= v <= 100_000_000,
            0 <= t <= 60_000,
    ;
    assert(-6_000_000_000_000 <= d * t <= 6_000_000_000_000) by (nonlinear_arith)
        requires
            -100_000_000 <= d <= 100_000_000,
            0 <= t <= 60_000,
    ;
}

impl Throw {
    /// Evaluate the vertical position at the current stopwatch reading.
    pub fn pos_y(&self) -> (y: i64)
        requires
            throw_wf(*self),
        ensures
            y == spec_pos_y(*self),
    {
        proof {
            lemma_pos_bounds(*self);
        }
        let t = self.elapsed_ms as i64;
        assert(0 <= self.g * t <= 6_000_000_000_000 && 0 <= self.g * t * t
            <= 360_000_000_000_000_000) by (nonlinear_arith)
            requires
                0 <= self.g <= 100_000_000,
                0 <= t <= 60_000,
        ;
        assert(0 <= self.v * t <= 6_000_000_000_000) by (nonlinear_arith)
            requires
                0 <= self.v <= 100_000_000,
                0 <= t <= 60_000,
        ;
        self.y0 + self.v * t - self.g * t * t
    }

    /// Evaluate the horizontal position at the current stopwatch reading.
    pub fn pos_x(&self) -> (x: i64)
        requires
            throw_wf(*self),
        ensures
            x == spec_pos_x(*self),
    {
        proof {
            lemma_pos_bounds(*self);
        }
        let t = self.elapsed_ms as i64;
        assert(-6_000_000_000_000 <= self.drift * t <= 6_000_000_000_000) by (nonlinear_arith)
            requires
                -100_000_000 <= self.drift <= 100_000_000,
                0 <= t <= 60_000,
        ;
        self.x0 + self.drift * t
    }

    /// Advance the stopwatch by `dt` milliseconds, saturating at
    /// `MAX_ELAPSED_MS` (far past the time any throw stays in view).
    pub fn advance(&mut self, dt_ms: u64)
        requires
            throw_wf(*old(self)),
        ensures
            throw_wf(*final(self)),
            *final(self) == spec_advance(*old(self), dt_ms),
    {
        if dt_ms <= MAX_ELAPSED_MS && self.elapsed_ms <= MAX_ELAPSED_MS - dt_ms {
            self.elapsed_ms = self.elapsed_ms + dt_ms;
        } else {
            self.elapsed_ms = MAX_ELAPSED_MS;
        }
    }
}

/// The throw after `dt` more milliseconds on its stopwatch: the frozen
/// launch parameters are untouched.
pub open spec fn spec_advance(th: Throw, dt_ms: u64) -> Throw {
    Throw {
        elapsed_ms: if th.elapsed_ms + dt_ms <= MAX_ELAPSED_MS {
            (th.elapsed_ms + dt_ms) as u64
        } else {
            MAX_ELAPSED_MS as u64
        },
        ..th
    }
}

/// The arc is a pure function of its frozen parameters and the elapsed
/// time: evaluating it twice at equal times gives equal positions.
pub proof fn lemma_motion_deterministic(g: int, v: int, y0: int, t1: int, t2: int)
    requires
        t1 == t2,
    ensures
        y_at(g, v, y0, t1) == y_at(g, v, y0, t2),
{
}

/// On the rising limb of the arc (both instants strictly before the apex),
/// the height determines the instant: `y(t1) == y(t2)` holds if and only if
/// `t1 == t2`.  Past the apex this fails: the parabola revisits each height
/// once on the way down.
pub proof fn lemma_rising_arc_injective(g: int, v: int, y0: int, t1: int, t2: int)
    requires
        0 <= g,
        0 <= t1,
        0 <= t2,
        2 * g * t1 < v,
        2 * g * t2 < v,
    ensures
        y_at(g, v, y0, t1) == y_at(g, v, y0, t2) <==> t1 == t2,
{
    if t1 != t2 {
        let lo = if t1 < t2 { t1 } else { t2 };
        let hi = if t1 < t2 { t2 } else { t1 };
        assert(g * (lo + hi) < v) by (nonlinear_arith)
            requires
                2 * g * lo < v,
                2 * g * hi < v,
        ;
        assert((y0 + v * hi - g * hi * hi) - (y0 + v * lo - g * lo * lo) == (hi - lo) * (v - g
            * (lo + hi))) by (nonlinear_arith);
        assert((hi - lo) * (v - g * (lo + hi)) > 0) by (nonlinear_arith)
            requires
                hi - lo >= 1,
                v - g * (lo + hi) >= 1,
        ;
    }
}

/// Magnitude of an integer.
pub open spec fn abs_i(x: int) -> int {
    if x >= 0 {
        x
    } else {
        -x
    }
}

/// `r` is the integer square root of `x`.
pub open spec fn is_int_sqrt(r: int, x: int) -> bool {
    &&& 0 <= r
    &&& r * r <= x
    &&& (r + 1) * (r + 1) > x
}

/// Derive the frozen parameters of a throw that aims for apex height
/// `apex_height` reached after `apex_time_ms` milliseconds, launched from
/// `(x0, y0)`: gravity `g = apex_height / (2 * apex_time_ms^2)`, launch
/// speed `v = sqrt(2 * apex_height * g)`, and a horizontal drift of speed
/// `sqrt(2 * |offset| * g)` pointing in the direction of the sampled
/// lateral offset.
pub fn make_throw(apex_height: i64, apex_time_ms: i64, offset: i64, x0: i64, y0: i64) -> (th:
    Throw)
    requires
        1 <= apex_height <= MAX_APEX_HEIGHT,
        MIN_APEX_TIME_MS <= apex_time_ms <= MAX_APEX_TIME_MS,
        -DRIFT_OFFSET_RANGE <= offset <= DRIFT_OFFSET_RANGE,
        -MAX_COORD <= x0 <= MAX_COORD,
        -MAX_COORD <= y0 <= MAX_COORD,
    ensures
        throw_wf(th),
        th.x0 == x0,
        th.y0 == y0,
        th.elapsed_ms == 0,
        th.g as int == apex_height as int / (2 * (apex_time_ms as int) * (apex_time_ms as int)),
        is_int_sqrt(th.v as int, 2 * (apex_height as int) * (th.g as int)),
        is_int_sqrt(abs_i(th.drift as int), 2 * abs_i(offset as int) * (th.g as int)),
        (th.drift > 0 ==> offset > 0) && (th.drift < 0 ==> offset < 0) && (offset == 0
            ==> th.drift == 0),
        2 * abs_i(offset as int) * (th.g as int) >= 1 ==> ((offset > 0 ==> th.drift > 0) && (
        offset < 0 ==> th.drift < 0)),
{
    proof {
        let t = apex_time_ms as int;
        assert(20_000 <= 2 * t * t <= 50_000_000) by (nonlinear_arith)
            requires
                100 <= t <= 5_000,
        ;
    }
    let denom = 2 * apex_time_ms * apex_time_ms;
    let g = apex_height / denom;
    proof {
        let h = apex_height as int;
        let d = denom as int;
        vstd::arithmetic::div_mod::lemma_div_is_ordered(0, h, d);
        vstd::arithmetic::div_mod::lemma_div_is_ordered(h, 3_000_000_000, d);
        vstd::arithmetic::div_mod::lemma_div_is_ordered_by_denominator(3_000_000_000, 20_000, d);
        assert(0 <= g <= 150_000);
        let gi = g as int;
        assert(0 <= 2 * h * gi <= 900_000_000_000_000) by (nonlinear_arith)
            requires
                1 <= h <= 3_000_000_000,
                0 <= gi <= 150_000,
        ;
    }
    let launch_sq = 2 * apex_height * g;
    let v_u = isqrt(launch_sq as u64);
    proof {
        assert(v_u <= 30_000_000) by (nonlinear_arith)
            requires
                0 <= v_u,
                (v_u as int) * (v_u as int) <= 900_000_000_000_000,
        ;
    }
    let v = v_u as i64;
    let offset_mag = if offset >= 0 {
        offset
    } else {
        -offset
    };
    proof {
        let o = offset_mag as int;
        let gi = g as int;
        assert(0 <= 2 * o * gi <= 30_000_000_000_000) by (nonlinear_arith)
            requires
                0 <= o <= 100_000_000,
                0 <= gi <= 150_000,
        ;
    }
    let drift_sq = 2 * offset_mag * g;
    let m_u = isqrt(drift_sq as u64);
    proof {
        assert(m_u <= 30_000_000) by (nonlinear_arith)
            requires
                0 <= m_u,
                (m_u as int) * (m_u as int) <= 30_000_000_000_000,
        ;
    }
    let m = m_u as i64;
    let drift = if offset > 0 {
        m
    } else if offset < 0 {
        -m
    } else {
        0
    };
    proof {
        assert(is_int_sqrt(m_u as int, 2 * (offset_mag as int) * (g as int)));
        if drift_sq >= 1 && m_u == 0 {
            assert((0 + 1) * (0 + 1) > drift_sq as int);
            assert(false);
        }
        if offset == 0 {
            assert(2 * (offset_mag as int) * (g as int) == 0) by (nonlinear_arith)
                requires
                    offset_mag == 0,
            ;
            assert(m_u == 0) by (nonlinear_arith)
                requires
                    0 <= m_u,
                    (m_u as int) * (m_u as int) <= 0,
            ;
        }
        assert(abs_i(drift as int) == m_u as int);
        assert(abs_i(offset as int) == offset_mag as int);
    }
    Throw { g, v, drift, x0, y0, elapsed_ms: 0 }
}

/// Integer square root: the largest `r` with `r * r <= x`.
pub fn isqrt(x: u64) -> (r: u64)
    ensures
        r * r <= x,
        (r + 1) * (r + 1) > x,
{
    if x == 0 {
        return 0;
    }
    let mut lo: u64 = 0;
    let mut hi: u64 = if x >= 0xFFFF_FFFF {
        0x1_0000_0000
    } else {
        x + 1
    };
    proof {
        assert((0x1_0000_0000 as int) * (0x1_0000_0000 as int) > u64::MAX as int)
            by (nonlinear_arith);
        if x < 0xFFFF_FFFF {
            assert((x + 1) * (x + 1) > x) by (nonlinear_arith)
                requires
                    x >= 1,
            ;
        }
    }
    while lo + 1 < hi
        invariant
            lo < hi <= 0x1_0000_0000,
            (lo as int) * (lo as int) <= x,
            (hi as int) * (hi as int) > x,
        decreases hi - lo,
    {
        let mid = lo + (hi - lo) / 2;
        assert(mid * mid <= 0xFFFF_FFFE_0000_0001) by (nonlinear_arith)
            requires
                0 <= mid <= 0xFFFF_FFFF,
        ;
        if mid * mid <= x {
            lo = mid;
        } else {
            hi = mid;
        }
    }
    lo
}

} // verus!
