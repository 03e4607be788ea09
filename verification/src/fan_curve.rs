//! The fan-curve controller's pure half: piecewise-linear interpolation of
//! a fan duty cycle from a temperature over a calibration table, with the
//! properties the control loop relies on proved as lemmas: the duty is
//! monotone in temperature, pinned at the end points, and exact at every
//! control point.

use vstd::prelude::*;

use vstd::arithmetic::div_mod::{
    lemma_div_is_ordered, lemma_div_multiples_vanish, lemma_div_nonincreasing,
    lemma_div_pos_is_pos,
};
use vstd::arithmetic::mul::{lemma_mul_inequality, lemma_mul_nonnegative};

verus! {

/// Well-formed calibration table: temperatures strictly increase and duty
/// never falls as temperature rises. Malformed tables are a configuration
/// error caught at startup by [`curve_is_wf`], not a runtime case.
pub open spec fn curve_wf(curve: Seq<(u8, u8)>) -> bool {
    forall|i: int|
        0 <= i && i + 1 < curve.len() ==> (#[trigger] curve[i]).0 < curve[i + 1].0 && curve[i].1
            <= curve[i + 1].1
}

/// Linear interpolation between two control points, in exact integer
/// arithmetic (quotient rounded towards zero). A degenerate pair with equal
/// temperatures yields the upper duty rather than dividing by zero.
pub open spec fn interp_duty(p: (u8, u8), q: (u8, u8), temp: u8) -> int {
    if p.0 == q.0 {
        q.1 as int
    } else {
        p.1 + (temp - p.0) * (q.1 - p.1) / (q.0 - p.0)
    }
}

/// The duty the curve assigns to a temperature: the first point's duty at
/// or below the first control point, the last point's duty at or above the
/// last, and interpolation over the bracketing pair in between. An empty
/// table yields duty 0.
pub open spec fn duty_for(temp: u8, curve: Seq<(u8, u8)>) -> int
    decreases curve.len(),
{
    if curve.len() == 0 {
        0
    } else if temp <= curve[0].0 {
        curve[0].1 as int
    } else if curve.len() == 1 {
        curve[0].1 as int
    } else if temp <= curve[1].0 {
        interp_duty(curve[0], curve[1], temp)
    } else {
        duty_for(temp, curve.drop_first())
    }
}

/// Transitive form of the adjacent-pair ordering in [`curve_wf`].
pub proof fn lemma_curve_order(curve: Seq<(u8, u8)>, i: int, j: int)
    requires
        curve_wf(curve),
        0 <= i <= j < curve.len(),
    ensures
        curve[i].0 <= curve[j].0,
        curve[i].1 <= curve[j].1,
        i < j ==> curve[i].0 < curve[j].0,
    decreases j - i,
{
    if i < j {
        lemma_curve_order(curve, i, j - 1);
        assert(curve[j - 1].0 < curve[j].0 && curve[j - 1].1 <= curve[j].1);
    }
}

proof fn lemma_drop_first_wf(curve: Seq<(u8, u8)>)
    requires
        curve_wf(curve),
        curve.len() > 0,
    ensures
        curve_wf(curve.drop_first()),
{
    let t = curve.drop_first();
    assert forall|i: int| 0 <= i && i + 1 < t.len() implies (#[trigger] t[i]).0 < t[i + 1].0
        && t[i].1 <= t[i + 1].1 by {
        assert(t[i] == curve[i + 1]);
        assert(t[i + 1] == curve[i + 2]);
        assert(curve[i + 1].0 < curve[i + 2].0 && curve[i + 1].1 <= curve[i + 2].1);
    }
}

/// Interpolated duty lies between the bracketing duties.
proof fn lemma_interp_bounds(p: (u8, u8), q: (u8, u8), temp: u8)
    requires
        p.0 < temp <= q.0,
        p.1 <= q.1,
    ensures
        p.1 <= interp_duty(p, q, temp) <= q.1,
{
    let dt = temp - p.0;
    let r = q.0 - p.0;
    let df = q.1 - p.1;
    lemma_mul_nonnegative(dt as int, df as int);
    lemma_div_pos_is_pos(dt * df, r as int);
    lemma_mul_inequality(dt as int, r as int, df as int);
    lemma_div_is_ordered(dt * df, r * df, r as int);
    lemma_div_multiples_vanish(df as int, r as int);
    assert(r * df == (r as int) * (df as int));
    assert((r as int) * (df as int) / (r as int) == df as int);
}

/// Interpolation is monotone in the temperature.
proof fn lemma_interp_monotonic(p: (u8, u8), q: (u8, u8), a: u8, b: u8)
    requires
        p.0 < a <= b <= q.0,
        p.1 <= q.1,
    ensures
        interp_duty(p, q, a) <= interp_duty(p, q, b),
{
    let r = q.0 - p.0;
    let df = q.1 - p.1;
    lemma_mul_inequality((a - p.0) as int, (b - p.0) as int, df as int);
    lemma_div_is_ordered((a - p.0) * df, (b - p.0) * df, r as int);
}

/// At the right end of a bracketing pair the interpolation is exact.
proof fn lemma_interp_at_upper(p: (u8, u8), q: (u8, u8))
    requires
        p.0 < q.0,
        p.1 <= q.1,
    ensures
        interp_duty(p, q, q.0) == q.1 as int,
{
    let r = q.0 - p.0;
    let df = q.1 - p.1;
    lemma_div_multiples_vanish(df as int, r as int);
    assert(r * df == (r as int) * (df as int));
    assert((r as int) * (df as int) / (r as int) == df as int);
}

/// Any assigned duty lies between the first and the last control duty.
pub proof fn lemma_duty_bounds(temp: u8, curve: Seq<(u8, u8)>)
    requires
        curve_wf(curve),
        curve.len() > 0,
    ensures
        curve[0].1 <= duty_for(temp, curve) <= curve.last().1,
    decreases curve.len(),
{
    lemma_curve_order(curve, 0, curve.len() - 1);
    if temp <= curve[0].0 {
    } else if curve.len() == 1 {
    } else if temp <= curve[1].0 {
        lemma_interp_bounds(curve[0], curve[1], temp);
        lemma_curve_order(curve, 1, curve.len() - 1);
    } else {
        lemma_drop_first_wf(curve);
        lemma_duty_bounds(temp, curve.drop_first());
        assert(curve.drop_first().last() == curve.last());
    }
}

/// The fan curve is monotone: a hotter reading never asks for less fan.
pub proof fn lemma_duty_monotonic(curve: Seq<(u8, u8)>, a: u8, b: u8)
    requires
        curve_wf(curve),
        a <= b,
    ensures
        duty_for(a, curve) <= duty_for(b, curve),
    decreases curve.len(),
{
    if curve.len() == 0 {
    } else if a <= curve[0].0 {
        lemma_duty_bounds(b, curve);
    } else if curve.len() == 1 {
    } else if a <= curve[1].0 {
        if b <= curve[1].0 {
            lemma_interp_monotonic(curve[0], curve[1], a, b);
        } else {
            lemma_interp_bounds(curve[0], curve[1], a);
            lemma_drop_first_wf(curve);
            lemma_duty_bounds(b, curve.drop_first());
            assert(curve.drop_first()[0] == curve[1]);
        }
    } else {
        lemma_drop_first_wf(curve);
        lemma_duty_monotonic(curve.drop_first(), a, b);
    }
}

/// At or below the first control point, the first duty is returned.
pub proof fn lemma_duty_below_first(temp: u8, curve: Seq<(u8, u8)>)
    requires
        curve.len() > 0,
        temp <= curve[0].0,
    ensures
        duty_for(temp, curve) == curve[0].1 as int,
{
}

/// At or above the last control point, the last duty is returned.
pub proof fn lemma_duty_above_last(temp: u8, curve: Seq<(u8, u8)>)
    requires
        curve_wf(curve),
        curve.len() > 0,
        temp >= curve.last().0,
    ensures
        duty_for(temp, curve) == curve.last().1 as int,
    decreases curve.len(),
{
    if curve.len() == 1 {
    } else {
        lemma_curve_order(curve, 0, curve.len() - 1);
        assert(temp > curve[0].0);
        if temp <= curve[1].0 {
            lemma_curve_order(curve, 1, curve.len() - 1);
            assert(curve[1].0 == curve.last().0 && curve.len() == 2) by {
                if curve.len() > 2 {
                    lemma_curve_order(curve, 1, curve.len() - 1);
                    assert(curve[1].0 < curve.last().0);
                }
            }
            lemma_interp_at_upper(curve[0], curve[1]);
        } else {
            lemma_drop_first_wf(curve);
            lemma_duty_above_last(temp, curve.drop_first());
            assert(curve.drop_first().last() == curve.last());
        }
    }
}

/// At a control point the curve returns that point's duty exactly: no
/// interpolation drift.
pub proof fn lemma_duty_at_point(curve: Seq<(u8, u8)>, i: int)
    requires
        curve_wf(curve),
        0 <= i < curve.len(),
    ensures
        duty_for(curve[i].0, curve) == curve[i].1 as int,
    decreases i,
{
    let temp = curve[i].0;
    if i == 0 {
    } else {
        lemma_curve_order(curve, 0, i);
        assert(temp > curve[0].0);
        if i == 1 {
            lemma_interp_at_upper(curve[0], curve[1]);
        } else {
            lemma_curve_order(curve, 1, i);
            assert(temp > curve[1].0);
            lemma_drop_first_wf(curve);
            lemma_duty_at_point(curve.drop_first(), i - 1);
        }
    }
}

/// Segment view of the recursion: a temperature strictly inside the table
/// is interpolated over its bracketing pair.
proof fn lemma_duty_segment(curve: Seq<(u8, u8)>, temp: u8, k: int)
    requires
        curve_wf(curve),
        0 <= k,
        k + 1 < curve.len(),
        curve[k].0 < temp <= curve[k + 1].0,
    ensures
        duty_for(temp, curve) == interp_duty(curve[k], curve[k + 1], temp),
    decreases k,
{
    if k == 0 {
        lemma_curve_order(curve, 0, k);
    } else {
        lemma_curve_order(curve, 0, k);
        lemma_curve_order(curve, 1, k);
        assert(temp > curve[1].0);
        lemma_drop_first_wf(curve);
        lemma_duty_segment(curve.drop_first(), temp, k - 1);
    }
}

/// Runtime check that a calibration table is well-formed; used once at
/// startup, where a malformed table is a configuration error.
pub fn curve_is_wf(curve: &[(u8, u8)]) -> (b: bool)
    ensures
        b == curve_wf(curve@),
{
    let n = curve.len();
    if n <= 1 {
        return true;
    }
    let mut k: usize = 0;
    while k < n - 1
        invariant
            0 <= k <= n - 1,
            2 <= n == curve@.len(),
            forall|i: int|
                0 <= i && i + 1 <= k ==> (#[trigger] curve@[i]).0 < curve@[i + 1].0 && curve@[i].1
                    <= curve@[i + 1].1,
        decreases n - k,
    {
        let p = curve[k];
        let q = curve[k + 1];
        if !(p.0 < q.0 && p.1 <= q.1) {
            proof {
                assert(!((curve@[k as int]).0 < curve@[k as int + 1].0 && curve@[k as int].1
                    <= curve@[k as int + 1].1));
            }
            return false;
        }
        k = k + 1;
    }
    true
}

/// The factory calibration table the control loop runs on.
pub fn default_fan_curve() -> (curve: Vec<(u8, u8)>)
    ensures
        curve@ =~= seq![(40u8, 20u8), (55u8, 40u8), (70u8, 65u8), (85u8, 100u8)],
        curve_wf(curve@),
{
    let mut curve: Vec<(u8, u8)> = Vec::new();
    curve.push((40, 20));
    curve.push((55, 40));
    curve.push((70, 65));
    curve.push((85, 100));
    proof {
        assert(curve@ =~= seq![(40u8, 20u8), (55u8, 40u8), (70u8, 65u8), (85u8, 100u8)]);
        assert forall|i: int| 0 <= i && i + 1 < curve@.len() implies (#[trigger] curve@[i]).0
            < curve@[i + 1].0 && curve@[i].1 <= curve@[i + 1].1 by {
            if i == 0 {
                assert(curve@[0] == (40u8, 20u8) && curve@[1] == (55u8, 40u8));
            } else if i == 1 {
                assert(curve@[1] == (55u8, 40u8) && curve@[2] == (70u8, 65u8));
            } else {
                assert(curve@[2] == (70u8, 65u8) && curve@[3] == (85u8, 100u8));
            }
        }
    }
    curve
}

/// Map a temperature to a fan duty over the calibration table: the pure,
/// deterministic core of the background controller.
pub fn calculate_fan_speed(current_temp: u8, curve: &[(u8, u8)]) -> (duty: u8)
    requires
        curve_wf(curve@),
    ensures
        duty as int == duty_for(current_temp, curve@),
{
    let n = curve.len();
    if n == 0 {
        return 0;
    }
    let first = curve[0];
    if current_temp <= first.0 {
        return first.1;
    }
    let last = curve[n - 1];
    if current_temp >= last.0 {
        proof {
            lemma_duty_above_last(current_temp, curve@);
        }
        return last.1;
    }
    let mut k: usize = 0;
    while k + 1 < n
        invariant
            0 <= k < n,
            n == curve@.len(),
            curve_wf(curve@),
            current_temp > curve@[k as int].0,
            current_temp < curve@[n - 1].0,
        decreases n - k,
    {
        let (t1, f1) = curve[k];
        let (t2, f2) = curve[k + 1];
        if current_temp >= t1 && current_temp <= t2 {
            if t2 == t1 {
                // Unreachable under a well-formed table; kept as the
                // degenerate-pair rule: identical temperatures yield the
                // upper duty.
                return f2;
            }
            let dt = (current_temp - t1) as u32;
            let df = (f2 - f1) as u32;
            let r = (t2 - t1) as u32;
            proof {
                assert(dt as int * df as int <= 65025) by (nonlinear_arith)
                    requires
                        0 <= dt as int <= 255,
                        0 <= df as int <= 255,
                ;
                lemma_mul_nonnegative(dt as int, df as int);
                lemma_div_nonincreasing(dt as int * df as int, r as int);
                lemma_div_pos_is_pos(dt as int * df as int, r as int);
                lemma_duty_segment(curve@, current_temp, k as int);
                lemma_interp_bounds(curve@[k as int], curve@[k as int + 1], current_temp);
            }
            let duty32 = f1 as u32 + dt * df / r;
            return duty32 as u8;
        }
        k = k + 1;
    }
    proof {
        // The scan always brackets the temperature before running out:
        // `k` would otherwise have walked past the last point.
        assert(false);
    }
    first.1
}

} // verus!
