//! The laws every trajectory obeys, stated over the model and proved once
//! by induction over the recorded states.

use crate::fixed::{
    lemma_tdiv_exact, lemma_tdiv_monotone, lemma_tdiv_nonneg, lemma_tdiv_zero, scale_down, tdiv,
    SCALE,
};
use crate::model::{accel, drag_over_mass, speed, step, time_left, trace, Params, State, V2};
use vstd::prelude::*;

verus! {

/// The shape of every trajectory of a well-formed parameter set: it starts
/// at the given state; each later entry is exactly one integration step
/// after the one before, so the time climbs by exactly one step per entry;
/// every entry but the last lies before the stop time; every entry strictly
/// between the first and the last is at or above the ground; and the run
/// ends only once the stop time is reached or the projectile is below the
/// ground, whichever comes first.
pub proof fn lemma_trace_structure(p: Params, s: State)
    requires
        p.wf(),
    ensures
        trace(p, s).len() >= 1,
        trace(p, s)[0] == s,
        s.time < p.ending_time ==> trace(p, s).len() >= 2,
        forall|i: int|
            1 <= i < trace(p, s).len() ==> #[trigger] trace(p, s)[i] == step(
                p,
                trace(p, s)[i - 1],
            ),
        forall|i: int|
            0 <= i < trace(p, s).len() ==> #[trigger] trace(p, s)[i].time == s.time + i
                * p.delta_time,
        forall|i: int|
            0 <= i < trace(p, s).len() - 1 ==> #[trigger] trace(p, s)[i].time < p.ending_time,
        forall|i: int|
            1 <= i < trace(p, s).len() - 1 ==> #[trigger] trace(p, s)[i].position.y >= 0,
        trace(p, s).last().time >= p.ending_time || trace(p, s).last().position.y < 0,
    decreases time_left(p, s),
{
    let t = trace(p, s);
    if s.time >= p.ending_time {
        assert(t =~= seq![s]);
    } else {
        let n = step(p, s);
        assert(n.time == s.time + 1 * p.delta_time);
        if n.position.y < 0 {
            assert(t =~= seq![s, n]);
        } else {
            lemma_trace_structure(p, n);
            let sub = trace(p, n);
            assert(t =~= seq![s] + sub);
            assert forall|i: int| 1 <= i < t.len() implies #[trigger] t[i] == step(
                p,
                t[i - 1],
            ) by {
                assert(t[i] == sub[i - 1]);
                if i == 1 {
                    assert(sub[0] == n);
                } else {
                    assert(t[i - 1] == sub[i - 2]);
                    assert(sub[i - 1] == step(p, sub[i - 2]));
                }
            }
            assert forall|i: int| 0 <= i < t.len() implies #[trigger] t[i].time == s.time + i
                * p.delta_time by {
                if i >= 1 {
                    assert(sub[i - 1].time == n.time + (i - 1) * p.delta_time);
                    assert(n.time + (i - 1) * p.delta_time == s.time + i * p.delta_time)
                        by (nonlinear_arith)
                        requires
                            n.time == s.time + p.delta_time,
                    ;
                } else {
                    assert(t[0] == s);
                    assert(s.time + 0 * p.delta_time == s.time) by (nonlinear_arith);
                }
            }
            assert forall|i: int| 0 <= i < t.len() - 1 implies #[trigger] t[i].time
                < p.ending_time by {
                if i >= 1 {
                    assert(t[i] == sub[i - 1]);
                    assert(sub[i - 1].time < p.ending_time);
                }
            }
            assert forall|i: int| 1 <= i < t.len() - 1 implies #[trigger] t[i].position.y
                >= 0 by {
                assert(t[i] == sub[i - 1]);
                if i == 1 {
                    assert(sub[0] == n);
                } else {
                    assert(sub[i - 1].position.y >= 0);
                }
            }
            assert(t.last() == sub.last());
        }
    }
}

/// One drag-free step: with a zero drag proportion the acceleration is pure
/// gravity, the horizontal velocity is untouched, and the horizontal
/// position advances by the scaled velocity alone.
pub proof fn lemma_no_drag_step(p: Params, s: State)
    requires
        p.wf(),
        p.drag_proportion == 0,
    ensures
        accel(p, s) == (V2 { x: 0, y: -p.gravity }),
        step(p, s).velocity.x == s.velocity.x,
        step(p, s).velocity.y == s.velocity.y + scale_down(-p.gravity * p.delta_time),
        step(p, s).position.x == s.position.x + scale_down(s.velocity.x * p.delta_time),
        step(p, s).time == s.time + p.delta_time,
{
    lemma_tdiv_zero(p.mass);
    lemma_tdiv_zero(SCALE as int);
    lemma_tdiv_zero(2);
    assert(drag_over_mass(p) == tdiv(0, p.mass));
    assert(scale_down(0 * speed(s.velocity)) == 0);
    assert(scale_down(0 * s.velocity.x) == 0);
    assert(scale_down(0 * s.velocity.y) == 0);
    assert(accel(p, s) == (V2 { x: 0, y: -p.gravity }));
    assert(scale_down(0 * p.delta_time) == 0);
}

/// The drag-free closed form: with a zero drag proportion the horizontal
/// velocity never changes, the vertical velocity falls linearly, one scaled
/// gravity increment per step, and the horizontal position advances
/// linearly, one scaled velocity increment per step.
pub proof fn lemma_no_drag_closed_form(p: Params, s: State)
    requires
        p.wf(),
        p.drag_proportion == 0,
    ensures
        forall|i: int|
            0 <= i < trace(p, s).len() ==> (#[trigger] trace(p, s)[i]).velocity.x
                == s.velocity.x,
        forall|i: int|
            0 <= i < trace(p, s).len() ==> (#[trigger] trace(p, s)[i]).velocity.y
                == s.velocity.y + i * scale_down(-p.gravity * p.delta_time),
        forall|i: int|
            0 <= i < trace(p, s).len() ==> (#[trigger] trace(p, s)[i]).position.x
                == s.position.x + i * scale_down(s.velocity.x * p.delta_time),
        forall|i: int|
            1 <= i < trace(p, s).len() ==> (#[trigger] trace(p, s)[i]).acceleration == (V2 {
                x: 0,
                y: -p.gravity,
            }),
    decreases time_left(p, s),
{
    let t = trace(p, s);
    let gdt = scale_down(-p.gravity * p.delta_time);
    let vdt = scale_down(s.velocity.x * p.delta_time);
    if s.time >= p.ending_time {
        assert(t =~= seq![s]);
        assert(s.velocity.y + 0 * gdt == s.velocity.y) by (nonlinear_arith);
        assert(s.position.x + 0 * vdt == s.position.x) by (nonlinear_arith);
    } else {
        let n = step(p, s);
        lemma_no_drag_step(p, s);
        if n.position.y < 0 {
            assert(t =~= seq![s, n]);
            assert(s.velocity.y + 0 * gdt == s.velocity.y) by (nonlinear_arith);
            assert(s.position.x + 0 * vdt == s.position.x) by (nonlinear_arith);
            assert(n.velocity.y == s.velocity.y + 1 * gdt) by (nonlinear_arith)
                requires
                    n.velocity.y == s.velocity.y + gdt,
            ;
            assert(n.position.x == s.position.x + 1 * vdt) by (nonlinear_arith)
                requires
                    n.position.x == s.position.x + vdt,
            ;
        } else {
            lemma_no_drag_closed_form(p, n);
            let sub = trace(p, n);
            assert(t =~= seq![s] + sub);
            assert(n.velocity.x == s.velocity.x);
            assert(scale_down(n.velocity.x * p.delta_time) == vdt);
            assert forall|i: int| 0 <= i < t.len() implies {
                &&& (#[trigger] t[i]).velocity.x == s.velocity.x
                &&& t[i].velocity.y == s.velocity.y + i * gdt
                &&& t[i].position.x == s.position.x + i * vdt
            } by {
                if i == 0 {
                    assert(t[0] == s);
                    assert(s.velocity.y + 0 * gdt == s.velocity.y) by (nonlinear_arith);
                    assert(s.position.x + 0 * vdt == s.position.x) by (nonlinear_arith);
                } else {
                    assert(t[i] == sub[i - 1]);
                    assert(sub[i - 1].velocity.x == n.velocity.x);
                    assert(sub[i - 1].velocity.y == n.velocity.y + (i - 1) * gdt);
                    assert(sub[i - 1].position.x == n.position.x + (i - 1) * vdt);
                    assert(n.velocity.y + (i - 1) * gdt == s.velocity.y + i * gdt)
                        by (nonlinear_arith)
                        requires
                            n.velocity.y == s.velocity.y + gdt,
                    ;
                    assert(n.position.x + (i - 1) * vdt == s.position.x + i * vdt)
                        by (nonlinear_arith)
                        requires
                            n.position.x == s.position.x + vdt,
                    ;
                }
            }
            assert forall|i: int| 1 <= i < t.len() implies (#[trigger] t[i]).acceleration == (V2 {
                x: 0,
                y: -p.gravity,
            }) by {
                assert(t[i] == sub[i - 1]);
                if i == 1 {
                    assert(sub[0] == n);
                    assert(n.acceleration == accel(p, s));
                } else {
                    assert(sub[i - 1].acceleration == (V2 { x: 0, y: -p.gravity }));
                }
            }
        }
    }
}

/// The sum of the integers below `i`: how many scaled gravity increments
/// the vertical position has absorbed after `i` drag-free steps.
pub open spec fn sum_below(i: nat) -> int
    decreases i,
{
    if i == 0 {
        0
    } else {
        sum_below((i - 1) as nat) + (i - 1)
    }
}

/// The drag-free vertical parabola, exact: where the scaled products of one
/// step land on whole ticks (as with a hundredth-of-a-unit step under
/// standard gravity), the vertical position follows the discrete
/// constant-gravity kinematic equation
/// `y + i * (v * dt) + sum_below(i) * (g' * dt) + i * (g' * dt / 2)`
/// to the tick, with `g'` the scaled gravity increment of one step.
pub proof fn lemma_no_drag_vertical_parabola(p: Params, s: State)
    requires
        p.wf(),
        p.drag_proportion == 0,
        (s.velocity.y * p.delta_time) % (SCALE as int) == 0,
        (scale_down(-p.gravity * p.delta_time) * p.delta_time) % (SCALE as int) == 0,
    ensures
        forall|i: int|
            0 <= i < trace(p, s).len() ==> (#[trigger] trace(p, s)[i]).position.y == s.position.y
                + i * ((s.velocity.y * p.delta_time) / (SCALE as int)) + sum_below(i as nat) * ((
            scale_down(-p.gravity * p.delta_time) * p.delta_time) / (SCALE as int)) + i * tdiv(
                (scale_down(-p.gravity * p.delta_time) * p.delta_time) / (SCALE as int),
                2,
            ),
    decreases time_left(p, s),
{
    let t = trace(p, s);
    let gdt = scale_down(-p.gravity * p.delta_time);
    let q0 = (s.velocity.y * p.delta_time) / (SCALE as int);
    let qg = (gdt * p.delta_time) / (SCALE as int);
    let hg = tdiv(qg, 2);
    vstd::arithmetic::div_mod::lemma_fundamental_div_mod(s.velocity.y * p.delta_time, SCALE as int);
    vstd::arithmetic::div_mod::lemma_fundamental_div_mod(gdt * p.delta_time, SCALE as int);
    assert(s.velocity.y * p.delta_time == q0 * (SCALE as int)) by (nonlinear_arith)
        requires
            s.velocity.y * p.delta_time == (SCALE as int) * q0,
    ;
    assert(gdt * p.delta_time == qg * (SCALE as int)) by (nonlinear_arith)
        requires
            gdt * p.delta_time == (SCALE as int) * qg,
    ;
    lemma_tdiv_exact(q0, SCALE as int);
    lemma_tdiv_exact(qg, SCALE as int);
    if s.time >= p.ending_time {
        assert(t =~= seq![s]);
        assert(s.position.y + 0 * q0 + sum_below(0) * qg + 0 * hg == s.position.y)
            by (nonlinear_arith)
            requires
                sum_below(0) == 0,
        ;
    } else {
        let n = step(p, s);
        lemma_no_drag_step(p, s);
        assert(scale_down(accel(p, s).y * p.delta_time) == gdt);
        assert(n.position.y == s.position.y + q0 + hg);
        if n.position.y < 0 {
            assert(t =~= seq![s, n]);
            assert(s.position.y + 0 * q0 + sum_below(0) * qg + 0 * hg == s.position.y)
                by (nonlinear_arith)
                requires
                    sum_below(0) == 0,
            ;
            assert(s.position.y + 1 * q0 + sum_below(1) * qg + 1 * hg == s.position.y + q0 + hg)
                by (nonlinear_arith)
                requires
                    sum_below(1) == 0,
            ;
        } else {
            // the next state keeps both divisibilities: its scaled vertical
            // velocity product is the sum of two whole multiples
            assert(n.velocity.y == s.velocity.y + gdt);
            assert(n.velocity.y * p.delta_time == (q0 + qg) * (SCALE as int)) by (nonlinear_arith)
                requires
                    n.velocity.y == s.velocity.y + gdt,
                    s.velocity.y * p.delta_time == q0 * (SCALE as int),
                    gdt * p.delta_time == qg * (SCALE as int),
            ;
            vstd::arithmetic::div_mod::lemma_mod_multiples_basic(q0 + qg, SCALE as int);
            vstd::arithmetic::div_mod::lemma_div_multiples_vanish(q0 + qg, SCALE as int);
            assert((q0 + qg) * (SCALE as int) == (SCALE as int) * (q0 + qg)) by (nonlinear_arith);
            assert((n.velocity.y * p.delta_time) % (SCALE as int) == 0);
            assert((n.velocity.y * p.delta_time) / (SCALE as int) == q0 + qg);
            lemma_no_drag_vertical_parabola(p, n);
            let sub = trace(p, n);
            assert(t =~= seq![s] + sub);
            assert forall|i: int| 0 <= i < t.len() implies (#[trigger] t[i]).position.y
                == s.position.y + i * q0 + sum_below(i as nat) * qg + i * hg by {
                if i == 0 {
                    assert(t[0] == s);
                    assert(s.position.y + 0 * q0 + sum_below(0) * qg + 0 * hg == s.position.y)
                        by (nonlinear_arith)
                        requires
                            sum_below(0) == 0,
                    ;
                } else {
                    assert(t[i] == sub[i - 1]);
                    assert(sub[i - 1].position.y == n.position.y + (i - 1) * (q0 + qg)
                        + sum_below((i - 1) as nat) * qg + (i - 1) * hg);
                    assert(sum_below(i as nat) == sum_below((i - 1) as nat) + (i - 1));
                    assert(n.position.y + (i - 1) * (q0 + qg) + sum_below((i - 1) as nat) * qg + (i
                        - 1) * hg == s.position.y + i * q0 + sum_below(i as nat) * qg + i * hg)
                        by (nonlinear_arith)
                        requires
                            n.position.y == s.position.y + q0 + hg,
                            sum_below(i as nat) == sum_below((i - 1) as nat) + (i - 1),
                    ;
                }
            }
        }
    }
}

/// One step under more drag: starting from the same state, a parameter set
/// that differs only by a larger drag proportion brakes a rightward flight
/// at least as hard, so the stepped horizontal velocity and position come
/// out no larger, and drag never pushes the projectile forward.
pub proof fn lemma_drag_step_monotone(p1: Params, p2: Params, s: State)
    requires
        p1.wf(),
        p2.wf(),
        p1.mass == p2.mass,
        p1.delta_time == p2.delta_time,
        p1.gravity == p2.gravity,
        p1.drag_proportion <= p2.drag_proportion,
        s.velocity.x >= 0,
    ensures
        accel(p2, s).x <= accel(p1, s).x <= 0,
        step(p2, s).velocity.x <= step(p1, s).velocity.x <= s.velocity.x,
        step(p2, s).position.x <= step(p1, s).position.x <= s.position.x + scale_down(
            s.velocity.x * p1.delta_time,
        ),
{
    let sp = speed(s.velocity);
    let n1 = p1.drag_proportion * (SCALE as int);
    let n2 = p2.drag_proportion * (SCALE as int);
    assert(0 <= n1 <= n2) by (nonlinear_arith)
        requires
            n1 == p1.drag_proportion * (SCALE as int),
            n2 == p2.drag_proportion * (SCALE as int),
            0 <= p1.drag_proportion <= p2.drag_proportion,
            SCALE as int > 0,
    ;
    lemma_tdiv_monotone(n1, n2, p1.mass);
    lemma_tdiv_nonneg(n1, p1.mass);
    let k1 = drag_over_mass(p1);
    let k2 = drag_over_mass(p2);
    assert(0 <= k1 * sp <= k2 * sp) by (nonlinear_arith)
        requires
            0 <= k1 <= k2,
            sp >= 0,
    ;
    lemma_tdiv_monotone(k1 * sp, k2 * sp, SCALE as int);
    lemma_tdiv_nonneg(k1 * sp, SCALE as int);
    let f1 = scale_down(k1 * sp);
    let f2 = scale_down(k2 * sp);
    assert(0 <= f1 * s.velocity.x <= f2 * s.velocity.x) by (nonlinear_arith)
        requires
            0 <= f1 <= f2,
            s.velocity.x >= 0,
    ;
    lemma_tdiv_monotone(f1 * s.velocity.x, f2 * s.velocity.x, SCALE as int);
    lemma_tdiv_nonneg(f1 * s.velocity.x, SCALE as int);
    let a1 = accel(p1, s).x;
    let a2 = accel(p2, s).x;
    assert(a2 <= a1 <= 0);
    assert(a2 * p1.delta_time <= a1 * p1.delta_time <= 0) by (nonlinear_arith)
        requires
            a2 <= a1 <= 0,
            p1.delta_time >= 1,
    ;
    lemma_tdiv_monotone(a2 * p1.delta_time, a1 * p1.delta_time, SCALE as int);
    lemma_tdiv_monotone(a1 * p1.delta_time, 0, SCALE as int);
    lemma_tdiv_zero(SCALE as int);
    let ad1 = scale_down(a1 * p1.delta_time);
    let ad2 = scale_down(a2 * p1.delta_time);
    assert(ad2 <= ad1 <= 0);
    assert(ad2 * p1.delta_time <= ad1 * p1.delta_time <= 0) by (nonlinear_arith)
        requires
            ad2 <= ad1 <= 0,
            p1.delta_time >= 1,
    ;
    lemma_tdiv_monotone(ad2 * p1.delta_time, ad1 * p1.delta_time, SCALE as int);
    lemma_tdiv_monotone(ad1 * p1.delta_time, 0, SCALE as int);
    lemma_tdiv_monotone(scale_down(ad2 * p1.delta_time), scale_down(ad1 * p1.delta_time), 2);
    lemma_tdiv_monotone(scale_down(ad1 * p1.delta_time), 0, 2);
    lemma_tdiv_zero(2);
}

/// A projectile at rest feels no drag at all: from a state with zero
/// velocity, two parameter sets that differ only by their drag proportion
/// step to exactly the same state.
pub proof fn lemma_drag_zero_velocity(p1: Params, p2: Params, s: State)
    requires
        p1.wf(),
        p2.wf(),
        p1.mass == p2.mass,
        p1.delta_time == p2.delta_time,
        p1.gravity == p2.gravity,
        s.velocity.x == 0,
        s.velocity.y == 0,
    ensures
        step(p1, s) == step(p2, s),
{
    lemma_tdiv_zero(SCALE as int);
    assert(speed(s.velocity) == 0) by {
        assert(s.velocity.x * s.velocity.x + s.velocity.y * s.velocity.y == 0)
            by (nonlinear_arith)
            requires
                s.velocity.x == 0,
                s.velocity.y == 0,
        ;
    }
    assert(drag_over_mass(p1) * 0 == 0) by (nonlinear_arith);
    assert(drag_over_mass(p2) * 0 == 0) by (nonlinear_arith);
    assert(scale_down(drag_over_mass(p1) * speed(s.velocity)) == 0);
    assert(scale_down(drag_over_mass(p2) * speed(s.velocity)) == 0);
    assert(0 * s.velocity.x == 0) by (nonlinear_arith);
    assert(0 * s.velocity.y == 0) by (nonlinear_arith);
    assert(accel(p1, s) == accel(p2, s));
}

} // verus!
