//! The mathematical model of the simulation: ghost mirrors of the data
//! types over unbounded integers, the drag-augmented acceleration, the
//! semi-implicit Euler step, and the full recorded trajectory.
//!
//! The executable integrator is specified against this model exactly: a run
//! either returns the trajectory that `trace` describes, state for state, or
//! reports overflow because some state of that trajectory leaves the
//! representable range.

use crate::fixed::{halve, scale_down, sqrt_floor, tdiv, LIMIT, SCALE};
use vstd::prelude::*;

verus! {

/// A planar vector of fixed-point ticks, at the specification level.
pub ghost struct V2 {
    pub x: int,
    pub y: int,
}

/// One kinematic state of the projectile, at the specification level.
pub ghost struct State {
    pub position: V2,
    pub velocity: V2,
    pub acceleration: V2,
    pub time: int,
}

/// The physical parameters of a run, at the specification level.
pub ghost struct Params {
    pub cross_area: int,
    pub fluid_density: int,
    pub drag_coefficient: int,
    pub mass: int,
    pub delta_time: int,
    pub initial_conditions: State,
    pub ending_time: int,
    pub gravity: int,
    pub drag_proportion: int,
}

/// A tick count within the representable range.
pub open spec fn in_range(a: int) -> bool {
    -(LIMIT as int) <= a <= LIMIT as int
}

/// Both components within the representable range.
pub open spec fn vec_in_range(v: V2) -> bool {
    in_range(v.x) && in_range(v.y)
}

/// A state the integrator can record: position, velocity and acceleration
/// within the representable range; the time may run one step past the stop
/// time, so its range is twice as wide.
pub open spec fn state_fits(s: State) -> bool {
    &&& vec_in_range(s.position)
    &&& vec_in_range(s.velocity)
    &&& vec_in_range(s.acceleration)
    &&& -(LIMIT as int) <= s.time <= 2 * (LIMIT as int)
}

/// The Euclidean norm of a velocity, in ticks, rounded down.
pub open spec fn speed(v: V2) -> int {
    sqrt_floor((v.x * v.x + v.y * v.y) as nat) as int
}

/// The drag proportion derived from the raw drag inputs:
/// `cross_area * fluid_density * drag_coefficient / 2`, in fixed point.
pub open spec fn derived_drag(cross_area: int, fluid_density: int, drag_coefficient: int) -> int {
    halve(scale_down(scale_down(cross_area * fluid_density) * drag_coefficient))
}

impl Params {
    /// A well-formed parameter set: every raw input within its validated
    /// range, and the drag proportion derived, not chosen freely.
    pub open spec fn wf(self) -> bool {
        &&& 0 <= self.cross_area <= LIMIT as int
        &&& 0 <= self.fluid_density <= LIMIT as int
        &&& 0 <= self.drag_coefficient <= LIMIT as int
        &&& 1 <= self.mass <= LIMIT as int
        &&& 1 <= self.delta_time <= LIMIT as int
        &&& in_range(self.ending_time)
        &&& 0 <= self.gravity <= LIMIT as int
        &&& self.drag_proportion == derived_drag(
            self.cross_area,
            self.fluid_density,
            self.drag_coefficient,
        )
        &&& 0 <= self.drag_proportion <= LIMIT as int
        &&& state_fits(self.initial_conditions)
    }
}

/// The drag proportion divided by the mass, in ticks.
pub open spec fn drag_over_mass(p: Params) -> int {
    tdiv(p.drag_proportion * SCALE as int, p.mass)
}

/// The drag-augmented acceleration: each component of the velocity is
/// opposed by drag scaling with the speed, and gravity pulls the vertical
/// component down.
pub open spec fn accel(p: Params, s: State) -> V2 {
    let f = scale_down(drag_over_mass(p) * speed(s.velocity));
    V2 {
        x: -scale_down(f * s.velocity.x),
        y: -p.gravity - scale_down(f * s.velocity.y),
    }
}

/// One semi-implicit Euler step: the velocity absorbs the just-computed
/// acceleration, while the position advances by the pre-update velocity plus
/// the constant-acceleration half term, and the time advances by the step.
pub open spec fn step(p: Params, s: State) -> State {
    let a = accel(p, s);
    let adx = scale_down(a.x * p.delta_time);
    let ady = scale_down(a.y * p.delta_time);
    State {
        position: V2 {
            x: s.position.x + scale_down(s.velocity.x * p.delta_time) + halve(
                scale_down(adx * p.delta_time),
            ),
            y: s.position.y + scale_down(s.velocity.y * p.delta_time) + halve(
                scale_down(ady * p.delta_time),
            ),
        },
        velocity: V2 { x: s.velocity.x + adx, y: s.velocity.y + ady },
        acceleration: a,
        time: s.time + p.delta_time,
    }
}

/// How much simulated time is still to run; the measure that bounds the
/// number of steps.
pub open spec fn time_left(p: Params, s: State) -> int {
    if s.time >= p.ending_time {
        0
    } else {
        p.ending_time - s.time
    }
}

/// The full recorded trajectory from `s`: the start state, then one state
/// per step, stepping while the time has not reached the stop time and
/// stopping early as soon as a recorded state is below the ground. The
/// degenerate guard on `delta_time` keeps the definition total; a
/// well-formed parameter set always has a positive step.
pub open spec fn trace(p: Params, s: State) -> Seq<State>
    decreases time_left(p, s),
{
    if s.time >= p.ending_time || p.delta_time < 1 {
        seq![s]
    } else {
        let n = step(p, s);
        if n.position.y < 0 {
            seq![s, n]
        } else {
            seq![s].add(trace(p, n))
        }
    }
}

/// Every state of a trajectory stays within the representable range.
pub open spec fn trace_fits(p: Params, s: State) -> bool {
    forall|i: int| 0 <= i < trace(p, s).len() ==> state_fits(#[trigger] trace(p, s)[i])
}

} // verus!
