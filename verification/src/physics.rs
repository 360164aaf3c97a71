//! The executable data types of the simulation: planar vectors, motion
//! states and validated parameter sets, all carried in fixed-point ticks.

use crate::fixed::{
    div_half, div_scale, halve, isqrt, lemma_sqrt_floor_bounds, lemma_tdiv_nonneg,
    lemma_tdiv_quotient_bound, lemma_tdiv_zero, scale_down, LIMIT, SCALE,
};
use crate::model;
use vstd::prelude::*;

verus! {

/// Standard gravity, in ticks: 9.81 units of acceleration.
pub const GRAVITY: i64 = 9_810_000;

/// An (x, y) pair of fixed-point ticks: a position, velocity or
/// acceleration.
#[derive(Debug, Clone, Copy, PartialEq, Eq, Structural)]
pub struct Vec2 {
    pub x: i64,
    pub y: i64,
}

impl View for Vec2 {
    type V = model::V2;

    open spec fn view(&self) -> model::V2 {
        model::V2 { x: self.x as int, y: self.y as int }
    }
}

impl Vec2 {
    /// A vector from its two components.
    pub fn new(x: i64, y: i64) -> (v: Vec2)
        ensures
            v@ == (model::V2 { x: x as int, y: y as int }),
    {
        Vec2 { x, y }
    }

    /// The Euclidean norm, rounded down to whole ticks.
    pub fn magnitude(&self) -> (r: u64)
        ensures
            r == model::speed(self@),
    {
        proof {
            assert((self.x as int) * (self.x as int)
                <= 0x4000_0000_0000_0000_0000_0000_0000_0000int
                && (self.x as int) * (self.x as int) >= 0) by (nonlinear_arith)
                requires
                    -0x8000_0000_0000_0000int <= self.x as int <= 0x7FFF_FFFF_FFFF_FFFFint,
            ;
            assert((self.y as int) * (self.y as int)
                <= 0x4000_0000_0000_0000_0000_0000_0000_0000int
                && (self.y as int) * (self.y as int) >= 0) by (nonlinear_arith)
                requires
                    -0x8000_0000_0000_0000int <= self.y as int <= 0x7FFF_FFFF_FFFF_FFFFint,
            ;
        }
        let xx: u128 = ((self.x as i128) * (self.x as i128)) as u128;
        let yy: u128 = ((self.y as i128) * (self.y as i128)) as u128;
        let n: u128 = xx + yy;
        isqrt(n)
    }
}

/// The projectile's complete kinematic state at one instant.
#[derive(Debug, Clone, Copy, PartialEq, Eq, Structural)]
pub struct MotionState {
    pub position: Vec2,
    pub velocity: Vec2,
    pub acceleration: Vec2,
    pub time: i64,
}

impl View for MotionState {
    type V = model::State;

    open spec fn view(&self) -> model::State {
        model::State {
            position: self.position@,
            velocity: self.velocity@,
            acceleration: self.acceleration@,
            time: self.time as int,
        }
    }
}

/// Why a run could not be carried out: a raw input outside the validated
/// range, or an intermediate state outside the representable range.
#[derive(Debug, Clone, Copy, PartialEq, Eq, Structural)]
pub enum SimError {
    InvalidParameter,
    NumericOverflow,
}

/// A validated parameter set. The fields are private: the only constructors
/// validate the raw inputs and derive the drag proportion, so a value of
/// this type is always well formed.
#[derive(Debug, Clone, Copy)]
pub struct Parameters {
    cross_area: i64,
    fluid_density: i64,
    drag_coefficient: i64,
    mass: i64,
    delta_time: i64,
    initial_conditions: MotionState,
    ending_time: i64,
    gravity: i64,
    drag_proportion: i64,
}

impl View for Parameters {
    type V = model::Params;

    closed spec fn view(&self) -> model::Params {
        model::Params {
            cross_area: self.cross_area as int,
            fluid_density: self.fluid_density as int,
            drag_coefficient: self.drag_coefficient as int,
            mass: self.mass as int,
            delta_time: self.delta_time as int,
            initial_conditions: self.initial_conditions@,
            ending_time: self.ending_time as int,
            gravity: self.gravity as int,
            drag_proportion: self.drag_proportion as int,
        }
    }
}

impl Parameters {
    #[verifier::type_invariant]
    spec fn type_inv(self) -> bool {
        self@.wf()
    }

    /// The raw inputs the constructors accept: drag inputs and gravity
    /// non-negative, mass and time step positive, stop time and initial
    /// state within the representable range, and the derived drag
    /// proportion representable as well.
    pub open spec fn valid_inputs(
        cross_area: int,
        fluid_density: int,
        drag_coefficient: int,
        mass: int,
        delta_time: int,
        initial_conditions: model::State,
        ending_time: int,
        gravity: int,
    ) -> bool {
        &&& 0 <= cross_area <= LIMIT as int
        &&& 0 <= fluid_density <= LIMIT as int
        &&& 0 <= drag_coefficient <= LIMIT as int
        &&& 1 <= mass <= LIMIT as int
        &&& 1 <= delta_time <= LIMIT as int
        &&& model::in_range(ending_time)
        &&& 0 <= gravity <= LIMIT as int
        &&& model::derived_drag(cross_area, fluid_density, drag_coefficient) <= LIMIT as int
        &&& model::state_fits(initial_conditions)
    }

    /// A parameter set under standard gravity. Rejects out-of-range raw
    /// inputs; on success, every field is the given input and the drag
    /// proportion is derived from the drag inputs.
    pub fn new(
        cross_area: i64,
        fluid_density: i64,
        drag_coefficient: i64,
        mass: i64,
        delta_time: i64,
        initial_conditions: MotionState,
        ending_time: i64,
    ) -> (r: Result<Parameters, SimError>)
        ensures
            r is Ok <==> Self::valid_inputs(
                cross_area as int,
                fluid_density as int,
                drag_coefficient as int,
                mass as int,
                delta_time as int,
                initial_conditions@,
                ending_time as int,
                GRAVITY as int,
            ),
            r matches Ok(p) ==> p@ == (model::Params {
                cross_area: cross_area as int,
                fluid_density: fluid_density as int,
                drag_coefficient: drag_coefficient as int,
                mass: mass as int,
                delta_time: delta_time as int,
                initial_conditions: initial_conditions@,
                ending_time: ending_time as int,
                gravity: GRAVITY as int,
                drag_proportion: model::derived_drag(
                    cross_area as int,
                    fluid_density as int,
                    drag_coefficient as int,
                ),
            }),
            r is Err ==> r == Err::<Parameters, SimError>(SimError::InvalidParameter),
    {
        Self::new_with_gravity(
            cross_area,
            fluid_density,
            drag_coefficient,
            mass,
            delta_time,
            initial_conditions,
            ending_time,
            GRAVITY,
        )
    }

    /// A parameter set under a chosen gravity, for environments other than
    /// the standard one.
    pub fn new_with_gravity(
        cross_area: i64,
        fluid_density: i64,
        drag_coefficient: i64,
        mass: i64,
        delta_time: i64,
        initial_conditions: MotionState,
        ending_time: i64,
        gravity: i64,
    ) -> (r: Result<Parameters, SimError>)
        ensures
            r is Ok <==> Self::valid_inputs(
                cross_area as int,
                fluid_density as int,
                drag_coefficient as int,
                mass as int,
                delta_time as int,
                initial_conditions@,
                ending_time as int,
                gravity as int,
            ),
            r matches Ok(p) ==> p@ == (model::Params {
                cross_area: cross_area as int,
                fluid_density: fluid_density as int,
                drag_coefficient: drag_coefficient as int,
                mass: mass as int,
                delta_time: delta_time as int,
                initial_conditions: initial_conditions@,
                ending_time: ending_time as int,
                gravity: gravity as int,
                drag_proportion: model::derived_drag(
                    cross_area as int,
                    fluid_density as int,
                    drag_coefficient as int,
                ),
            }),
            r is Err ==> r == Err::<Parameters, SimError>(SimError::InvalidParameter),
    {
        if cross_area < 0 || cross_area > LIMIT {
            return Err(SimError::InvalidParameter);
        }
        if fluid_density < 0 || fluid_density > LIMIT {
            return Err(SimError::InvalidParameter);
        }
        if drag_coefficient < 0 || drag_coefficient > LIMIT {
            return Err(SimError::InvalidParameter);
        }
        if mass < 1 || mass > LIMIT {
            return Err(SimError::InvalidParameter);
        }
        if delta_time < 1 || delta_time > LIMIT {
            return Err(SimError::InvalidParameter);
        }
        if ending_time < -LIMIT || ending_time > LIMIT {
            return Err(SimError::InvalidParameter);
        }
        if gravity < 0 || gravity > LIMIT {
            return Err(SimError::InvalidParameter);
        }
        if !state_within_range(&initial_conditions) {
            return Err(SimError::InvalidParameter);
        }
        proof {
            assert((cross_area as int) * (fluid_density as int)
                <= 4_000_000_000_000_000_000int) by (nonlinear_arith)
                requires
                    0 <= cross_area as int <= 2_000_000_000int,
                    0 <= fluid_density as int <= 2_000_000_000int,
            ;
        }
        let af: i128 = (cross_area as i128) * (fluid_density as i128);
        let t1: i128 = div_scale(af);
        proof {
            lemma_tdiv_nonneg(af as int, SCALE as int);
            assert((t1 as int) * (drag_coefficient as int)
                <= 8_000_000_000_000_000_000_000_000_000int) by (nonlinear_arith)
                requires
                    0 <= t1 as int <= 4_000_000_000_000_000_000int,
                    0 <= drag_coefficient as int <= 2_000_000_000int,
            ;
            assert((t1 as int) * (drag_coefficient as int) >= 0) by (nonlinear_arith)
                requires
                    0 <= t1 as int,
                    0 <= drag_coefficient as int,
            ;
        }
        let t2: i128 = div_scale(t1 * (drag_coefficient as i128));
        proof {
            lemma_tdiv_nonneg((t1 as int) * (drag_coefficient as int), SCALE as int);
        }
        let dp: i128 = div_half(t2);
        proof {
            lemma_tdiv_nonneg(t2 as int, 2);
        }
        if dp > LIMIT as i128 {
            return Err(SimError::InvalidParameter);
        }
        Ok(
            Parameters {
                cross_area,
                fluid_density,
                drag_coefficient,
                mass,
                delta_time,
                initial_conditions,
                ending_time,
                gravity,
                drag_proportion: dp as i64,
            },
        )
    }

    /// A copy of this parameter set with the three drag inputs zeroed, so
    /// that the derived drag proportion is zero as well: the drag-free
    /// variant of the same launch.
    pub fn without_drag(&self) -> (r: Parameters)
        ensures
            r@ == (model::Params {
                cross_area: 0,
                fluid_density: 0,
                drag_coefficient: 0,
                drag_proportion: 0,
                ..self@
            }),
    {
        proof {
            use_type_invariant(&*self);
            lemma_tdiv_zero(SCALE as int);
            lemma_tdiv_zero(2);
        }
        Parameters {
            cross_area: 0,
            fluid_density: 0,
            drag_coefficient: 0,
            drag_proportion: 0,
            mass: self.mass,
            delta_time: self.delta_time,
            initial_conditions: self.initial_conditions,
            ending_time: self.ending_time,
            gravity: self.gravity,
        }
    }

    /// The cross-sectional area, in ticks.
    pub fn cross_area(&self) -> (r: i64)
        ensures
            r == self@.cross_area,
    {
        self.cross_area
    }

    /// The fluid density, in ticks.
    pub fn fluid_density(&self) -> (r: i64)
        ensures
            r == self@.fluid_density,
    {
        self.fluid_density
    }

    /// The drag coefficient, in ticks.
    pub fn drag_coefficient(&self) -> (r: i64)
        ensures
            r == self@.drag_coefficient,
    {
        self.drag_coefficient
    }

    /// The projectile's mass, in ticks.
    pub fn mass(&self) -> (r: i64)
        ensures
            r == self@.mass,
    {
        self.mass
    }

    /// The integration step, in ticks.
    pub fn delta_time(&self) -> (r: i64)
        ensures
            r == self@.delta_time,
    {
        self.delta_time
    }

    /// The state the simulation starts from.
    pub fn initial_conditions(&self) -> (r: MotionState)
        ensures
            r@ == self@.initial_conditions,
    {
        self.initial_conditions
    }

    /// The stop time, in ticks.
    pub fn ending_time(&self) -> (r: i64)
        ensures
            r == self@.ending_time,
    {
        self.ending_time
    }

    /// The gravity this set was built with, in ticks.
    pub fn gravity(&self) -> (r: i64)
        ensures
            r == self@.gravity,
    {
        self.gravity
    }

    /// The derived drag proportion, in ticks: read-only, always recomputed
    /// by the constructors from the three drag inputs.
    pub fn drag_proportion(&self) -> (r: i64)
        ensures
            r == self@.drag_proportion,
            r == model::derived_drag(self@.cross_area, self@.fluid_density, self@.drag_coefficient),
    {
        proof {
            use_type_invariant(&*self);
        }
        self.drag_proportion
    }
}

/// The drag-augmented acceleration on the current state, exact against the
/// model and comfortably inside `i128`.
fn calculate_acceleration(parameters: &Parameters, state: &MotionState) -> (a: (i128, i128))
    requires
        model::state_fits(state@),
    ensures
        a.0 == model::accel(parameters@, state@).x,
        a.1 == model::accel(parameters@, state@).y,
        -20_000_000_000_000_000_000_000i128 <= a.0 <= 20_000_000_000_000_000_000_000i128,
        -20_000_000_000_000_000_000_000i128 <= a.1 <= 20_000_000_000_000_000_000_000i128,
{
    proof {
        use_type_invariant(&*parameters);
    }
    let speed_v: u64 = state.velocity.magnitude();
    proof {
        assert(0 <= state@.velocity.x * state@.velocity.x + state@.velocity.y * state@.velocity.y
            <= 8_000_000_000_000_000_000int) by (nonlinear_arith)
            requires
                -2_000_000_000int <= state@.velocity.x <= 2_000_000_000int,
                -2_000_000_000int <= state@.velocity.y <= 2_000_000_000int,
        ;
        lemma_sqrt_floor_bounds(
            (state@.velocity.x * state@.velocity.x + state@.velocity.y
                * state@.velocity.y) as nat,
        );
        assert(speed_v as int <= 3_000_000_000int) by (nonlinear_arith)
            requires
                (speed_v as int) * (speed_v as int) <= 8_000_000_000_000_000_000int,
                speed_v as int >= 0,
        ;
    }
    proof {
        assert(0 <= parameters@.drag_proportion * (SCALE as int)
            <= 2_000_000_000_000_000int) by (nonlinear_arith)
            requires
                0 <= parameters@.drag_proportion <= 2_000_000_000int,
                SCALE as int == 1_000_000int,
        ;
    }
    let num: i128 = (parameters.drag_proportion as i128) * (SCALE as i128);
    let k: i128 = num / (parameters.mass as i128);
    proof {
        lemma_tdiv_nonneg(num as int, parameters@.mass);
        assert((k as int) * (speed_v as int) <= 6_000_000_000_000_000_000_000_000int
            && (k as int) * (speed_v as int) >= 0) by (nonlinear_arith)
            requires
                0 <= k as int <= 2_000_000_000_000_000int,
                0 <= speed_v as int <= 3_000_000_000int,
        ;
    }
    let ks: i128 = k * (speed_v as i128);
    let f: i128 = div_scale(ks);
    proof {
        lemma_tdiv_quotient_bound(ks as int, SCALE as int, 6_000_000_000_000_000_000int);
        assert(-12_000_000_000_000_000_000_000_000_000int <= (f as int) * (state@.velocity.x)
            <= 12_000_000_000_000_000_000_000_000_000int) by (nonlinear_arith)
            requires
                -6_000_000_000_000_000_000int <= f as int <= 6_000_000_000_000_000_000int,
                -2_000_000_000int <= state@.velocity.x <= 2_000_000_000int,
        ;
        assert(-12_000_000_000_000_000_000_000_000_000int <= (f as int) * (state@.velocity.y)
            <= 12_000_000_000_000_000_000_000_000_000int) by (nonlinear_arith)
            requires
                -6_000_000_000_000_000_000int <= f as int <= 6_000_000_000_000_000_000int,
                -2_000_000_000int <= state@.velocity.y <= 2_000_000_000int,
        ;
    }
    let fx: i128 = f * (state.velocity.x as i128);
    let fy: i128 = f * (state.velocity.y as i128);
    let dx: i128 = div_scale(fx);
    let dy: i128 = div_scale(fy);
    proof {
        lemma_tdiv_quotient_bound(fx as int, SCALE as int, 12_000_000_000_000_000_000_000int);
        lemma_tdiv_quotient_bound(fy as int, SCALE as int, 12_000_000_000_000_000_000_000int);
    }
    let ax: i128 = -dx;
    let ay: i128 = -(parameters.gravity as i128) - dy;
    (ax, ay)
}

/// The post-update velocity: the pre-update velocity plus the just-computed
/// acceleration times the step.
fn calculate_velocity(parameters: &Parameters, state: &MotionState, ax: i128, ay: i128) -> (v: (
    i128,
    i128,
))
    requires
        model::state_fits(state@),
        -20_000_000_000_000_000_000_000i128 <= ax <= 20_000_000_000_000_000_000_000i128,
        -20_000_000_000_000_000_000_000i128 <= ay <= 20_000_000_000_000_000_000_000i128,
    ensures
        v.0 == state@.velocity.x + scale_down(ax * parameters@.delta_time),
        v.1 == state@.velocity.y + scale_down(ay * parameters@.delta_time),
{
    proof {
        use_type_invariant(&*parameters);
        assert(-40_000_000_000_000_000_000_000_000_000_000int
            <= (ax as int) * parameters@.delta_time
            <= 40_000_000_000_000_000_000_000_000_000_000int) by (nonlinear_arith)
            requires
                -20_000_000_000_000_000_000_000int <= ax as int
                    <= 20_000_000_000_000_000_000_000int,
                0 <= parameters@.delta_time <= 2_000_000_000int,
        ;
        assert(-40_000_000_000_000_000_000_000_000_000_000int
            <= (ay as int) * parameters@.delta_time
            <= 40_000_000_000_000_000_000_000_000_000_000int) by (nonlinear_arith)
            requires
                -20_000_000_000_000_000_000_000int <= ay as int
                    <= 20_000_000_000_000_000_000_000int,
                0 <= parameters@.delta_time <= 2_000_000_000int,
        ;
    }
    let adx: i128 = div_scale(ax * (parameters.delta_time as i128));
    let ady: i128 = div_scale(ay * (parameters.delta_time as i128));
    proof {
        lemma_tdiv_quotient_bound(
            (ax as int) * parameters@.delta_time,
            SCALE as int,
            40_000_000_000_000_000_000_000_000int,
        );
        lemma_tdiv_quotient_bound(
            (ay as int) * parameters@.delta_time,
            SCALE as int,
            40_000_000_000_000_000_000_000_000int,
        );
    }
    ((state.velocity.x as i128) + adx, (state.velocity.y as i128) + ady)
}

/// The post-update position: the pre-update position advanced by the
/// pre-update velocity plus the constant-acceleration half term.
fn calculate_position(parameters: &Parameters, state: &MotionState, ax: i128, ay: i128) -> (pos: (
    i128,
    i128,
))
    requires
        model::state_fits(state@),
        -20_000_000_000_000_000_000_000i128 <= ax <= 20_000_000_000_000_000_000_000i128,
        -20_000_000_000_000_000_000_000i128 <= ay <= 20_000_000_000_000_000_000_000i128,
    ensures
        pos.0 == state@.position.x + scale_down(
            state@.velocity.x * parameters@.delta_time,
        ) + halve(
            scale_down(
                scale_down(ax * parameters@.delta_time) * parameters@.delta_time,
            ),
        ),
        pos.1 == state@.position.y + scale_down(
            state@.velocity.y * parameters@.delta_time,
        ) + halve(
            scale_down(
                scale_down(ay * parameters@.delta_time) * parameters@.delta_time,
            ),
        ),
{
    proof {
        use_type_invariant(&*parameters);
        assert(-4_000_000_000_000_000_000int <= state@.velocity.x * parameters@.delta_time
            <= 4_000_000_000_000_000_000int
            && -4_000_000_000_000_000_000int <= state@.velocity.y * parameters@.delta_time
            <= 4_000_000_000_000_000_000int) by (nonlinear_arith)
            requires
                -2_000_000_000int <= state@.velocity.x <= 2_000_000_000int,
                -2_000_000_000int <= state@.velocity.y <= 2_000_000_000int,
                0 <= parameters@.delta_time <= 2_000_000_000int,
        ;
        assert(-40_000_000_000_000_000_000_000_000_000_000int
            <= (ax as int) * parameters@.delta_time
            <= 40_000_000_000_000_000_000_000_000_000_000int
            && -40_000_000_000_000_000_000_000_000_000_000int
            <= (ay as int) * parameters@.delta_time
            <= 40_000_000_000_000_000_000_000_000_000_000int) by (nonlinear_arith)
            requires
                -20_000_000_000_000_000_000_000int <= ax as int
                    <= 20_000_000_000_000_000_000_000int,
                -20_000_000_000_000_000_000_000int <= ay as int
                    <= 20_000_000_000_000_000_000_000int,
                0 <= parameters@.delta_time <= 2_000_000_000int,
        ;
    }
    let vdx: i128 = div_scale((state.velocity.x as i128) * (parameters.delta_time as i128));
    let vdy: i128 = div_scale((state.velocity.y as i128) * (parameters.delta_time as i128));
    let adx: i128 = div_scale(ax * (parameters.delta_time as i128));
    let ady: i128 = div_scale(ay * (parameters.delta_time as i128));
    proof {
        lemma_tdiv_quotient_bound(
            state@.velocity.x * parameters@.delta_time,
            SCALE as int,
            4_000_000_000_000int,
        );
        lemma_tdiv_quotient_bound(
            state@.velocity.y * parameters@.delta_time,
            SCALE as int,
            4_000_000_000_000int,
        );
        lemma_tdiv_quotient_bound(
            (ax as int) * parameters@.delta_time,
            SCALE as int,
            40_000_000_000_000_000_000_000_000int,
        );
        lemma_tdiv_quotient_bound(
            (ay as int) * parameters@.delta_time,
            SCALE as int,
            40_000_000_000_000_000_000_000_000int,
        );
        assert(-80_000_000_000_000_000_000_000_000_000_000_000int
            <= (adx as int) * parameters@.delta_time
            <= 80_000_000_000_000_000_000_000_000_000_000_000int
            && -80_000_000_000_000_000_000_000_000_000_000_000int
            <= (ady as int) * parameters@.delta_time
            <= 80_000_000_000_000_000_000_000_000_000_000_000int) by (nonlinear_arith)
            requires
                -40_000_000_000_000_000_000_000_000int <= adx as int
                    <= 40_000_000_000_000_000_000_000_000int,
                -40_000_000_000_000_000_000_000_000int <= ady as int
                    <= 40_000_000_000_000_000_000_000_000int,
                0 <= parameters@.delta_time <= 2_000_000_000int,
        ;
    }
    let atx: i128 = div_scale(adx * (parameters.delta_time as i128));
    let aty: i128 = div_scale(ady * (parameters.delta_time as i128));
    proof {
        lemma_tdiv_quotient_bound(
            (adx as int) * parameters@.delta_time,
            SCALE as int,
            80_000_000_000_000_000_000_000_000_000int,
        );
        lemma_tdiv_quotient_bound(
            (ady as int) * parameters@.delta_time,
            SCALE as int,
            80_000_000_000_000_000_000_000_000_000int,
        );
    }
    let hx: i128 = div_half(atx);
    let hy: i128 = div_half(aty);
    proof {
        lemma_tdiv_quotient_bound(atx as int, 2, 80_000_000_000_000_000_000_000_000_000int);
        lemma_tdiv_quotient_bound(aty as int, 2, 80_000_000_000_000_000_000_000_000_000int);
    }
    ((state.position.x as i128) + vdx + hx, (state.position.y as i128) + vdy + hy)
}

/// One recorded step of the integrator: the next state exactly as the model
/// gives it, or nothing if that state leaves the representable range.
fn step_motion(parameters: &Parameters, state: &MotionState) -> (r: Option<MotionState>)
    requires
        model::state_fits(state@),
        state@.time < parameters@.ending_time,
    ensures
        match r {
            Some(ns) => ns@ == model::step(parameters@, state@) && model::state_fits(ns@),
            None => !model::state_fits(model::step(parameters@, state@)),
        },
{
    proof {
        use_type_invariant(&*parameters);
    }
    let (ax, ay) = calculate_acceleration(parameters, state);
    let (vx, vy) = calculate_velocity(parameters, state, ax, ay);
    let (px, py) = calculate_position(parameters, state, ax, ay);
    let time: i64 = state.time + parameters.delta_time;
    let lim: i128 = LIMIT as i128;
    if px < -lim || px > lim || py < -lim || py > lim || vx < -lim || vx > lim || vy < -lim || vy
        > lim || ax < -lim || ax > lim || ay < -lim || ay > lim {
        return None;
    }
    Some(
        MotionState {
            position: Vec2 { x: px as i64, y: py as i64 },
            velocity: Vec2 { x: vx as i64, y: vy as i64 },
            acceleration: Vec2 { x: ax as i64, y: ay as i64 },
            time,
        },
    )
}

/// The model states of a recorded trajectory, entry for entry.
pub open spec fn views_of(states: Seq<MotionState>) -> Seq<model::State> {
    states.map_values(|s: MotionState| s@)
}

/// Runs the simulation: from the initial conditions, one semi-implicit
/// Euler step per recorded state, while the time has not reached the stop
/// time, stopping early as soon as a recorded state is below the ground.
///
/// Returns exactly the trajectory of the model, state for state, whenever
/// every state of that trajectory is representable, and reports overflow
/// otherwise. On success the trajectory starts at the initial conditions,
/// each entry is one step after the one before with the time climbing by
/// exactly one step per entry, every entry but the last lies before the
/// stop time, every entry strictly between the first and the last is at or
/// above the ground, and the last entry is past the stop time or below the
/// ground, whichever came first.
pub fn simulate_motion(parameters: Parameters) -> (r: Result<Vec<MotionState>, SimError>)
    ensures
        r is Ok <==> model::trace_fits(parameters@, parameters@.initial_conditions),
        r matches Ok(states) ==> {
            &&& views_of(states@) == model::trace(parameters@, parameters@.initial_conditions)
            &&& states@.len() >= 1
            &&& states@[0]@ == parameters@.initial_conditions
            &&& forall|i: int|
                1 <= i < states@.len() ==> (#[trigger] states@[i])@ == model::step(
                    parameters@,
                    states@[i - 1]@,
                )
            &&& forall|i: int|
                0 <= i < states@.len() - 1 ==> (#[trigger] states@[i + 1])@.time == states@[i]@.time
                    + parameters@.delta_time
            &&& forall|i: int|
                0 <= i < states@.len() - 1 ==> (#[trigger] states@[i])@.time
                    < parameters@.ending_time
            &&& forall|i: int|
                1 <= i < states@.len() - 1 ==> (#[trigger] states@[i])@.position.y >= 0
            &&& (states@[states@.len() - 1]@.time >= parameters@.ending_time || states@[states@.len()
                - 1]@.position.y < 0)
        },
        r is Err ==> r == Err::<Vec<MotionState>, SimError>(SimError::NumericOverflow),
{
    proof {
        use_type_invariant(&parameters);
    }
    let ghost p = parameters@;
    let ghost full = model::trace(p, p.initial_conditions);
    proof {
        crate::laws::lemma_trace_structure(p, p.initial_conditions);
    }
    let mut state = parameters.initial_conditions;
    let mut states: Vec<MotionState> = Vec::new();
    states.push(state);
    loop
        invariant_except_break
            p == parameters@,
            p.wf(),
            full == model::trace(p, p.initial_conditions),
            states@.len() >= 1,
            states@[states@.len() - 1] == state,
            model::state_fits(state@),
            forall|j: int| 0 <= j < states@.len() ==> model::state_fits((#[trigger] states@[j])@),
            full == views_of(states@).drop_last() + model::trace(p, state@),
        ensures
            full == views_of(states@),
            forall|j: int| 0 <= j < states@.len() ==> model::state_fits((#[trigger] states@[j])@),
        decreases model::time_left(p, state@),
    {
        if !(state.time < parameters.ending_time) {
            proof {
                let m = views_of(states@);
                assert(model::trace(p, state@) =~= seq![state@]);
                assert(m[m.len() - 1] == state@);
                assert(full =~= m);
            }
            break;
        }
        let next = step_motion(&parameters, &state);
        match next {
            None => {
                proof {
                    let m = views_of(states@);
                    let t = model::trace(p, state@);
                    crate::laws::lemma_trace_structure(p, state@);
                    assert(t[1] == model::step(p, state@));
                    let i0 = m.len() - 1 + 1;
                    assert(full[i0] == t[1]);
                    assert(0 <= i0 < full.len());
                    assert(!model::trace_fits(p, p.initial_conditions)) by {
                        assert(model::trace(p, p.initial_conditions)[i0] == full[i0]);
                        assert(!model::state_fits(
                            model::trace(p, p.initial_conditions)[i0],
                        ));
                    }
                }
                return Err(SimError::NumericOverflow);
            },
            Some(ns) => {
                let ghost old_states = states@;
                let ghost old_state = state@;
                proof {
                    if ns@.position.y < 0 {
                        assert(model::trace(p, old_state) =~= seq![old_state, ns@]);
                    } else {
                        assert(model::trace(p, old_state) =~= seq![old_state] + model::trace(
                            p,
                            ns@,
                        ));
                    }
                }
                states.push(ns);
                state = ns;
                proof {
                    let m_old = views_of(old_states);
                    let m_new = views_of(states@);
                    assert(m_new =~= m_old.push(ns@));
                    assert(m_new.drop_last() =~= m_old);
                    assert(m_old[m_old.len() - 1] == old_state);
                    assert(m_old =~= m_old.drop_last().push(old_state));
                    if ns@.position.y < 0 {
                        assert(full =~= m_new);
                    } else {
                        assert(m_old.drop_last() + (seq![old_state] + model::trace(p, ns@))
                            =~= m_old + model::trace(p, ns@));
                        assert(full =~= m_new.drop_last() + model::trace(p, state@));
                    }
                }
                if state.position.y < 0 {
                    break;
                }
            },
        }
    }
    proof {
        let m = views_of(states@);
        assert(m.len() == states@.len());
        assert forall|i: int| 0 <= i < full.len() implies model::state_fits(
            #[trigger] full[i],
        ) by {
            assert(full[i] == states@[i]@);
        }
        assert(model::trace_fits(p, p.initial_conditions)) by {
            assert forall|i: int|
                0 <= i < model::trace(p, p.initial_conditions).len() implies model::state_fits(
                #[trigger] model::trace(p, p.initial_conditions)[i],
            ) by {
                assert(model::trace(p, p.initial_conditions)[i] == full[i]);
            }
        }
        assert(states@[0]@ == full[0]);
        assert forall|i: int| 1 <= i < states@.len() implies (#[trigger] states@[i])@
            == model::step(p, states@[i - 1]@) by {
            assert(full[i] == model::step(p, full[i - 1]));
            assert(states@[i]@ == full[i]);
            assert(states@[i - 1]@ == full[i - 1]);
        }
        assert forall|i: int| 0 <= i < states@.len() - 1 implies (#[trigger] states@[i
            + 1])@.time == states@[i]@.time + p.delta_time by {
            assert(full[i + 1] == model::step(p, full[i]));
            assert(states@[i + 1]@ == full[i + 1]);
            assert(states@[i]@ == full[i]);
        }
        assert forall|i: int| 0 <= i < states@.len() - 1 implies (#[trigger] states@[i])@.time
            < p.ending_time by {
            assert(states@[i]@ == full[i]);
            assert(full[i].time < p.ending_time);
        }
        assert forall|i: int| 1 <= i < states@.len() - 1 implies (#[trigger] states@[i])@.position.y
            >= 0 by {
            assert(states@[i]@ == full[i]);
            assert(full[i].position.y >= 0);
        }
        assert(states@[states@.len() - 1]@ == full[full.len() - 1]);
        assert(full.last().time >= p.ending_time || full.last().position.y < 0);
    }
    Ok(states)
}

/// Whether every component of a state lies within the representable range.
pub fn state_within_range(state: &MotionState) -> (r: bool)
    ensures
        r == model::state_fits(state@),
{
    -LIMIT <= state.position.x && state.position.x <= LIMIT
        && -LIMIT <= state.position.y && state.position.y <= LIMIT
        && -LIMIT <= state.velocity.x && state.velocity.x <= LIMIT
        && -LIMIT <= state.velocity.y && state.velocity.y <= LIMIT
        && -LIMIT <= state.acceleration.x && state.acceleration.x <= LIMIT
        && -LIMIT <= state.acceleration.y && state.acceleration.y <= LIMIT
        && -LIMIT <= state.time && state.time <= 2 * LIMIT
}

} // verus!
