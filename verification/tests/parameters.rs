//! Validation of raw inputs, the derived drag proportion, and the error
//! taxonomy.

use dragsim::physics::{simulate_motion, MotionState, Parameters, SimError, Vec2, GRAVITY};

fn state(px: i64, py: i64, vx: i64, vy: i64) -> MotionState {
    MotionState {
        position: Vec2::new(px, py),
        velocity: Vec2::new(vx, vy),
        acceleration: Vec2::new(0, 0),
        time: 0,
    }
}

fn base() -> MotionState {
    state(0, 0, 28_284_271, 28_284_271)
}

#[test]
fn test_getters_return_inputs() {
    let params = Parameters::new(10_000, 1_200_000, 470_000, 145_000, 1_000, base(), 10_000_000)
        .unwrap();
    assert_eq!(params.cross_area(), 10_000);
    assert_eq!(params.fluid_density(), 1_200_000);
    assert_eq!(params.drag_coefficient(), 470_000);
    assert_eq!(params.mass(), 145_000);
    assert_eq!(params.delta_time(), 1_000);
    assert_eq!(params.ending_time(), 10_000_000);
    assert_eq!(params.gravity(), GRAVITY);
    assert_eq!(params.initial_conditions(), base());
}

#[test]
fn test_drag_proportion_is_derived() {
    // 0.01 * 1.2 * 0.47 / 2 = 0.00282, so 2820 ticks
    let params = Parameters::new(10_000, 1_200_000, 470_000, 145_000, 1_000, base(), 10_000_000)
        .unwrap();
    assert_eq!(params.drag_proportion(), 2_820);
    // zeroing one drag input zeroes the derived proportion
    let params = Parameters::new(10_000, 0, 470_000, 145_000, 1_000, base(), 10_000_000).unwrap();
    assert_eq!(params.drag_proportion(), 0);
    // the drag-free copy recomputes it through the constructor path
    let params = Parameters::new(10_000, 1_200_000, 470_000, 145_000, 1_000, base(), 10_000_000)
        .unwrap()
        .without_drag();
    assert_eq!(params.drag_proportion(), 0);
    assert_eq!(params.cross_area(), 0);
    assert_eq!(params.mass(), 145_000);
}

#[test]
fn test_invalid_mass_rejected() {
    assert_eq!(
        Parameters::new(10_000, 1_200_000, 470_000, 0, 1_000, base(), 10_000_000).unwrap_err(),
        SimError::InvalidParameter
    );
    assert_eq!(
        Parameters::new(10_000, 1_200_000, 470_000, -145_000, 1_000, base(), 10_000_000).unwrap_err(),
        SimError::InvalidParameter
    );
}

#[test]
fn test_invalid_time_step_rejected() {
    assert_eq!(
        Parameters::new(10_000, 1_200_000, 470_000, 145_000, 0, base(), 10_000_000).unwrap_err(),
        SimError::InvalidParameter
    );
    assert_eq!(
        Parameters::new(10_000, 1_200_000, 470_000, 145_000, -1_000, base(), 10_000_000).unwrap_err(),
        SimError::InvalidParameter
    );
}

#[test]
fn test_negative_drag_inputs_rejected() {
    assert_eq!(
        Parameters::new(-10_000, 1_200_000, 470_000, 145_000, 1_000, base(), 10_000_000).unwrap_err(),
        SimError::InvalidParameter
    );
    assert_eq!(
        Parameters::new(10_000, -1_200_000, 470_000, 145_000, 1_000, base(), 10_000_000).unwrap_err(),
        SimError::InvalidParameter
    );
    assert_eq!(
        Parameters::new(10_000, 1_200_000, -470_000, 145_000, 1_000, base(), 10_000_000).unwrap_err(),
        SimError::InvalidParameter
    );
}

#[test]
fn test_out_of_range_inputs_rejected() {
    // two thousand units is the representable limit
    assert_eq!(
        Parameters::new(2_000_000_001, 1_200_000, 470_000, 145_000, 1_000, base(), 10_000_000).unwrap_err(),
        SimError::InvalidParameter
    );
    assert_eq!(
        Parameters::new(10_000, 1_200_000, 470_000, 145_000, 1_000, base(), 2_000_000_001).unwrap_err(),
        SimError::InvalidParameter
    );
    let far = state(2_000_000_001, 0, 0, 0);
    assert_eq!(
        Parameters::new(10_000, 1_200_000, 470_000, 145_000, 1_000, far, 10_000_000).unwrap_err(),
        SimError::InvalidParameter
    );
    // a derived drag proportion past the limit is rejected as well
    assert_eq!(
        Parameters::new(
            2_000_000_000,
            2_000_000_000,
            2_000_000_000,
            145_000,
            1_000,
            base(),
            10_000_000
        ).unwrap_err(),
        SimError::InvalidParameter
    );
    assert_eq!(
        Parameters::new_with_gravity(
            10_000,
            1_200_000,
            470_000,
            145_000,
            1_000,
            base(),
            10_000_000,
            -1
        ).unwrap_err(),
        SimError::InvalidParameter
    );
}

#[test]
fn test_numeric_overflow_reported() {
    // a feather-light projectile over a two-thousand-second step: the very
    // first velocity update flies out of the representable range
    let params =
        Parameters::new(0, 0, 0, 1, 2_000_000_000, state(0, 0, 0, 0), 1_000).unwrap();
    assert_eq!(simulate_motion(params), Err(SimError::NumericOverflow));
}

#[test]
fn test_numeric_overflow_mid_flight() {
    // under the strongest gravity and a one-second step, the vertical
    // velocity reaches the representable edge after one step and leaves it
    // on the second: the whole run reports overflow
    let params = Parameters::new_with_gravity(
        0,
        0,
        0,
        1,
        1_000_000,
        state(0, 2_000_000_000, 0, 0),
        2_000_000,
        2_000_000_000,
    )
    .unwrap();
    assert_eq!(simulate_motion(params), Err(SimError::NumericOverflow));
}
