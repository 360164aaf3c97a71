//! The vector norm, the chart bounds, and the form-field slots.

use dragsim::chart::find_maxes;
use dragsim::inputs::{field_index, TextField, FIELD_COUNT};
use dragsim::physics::{MotionState, Vec2};

fn at(px: i64, py: i64) -> MotionState {
    MotionState {
        position: Vec2::new(px, py),
        velocity: Vec2::new(0, 0),
        acceleration: Vec2::new(0, 0),
        time: 0,
    }
}

#[test]
fn test_magnitude_exact_squares() {
    assert_eq!(Vec2::new(3_000_000, 4_000_000).magnitude(), 5_000_000);
    assert_eq!(Vec2::new(-3_000_000, 4_000_000).magnitude(), 5_000_000);
    assert_eq!(Vec2::new(3_000_000, -4_000_000).magnitude(), 5_000_000);
    assert_eq!(Vec2::new(0, 0).magnitude(), 0);
    assert_eq!(Vec2::new(0, -7).magnitude(), 7);
}

#[test]
fn test_magnitude_rounds_down() {
    assert_eq!(Vec2::new(1, 1).magnitude(), 1);
    assert_eq!(Vec2::new(1_000_000, 1_000_000).magnitude(), 1_414_213);
    assert_eq!(Vec2::new(i64::MAX, 0).magnitude(), i64::MAX as u64);
    assert_eq!(Vec2::new(i64::MIN, 0).magnitude(), 9_223_372_036_854_775_808);
}

#[test]
fn test_find_maxes() {
    let states = vec![at(1, 5), at(3, 2), at(-4, -7)];
    assert_eq!(find_maxes(&states), (3, 5));
    let states: Vec<MotionState> = vec![];
    assert_eq!(find_maxes(&states), (0, 0));
    let states = vec![at(-1, -1)];
    assert_eq!(find_maxes(&states), (0, 0));
}

#[test]
fn test_field_index() {
    assert_eq!(FIELD_COUNT, 9);
    assert_eq!(field_index(TextField::CrossArea), 0);
    assert_eq!(field_index(TextField::FluidDensity), 1);
    assert_eq!(field_index(TextField::DragCoefficient), 2);
    assert_eq!(field_index(TextField::Mass), 3);
    assert_eq!(field_index(TextField::InitialVelocity), 4);
    assert_eq!(field_index(TextField::InitialAngle), 5);
    assert_eq!(field_index(TextField::InitialX), 6);
    assert_eq!(field_index(TextField::InitialY), 7);
    assert_eq!(field_index(TextField::EndingTime), 8);
}
