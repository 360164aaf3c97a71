//! The vocabulary an interactive front end shares with the simulation: the
//! nine text fields of a parameter form, the messages a form produces, and
//! where each field lives in a nine-slot array.

use vstd::prelude::*;

verus! {

/// The nine text fields of a parameter form, in display order.
#[derive(Debug, Clone, Copy)]
pub enum TextField {
    CrossArea,
    FluidDensity,
    DragCoefficient,
    Mass,
    InitialVelocity,
    InitialAngle,
    InitialX,
    InitialY,
    EndingTime,
}

/// What a front end reports back: one field's text changed, or the time
/// scale slider moved.
#[derive(Debug, Clone)]
pub enum Message {
    TextChanged(TextField, String),
    DeltaTimeChanged(i32),
}

/// How many text fields a parameter form has.
pub const FIELD_COUNT: usize = 9;

/// The slot of a field in a `FIELD_COUNT`-long array, in display order.
pub open spec fn field_index_spec(field: TextField) -> int {
    match field {
        TextField::CrossArea => 0,
        TextField::FluidDensity => 1,
        TextField::DragCoefficient => 2,
        TextField::Mass => 3,
        TextField::InitialVelocity => 4,
        TextField::InitialAngle => 5,
        TextField::InitialX => 6,
        TextField::InitialY => 7,
        TextField::EndingTime => 8,
    }
}

/// The slot of a field in a `FIELD_COUNT`-long array: distinct per field
/// and always in bounds.
pub fn field_index(field: TextField) -> (i: usize)
    ensures
        i == field_index_spec(field),
        i < FIELD_COUNT,
{
    match field {
        TextField::CrossArea => 0,
        TextField::FluidDensity => 1,
        TextField::DragCoefficient => 2,
        TextField::Mass => 3,
        TextField::InitialVelocity => 4,
        TextField::InitialAngle => 5,
        TextField::InitialX => 6,
        TextField::InitialY => 7,
        TextField::EndingTime => 8,
    }
}

} // verus!
