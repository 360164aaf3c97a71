//! Support for charting a trajectory: the axis bounds are derived from the
//! greatest coordinates a trajectory reaches.

use crate::physics::MotionState;
use vstd::prelude::*;

verus! {

/// The greatest horizontal and vertical position reached by a trajectory,
/// each folded from zero: the result is never negative, bounds every
/// recorded position, and is attained by some recorded state unless it is
/// the zero start of the fold.
pub fn find_maxes(states: &Vec<MotionState>) -> (m: (i64, i64))
    ensures
        m.0 >= 0,
        m.1 >= 0,
        forall|i: int|
            0 <= i < states@.len() ==> (#[trigger] states@[i])@.position.x <= m.0
                && states@[i]@.position.y <= m.1,
        m.0 == 0 || exists|i: int|
            0 <= i < states@.len() && (#[trigger] states@[i])@.position.x == m.0,
        m.1 == 0 || exists|i: int|
            0 <= i < states@.len() && (#[trigger] states@[i])@.position.y == m.1,
{
    let mut max_x: i64 = 0;
    let mut max_y: i64 = 0;
    let mut idx: usize = 0;
    while idx < states.len()
        invariant
            0 <= idx <= states@.len(),
            max_x >= 0,
            max_y >= 0,
            forall|i: int|
                0 <= i < idx ==> (#[trigger] states@[i])@.position.x <= max_x
                    && states@[i]@.position.y <= max_y,
            max_x == 0 || exists|i: int|
                0 <= i < idx && (#[trigger] states@[i])@.position.x == max_x,
            max_y == 0 || exists|i: int|
                0 <= i < idx && (#[trigger] states@[i])@.position.y == max_y,
        decreases states@.len() - idx,
    {
        let s = states[idx];
        if s.position.x > max_x {
            max_x = s.position.x;
        }
        if s.position.y > max_y {
            max_y = s.position.y;
        }
        idx = idx + 1;
    }
    (max_x, max_y)
}

} // verus!
