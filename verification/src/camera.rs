//! The keyboard part of the free-fly camera: which way the held keys move it.
use vstd::prelude::*;
use crate::egui_input::{key_held, KeyCode};

verus! {

/// The movement the held keys ask of a free-fly camera, per axis of the
/// camera: each is -1, 0 or 1, and `boost` multiplies the speed by five.
#[derive(Clone, Copy, Debug, PartialEq, Eq, Structural)]
pub struct FlyInput {
    /// W forward, S back
    pub forward: i8,
    /// D right, A left
    pub right: i8,
    /// Space up, left Control down
    pub up: i8,
    /// left Shift held
    pub boost: bool,
}

/// One key that pushes an axis up and one that pushes it down.
pub open spec fn axis(plus: bool, minus: bool) -> i8 {
    if plus == minus {
        0
    } else if plus {
        1
    } else {
        -1i8
    }
}

/// The movement for the keys `held`.
pub open spec fn fly_input(held: Seq<KeyCode>) -> FlyInput {
    FlyInput {
        forward: axis(held.contains(KeyCode::KeyW), held.contains(KeyCode::KeyS)),
        right: axis(held.contains(KeyCode::KeyD), held.contains(KeyCode::KeyA)),
        up: axis(held.contains(KeyCode::Space), held.contains(KeyCode::ControlLeft)),
        boost: held.contains(KeyCode::ShiftLeft),
    }
}

fn axis_of(plus: bool, minus: bool) -> (r: i8)
    ensures
        r == axis(plus, minus),
{
    let p: i8 = if plus {
        1
    } else {
        0
    };
    let m: i8 = if minus {
        1
    } else {
        0
    };
    p - m
}

/// Reads the free-fly movement from the keys held this frame.
pub fn free_fly_axes(held: &Vec<KeyCode>) -> (f: FlyInput)
    ensures
        f == fly_input(held@),
{
    FlyInput {
        forward: axis_of(key_held(held, KeyCode::KeyW), key_held(held, KeyCode::KeyS)),
        right: axis_of(key_held(held, KeyCode::KeyD), key_held(held, KeyCode::KeyA)),
        up: axis_of(key_held(held, KeyCode::Space), key_held(held, KeyCode::ControlLeft)),
        boost: key_held(held, KeyCode::ShiftLeft),
    }
}

} // verus!
