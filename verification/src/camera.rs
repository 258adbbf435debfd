//! Camera movement directions.

use vstd::prelude::*;

verus! {

/// The directions in which a camera can be moved.
#[derive(Clone, Copy, Debug, PartialEq, Eq, Structural)]
pub enum CameraMovement {
    Forward,
    Backward,
    Left,
    Right,
    Up,
    Down,
}

} // verus!
