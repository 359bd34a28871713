use vstd::prelude::*;

verus! {

/// Which face of the view frustum a clipping plane is.
#[derive(Copy, Clone, Debug, PartialEq, Eq, Structural)]
pub enum PlaneType {
    Near,
    Left,
    Right,
    Top,
    Bottom,
}

} // verus!
