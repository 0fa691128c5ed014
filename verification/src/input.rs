use vstd::prelude::*;

verus! {

/// Latched keyboard state for the free-fly camera: one flag per
/// movement direction, plus the cube-rotation toggle.
pub struct Input {
    pub forward: bool,
    pub backward: bool,
    pub left: bool,
    pub right: bool,
    pub up: bool,
    pub down: bool,
    pub rotate: bool,
}

impl Input {
    /// The idle state: no key held.
    pub fn new() -> (inp: Input)
        ensures
            !inp.forward,
            !inp.backward,
            !inp.left,
            !inp.right,
            !inp.up,
            !inp.down,
            !inp.rotate,
    {
        Input {
            forward: false,
            backward: false,
            left: false,
            right: false,
            up: false,
            down: false,
            rotate: false,
        }
    }
}

} // verus!
