//! The two scroll axes and the whole-unit motion emitted for one frame.
use vstd::prelude::*;

verus! {

/// A scroll axis of the wheel.
#[derive(Debug, Clone, Copy, PartialEq, Eq, Structural)]
pub enum Axis {
    Vertical,
    Horizontal,
}

/// Whole units of scroll motion to emit in one output frame.
#[derive(Debug, Clone, Copy, PartialEq, Eq, Structural)]
pub struct Frame {
    pub vertical: i32,
    pub horizontal: i32,
}

impl Frame {
    /// Whether the frame carries any motion.
    pub open spec fn moves(self) -> bool {
        self.vertical != 0 || self.horizontal != 0
    }

    /// Whether the frame carries any motion.
    pub fn has_motion(&self) -> (b: bool)
        ensures
            b == self.moves(),
    {
        self.vertical != 0 || self.horizontal != 0
    }
}

impl Default for Frame {
    fn default() -> (f: Self)
        ensures
            f.vertical == 0,
            f.horizontal == 0,
    {
        Frame { vertical: 0, horizontal: 0 }
    }
}

} // verus!
