//! The keys that the game reads, as a snapshot taken once per frame.

use vstd::prelude::*;

verus! {

/// Which keys are held down, and whether Escape went down this frame.
#[derive(Clone, Copy, Debug, PartialEq, Eq, Structural)]
pub struct Input {
    pub up: bool,
    pub down: bool,
    pub left: bool,
    pub right: bool,
    pub w: bool,
    pub a: bool,
    pub s: bool,
    pub d: bool,
    /// Escape was not pressed in the previous frame and is pressed in this one.
    pub escape_just_pressed: bool,
}

impl Input {
    /// The pull along the first axis: right or D counts `+1`, left or A `-1`.
    pub open spec fn axis_x(self) -> int {
        (if self.right || self.d { 1int } else { 0int })
            - (if self.left || self.a { 1int } else { 0int })
    }

    /// The pull along the second axis: up or W counts `+1`, down or S `-1`.
    pub open spec fn axis_y(self) -> int {
        (if self.up || self.w { 1int } else { 0int })
            - (if self.down || self.s { 1int } else { 0int })
    }

    /// No key held down.
    pub fn idle() -> (r: Input)
        ensures
            r.axis_x() == 0,
            r.axis_y() == 0,
            !r.escape_just_pressed,
            r == (Input {
                up: false,
                down: false,
                left: false,
                right: false,
                w: false,
                a: false,
                s: false,
                d: false,
                escape_just_pressed: false,
            }),
    {
        Input {
            up: false,
            down: false,
            left: false,
            right: false,
            w: false,
            a: false,
            s: false,
            d: false,
            escape_just_pressed: false,
        }
    }

    /// Computes `axis_x`.
    pub fn horizontal(&self) -> (r: i32)
        ensures
            r == self.axis_x(),
            -1 <= r <= 1,
    {
        let mut r: i32 = 0;
        if self.left || self.a {
            r = r - 1;
        }
        if self.right || self.d {
            r = r + 1;
        }
        r
    }

    /// Computes `axis_y`.
    pub fn vertical(&self) -> (r: i32)
        ensures
            r == self.axis_y(),
            -1 <= r <= 1,
    {
        let mut r: i32 = 0;
        if self.up || self.w {
            r = r + 1;
        }
        if self.down || self.s {
            r = r - 1;
        }
        r
    }
}

} // verus!
