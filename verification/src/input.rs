//! Touch points.

use vstd::prelude::*;

verus! {

/// One touch point. Its coordinates are binary32 numbers, held by their bit
/// patterns.
#[derive(Clone, Copy, Debug)]
pub struct TouchInfo {
    pub enable: bool,
    pub x: u32,
    pub y: u32,
    /// Whether the touch may still judge a note in this tick.
    pub touch_valid: bool,
    /// Where the touch was when its travelled length was last reset.
    pub init_x: u32,
    pub init_y: u32,
}

impl TouchInfo {
    /// A touch that is up, at the origin.
    pub open spec fn default_spec() -> TouchInfo {
        TouchInfo { enable: false, x: 0, y: 0, touch_valid: true, init_x: 0, init_y: 0 }
    }

    /// Whether the touch is where its travelled length was last reset, so
    /// that this length is zero.
    pub open spec fn at_rest(self) -> bool {
        self.x == self.init_x && self.y == self.init_y
    }

    /// Whether the touch is where its travelled length was last reset.
    pub fn is_at_rest(&self) -> (r: bool)
        ensures
            r == self.at_rest(),
    {
        self.x == self.init_x && self.y == self.init_y
    }

    /// Makes the current position the one that length is measured from.
    pub fn reset_length(&mut self)
        ensures
            *final(self) == (TouchInfo { init_x: old(self).x, init_y: old(self).y, ..*old(self) }),
            final(self).at_rest(),
    {
        self.init_x = self.x;
        self.init_y = self.y;
    }

    /// Puts the touch down at a position; it may judge and has not moved.
    pub fn touch_down(&mut self, x: u32, y: u32)
        ensures
            *final(self) == (TouchInfo {
                enable: true,
                x: x,
                y: y,
                touch_valid: true,
                init_x: x,
                init_y: y,
            }),
    {
        self.enable = true;
        self.x = x;
        self.y = y;
        self.touch_valid = true;
        self.init_x = x;
        self.init_y = y;
    }

    /// Moves the touch; where its length is measured from stays.
    pub fn touch_move(&mut self, x: u32, y: u32)
        ensures
            *final(self) == (TouchInfo { x: x, y: y, ..*old(self) }),
    {
        self.x = x;
        self.y = y;
    }

    /// Lifts the touch.
    pub fn touch_up(&mut self)
        ensures
            *final(self) == (TouchInfo { enable: false, ..*old(self) }),
    {
        self.enable = false;
    }
}

impl Default for TouchInfo {
    fn default() -> (r: Self)
        ensures
            r == TouchInfo::default_spec(),
    {
        TouchInfo { enable: false, x: 0, y: 0, touch_valid: true, init_x: 0, init_y: 0 }
    }
}

} // verus!
