//! The navigation keys as sampled once at the start of a frame.

use vstd::prelude::*;

verus! {

/// Down state of the six navigation keys for one frame.
#[derive(Clone, Copy, Debug, PartialEq, Eq, Structural)]
pub struct KeyState {
    pub zoom_in: bool,
    pub zoom_out: bool,
    pub pan_up: bool,
    pub pan_down: bool,
    pub pan_right: bool,
    pub pan_left: bool,
}

impl KeyState {
    /// Whether the view moves this frame: at least one navigation key is down.
    pub open spec fn moved(self) -> bool {
        self.zoom_in || self.zoom_out || self.pan_up || self.pan_down || self.pan_right
            || self.pan_left
    }

    /// The state with no key down.
    pub fn released() -> (keys: KeyState)
        ensures
            !keys.moved(),
            keys == (KeyState {
                zoom_in: false,
                zoom_out: false,
                pan_up: false,
                pan_down: false,
                pan_right: false,
                pan_left: false,
            }),
    {
        KeyState {
            zoom_in: false,
            zoom_out: false,
            pan_up: false,
            pan_down: false,
            pan_right: false,
            pan_left: false,
        }
    }

    /// Reports whether any navigation key is down.
    pub fn any_active(&self) -> (active: bool)
        ensures
            active == self.moved(),
    {
        self.zoom_in || self.zoom_out || self.pan_up || self.pan_down || self.pan_right
            || self.pan_left
    }
}

} // verus!
