//! Screen sharing state. Capture itself is not implemented yet: starting a
//! share records a 1920x1080 stream, whose video track the caller creates.
use vstd::prelude::*;

verus! {

/// Whether a screen share is running, and its dimensions.
#[derive(Debug, Clone, Copy)]
pub struct ScreenShare {
    active: bool,
    width: u32,
    height: u32,
}

impl ScreenShare {
    /// Whether a share is running.
    pub closed spec fn active_spec(self) -> bool {
        self.active
    }

    /// The share's width and height.
    pub closed spec fn dimensions_spec(self) -> (u32, u32) {
        (self.width, self.height)
    }

    /// No share, with dimensions 0x0.
    pub fn new() -> (r: Self)
        ensures
            !r.active_spec(),
            r.dimensions_spec() == (0u32, 0u32),
    {
        ScreenShare { active: false, width: 0, height: 0 }
    }

    /// Starts sharing at 1920x1080.
    pub fn start(&mut self)
        ensures
            final(self).active_spec(),
            final(self).dimensions_spec() == (1920u32, 1080u32),
    {
        self.width = 1920;
        self.height = 1080;
        self.active = true;
    }

    /// Stops sharing; the dimensions stay as they were.
    pub fn stop(&mut self)
        ensures
            !final(self).active_spec(),
            final(self).dimensions_spec() == old(self).dimensions_spec(),
    {
        self.active = false;
    }

    /// Whether a share is running.
    pub fn is_active(&self) -> (r: bool)
        ensures
            r == self.active_spec(),
    {
        self.active
    }

    /// The share's width and height.
    pub fn dimensions(&self) -> (r: (u32, u32))
        ensures
            r == self.dimensions_spec(),
    {
        (self.width, self.height)
    }
}

} // verus!
