//! Display timings.

use vstd::prelude::*;

verus! {

/// A display timing: resolution, sync positions and refresh rate.
///
/// Two modes are equal when all of their timing fields are equal.
#[derive(Clone, Copy, Debug, PartialEq, Eq, Hash, Structural)]
pub struct Mode {
    /// Pixel clock in kHz.
    pub clock: u32,
    pub hdisplay: u16,
    pub hsync_start: u16,
    pub hsync_end: u16,
    pub htotal: u16,
    pub hskew: u16,
    pub vdisplay: u16,
    pub vsync_start: u16,
    pub vsync_end: u16,
    pub vtotal: u16,
    pub vscan: u16,
    /// Vertical refresh rate in Hz.
    pub vrefresh: u32,
    pub flags: u32,
    pub kind: u32,
}

impl Mode {
    /// The resolution: visible width and height in pixels.
    pub fn size(&self) -> (res: (u16, u16))
        ensures
            res == (self.hdisplay, self.vdisplay),
    {
        (self.hdisplay, self.vdisplay)
    }
}

} // verus!
