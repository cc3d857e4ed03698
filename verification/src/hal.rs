//! The hardware abstraction layer: the wake-cause probe and the backlight.

use vstd::prelude::*;

use crate::backlight::Backlight;
use crate::wakeup::Wakeup;

verus! {

/// The hardware the controller consults: the wake-cause probe, and the
/// backlight when one was found.
#[derive(Debug)]
pub struct Hal {
    /// The wake-cause probe.
    pub wakeup: Wakeup,
    /// The panel backlight, when the shell found one.
    pub backlight: Option<Backlight>,
}

impl Hal {
    /// Bundle the probed hardware.
    pub fn new(wakeup: Wakeup, backlight: Option<Backlight>) -> (r: Hal)
        ensures
            r.wakeup == wakeup,
            r.backlight == backlight,
    {
        Hal { wakeup, backlight }
    }
}

} // verus!
