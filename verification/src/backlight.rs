//! The backlight model.
//!
//! The panel backlight is a sysfs device with a current and a maximum
//! brightness.  The model holds both as plain values; the unverified shell
//! reads them at startup and writes the brightness back whenever it changes
//! here.  Percentages are computed with rounding to the nearest step.

use vstd::prelude::*;

verus! {

/// Clamping a requested brightness into the device's range.
pub open spec fn spec_clamp(v: int, max: int) -> int {
    if v > max {
        max
    } else if v < 0 {
        0
    } else {
        v
    }
}

/// The modelled state of the panel backlight.
#[derive(Debug)]
pub struct Backlight {
    /// The current brightness, in device steps.
    pub brightness: i32,
    /// The largest brightness the device accepts.
    pub max_brightness: i32,
}

impl Backlight {
    /// A backlight whose current and maximum brightness the shell has read
    /// from the device.
    pub fn new(brightness: i32, max_brightness: i32) -> (r: Backlight)
        ensures
            r.brightness == brightness,
            r.max_brightness == max_brightness,
    {
        Backlight { brightness, max_brightness }
    }

    /// The largest brightness the device accepts.
    pub fn get_max_brightness(&self) -> (r: i32)
        ensures
            r == self.max_brightness,
    {
        self.max_brightness
    }

    /// The current brightness, in device steps.
    pub fn get_brightness(&self) -> (r: i32)
        ensures
            r == self.brightness,
    {
        self.brightness
    }

    /// The current brightness as a percentage of the maximum, rounded to
    /// the nearest half step.
    pub fn get_percent(&self) -> (r: i32)
        requires
            self.max_brightness > 0,
            0 <= self.brightness <= self.max_brightness,
        ensures
            r == (100 * self.brightness + 50) as int / self.max_brightness as int,
    {
        let v = self.brightness as i64;
        let m = self.max_brightness as i64;
        let r64 = (100 * v + 50) / m;
        proof {
            vstd::arithmetic::div_mod::lemma_div_is_ordered(100 * v + 50, 150 * m, m as int);
            vstd::arithmetic::div_mod::lemma_div_multiples_vanish(150, m as int);
            vstd::arithmetic::div_mod::lemma_div_pos_is_pos(100 * v + 50, m as int);
        }
        r64 as i32
    }

    /// Set the brightness, clamped into the device's range.
    pub fn set_brightness(&mut self, value: i32) -> (r: bool)
        requires
            old(self).max_brightness >= 0,
        ensures
            final(self).brightness == spec_clamp(value as int, old(self).max_brightness as int),
            final(self).max_brightness == old(self).max_brightness,
            r,
    {
        let max = self.get_max_brightness();
        let v = if value > max {
            max
        } else if value < 0 {
            0
        } else {
            value
        };
        self.brightness = v;
        true
    }

    /// Set the brightness to a percentage of the maximum, rounded to the
    /// nearest step and clamped into the device's range: anything at or
    /// below zero darkens fully, anything at or above a hundred saturates.
    pub fn set_percent(&mut self, value: i32) -> (r: bool)
        requires
            old(self).max_brightness >= 0,
        ensures
            final(self).brightness == spec_clamp(
                (value * old(self).max_brightness + 50) as int / 100,
                old(self).max_brightness as int,
            ),
            final(self).max_brightness == old(self).max_brightness,
            r,
    {
        let m = self.max_brightness as i64;
        let ghost raw_spec = (value * old(self).max_brightness + 50) as int / 100;
        if value <= 0 {
            proof {
                vstd::arithmetic::mul::lemma_mul_inequality(value as int, 0, m as int);
                vstd::arithmetic::div_mod::lemma_div_is_ordered(
                    value as int * m as int + 50,
                    50,
                    100,
                );
                assert(50int / 100 == 0);
                assert(raw_spec <= 0);
            }
            self.set_brightness(0)
        } else {
            // value >= 1: everything is non-negative, so unsigned
            // arithmetic computes the exact quotient.
            proof {
                vstd::arithmetic::mul::lemma_mul_nonnegative(value as int, m as int);
                vstd::arithmetic::mul::lemma_mul_inequality(value as int, i32::MAX as int, m as int);
                vstd::arithmetic::mul::lemma_mul_inequality(m as int, i32::MAX as int, i32::MAX as int);
            }
            let raw = ((value as u64) * (m as u64) + 50) / 100;
            proof {
                assert(raw == raw_spec);
            }
            if raw > (self.max_brightness as u64) {
                proof {
                    assert(spec_clamp(raw_spec, old(self).max_brightness as int) == old(
                        self,
                    ).max_brightness);
                }
                let max = self.max_brightness;
                self.set_brightness(max)
            } else {
                self.set_brightness(raw as i32)
            }
        }
    }
}

} // verus!
