//! The daemon's persisted configuration: one authoritative instance, held
//! behind the process's single lock, mutated only after the corresponding
//! hardware write succeeded, and persisted after every confirmed change.

use vstd::prelude::*;

use crate::hardware::{is_usb_threshold, spec_clamp100, usb_threshold_ok};
use crate::types::FanMode;

verus! {

/// Default animation speed, mid-scale.
pub fn default_keyboard_speed() -> (s: u8)
    ensures
        s == 5,
{
    5
}

/// Default lighting brightness, full.
pub fn default_keyboard_brightness() -> (b: u8)
    ensures
        b == 100,
{
    100
}

/// The configuration schema written to disk. Lighting is stored as either
/// a solid colour triple or a named animation, with its speed and
/// brightness parameters; the thermal profile holds the last accepted
/// name, or nothing before one was ever accepted.
#[derive(Debug, Clone, PartialEq)]
pub struct DaemonConfig {
    pub fan_mode: FanMode,
    pub battery_limiter: bool,
    pub battery_calibration: bool,
    pub keyboard_color: Option<(u8, u8, u8)>,
    pub keyboard_animation: Option<String>,
    pub keyboard_speed: u8,
    pub keyboard_brightness: u8,
    pub lcd_overdrive: bool,
    pub boot_animation: bool,
    pub backlight_timeout: bool,
    pub usb_charging: u8,
    pub thermal_profile: Option<String>,
}

impl DaemonConfig {
    /// Fixed defaults used when the persisted file is missing or corrupt.
    pub open spec fn spec_default() -> DaemonConfig {
        DaemonConfig {
            fan_mode: FanMode::Auto,
            battery_limiter: false,
            battery_calibration: false,
            keyboard_color: Some((0, 255, 255)),
            keyboard_animation: None,
            keyboard_speed: 5,
            keyboard_brightness: 100,
            lcd_overdrive: false,
            boot_animation: true,
            backlight_timeout: false,
            usb_charging: 0,
            thermal_profile: None,
        }
    }

    /// Domain invariant of the store: every numeric field holds a value the
    /// hardware accepts. Commands preserve this; loading goes through
    /// [`DaemonConfig::sanitized`] to establish it.
    pub open spec fn wf(self) -> bool {
        &&& self.keyboard_brightness <= 100
        &&& 1 <= self.keyboard_speed <= 10
        &&& usb_threshold_ok(self.usb_charging)
    }

    /// Force a loaded configuration into the accepted domains, field by
    /// field: percentages are clamped, the animation speed pulled into its
    /// 1..=10 scale, and an unsupported USB threshold falls back to off.
    /// Values already in range pass through unchanged.
    pub fn sanitized(self) -> (c: Self)
        ensures
            c.wf(),
            c.fan_mode == self.fan_mode,
            c.battery_limiter == self.battery_limiter,
            c.battery_calibration == self.battery_calibration,
            c.keyboard_color == self.keyboard_color,
            c.keyboard_animation == self.keyboard_animation,
            c.keyboard_speed == (if self.keyboard_speed < 1 {
                1u8
            } else if self.keyboard_speed > 10 {
                10u8
            } else {
                self.keyboard_speed
            }),
            c.keyboard_brightness == spec_clamp100(self.keyboard_brightness),
            c.lcd_overdrive == self.lcd_overdrive,
            c.boot_animation == self.boot_animation,
            c.backlight_timeout == self.backlight_timeout,
            c.usb_charging == (if usb_threshold_ok(self.usb_charging) {
                self.usb_charging
            } else {
                0u8
            }),
            c.thermal_profile == self.thermal_profile,
    {
        let speed: u8 = if self.keyboard_speed < 1 {
            1
        } else if self.keyboard_speed > 10 {
            10
        } else {
            self.keyboard_speed
        };
        let brightness: u8 = if self.keyboard_brightness > 100 {
            100
        } else {
            self.keyboard_brightness
        };
        let usb: u8 = if is_usb_threshold(self.usb_charging) {
            self.usb_charging
        } else {
            0
        };
        DaemonConfig {
            keyboard_speed: speed,
            keyboard_brightness: brightness,
            usb_charging: usb,
            ..self
        }
    }
}

impl Default for DaemonConfig {
    /// The hard-coded startup fallback; well-formed by construction.
    fn default() -> (c: Self)
        ensures
            c == DaemonConfig::spec_default(),
            c.wf(),
    {
        DaemonConfig {
            fan_mode: FanMode::Auto,
            battery_limiter: false,
            battery_calibration: false,
            keyboard_color: Some((0, 255, 255)),
            keyboard_animation: None,
            keyboard_speed: 5,
            keyboard_brightness: 100,
            lcd_overdrive: false,
            boot_animation: true,
            backlight_timeout: false,
            usb_charging: 0,
            thermal_profile: None,
        }
    }
}

} // verus!
