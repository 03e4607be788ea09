//! Protocol data model: the fan and lighting mode variants, the command and
//! response unions spoken over the local socket, and small display helpers
//! shared with clients.

use vstd::prelude::*;

verus! {

/// Fan behaviour selected by the user. `Auto` hands control to the
/// background curve controller; the presets and `Custom` pin an explicit
/// CPU/GPU duty pair.
#[derive(Debug, Clone, Copy, PartialEq, Eq, Structural)]
pub enum FanMode {
    Auto,
    Quiet,
    Balanced,
    Performance,
    Turbo,
    Custom(u8, u8),
}

/// The fixed palette of solid keyboard colours offered by the protocol.
#[derive(Debug, Clone, Copy, PartialEq, Eq, Structural)]
pub enum ProfessionalColor {
    ArcticWhite,
    ArchCyan,
    NightShiftRed,
    EyeCareAmber,
}

impl ProfessionalColor {
    /// The red/green/blue triple each palette entry stands for.
    pub open spec fn spec_rgb(&self) -> (u8, u8, u8) {
        match self {
            ProfessionalColor::ArcticWhite => (255, 255, 255),
            ProfessionalColor::ArchCyan => (0, 150, 255),
            ProfessionalColor::NightShiftRed => (255, 0, 0),
            ProfessionalColor::EyeCareAmber => (255, 150, 0),
        }
    }

    pub fn rgb(&self) -> (c: (u8, u8, u8))
        ensures
            c == self.spec_rgb(),
    {
        match self {
            ProfessionalColor::ArcticWhite => (255, 255, 255),
            ProfessionalColor::ArchCyan => (0, 150, 255),
            ProfessionalColor::NightShiftRed => (255, 0, 0),
            ProfessionalColor::EyeCareAmber => (255, 150, 0),
        }
    }
}

/// Lighting mode as exposed on the wire: one solid palette colour, or one
/// of the named animations the daemon drives.
#[derive(Debug, Clone, Copy, PartialEq, Eq, Structural)]
pub enum RgbMode {
    Solid(ProfessionalColor),
    Wave,
    Neon,
}

/// One request, sent by a client over a fresh connection.
#[derive(Debug, Clone, PartialEq)]
pub enum Command {
    GetHardwareStatus,
    SetThermalProfile(String),
    SetFanMode(FanMode),
    SetBatteryLimiter(bool),
    SetRgbMode(RgbMode),
    IncreaseRgbBrightness,
    DecreaseRgbBrightness,
    ToggleSmartBatterySaver,
    SetLcdOverdrive(bool),
    SetBootAnimation(bool),
    SetUsbCharging(u8),
    SetBatteryCalibration(bool),
}

/// One reply, written back on the same connection.
#[derive(Debug, Clone, PartialEq)]
pub enum Response {
    Ack(String),
    Error(String),
    HardwareStatus {
        cpu_temp: u8,
        gpu_temp: u8,
        cpu_fan_percent: u8,
        gpu_fan_percent: u8,
        thermal_profile: String,
        thermal_profile_choices: Vec<String>,
        fan_mode: FanMode,
        active_rgb_mode: RgbMode,
        rgb_brightness: u8,
        fx_speed: u8,
        smart_battery_saver: bool,
        battery_limiter: bool,
        battery_calibration: bool,
        lcd_overdrive: bool,
        boot_animation: bool,
        usb_charging: u8,
    },
}

/// On/off label used when rendering a boolean setting.
pub fn bool_label(value: bool) -> (label: &'static str)
    ensures
        value ==> label@ == "ON"@,
        !value ==> label@ == "OFF"@,
{
    if value {
        "ON"
    } else {
        "OFF"
    }
}

} // verus!
