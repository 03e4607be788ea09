//! Command server, pure half: the per-connection request state machine and
//! the dispatch of each command, split into a planning step (what hardware
//! action, if any, a command calls for) and a commit step (how the store
//! changes once the hardware write reported its outcome). The surrounding
//! process reads and writes the socket, performs the planned I/O and holds
//! the store's lock around plan and commit.
//!
//! Store discipline: the hardware write is attempted first; only on success
//! does commit mutate the configuration and ask for it to be persisted. A
//! failed write leaves the store exactly as it was.

use vstd::prelude::*;
use vstd::string::*;

use crate::config::DaemonConfig;
use crate::hardware::{
    contains_choice, is_usb_threshold, spec_fan_duties, spec_fan_pair_text, usb_threshold_ok,
    HardwareInterface, HwAttr, HwWrite,
};
use crate::keyboard::{is_mode_plan, KeyboardInterface, LightingPlan};
use crate::text::{dec_chars, trim, trimmed};
use crate::types::{Command, ProfessionalColor, Response, RgbMode};

verus! {

broadcast use vstd::string::group_string_axioms;

/// Live sensor values a status query composes; each one individually
/// recovered to a sentinel when its source is unavailable.
#[derive(Debug, Clone, Copy, PartialEq, Eq, Structural)]
pub struct SensorReadings {
    pub cpu_temp: u8,
    pub gpu_temp: u8,
    pub cpu_fan: u8,
    pub gpu_fan: u8,
}

/// A temperature read that failed recovers to the zero sentinel rather
/// than failing the whole snapshot.
pub fn sensor_or_zero(r: Result<u8, String>) -> (v: u8)
    ensures
        match r {
            Ok(x) => v == x,
            Err(_) => v == 0,
        },
{
    match r {
        Ok(x) => x,
        Err(_) => 0,
    }
}

/// A fan-speed read that failed recovers to the zero pair.
pub fn fan_speeds_or_zero(r: Result<(u8, u8), String>) -> (v: (u8, u8))
    ensures
        match r {
            Ok(p) => v == p,
            Err(_) => v == (0u8, 0u8),
        },
{
    match r {
        Ok(p) => p,
        Err(_) => (0, 0),
    }
}

/// The structured lighting mode a configuration currently stands for: a
/// stored animation name takes precedence (the `neon` name maps to its
/// variant, every other stored animation is reported as the wave variant,
/// the only other animation the wire protocol names); otherwise the stored
/// colour, mapped to its palette entry, with the cyan entry standing in
/// for a colour outside the palette.
pub open spec fn spec_rgb_mode_of(cfg: DaemonConfig) -> RgbMode {
    match cfg.keyboard_animation {
        Some(a) => if a@ == "neon"@ {
            RgbMode::Neon
        } else {
            RgbMode::Wave
        },
        None => match cfg.keyboard_color {
            Some(c) => spec_palette_mode(c),
            None => RgbMode::Solid(ProfessionalColor::ArchCyan),
        },
    }
}

/// The palette entry a colour triple corresponds to; the cyan entry stands
/// in for triples outside the palette.
pub open spec fn spec_palette_mode(c: (u8, u8, u8)) -> RgbMode {
    if c == (255u8, 255u8, 255u8) {
        RgbMode::Solid(ProfessionalColor::ArcticWhite)
    } else if c == (255u8, 0u8, 0u8) {
        RgbMode::Solid(ProfessionalColor::NightShiftRed)
    } else if c == (255u8, 150u8, 0u8) {
        RgbMode::Solid(ProfessionalColor::EyeCareAmber)
    } else {
        RgbMode::Solid(ProfessionalColor::ArchCyan)
    }
}

/// Executable form of [`spec_rgb_mode_of`].
pub fn rgb_mode_of(cfg: &DaemonConfig) -> (m: RgbMode)
    ensures
        m == spec_rgb_mode_of(*cfg),
{
    match &cfg.keyboard_animation {
        Some(a) => {
            proof {
                reveal_strlit("neon");
            }
            if crate::text::str_eq(a.as_str(), "neon") {
                RgbMode::Neon
            } else {
                RgbMode::Wave
            }
        },
        None => match cfg.keyboard_color {
            Some(c) => {
                if c.0 == 255 && c.1 == 255 && c.2 == 255 {
                    RgbMode::Solid(ProfessionalColor::ArcticWhite)
                } else if c.0 == 255 && c.1 == 0 && c.2 == 0 {
                    RgbMode::Solid(ProfessionalColor::NightShiftRed)
                } else if c.0 == 255 && c.1 == 150 && c.2 == 0 {
                    RgbMode::Solid(ProfessionalColor::EyeCareAmber)
                } else {
                    RgbMode::Solid(ProfessionalColor::ArchCyan)
                }
            },
            None => RgbMode::Solid(ProfessionalColor::ArchCyan),
        },
    }
}

/// Where a brightness step lands: up saturates at 100, down at 0.
pub open spec fn spec_brightness_target(current: u8, up: bool) -> u8 {
    if up {
        if current + 10 >= 100 {
            100
        } else {
            (current + 10) as u8
        }
    } else {
        if current >= 10 {
            (current - 10) as u8
        } else {
            0
        }
    }
}

/// What a decoded command asks the process to do before the store may
/// change.
#[derive(Debug, Clone, PartialEq)]
pub enum CommandPlan {
    /// Read the live sensors and compose a status response; no mutation.
    Status,
    /// Perform this attribute write, then commit.
    HwAction(HwWrite),
    /// Perform this lighting transfer sequence, then commit.
    Lighting(LightingPlan),
    /// Read the live thermal choice list, validate against it, then write.
    NeedThermalChoices(String),
    /// Respond immediately; nothing to do and nothing changes.
    Reply(Response),
}

/// A plan that writes a boolean attribute.
pub open spec fn is_bool_write(plan: CommandPlan, attr: HwAttr, enable: bool) -> bool {
    &&& plan matches CommandPlan::HwAction(w) && w.attr == attr && (enable ==> w.value@ == "1\n"@)
        && (!enable ==> w.value@ == "0\n"@)
}

/// The plan a brightness step calls for: a step that would not move is
/// acknowledged without touching hardware or store; otherwise the current
/// lighting mode is re-applied at the target brightness.
pub open spec fn brightness_plan_ok(cfg: DaemonConfig, up: bool, plan: CommandPlan) -> bool {
    if spec_brightness_target(cfg.keyboard_brightness, up) == cfg.keyboard_brightness {
        plan matches CommandPlan::Reply(r) && r is Ack
    } else {
        plan matches CommandPlan::Lighting(lp) && is_mode_plan(
            lp.ops@,
            spec_rgb_mode_of(cfg),
            spec_brightness_target(cfg.keyboard_brightness, up),
            cfg.keyboard_speed,
        )
    }
}

/// The exact plan each command calls for, given the store's current state.
pub open spec fn plan_ok(cmd: Command, cfg: DaemonConfig, plan: CommandPlan) -> bool {
    match cmd {
        Command::GetHardwareStatus => plan is Status,
        Command::SetThermalProfile(p) => plan matches CommandPlan::NeedThermalChoices(q) && q@
            == p@,
        Command::SetFanMode(m) => plan matches CommandPlan::HwAction(w) && w.attr
            == HwAttr::FanSpeed && w.value@ == spec_fan_pair_text(
            spec_fan_duties(m).0,
            spec_fan_duties(m).1,
        ),
        Command::SetBatteryLimiter(b) => is_bool_write(plan, HwAttr::BatteryLimiter, b),
        Command::SetBatteryCalibration(b) => is_bool_write(plan, HwAttr::BatteryCalibration, b),
        Command::SetRgbMode(m) => plan matches CommandPlan::Lighting(lp) && is_mode_plan(
            lp.ops@,
            m,
            cfg.keyboard_brightness,
            cfg.keyboard_speed,
        ),
        Command::IncreaseRgbBrightness => brightness_plan_ok(cfg, true, plan),
        Command::DecreaseRgbBrightness => brightness_plan_ok(cfg, false, plan),
        Command::ToggleSmartBatterySaver => is_bool_write(
            plan,
            HwAttr::BacklightTimeout,
            !cfg.backlight_timeout,
        ),
        Command::SetLcdOverdrive(b) => is_bool_write(plan, HwAttr::LcdOverride, b),
        Command::SetBootAnimation(b) => is_bool_write(plan, HwAttr::BootAnimationSound, b),
        Command::SetUsbCharging(t) => if usb_threshold_ok(t) {
            plan matches CommandPlan::HwAction(w) && w.attr == HwAttr::UsbCharging && w.value@
                == dec_chars(t as int).push('\n')
        } else {
            plan matches CommandPlan::Reply(r) && r is Error
        },
    }
}

/// Decide what a command requires before any state may change. Pure: the
/// store is only read, never touched, so a rejected command (an unsupported
/// USB threshold, say) provably leaves the configuration as it was.
pub fn plan_command(cmd: &Command, cfg: &DaemonConfig) -> (plan: CommandPlan)
    ensures
        plan_ok(*cmd, *cfg, plan),
{
    match cmd {
        Command::GetHardwareStatus => CommandPlan::Status,
        Command::SetThermalProfile(p) => CommandPlan::NeedThermalChoices(p.clone()),
        Command::SetFanMode(m) => CommandPlan::HwAction(
            HwWrite { attr: HwAttr::FanSpeed, value: HardwareInterface::fan_mode_value(m) },
        ),
        Command::SetBatteryLimiter(b) => CommandPlan::HwAction(
            HwWrite { attr: HwAttr::BatteryLimiter, value: HardwareInterface::bool_attr_value(*b) },
        ),
        Command::SetBatteryCalibration(b) => CommandPlan::HwAction(
            HwWrite { attr: HwAttr::BatteryCalibration, value: HardwareInterface::bool_attr_value(*b) },
        ),
        Command::SetRgbMode(m) => CommandPlan::Lighting(
            KeyboardInterface::mode_plan(m, cfg.keyboard_brightness, cfg.keyboard_speed),
        ),
        Command::IncreaseRgbBrightness => plan_brightness(cfg, true),
        Command::DecreaseRgbBrightness => plan_brightness(cfg, false),
        Command::ToggleSmartBatterySaver => CommandPlan::HwAction(
            HwWrite {
                attr: HwAttr::BacklightTimeout,
                value: HardwareInterface::bool_attr_value(!cfg.backlight_timeout),
            },
        ),
        Command::SetLcdOverdrive(b) => CommandPlan::HwAction(
            HwWrite { attr: HwAttr::LcdOverride, value: HardwareInterface::bool_attr_value(*b) },
        ),
        Command::SetBootAnimation(b) => CommandPlan::HwAction(
            HwWrite { attr: HwAttr::BootAnimationSound, value: HardwareInterface::bool_attr_value(*b) },
        ),
        Command::SetUsbCharging(t) => match HardwareInterface::usb_charging_value(*t) {
            Ok(v) => CommandPlan::HwAction(HwWrite { attr: HwAttr::UsbCharging, value: v }),
            Err(e) => CommandPlan::Reply(Response::Error(e)),
        },
    }
}

fn plan_brightness(cfg: &DaemonConfig, up: bool) -> (plan: CommandPlan)
    ensures
        brightness_plan_ok(*cfg, up, plan),
{
    let current = cfg.keyboard_brightness;
    let target: u8 = if up {
        if current >= 90 {
            100
        } else {
            current + 10
        }
    } else {
        if current >= 10 {
            current - 10
        } else {
            0
        }
    };
    if target == current {
        CommandPlan::Reply(Response::Ack(String::from_str("RGB brightness unchanged")))
    } else {
        let mode = rgb_mode_of(cfg);
        CommandPlan::Lighting(KeyboardInterface::mode_plan(&mode, target, cfg.keyboard_speed))
    }
}

/// Validate a requested thermal profile against the live choice list; a
/// profile outside it is rejected locally, before any write.
pub fn plan_thermal(profile: &str, choices: &Vec<String>) -> (r: Result<HwWrite, Response>)
    ensures
        match r {
            Ok(w) => w.attr == HwAttr::PlatformProfile && trimmed(profile@).len() > 0
                && contains_choice(choices@, trimmed(profile@)) && w.value@ == trimmed(
                profile@,
            ).push('\n'),
            Err(resp) => resp is Error && (trimmed(profile@).len() == 0 || !contains_choice(
                choices@,
                trimmed(profile@),
            )),
        },
{
    match HardwareInterface::validate_thermal_profile(profile, choices) {
        Ok(v) => Ok(HwWrite { attr: HwAttr::PlatformProfile, value: v }),
        Err(e) => Err(Response::Error(e)),
    }
}

/// The store after a successful hardware write: the one field the command
/// governs changes, everything else is untouched. `persist` says whether
/// the new state must be written to disk.
pub open spec fn commit_ok(
    cmd: Command,
    o: DaemonConfig,
    n: DaemonConfig,
    resp: Response,
    persist: bool,
) -> bool {
    match cmd {
        Command::GetHardwareStatus => n == o && resp is Ack && !persist,
        Command::SetThermalProfile(p) => profile_stored(o, n, trimmed(p@)) && resp is Ack
            && persist,
        Command::SetFanMode(m) => n == (DaemonConfig { fan_mode: m, ..o }) && resp is Ack
            && persist,
        Command::SetBatteryLimiter(b) => n == (DaemonConfig { battery_limiter: b, ..o }) && resp
            is Ack && persist,
        Command::SetBatteryCalibration(b) => n == (DaemonConfig { battery_calibration: b, ..o })
            && resp is Ack && persist,
        Command::SetRgbMode(m) => rgb_commit_ok(m, o, n) && resp is Ack && persist,
        Command::IncreaseRgbBrightness => n == (DaemonConfig {
            keyboard_brightness: spec_brightness_target(o.keyboard_brightness, true),
            ..o
        }) && resp is Ack && persist,
        Command::DecreaseRgbBrightness => n == (DaemonConfig {
            keyboard_brightness: spec_brightness_target(o.keyboard_brightness, false),
            ..o
        }) && resp is Ack && persist,
        Command::ToggleSmartBatterySaver => n == (DaemonConfig {
            backlight_timeout: !o.backlight_timeout,
            ..o
        }) && resp is Ack && persist,
        Command::SetLcdOverdrive(b) => n == (DaemonConfig { lcd_overdrive: b, ..o }) && resp is Ack
            && persist,
        Command::SetBootAnimation(b) => n == (DaemonConfig { boot_animation: b, ..o }) && resp
            is Ack && persist,
        Command::SetUsbCharging(t) => if usb_threshold_ok(t) {
            n == (DaemonConfig { usb_charging: t, ..o }) && resp is Ack && persist
        } else {
            n == o && resp is Error && !persist
        },
    }
}

/// How the lighting fields change when a mode is applied: a solid colour
/// stores its triple and clears the animation; an animation stores its
/// name and leaves every other field alone.
pub open spec fn rgb_commit_ok(m: RgbMode, o: DaemonConfig, n: DaemonConfig) -> bool {
    match m {
        RgbMode::Solid(c) => n == (DaemonConfig {
            keyboard_color: Some(c.spec_rgb()),
            keyboard_animation: None,
            ..o
        }),
        RgbMode::Wave => animation_stored(o, n, "wave"@),
        RgbMode::Neon => animation_stored(o, n, "neon"@),
    }
}

/// The animation name is stored; every other field is untouched.
pub open spec fn animation_stored(o: DaemonConfig, n: DaemonConfig, name: Seq<char>) -> bool {
    &&& n.keyboard_animation matches Some(a) && a@ == name
    &&& n.fan_mode == o.fan_mode
    &&& n.battery_limiter == o.battery_limiter
    &&& n.battery_calibration == o.battery_calibration
    &&& n.keyboard_color == o.keyboard_color
    &&& n.keyboard_speed == o.keyboard_speed
    &&& n.keyboard_brightness == o.keyboard_brightness
    &&& n.lcd_overdrive == o.lcd_overdrive
    &&& n.boot_animation == o.boot_animation
    &&& n.backlight_timeout == o.backlight_timeout
    &&& n.usb_charging == o.usb_charging
    &&& n.thermal_profile == o.thermal_profile
}

/// The validated thermal profile name (trimmed) is stored; every other
/// field is untouched.
pub open spec fn profile_stored(o: DaemonConfig, n: DaemonConfig, name: Seq<char>) -> bool {
    &&& n.thermal_profile matches Some(a) && a@ == name
    &&& n.fan_mode == o.fan_mode
    &&& n.battery_limiter == o.battery_limiter
    &&& n.battery_calibration == o.battery_calibration
    &&& n.keyboard_color == o.keyboard_color
    &&& n.keyboard_animation == o.keyboard_animation
    &&& n.keyboard_speed == o.keyboard_speed
    &&& n.keyboard_brightness == o.keyboard_brightness
    &&& n.lcd_overdrive == o.lcd_overdrive
    &&& n.boot_animation == o.boot_animation
    &&& n.backlight_timeout == o.backlight_timeout
    &&& n.usb_charging == o.usb_charging
}

/// Fold the hardware outcome into the store. On failure the error
/// propagates verbatim and the configuration — in memory as on disk, since
/// no persist is requested — is left byte-for-byte as it was. On success
/// the one governed field changes and the new state is persisted. The
/// store's domain invariant is preserved either way.
pub fn commit_command(cmd: &Command, cfg: &mut DaemonConfig, hw_result: Result<(), String>) -> (out:
    (Response, bool))
    ensures
        match hw_result {
            Err(e) => *final(cfg) == *old(cfg) && (out.0 matches Response::Error(m) && m@ == e@)
                && !out.1,
            Ok(_) => commit_ok(*cmd, *old(cfg), *final(cfg), out.0, out.1),
        },
        old(cfg).wf() ==> final(cfg).wf(),
{
    match hw_result {
        Err(e) => (Response::Error(e), false),
        Ok(_) => match cmd {
            Command::GetHardwareStatus => (
                Response::Ack(String::from_str("status refreshed")),
                false,
            ),
            Command::SetThermalProfile(p) => {
                let t = trim(p.as_str());
                cfg.thermal_profile = Some(String::from_str(t));
                (Response::Ack(String::from_str("thermal profile applied")), true)
            },
            Command::SetFanMode(m) => {
                cfg.fan_mode = *m;
                (Response::Ack(String::from_str("fan mode updated")), true)
            },
            Command::SetBatteryLimiter(b) => {
                cfg.battery_limiter = *b;
                (Response::Ack(String::from_str("battery limiter updated")), true)
            },
            Command::SetBatteryCalibration(b) => {
                cfg.battery_calibration = *b;
                (Response::Ack(String::from_str("battery calibration updated")), true)
            },
            Command::SetRgbMode(m) => {
                match m {
                    RgbMode::Solid(c) => {
                        cfg.keyboard_color = Some(c.rgb());
                        cfg.keyboard_animation = None;
                    },
                    RgbMode::Wave => {
                        cfg.keyboard_animation = Some(String::from_str("wave"));
                    },
                    RgbMode::Neon => {
                        cfg.keyboard_animation = Some(String::from_str("neon"));
                    },
                }
                (Response::Ack(String::from_str("lighting mode updated")), true)
            },
            Command::IncreaseRgbBrightness => {
                let current = cfg.keyboard_brightness;
                cfg.keyboard_brightness = if current >= 90 {
                    100
                } else {
                    current + 10
                };
                (Response::Ack(String::from_str("RGB brightness updated")), true)
            },
            Command::DecreaseRgbBrightness => {
                let current = cfg.keyboard_brightness;
                cfg.keyboard_brightness = if current >= 10 {
                    current - 10
                } else {
                    0
                };
                (Response::Ack(String::from_str("RGB brightness updated")), true)
            },
            Command::ToggleSmartBatterySaver => {
                cfg.backlight_timeout = !cfg.backlight_timeout;
                (Response::Ack(String::from_str("smart battery saver toggled")), true)
            },
            Command::SetLcdOverdrive(b) => {
                cfg.lcd_overdrive = *b;
                (Response::Ack(String::from_str("LCD overdrive updated")), true)
            },
            Command::SetBootAnimation(b) => {
                cfg.boot_animation = *b;
                (Response::Ack(String::from_str("boot animation updated")), true)
            },
            Command::SetUsbCharging(t) => {
                if is_usb_threshold(*t) {
                    cfg.usb_charging = *t;
                    (Response::Ack(String::from_str("USB charging threshold updated")), true)
                } else {
                    (
                        Response::Error(
                            String::from_str("USB threshold must be one of 0, 10, 20, 30"),
                        ),
                        false,
                    )
                }
            },
        },
    }
}

/// Compose a status response: live sensor values beside a copy of the
/// relevant configuration fields, all drawn from the one store snapshot
/// given here, so a reader can never observe a half-updated mixture.
pub fn build_status(
    cfg: &DaemonConfig,
    sensors: SensorReadings,
    thermal_profile: String,
    thermal_profile_choices: Vec<String>,
) -> (r: Response)
    ensures
        (r matches Response::HardwareStatus {
            cpu_temp,
            gpu_temp,
            cpu_fan_percent,
            gpu_fan_percent,
            thermal_profile: tp,
            thermal_profile_choices: tpc,
            fan_mode,
            active_rgb_mode,
            rgb_brightness,
            fx_speed,
            smart_battery_saver,
            battery_limiter,
            battery_calibration,
            lcd_overdrive,
            boot_animation,
            usb_charging,
        } && cpu_temp == sensors.cpu_temp && gpu_temp == sensors.gpu_temp && cpu_fan_percent
            == sensors.cpu_fan && gpu_fan_percent == sensors.gpu_fan && tp == thermal_profile
            && tpc == thermal_profile_choices && fan_mode == cfg.fan_mode && active_rgb_mode
            == spec_rgb_mode_of(*cfg) && rgb_brightness == cfg.keyboard_brightness && fx_speed
            == cfg.keyboard_speed && smart_battery_saver == cfg.backlight_timeout
            && battery_limiter == cfg.battery_limiter && battery_calibration
            == cfg.battery_calibration && lcd_overdrive == cfg.lcd_overdrive && boot_animation
            == cfg.boot_animation && usb_charging == cfg.usb_charging),
{
    Response::HardwareStatus {
        cpu_temp: sensors.cpu_temp,
        gpu_temp: sensors.gpu_temp,
        cpu_fan_percent: sensors.cpu_fan,
        gpu_fan_percent: sensors.gpu_fan,
        thermal_profile,
        thermal_profile_choices,
        fan_mode: cfg.fan_mode,
        active_rgb_mode: rgb_mode_of(cfg),
        rgb_brightness: cfg.keyboard_brightness,
        fx_speed: cfg.keyboard_speed,
        smart_battery_saver: cfg.backlight_timeout,
        battery_limiter: cfg.battery_limiter,
        battery_calibration: cfg.battery_calibration,
        lcd_overdrive: cfg.lcd_overdrive,
        boot_animation: cfg.boot_animation,
        usb_charging: cfg.usb_charging,
    }
}

/// What a fresh connection's single read leads to.
#[derive(Debug, PartialEq)]
pub enum RequestDisposition {
    /// The peer closed without sending anything: drop the connection with
    /// no response.
    CloseSilently,
    /// A non-empty payload that does not decode: exactly one error
    /// response.
    RejectMalformed,
    /// A decoded command, ready for dispatch.
    Dispatch(Command),
}

/// The per-connection state machine's one decision point: zero bytes read
/// means the connection is dropped silently; a payload that failed to
/// decode draws exactly one error; a decoded command is dispatched.
pub fn classify_request(bytes_read: usize, decoded: Option<Command>) -> (d: RequestDisposition)
    ensures
        bytes_read == 0 ==> d is CloseSilently,
        bytes_read > 0 && decoded is None ==> d is RejectMalformed,
        bytes_read > 0 ==> (decoded matches Some(c) ==> d == RequestDisposition::Dispatch(c)),
{
    if bytes_read == 0 {
        RequestDisposition::CloseSilently
    } else {
        match decoded {
            None => RequestDisposition::RejectMalformed,
            Some(c) => RequestDisposition::Dispatch(c),
        }
    }
}

/// The attribute writes that restore persisted state at startup, in order;
/// the lighting plan for the stored mode accompanies them.
pub fn startup_plan(cfg: &DaemonConfig) -> (out: (Vec<HwWrite>, LightingPlan))
    requires
        cfg.wf(),
    ensures
        out.0@.len() == 6,
        out.0@[0].attr == HwAttr::BatteryLimiter && (cfg.battery_limiter ==> out.0@[0].value@
            == "1\n"@) && (!cfg.battery_limiter ==> out.0@[0].value@ == "0\n"@),
        out.0@[1].attr == HwAttr::BatteryCalibration && (cfg.battery_calibration ==> out.0@[
            1
        ].value@ == "1\n"@) && (!cfg.battery_calibration ==> out.0@[1].value@ == "0\n"@),
        out.0@[2].attr == HwAttr::LcdOverride && (cfg.lcd_overdrive ==> out.0@[2].value@ == "1\n"@)
            && (!cfg.lcd_overdrive ==> out.0@[2].value@ == "0\n"@),
        out.0@[3].attr == HwAttr::BootAnimationSound && (cfg.boot_animation ==> out.0@[3].value@
            == "1\n"@) && (!cfg.boot_animation ==> out.0@[3].value@ == "0\n"@),
        out.0@[4].attr == HwAttr::BacklightTimeout && (cfg.backlight_timeout ==> out.0@[4].value@
            == "1\n"@) && (!cfg.backlight_timeout ==> out.0@[4].value@ == "0\n"@),
        out.0@[5].attr == HwAttr::UsbCharging && out.0@[5].value@ == dec_chars(
            cfg.usb_charging as int,
        ).push('\n'),
        is_mode_plan(
            out.1.ops@,
            spec_rgb_mode_of(*cfg),
            cfg.keyboard_brightness,
            cfg.keyboard_speed,
        ),
{
    let mut writes: Vec<HwWrite> = Vec::new();
    writes.push(HwWrite { attr: HwAttr::BatteryLimiter, value: HardwareInterface::bool_attr_value(cfg.battery_limiter) });
    writes.push(
        HwWrite {
            attr: HwAttr::BatteryCalibration,
            value: HardwareInterface::bool_attr_value(cfg.battery_calibration),
        },
    );
    writes.push(HwWrite { attr: HwAttr::LcdOverride, value: HardwareInterface::bool_attr_value(cfg.lcd_overdrive) });
    writes.push(
        HwWrite { attr: HwAttr::BootAnimationSound, value: HardwareInterface::bool_attr_value(cfg.boot_animation) },
    );
    writes.push(
        HwWrite { attr: HwAttr::BacklightTimeout, value: HardwareInterface::bool_attr_value(cfg.backlight_timeout) },
    );
    let usb = match HardwareInterface::usb_charging_value(cfg.usb_charging) {
        Ok(v) => v,
        // The store invariant pins the threshold to the accepted set, so
        // the encoder cannot refuse it.
        Err(_) => vstd::pervasive::unreached(),
    };
    writes.push(HwWrite { attr: HwAttr::UsbCharging, value: usb });
    let mode = rgb_mode_of(cfg);
    let lighting = KeyboardInterface::mode_plan(&mode, cfg.keyboard_brightness, cfg.keyboard_speed);
    (writes, lighting)
}

} // verus!
