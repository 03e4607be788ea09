use arch_sense::config::{default_keyboard_brightness, default_keyboard_speed, DaemonConfig};
use arch_sense::hardware::{HwAttr, HwWrite};
use arch_sense::server::{
    build_status, classify_request, commit_command, fan_speeds_or_zero, plan_command, plan_thermal,
    rgb_mode_of, sensor_or_zero, startup_plan, CommandPlan, RequestDisposition, SensorReadings,
};
use arch_sense::types::{Command, FanMode, ProfessionalColor, Response, RgbMode};

fn base_config() -> DaemonConfig {
    DaemonConfig::default()
}

#[test]
fn default_config_values() {
    let cfg = base_config();
    assert!(matches!(cfg.fan_mode, FanMode::Auto));
    assert!(!cfg.battery_limiter);
    assert!(!cfg.battery_calibration);
    assert_eq!(cfg.keyboard_color, Some((0, 255, 255)));
    assert_eq!(cfg.keyboard_animation, None);
    assert_eq!(cfg.keyboard_speed, default_keyboard_speed());
    assert_eq!(cfg.keyboard_brightness, default_keyboard_brightness());
    assert!(!cfg.lcd_overdrive);
    assert!(cfg.boot_animation);
    assert!(!cfg.backlight_timeout);
    assert_eq!(cfg.usb_charging, 0);
    assert_eq!(cfg.thermal_profile, None);
}

#[test]
fn sanitize_clamps_out_of_range_fields() {
    let mut cfg = base_config();
    cfg.keyboard_brightness = 200;
    cfg.keyboard_speed = 0;
    cfg.usb_charging = 15;
    let clean = cfg.sanitized();
    assert_eq!(clean.keyboard_brightness, 100);
    assert_eq!(clean.keyboard_speed, 1);
    assert_eq!(clean.usb_charging, 0);

    let mut cfg = base_config();
    cfg.keyboard_speed = 99;
    assert_eq!(cfg.clone().sanitized().keyboard_speed, 10);
    // Values already in range pass through unchanged.
    assert_eq!(cfg.clone().sanitized().keyboard_brightness, cfg.keyboard_brightness);
    assert_eq!(base_config().sanitized(), base_config());
}

#[test]
fn unsupported_usb_threshold_is_rejected_and_config_untouched() {
    let cfg = base_config();
    let before = cfg.clone();
    match plan_command(&Command::SetUsbCharging(15), &cfg) {
        CommandPlan::Reply(Response::Error(_)) => {}
        other => panic!("expected an immediate error, got {:?}", other),
    }
    assert_eq!(cfg, before);

    // Even a commit attempt with an unsupported threshold refuses to touch
    // the store.
    let mut cfg = base_config();
    let before = cfg.clone();
    let (resp, persist) = commit_command(&Command::SetUsbCharging(15), &mut cfg, Ok(()));
    assert!(matches!(resp, Response::Error(_)));
    assert!(!persist);
    assert_eq!(cfg, before);
}

#[test]
fn supported_usb_threshold_plans_a_write() {
    let cfg = base_config();
    match plan_command(&Command::SetUsbCharging(30), &cfg) {
        CommandPlan::HwAction(HwWrite { attr: HwAttr::UsbCharging, value }) => {
            assert_eq!(value, "30\n");
        }
        other => panic!("expected a usb_charging write, got {:?}", other),
    }
}

#[test]
fn brightness_step_at_bound_is_an_acknowledged_no_op() {
    let mut cfg = base_config();
    cfg.keyboard_brightness = 100;
    let before = cfg.clone();
    match plan_command(&Command::IncreaseRgbBrightness, &cfg) {
        CommandPlan::Reply(Response::Ack(_)) => {}
        other => panic!("expected an ack without hardware work, got {:?}", other),
    }
    assert_eq!(cfg, before);

    cfg.keyboard_brightness = 0;
    match plan_command(&Command::DecreaseRgbBrightness, &cfg) {
        CommandPlan::Reply(Response::Ack(_)) => {}
        other => panic!("expected an ack without hardware work, got {:?}", other),
    }
}

#[test]
fn brightness_step_inside_range_reapplies_the_mode() {
    let mut cfg = base_config();
    cfg.keyboard_brightness = 95;
    match plan_command(&Command::IncreaseRgbBrightness, &cfg) {
        CommandPlan::Lighting(plan) => assert_eq!(plan.ops.len(), 18),
        other => panic!("expected a lighting sequence, got {:?}", other),
    }
    let (resp, persist) = commit_command(&Command::IncreaseRgbBrightness, &mut cfg, Ok(()));
    assert!(matches!(resp, Response::Ack(_)));
    assert!(persist);
    assert_eq!(cfg.keyboard_brightness, 100);

    cfg.keyboard_brightness = 5;
    let (_, _) = commit_command(&Command::DecreaseRgbBrightness, &mut cfg, Ok(()));
    assert_eq!(cfg.keyboard_brightness, 0);
}

#[test]
fn failed_hardware_write_leaves_config_untouched() {
    let mut cfg = base_config();
    let before = cfg.clone();
    let (resp, persist) =
        commit_command(&Command::SetBatteryLimiter(true), &mut cfg, Err("write failed".to_string()));
    match resp {
        Response::Error(msg) => assert_eq!(msg, "write failed"),
        other => panic!("expected the error to propagate, got {:?}", other),
    }
    // No persist requested, so the on-disk copy stays as it was too.
    assert!(!persist);
    assert_eq!(cfg, before);
}

#[test]
fn successful_commits_change_one_field_and_persist() {
    let mut cfg = base_config();
    let (resp, persist) = commit_command(&Command::SetBatteryLimiter(true), &mut cfg, Ok(()));
    assert!(matches!(resp, Response::Ack(_)));
    assert!(persist);
    assert!(cfg.battery_limiter);

    let (_, persist) = commit_command(&Command::SetFanMode(FanMode::Turbo), &mut cfg, Ok(()));
    assert!(persist);
    assert!(matches!(cfg.fan_mode, FanMode::Turbo));

    let (_, persist) = commit_command(&Command::SetLcdOverdrive(true), &mut cfg, Ok(()));
    assert!(persist);
    assert!(cfg.lcd_overdrive);

    let (_, persist) = commit_command(&Command::SetBootAnimation(false), &mut cfg, Ok(()));
    assert!(persist);
    assert!(!cfg.boot_animation);

    let (_, persist) = commit_command(&Command::ToggleSmartBatterySaver, &mut cfg, Ok(()));
    assert!(persist);
    assert!(cfg.backlight_timeout);

    let (_, persist) = commit_command(&Command::SetUsbCharging(20), &mut cfg, Ok(()));
    assert!(persist);
    assert_eq!(cfg.usb_charging, 20);

    let (resp, persist) = commit_command(&Command::SetBatteryCalibration(true), &mut cfg, Ok(()));
    assert!(matches!(resp, Response::Ack(_)));
    assert!(persist);
    assert!(cfg.battery_calibration);

    // A confirmed thermal profile is stored, trimmed, and persisted.
    let (resp, persist) = commit_command(
        &Command::SetThermalProfile(" performance \n".to_string()),
        &mut cfg,
        Ok(()),
    );
    assert!(matches!(resp, Response::Ack(_)));
    assert!(persist);
    assert_eq!(cfg.thermal_profile.as_deref(), Some("performance"));
}

#[test]
fn rgb_mode_commits_store_the_mode() {
    let mut cfg = base_config();
    let (_, persist) = commit_command(&Command::SetRgbMode(RgbMode::Wave), &mut cfg, Ok(()));
    assert!(persist);
    assert_eq!(cfg.keyboard_animation.as_deref(), Some("wave"));

    let (_, _) = commit_command(&Command::SetRgbMode(RgbMode::Neon), &mut cfg, Ok(()));
    assert_eq!(cfg.keyboard_animation.as_deref(), Some("neon"));

    let (_, _) = commit_command(
        &Command::SetRgbMode(RgbMode::Solid(ProfessionalColor::EyeCareAmber)),
        &mut cfg,
        Ok(()),
    );
    assert_eq!(cfg.keyboard_animation, None);
    assert_eq!(cfg.keyboard_color, Some((255, 150, 0)));
}

#[test]
fn stored_mode_maps_back_to_the_wire_variant() {
    let mut cfg = base_config();
    assert!(matches!(rgb_mode_of(&cfg), RgbMode::Solid(ProfessionalColor::ArchCyan)));
    cfg.keyboard_color = Some((255, 0, 0));
    assert!(matches!(rgb_mode_of(&cfg), RgbMode::Solid(ProfessionalColor::NightShiftRed)));
    cfg.keyboard_animation = Some("neon".to_string());
    assert!(matches!(rgb_mode_of(&cfg), RgbMode::Neon));
    cfg.keyboard_animation = Some("breath".to_string());
    assert!(matches!(rgb_mode_of(&cfg), RgbMode::Wave));
}

#[test]
fn status_is_a_pure_function_of_one_snapshot() {
    let sensors = SensorReadings {
        cpu_temp: 57,
        gpu_temp: 45,
        cpu_fan: 30,
        gpu_fan: 40,
    };
    let choices = vec!["quiet".to_string(), "balanced".to_string()];

    let mut cfg = base_config();
    let before = cfg.clone();
    let status_pre = build_status(&cfg, sensors, "balanced".to_string(), choices.clone());

    // A concurrent mutating command commits between the two reads.
    let (_, _) = commit_command(&Command::SetBatteryLimiter(true), &mut cfg, Ok(()));
    let status_post = build_status(&cfg, sensors, "balanced".to_string(), choices.clone());

    // Each observer saw one coherent snapshot: fully pre- or fully
    // post-mutation, never a mixture.
    match (status_pre, status_post) {
        (
            Response::HardwareStatus {
                battery_limiter: pre_limiter,
                battery_calibration: pre_cal,
                cpu_temp: pre_temp,
                fan_mode: pre_mode,
                usb_charging: pre_usb,
                ..
            },
            Response::HardwareStatus {
                battery_limiter: post_limiter,
                battery_calibration: post_cal,
                cpu_temp: post_temp,
                fan_mode: post_mode,
                usb_charging: post_usb,
                ..
            },
        ) => {
            assert_eq!(pre_limiter, before.battery_limiter);
            assert_eq!(post_limiter, cfg.battery_limiter);
            assert_eq!(pre_cal, before.battery_calibration);
            assert_eq!(post_cal, cfg.battery_calibration);
            assert_eq!(pre_temp, 57);
            assert_eq!(post_temp, 57);
            assert!(matches!(pre_mode, FanMode::Auto));
            assert!(matches!(post_mode, FanMode::Auto));
            assert_eq!(pre_usb, before.usb_charging);
            assert_eq!(post_usb, cfg.usb_charging);
        }
        other => panic!("expected two status responses, got {:?}", other),
    }

    // A status query never mutates: planning it is a read-only step.
    let snapshot = cfg.clone();
    assert!(matches!(plan_command(&Command::GetHardwareStatus, &cfg), CommandPlan::Status));
    assert_eq!(cfg, snapshot);
}

#[test]
fn empty_read_closes_silently_and_bad_payload_draws_one_error() {
    assert!(matches!(classify_request(0, None), RequestDisposition::CloseSilently));
    // Whatever a decoder might claim, zero bytes read means no response.
    assert!(matches!(
        classify_request(0, Some(Command::GetHardwareStatus)),
        RequestDisposition::CloseSilently
    ));
    assert!(matches!(classify_request(42, None), RequestDisposition::RejectMalformed));
    match classify_request(42, Some(Command::GetHardwareStatus)) {
        RequestDisposition::Dispatch(Command::GetHardwareStatus) => {}
        other => panic!("expected dispatch, got {:?}", other),
    }
}

#[test]
fn thermal_profile_plans_validate_against_live_choices() {
    let choices = vec!["quiet".to_string(), "balanced".to_string(), "performance".to_string()];
    match plan_thermal("performance", &choices) {
        Ok(HwWrite { attr: HwAttr::PlatformProfile, value }) => assert_eq!(value, "performance\n"),
        other => panic!("expected a platform profile write, got {:?}", other),
    }
    assert!(matches!(plan_thermal("", &choices), Err(Response::Error(_))));
    assert!(matches!(plan_thermal("turbo", &choices), Err(Response::Error(_))));

    match plan_command(&Command::SetThermalProfile("balanced".to_string()), &base_config()) {
        CommandPlan::NeedThermalChoices(p) => assert_eq!(p, "balanced"),
        other => panic!("expected a choice-list read, got {:?}", other),
    }
}

#[test]
fn unavailable_sensors_recover_to_zero() {
    assert_eq!(sensor_or_zero(Ok(57)), 57);
    assert_eq!(sensor_or_zero(Err("no tool".to_string())), 0);
    assert_eq!(fan_speeds_or_zero(Ok((30, 40))), (30, 40));
    assert_eq!(fan_speeds_or_zero(Err("no file".to_string())), (0, 0));
}

#[test]
fn startup_plan_replays_the_persisted_state() {
    let mut cfg = base_config();
    cfg.battery_limiter = true;
    cfg.usb_charging = 20;
    let cfg = cfg.sanitized();
    let (writes, lighting) = startup_plan(&cfg);
    let attrs: Vec<HwAttr> = writes.iter().map(|w| w.attr).collect();
    assert_eq!(
        attrs,
        vec![
            HwAttr::BatteryLimiter,
            HwAttr::BatteryCalibration,
            HwAttr::LcdOverride,
            HwAttr::BootAnimationSound,
            HwAttr::BacklightTimeout,
            HwAttr::UsbCharging,
        ]
    );
    let values: Vec<&str> = writes.iter().map(|w| w.value.as_str()).collect();
    assert_eq!(values, vec!["1\n", "0\n", "0\n", "1\n", "0\n", "20\n"]);
    // The stored default colour is outside the palette and replays as the
    // cyan palette entry's full colour sequence.
    assert_eq!(lighting.ops.len(), 18);
}
