use arch_sense::hardware::{
    next_usb_threshold, parse_bool_01, HardwareInterface, HwAttr,
};
use arch_sense::text::{parse_u8_str, trim, u8_to_dec};
use arch_sense::types::{bool_label, FanMode};

#[test]
fn bool_attribute_parses_only_zero_and_one() {
    assert_eq!(parse_bool_01("0"), Some(false));
    assert_eq!(parse_bool_01("1"), Some(true));
    assert_eq!(parse_bool_01("1\n"), Some(true));
    assert_eq!(parse_bool_01(" 0 "), Some(false));
    assert_eq!(parse_bool_01("2"), None);
    assert_eq!(parse_bool_01(""), None);
    assert_eq!(parse_bool_01("01"), None);
    assert_eq!(parse_bool_01("true"), None);
}

#[test]
fn bool_attribute_write_values() {
    assert_eq!(HardwareInterface::bool_attr_value(true), "1\n");
    assert_eq!(HardwareInterface::bool_attr_value(false), "0\n");
}

#[test]
fn fan_speed_pair_parses_and_clamps() {
    assert_eq!(HardwareInterface::parse_fan_speed("30,70").unwrap(), (30, 70));
    assert_eq!(HardwareInterface::parse_fan_speed("150,200").unwrap(), (100, 100));
    assert_eq!(HardwareInterface::parse_fan_speed(" 30 , 70 \n").unwrap(), (30, 70));
    assert_eq!(HardwareInterface::parse_fan_speed("0,0").unwrap(), (0, 0));
    assert!(HardwareInterface::parse_fan_speed("abc").is_err());
    assert!(HardwareInterface::parse_fan_speed("30").is_err());
    assert!(HardwareInterface::parse_fan_speed("30,").is_err());
    assert!(HardwareInterface::parse_fan_speed(",70").is_err());
    assert!(HardwareInterface::parse_fan_speed("30,700").is_err());
}

#[test]
fn fan_mode_write_values() {
    assert_eq!(HardwareInterface::fan_mode_value(&FanMode::Auto), "0,0");
    assert_eq!(HardwareInterface::fan_mode_value(&FanMode::Quiet), "30,30");
    assert_eq!(HardwareInterface::fan_mode_value(&FanMode::Balanced), "50,50");
    assert_eq!(HardwareInterface::fan_mode_value(&FanMode::Performance), "70,70");
    assert_eq!(HardwareInterface::fan_mode_value(&FanMode::Turbo), "100,100");
    assert_eq!(HardwareInterface::fan_mode_value(&FanMode::Custom(120, 30)), "100,30");
}

#[test]
fn cpu_temperature_converts_milli_degrees() {
    assert_eq!(HardwareInterface::parse_cpu_temp("57000\n").unwrap(), 57);
    assert_eq!(HardwareInterface::parse_cpu_temp("70999").unwrap(), 70);
    assert_eq!(HardwareInterface::parse_cpu_temp("0").unwrap(), 0);
    assert!(HardwareInterface::parse_cpu_temp("-5").is_err());
    assert!(HardwareInterface::parse_cpu_temp("57.5").is_err());
    assert!(HardwareInterface::parse_cpu_temp("").is_err());
}

#[test]
fn gpu_temperature_parses_plain_degrees() {
    assert_eq!(HardwareInterface::parse_gpu_temp("45\n").unwrap(), 45);
    assert_eq!(HardwareInterface::parse_gpu_temp(" 45 ").unwrap(), 45);
    assert!(HardwareInterface::parse_gpu_temp("45 C").is_err());
    assert!(HardwareInterface::parse_gpu_temp("300").is_err());
    assert!(HardwareInterface::parse_gpu_temp("").is_err());
}

#[test]
fn usb_charging_reads_only_supported_thresholds() {
    assert_eq!(HardwareInterface::parse_usb_charging("10").unwrap(), 10);
    assert_eq!(HardwareInterface::parse_usb_charging(" 20\n").unwrap(), 20);
    assert_eq!(HardwareInterface::parse_usb_charging("0").unwrap(), 0);
    assert!(HardwareInterface::parse_usb_charging("15").is_err());
    assert!(HardwareInterface::parse_usb_charging("abc").is_err());
}

#[test]
fn usb_charging_write_values() {
    assert_eq!(HardwareInterface::usb_charging_value(30).unwrap(), "30\n");
    assert_eq!(HardwareInterface::usb_charging_value(0).unwrap(), "0\n");
    assert!(HardwareInterface::usb_charging_value(15).is_err());
    assert!(HardwareInterface::usb_charging_value(100).is_err());
}

#[test]
fn usb_threshold_cycle() {
    assert_eq!(next_usb_threshold(0), 10);
    assert_eq!(next_usb_threshold(10), 20);
    assert_eq!(next_usb_threshold(20), 30);
    assert_eq!(next_usb_threshold(30), 0);
    assert_eq!(next_usb_threshold(15), 0);
}

#[test]
fn thermal_choices_split_and_strip_brackets() {
    assert_eq!(
        HardwareInterface::parse_thermal_choices("low-power balanced [performance]\n"),
        vec!["low-power", "balanced", "performance"]
    );
    assert_eq!(
        HardwareInterface::parse_thermal_choices("[quiet]"),
        vec!["quiet"]
    );
    assert_eq!(HardwareInterface::parse_thermal_choices(""), Vec::<String>::new());
    assert_eq!(HardwareInterface::parse_thermal_choices("  \n "), Vec::<String>::new());
    assert_eq!(HardwareInterface::parse_thermal_choices("[]"), Vec::<String>::new());
}

#[test]
fn thermal_profile_validation() {
    let choices: Vec<String> =
        vec!["quiet".to_string(), "balanced".to_string(), "performance".to_string()];
    assert_eq!(
        HardwareInterface::validate_thermal_profile("balanced", &choices).unwrap(),
        "balanced\n"
    );
    assert_eq!(
        HardwareInterface::validate_thermal_profile(" performance \n", &choices).unwrap(),
        "performance\n"
    );
    assert!(HardwareInterface::validate_thermal_profile("", &choices).is_err());
    assert!(HardwareInterface::validate_thermal_profile("   ", &choices).is_err());
    assert!(HardwareInterface::validate_thermal_profile("turbo", &choices).is_err());
}

#[test]
fn attribute_file_names() {
    assert_eq!(HwAttr::FanSpeed.file_name(), "fan_speed");
    assert_eq!(HwAttr::BacklightTimeout.file_name(), "backlight_timeout");
    assert_eq!(HwAttr::BatteryCalibration.file_name(), "battery_calibration");
    assert_eq!(HwAttr::BatteryLimiter.file_name(), "battery_limiter");
    assert_eq!(HwAttr::BootAnimationSound.file_name(), "boot_animation_sound");
    assert_eq!(HwAttr::LcdOverride.file_name(), "lcd_override");
    assert_eq!(HwAttr::UsbCharging.file_name(), "usb_charging");
    assert_eq!(HwAttr::PlatformProfile.file_name(), "platform_profile");
}

#[test]
fn labels_and_text_helpers() {
    assert_eq!(bool_label(true), "ON");
    assert_eq!(bool_label(false), "OFF");
    assert_eq!(trim("  x  "), "x");
    assert_eq!(trim("\n\t a b \r\n"), "a b");
    assert_eq!(trim(""), "");
    assert_eq!(parse_u8_str("5"), Some(5));
    assert_eq!(parse_u8_str("+5"), Some(5));
    assert_eq!(parse_u8_str("255"), Some(255));
    assert_eq!(parse_u8_str("256"), None);
    assert_eq!(parse_u8_str("-5"), None);
    assert_eq!(parse_u8_str(""), None);
    assert_eq!(parse_u8_str("+"), None);
    assert_eq!(u8_to_dec(0), "0");
    assert_eq!(u8_to_dec(7), "7");
    assert_eq!(u8_to_dec(42), "42");
    assert_eq!(u8_to_dec(100), "100");
    assert_eq!(u8_to_dec(255), "255");
}
