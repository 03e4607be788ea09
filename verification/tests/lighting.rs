use arch_sense::keyboard::{scale_channel, KeyboardInterface, LightingPlan, UsbOp};
use arch_sense::types::{ProfessionalColor, RgbMode};

#[test]
fn channel_scaling_examples() {
    assert_eq!(scale_channel(200, 50), 100);
    assert_eq!(scale_channel(200, 0), 0);
    assert_eq!(scale_channel(200, 100), 200);
    assert_eq!(scale_channel(255, 100), 255);
    assert_eq!(scale_channel(255, 150), 255);
    assert_eq!(scale_channel(10, 33), 3);
}

#[test]
fn supported_effects_list() {
    let names = KeyboardInterface::supported_effects();
    assert_eq!(
        names,
        &[
            "neon",
            "wave",
            "breath",
            "rainbow",
            "reactive",
            "ripple",
            "starlight",
            "rain",
            "fire",
            "aurora",
        ]
    );
}

#[test]
fn effect_payload_known_effects() {
    let p = KeyboardInterface::effect_payload("wave", 5, 80).unwrap();
    assert_eq!(p, [0x08, 0x02, 0x03, 0x01, 80, 5, 0x02, 0x9b]);
    let p = KeyboardInterface::effect_payload("neon", 1, 100).unwrap();
    assert_eq!(p, [0x08, 0x02, 0x08, 0x01, 100, 1, 0x01, 0x9b]);
    let p = KeyboardInterface::effect_payload("aurora", 10, 0).unwrap();
    assert_eq!(p, [0x08, 0x02, 0x0b, 0x01, 0, 10, 0x01, 0x9b]);
}

#[test]
fn effect_payload_unknown_effect_is_rejected() {
    assert!(KeyboardInterface::effect_payload("disco", 5, 80).is_err());
    // The payload lookup itself is exact-match; case folding happens in the
    // animation plan.
    assert!(KeyboardInterface::effect_payload("Wave", 5, 80).is_err());
}

fn control_bytes(op: &UsbOp) -> &Vec<u8> {
    match op {
        UsbOp::Control(v) => v,
        UsbOp::Interrupt(_) => panic!("expected a control packet"),
    }
}

fn interrupt_bytes(op: &UsbOp) -> &Vec<u8> {
    match op {
        UsbOp::Interrupt(v) => v,
        UsbOp::Control(_) => panic!("expected an interrupt chunk"),
    }
}

#[test]
fn animation_plan_packets_and_clamping() {
    let plan = KeyboardInterface::animation_plan("wave", 5, 80).unwrap();
    assert_eq!(plan.ops.len(), 2);
    assert_eq!(
        control_bytes(&plan.ops[0]),
        &vec![0xb1, 0x00, 0x00, 0x00, 0x00, 0x00, 0x00, 0x4e]
    );
    assert_eq!(
        control_bytes(&plan.ops[1]),
        &vec![0x08, 0x02, 0x03, 0x01, 80, 5, 0x02, 0x9b]
    );

    // Speed is pulled into 1..=10 and brightness clamped to 100.
    let plan = KeyboardInterface::animation_plan("neon", 0, 255).unwrap();
    assert_eq!(
        control_bytes(&plan.ops[1]),
        &vec![0x08, 0x02, 0x08, 0x01, 100, 1, 0x01, 0x9b]
    );
    let plan = KeyboardInterface::animation_plan("neon", 99, 50).unwrap();
    assert_eq!(
        control_bytes(&plan.ops[1]),
        &vec![0x08, 0x02, 0x08, 0x01, 50, 10, 0x01, 0x9b]
    );
}

#[test]
fn animation_plan_matches_case_insensitively() {
    let plan = KeyboardInterface::animation_plan("WAVE", 5, 80).unwrap();
    assert_eq!(
        control_bytes(&plan.ops[1]),
        &vec![0x08, 0x02, 0x03, 0x01, 80, 5, 0x02, 0x9b]
    );
    assert!(KeyboardInterface::animation_plan("no-such-effect", 5, 80).is_err());
}

fn check_color_plan(plan: &LightingPlan, sr: u8, sg: u8, sb: u8) {
    assert_eq!(plan.ops.len(), 18);
    assert_eq!(
        control_bytes(&plan.ops[0]),
        &vec![0x12, 0x00, 0x00, 0x08, 0x00, 0x00, 0x00, 0xe5]
    );
    for k in 1..=16 {
        let chunk = interrupt_bytes(&plan.ops[k]);
        assert_eq!(chunk.len(), 64);
        for rec in chunk.chunks(4) {
            assert_eq!(rec, &[0, sr, sg, sb]);
        }
    }
    assert_eq!(
        control_bytes(&plan.ops[17]),
        &vec![0x08, 0x02, 0x33, 0x05, 0x32, 0x08, 0x01, 0x82]
    );
}

#[test]
fn color_plan_layout_and_scaling() {
    // Channel 200 at brightness 50 is written as 100 in every zone record.
    let plan = KeyboardInterface::color_plan(200, 100, 0, 50);
    check_color_plan(&plan, 100, 50, 0);
    // Full brightness passes the channels through unchanged.
    let plan = KeyboardInterface::color_plan(255, 150, 0, 100);
    check_color_plan(&plan, 255, 150, 0);
}

#[test]
fn mode_plan_dispatches_by_mode() {
    let plan = KeyboardInterface::mode_plan(&RgbMode::Solid(ProfessionalColor::NightShiftRed), 100, 5);
    check_color_plan(&plan, 255, 0, 0);

    let plan = KeyboardInterface::mode_plan(&RgbMode::Wave, 80, 5);
    assert_eq!(plan.ops.len(), 2);
    assert_eq!(
        control_bytes(&plan.ops[1]),
        &vec![0x08, 0x02, 0x03, 0x01, 80, 5, 0x02, 0x9b]
    );

    let plan = KeyboardInterface::mode_plan(&RgbMode::Neon, 80, 5);
    assert_eq!(
        control_bytes(&plan.ops[1]),
        &vec![0x08, 0x02, 0x08, 0x01, 80, 5, 0x01, 0x9b]
    );
}

#[test]
fn palette_colors() {
    assert_eq!(ProfessionalColor::ArcticWhite.rgb(), (255, 255, 255));
    assert_eq!(ProfessionalColor::ArchCyan.rgb(), (0, 150, 255));
    assert_eq!(ProfessionalColor::NightShiftRed.rgb(), (255, 0, 0));
    assert_eq!(ProfessionalColor::EyeCareAmber.rgb(), (255, 150, 0));
}
