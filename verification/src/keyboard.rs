//! Keyboard-lighting driver, pure half: the vendor HID packet protocol.
//! These functions compute the exact, ordered sequence of USB transfers a
//! lighting change requires; the surrounding process claims the interface,
//! performs the transfers in order, and releases the claim on every exit
//! path.

use vstd::prelude::*;
use vstd::string::*;

use vstd::arithmetic::div_mod::{
    lemma_div_is_ordered, lemma_div_multiples_vanish, lemma_div_pos_is_pos,
};
use vstd::arithmetic::mul::{lemma_mul_inequality, lemma_mul_nonnegative};

use crate::hardware::{clamp100, spec_clamp100};
use crate::text::{lemma_lower_id, lower_seq, str_eq, str_eq_ci};
use crate::types::{ProfessionalColor, RgbMode};

verus! {

broadcast use vstd::string::group_string_axioms;

/// Namespace for the lighting protocol's pure logic, mirroring the daemon's
/// keyboard interface.
pub struct KeyboardInterface;

/// One USB transfer of a lighting sequence: an 8-byte control packet or a
/// 64-byte interrupt chunk.
#[derive(Debug, Clone, PartialEq)]
pub enum UsbOp {
    Control(Vec<u8>),
    Interrupt(Vec<u8>),
}

/// The full, ordered transfer sequence for one lighting change.
#[derive(Debug, Clone, PartialEq)]
pub struct LightingPlan {
    pub ops: Vec<UsbOp>,
}

/// Scale one colour channel by a brightness percentage (clamped to 100).
pub open spec fn spec_scale_channel(value: u8, brightness: u8) -> int {
    (value * spec_clamp100(brightness)) / 100
}

/// Channel scaling: full brightness returns the value unchanged, zero
/// brightness extinguishes it.
pub fn scale_channel(value: u8, brightness: u8) -> (r: u8)
    ensures
        r as int == spec_scale_channel(value, brightness),
        brightness >= 100 ==> r == value,
        brightness == 0 ==> r == 0,
{
    let level = clamp100(brightness);
    proof {
        let v = value as int;
        let l = level as int;
        assert(v * l <= 25500) by (nonlinear_arith)
            requires
                0 <= v <= 255,
                0 <= l <= 100,
        ;
        lemma_mul_nonnegative(v, l);
        lemma_div_pos_is_pos(v * l, 100);
        lemma_mul_inequality(l, 100, v);
        assert(v * l == l * v) by (nonlinear_arith);
        lemma_div_is_ordered(v * l, 100 * v, 100);
        lemma_div_multiples_vanish(v, 100);
        if level == 0 {
            assert(v * l == 0) by (nonlinear_arith)
                requires
                    l == 0,
            ;
            assert(0int / 100 == 0);
        }
    }
    ((value as u16 * level as u16) / 100) as u8
}

/// The 8-byte initialization packet of the colour subsystem.
pub open spec fn spec_color_init() -> Seq<u8> {
    seq![0x12u8, 0x00u8, 0x00u8, 0x08u8, 0x00u8, 0x00u8, 0x00u8, 0xe5u8]
}

/// The 8-byte commit packet that applies a streamed colour buffer.
pub open spec fn spec_color_apply() -> Seq<u8> {
    seq![0x08u8, 0x02u8, 0x33u8, 0x05u8, 0x32u8, 0x08u8, 0x01u8, 0x82u8]
}

/// The 8-byte initialization packet of the animation subsystem.
pub open spec fn spec_anim_init() -> Seq<u8> {
    seq![0xb1u8, 0x00u8, 0x00u8, 0x00u8, 0x00u8, 0x00u8, 0x00u8, 0x4eu8]
}

/// The 8-byte apply packet of an animation: effect opcode, brightness and
/// speed as given, direction code, and the fixed frame bytes.
pub open spec fn spec_effect_packet(code: (u8, u8), speed: u8, brightness: u8) -> Seq<u8> {
    seq![0x08u8, 0x02u8, code.0, 0x01u8, brightness, speed, code.1, 0x9bu8]
}

/// One 4-byte zone record of the colour buffer: a reserved byte, then the
/// scaled red, green and blue channels.
pub open spec fn spec_color_record(r: u8, g: u8, b: u8, brightness: u8) -> Seq<u8> {
    seq![
        0u8,
        spec_scale_channel(r, brightness) as u8,
        spec_scale_channel(g, brightness) as u8,
        spec_scale_channel(b, brightness) as u8,
    ]
}

/// A 64-byte interrupt chunk covering 16 zones, each carrying the same
/// scaled colour record.
pub open spec fn is_color_chunk(op: UsbOp, r: u8, g: u8, b: u8, brightness: u8) -> bool {
    &&& op matches UsbOp::Interrupt(v) && v@.len() == 64 && (forall|j: int|
        0 <= j < 16 ==> #[trigger] v@.subrange(4 * j, 4 * j + 4) == spec_color_record(
            r,
            g,
            b,
            brightness,
        ))
}

/// The full solid-colour sequence: initialization, the colour buffer
/// streamed as 16 chunks, then the commit packet.
pub open spec fn is_color_plan(ops: Seq<UsbOp>, r: u8, g: u8, b: u8, brightness: u8) -> bool {
    &&& ops.len() == 18
    &&& ops[0] matches UsbOp::Control(v) && v@ == spec_color_init()
    &&& forall|k: int| 1 <= k <= 16 ==> is_color_chunk(#[trigger] ops[k], r, g, b, brightness)
    &&& ops[17] matches UsbOp::Control(v) && v@ == spec_color_apply()
}

/// The full animation sequence: its own initialization packet, then the
/// effect apply packet.
pub open spec fn is_animation_plan(ops: Seq<UsbOp>, code: (u8, u8), speed: u8, brightness: u8) -> bool {
    &&& ops.len() == 2
    &&& ops[0] matches UsbOp::Control(v) && v@ == spec_anim_init()
    &&& ops[1] matches UsbOp::Control(v) && v@ == spec_effect_packet(code, speed, brightness)
}

/// The transfer sequence a structured lighting mode calls for: a palette
/// colour paints the zones, the named animations map to their fixed
/// opcodes.
pub open spec fn is_mode_plan(ops: Seq<UsbOp>, mode: RgbMode, brightness: u8, speed: u8) -> bool {
    match mode {
        RgbMode::Solid(c) => is_color_plan(
            ops,
            c.spec_rgb().0,
            c.spec_rgb().1,
            c.spec_rgb().2,
            brightness,
        ),
        RgbMode::Wave => is_animation_plan(
            ops,
            (0x03u8, 0x02u8),
            spec_clamp_speed(speed),
            spec_clamp100(brightness),
        ),
        RgbMode::Neon => is_animation_plan(
            ops,
            (0x08u8, 0x01u8),
            spec_clamp_speed(speed),
            spec_clamp100(brightness),
        ),
    }
}

/// Animation speed pulled into the 1..=10 scale the packet carries.
pub open spec fn spec_clamp_speed(speed: u8) -> u8 {
    if speed < 1 {
        1
    } else if speed > 10 {
        10
    } else {
        speed
    }
}

fn clamp_speed(speed: u8) -> (r: u8)
    ensures
        r == spec_clamp_speed(speed),
{
    if speed < 1 {
        1
    } else if speed > 10 {
        10
    } else {
        speed
    }
}

/// Effect opcode and direction code, by (lowercase) effect name.
pub open spec fn spec_effect_code(name: Seq<char>) -> Option<(u8, u8)> {
    if name == "neon"@ {
        Some((0x08u8, 0x01u8))
    } else if name == "wave"@ {
        Some((0x03u8, 0x02u8))
    } else if name == "breath"@ {
        Some((0x02u8, 0x01u8))
    } else if name == "rainbow"@ {
        Some((0x04u8, 0x01u8))
    } else if name == "reactive"@ {
        Some((0x05u8, 0x01u8))
    } else if name == "ripple"@ {
        Some((0x06u8, 0x01u8))
    } else if name == "starlight"@ {
        Some((0x07u8, 0x01u8))
    } else if name == "rain"@ {
        Some((0x09u8, 0x01u8))
    } else if name == "fire"@ {
        Some((0x0au8, 0x01u8))
    } else if name == "aurora"@ {
        Some((0x0bu8, 0x01u8))
    } else {
        None
    }
}

impl KeyboardInterface {
    /// The animation names the device accepts.
    pub fn supported_effects() -> (names: &'static [&'static str])
        ensures
            names@.len() == 10,
            names@[0]@ == "neon"@,
            names@[1]@ == "wave"@,
            names@[2]@ == "breath"@,
            names@[3]@ == "rainbow"@,
            names@[4]@ == "reactive"@,
            names@[5]@ == "ripple"@,
            names@[6]@ == "starlight"@,
            names@[7]@ == "rain"@,
            names@[8]@ == "fire"@,
            names@[9]@ == "aurora"@,
    {
        &[
            "neon",
            "wave",
            "breath",
            "rainbow",
            "reactive",
            "ripple",
            "starlight",
            "rain",
            "fire",
            "aurora",
        ]
    }

    /// Look an effect name up exactly (the caller has normalised case).
    fn effect_code(effect: &str) -> (r: Option<(u8, u8)>)
        ensures
            r == spec_effect_code(effect@),
    {
        if str_eq(effect, "neon") {
            Some((0x08, 0x01))
        } else if str_eq(effect, "wave") {
            Some((0x03, 0x02))
        } else if str_eq(effect, "breath") {
            Some((0x02, 0x01))
        } else if str_eq(effect, "rainbow") {
            Some((0x04, 0x01))
        } else if str_eq(effect, "reactive") {
            Some((0x05, 0x01))
        } else if str_eq(effect, "ripple") {
            Some((0x06, 0x01))
        } else if str_eq(effect, "starlight") {
            Some((0x07, 0x01))
        } else if str_eq(effect, "rain") {
            Some((0x09, 0x01))
        } else if str_eq(effect, "fire") {
            Some((0x0a, 0x01))
        } else if str_eq(effect, "aurora") {
            Some((0x0b, 0x01))
        } else {
            None
        }
    }

    /// Look an effect name up case-insensitively, as requests arrive.
    fn effect_code_ci(effect: &str) -> (r: Option<(u8, u8)>)
        ensures
            r == spec_effect_code(lower_seq(effect@)),
    {
        proof {
            reveal_strlit("neon");
            reveal_strlit("wave");
            reveal_strlit("breath");
            reveal_strlit("rainbow");
            reveal_strlit("reactive");
            reveal_strlit("ripple");
            reveal_strlit("starlight");
            reveal_strlit("rain");
            reveal_strlit("fire");
            reveal_strlit("aurora");
            lemma_lower_id("neon"@);
            lemma_lower_id("wave"@);
            lemma_lower_id("breath"@);
            lemma_lower_id("rainbow"@);
            lemma_lower_id("reactive"@);
            lemma_lower_id("ripple"@);
            lemma_lower_id("starlight"@);
            lemma_lower_id("rain"@);
            lemma_lower_id("fire"@);
            lemma_lower_id("aurora"@);
        }
        if str_eq_ci(effect, "neon") {
            Some((0x08, 0x01))
        } else if str_eq_ci(effect, "wave") {
            Some((0x03, 0x02))
        } else if str_eq_ci(effect, "breath") {
            Some((0x02, 0x01))
        } else if str_eq_ci(effect, "rainbow") {
            Some((0x04, 0x01))
        } else if str_eq_ci(effect, "reactive") {
            Some((0x05, 0x01))
        } else if str_eq_ci(effect, "ripple") {
            Some((0x06, 0x01))
        } else if str_eq_ci(effect, "starlight") {
            Some((0x07, 0x01))
        } else if str_eq_ci(effect, "rain") {
            Some((0x09, 0x01))
        } else if str_eq_ci(effect, "fire") {
            Some((0x0a, 0x01))
        } else if str_eq_ci(effect, "aurora") {
            Some((0x0b, 0x01))
        } else {
            None
        }
    }

    /// The 8-byte animation apply packet for an (already normalised) effect
    /// name; unknown names are rejected before any transfer is attempted.
    pub fn effect_payload(effect: &str, speed: u8, brightness: u8) -> (r: Result<
        [u8; 8],
        String,
    >)
        ensures
            match r {
                Ok(p) => spec_effect_code(effect@) matches Some(code) && p@ == spec_effect_packet(
                    code,
                    speed,
                    brightness,
                ),
                Err(_) => spec_effect_code(effect@) is None,
            },
    {
        match Self::effect_code(effect) {
            Some((opcode, direction)) => {
                let p: [u8; 8] = [0x08, 0x02, opcode, 0x01, brightness, speed, direction, 0x9b];
                proof {
                    assert(p@ =~= spec_effect_packet((opcode, direction), speed, brightness));
                }
                Ok(p)
            },
            None => Err(String::from_str("unknown animation")),
        }
    }

    /// Build one 64-byte interrupt chunk of the colour buffer.
    fn color_chunk(r: u8, g: u8, b: u8, brightness: u8) -> (v: Vec<u8>)
        ensures
            v@.len() == 64,
            forall|j: int|
                0 <= j < 16 ==> #[trigger] v@.subrange(4 * j, 4 * j + 4) == spec_color_record(
                    r,
                    g,
                    b,
                    brightness,
                ),
    {
        let sr = scale_channel(r, brightness);
        let sg = scale_channel(g, brightness);
        let sb = scale_channel(b, brightness);
        let mut v: Vec<u8> = Vec::new();
        let mut k: usize = 0;
        while k < 16
            invariant
                0 <= k <= 16,
                v@.len() == 4 * k,
                sr as int == spec_scale_channel(r, brightness),
                sg as int == spec_scale_channel(g, brightness),
                sb as int == spec_scale_channel(b, brightness),
                forall|j: int|
                    0 <= j < k ==> #[trigger] v@.subrange(4 * j, 4 * j + 4) == spec_color_record(
                        r,
                        g,
                        b,
                        brightness,
                    ),
            decreases 16 - k,
        {
            let ghost pre = v@;
            v.push(0);
            v.push(sr);
            v.push(sg);
            v.push(sb);
            k = k + 1;
            proof {
                assert forall|j: int| 0 <= j < k implies #[trigger] v@.subrange(4 * j, 4 * j + 4)
                    == spec_color_record(r, g, b, brightness) by {
                    if j < k - 1 {
                        assert(v@.subrange(4 * j, 4 * j + 4) =~= pre.subrange(4 * j, 4 * j + 4));
                    } else {
                        assert(v@.subrange(4 * j, 4 * j + 4) =~= spec_color_record(
                            r,
                            g,
                            b,
                            brightness,
                        ));
                    }
                }
            }
        }
        v
    }

    /// Compute the transfer sequence that paints every zone one colour,
    /// scaled by the brightness percentage.
    pub fn color_plan(r: u8, g: u8, b: u8, brightness: u8) -> (plan: LightingPlan)
        ensures
            is_color_plan(plan.ops@, r, g, b, brightness),
    {
        let mut ops: Vec<UsbOp> = Vec::new();
        let init: Vec<u8> = vec![0x12, 0x00, 0x00, 0x08, 0x00, 0x00, 0x00, 0xe5];
        proof {
            assert(init@ =~= spec_color_init());
        }
        ops.push(UsbOp::Control(init));
        let mut k: usize = 0;
        while k < 16
            invariant
                0 <= k <= 16,
                ops@.len() == k + 1,
                ops@[0] matches UsbOp::Control(v) && v@ == spec_color_init(),
                forall|q: int| 1 <= q <= k ==> is_color_chunk(#[trigger] ops@[q], r, g, b, brightness),
            decreases 16 - k,
        {
            let chunk = Self::color_chunk(r, g, b, brightness);
            ops.push(UsbOp::Interrupt(chunk));
            k = k + 1;
        }
        let apply: Vec<u8> = vec![0x08, 0x02, 0x33, 0x05, 0x32, 0x08, 0x01, 0x82];
        proof {
            assert(apply@ =~= spec_color_apply());
        }
        ops.push(UsbOp::Control(apply));
        LightingPlan { ops }
    }

    /// Assemble the two control packets an animation takes.
    fn animation_packets(code: (u8, u8), speed: u8, brightness: u8) -> (plan: LightingPlan)
        ensures
            is_animation_plan(plan.ops@, code, speed, brightness),
    {
        let init: Vec<u8> = vec![0xb1, 0x00, 0x00, 0x00, 0x00, 0x00, 0x00, 0x4e];
        proof {
            assert(init@ =~= spec_anim_init());
        }
        let pkt: Vec<u8> = vec![0x08, 0x02, code.0, 0x01, brightness, speed, code.1, 0x9b];
        proof {
            assert(pkt@ =~= spec_effect_packet(code, speed, brightness));
        }
        let mut ops: Vec<UsbOp> = Vec::new();
        ops.push(UsbOp::Control(init));
        ops.push(UsbOp::Control(pkt));
        LightingPlan { ops }
    }

    /// Compute the transfer sequence for a named animation: the name is
    /// matched case-insensitively, the speed pulled into its 1..=10 scale
    /// and the brightness clamped; an unsupported name is rejected before
    /// any transfer is attempted.
    pub fn animation_plan(effect: &str, speed: u8, brightness: u8) -> (r: Result<
        LightingPlan,
        String,
    >)
        ensures
            match r {
                Ok(plan) => spec_effect_code(lower_seq(effect@)) matches Some(code)
                    && is_animation_plan(
                    plan.ops@,
                    code,
                    spec_clamp_speed(speed),
                    spec_clamp100(brightness),
                ),
                Err(_) => spec_effect_code(lower_seq(effect@)) is None,
            },
    {
        match Self::effect_code_ci(effect) {
            Some(code) => Ok(Self::animation_packets(code, clamp_speed(speed), clamp100(brightness))),
            None => Err(String::from_str("unknown animation")),
        }
    }

    /// Compute the transfer sequence for a structured lighting mode: a
    /// palette colour paints the zones, the named animations map to their
    /// fixed opcodes.
    pub fn mode_plan(mode: &RgbMode, brightness: u8, speed: u8) -> (plan: LightingPlan)
        ensures
            is_mode_plan(plan.ops@, *mode, brightness, speed),
    {
        match mode {
            RgbMode::Solid(c) => {
                let (r, g, b) = c.rgb();
                Self::color_plan(r, g, b, brightness)
            },
            RgbMode::Wave => Self::animation_packets(
                (0x03, 0x02),
                clamp_speed(speed),
                clamp100(brightness),
            ),
            RgbMode::Neon => Self::animation_packets(
                (0x08, 0x01),
                clamp_speed(speed),
                clamp100(brightness),
            ),
        }
    }
}

} // verus!
