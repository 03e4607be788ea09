//! Hardware abstraction layer, pure half: typed parsing and validation of
//! the textual attribute files, and encoding of the values written back.
//! The surrounding process does the actual file reads and writes (probing
//! the candidate base paths) and hands the raw text to these functions.

use vstd::prelude::*;
use vstd::string::*;

use crate::text::{
    dec_chars, dec_parse_ok, dec_val, digits_of, find, find_char, is_space, is_space_char,
    lemma_trim_back_by_skip, lemma_trim_front_by_skip, parse_u32_str, parse_u8_str, str_eq, trim,
    trim_back_by, trim_front_by, trimmed, u8_to_dec,
};
use crate::types::FanMode;

verus! {

broadcast use vstd::string::group_string_axioms;

/// Clamp a percentage to the 0..=100 range.
pub open spec fn spec_clamp100(v: u8) -> u8 {
    if v > 100 {
        100
    } else {
        v
    }
}

pub fn clamp100(v: u8) -> (r: u8)
    ensures
        r == spec_clamp100(v),
{
    if v > 100 {
        100
    } else {
        v
    }
}

/// Attribute files the daemon reads or writes, named after the kernel
/// module's attribute tree.
#[derive(Debug, Clone, Copy, PartialEq, Eq, Structural)]
pub enum HwAttr {
    FanSpeed,
    BacklightTimeout,
    BatteryCalibration,
    BatteryLimiter,
    BootAnimationSound,
    LcdOverride,
    UsbCharging,
    PlatformProfile,
}

impl HwAttr {
    /// File name of the attribute. All but `PlatformProfile` live under the
    /// probed module base paths; `PlatformProfile` is the firmware-global
    /// profile file. Resolving names to full paths is the caller's concern.
    pub open spec fn spec_file_name(&self) -> Seq<char> {
        match self {
            HwAttr::FanSpeed => "fan_speed"@,
            HwAttr::BacklightTimeout => "backlight_timeout"@,
            HwAttr::BatteryCalibration => "battery_calibration"@,
            HwAttr::BatteryLimiter => "battery_limiter"@,
            HwAttr::BootAnimationSound => "boot_animation_sound"@,
            HwAttr::LcdOverride => "lcd_override"@,
            HwAttr::UsbCharging => "usb_charging"@,
            HwAttr::PlatformProfile => "platform_profile"@,
        }
    }

    pub fn file_name(&self) -> (name: &'static str)
        ensures
            name@ == self.spec_file_name(),
    {
        match self {
            HwAttr::FanSpeed => "fan_speed",
            HwAttr::BacklightTimeout => "backlight_timeout",
            HwAttr::BatteryCalibration => "battery_calibration",
            HwAttr::BatteryLimiter => "battery_limiter",
            HwAttr::BootAnimationSound => "boot_animation_sound",
            HwAttr::LcdOverride => "lcd_override",
            HwAttr::UsbCharging => "usb_charging",
            HwAttr::PlatformProfile => "platform_profile",
        }
    }
}

/// One pending attribute write: which file, and the exact text to write.
#[derive(Debug, Clone, PartialEq)]
pub struct HwWrite {
    pub attr: HwAttr,
    pub value: String,
}

/// Namespace for the typed accessors' pure logic, mirroring the daemon's
/// hardware interface.
pub struct HardwareInterface;

/// `"0"` or `"1"`, after trimming; anything else is rejected rather than
/// coerced.
pub open spec fn spec_parse_bool_01(s: Seq<char>) -> Option<bool> {
    if trimmed(s) == seq!['0'] {
        Some(false)
    } else if trimmed(s) == seq!['1'] {
        Some(true)
    } else {
        None
    }
}

/// Parse a boolean attribute: exactly `"0"` or `"1"` (modulo surrounding
/// blanks).
pub fn parse_bool_01(raw: &str) -> (r: Option<bool>)
    ensures
        r == spec_parse_bool_01(raw@),
{
    let t = trim(raw);
    proof {
        reveal_strlit("0");
        reveal_strlit("1");
        assert("0"@ =~= seq!['0']);
        assert("1"@ =~= seq!['1']);
    }
    if str_eq(t, "0") {
        Some(false)
    } else if str_eq(t, "1") {
        Some(true)
    } else {
        None
    }
}

/// Duty pair a fan mode stands for, each side clamped to 0..=100.
pub open spec fn spec_fan_duties(m: FanMode) -> (u8, u8) {
    match m {
        FanMode::Auto => (0, 0),
        FanMode::Quiet => (30, 30),
        FanMode::Balanced => (50, 50),
        FanMode::Performance => (70, 70),
        FanMode::Turbo => (100, 100),
        FanMode::Custom(cpu, gpu) => (spec_clamp100(cpu), spec_clamp100(gpu)),
    }
}

/// Rendering of a duty pair as the `fan_speed` attribute expects it.
pub open spec fn spec_fan_pair_text(cpu: u8, gpu: u8) -> Seq<char> {
    dec_chars(cpu as int) + seq![','] + dec_chars(gpu as int)
}

/// Parse of the `fan_speed` attribute: a `"cpu,gpu"` pair, both sides
/// decimal, each clamped to 0..=100.
pub open spec fn spec_parse_fan_pair(s: Seq<char>) -> Option<(u8, u8)> {
    let i = find_char(s, ',');
    if i < 0 {
        None
    } else {
        let l = trimmed(s.subrange(0, i));
        let r = trimmed(s.subrange(i + 1, s.len() as int));
        if dec_parse_ok(l, 255) && dec_parse_ok(r, 255) {
            Some(
                (
                    spec_clamp100(dec_val(digits_of(l)) as u8),
                    spec_clamp100(dec_val(digits_of(r)) as u8),
                ),
            )
        } else {
            None
        }
    }
}

/// Milli-degrees to whole degrees, wrapped into a byte as the status
/// protocol carries it.
pub open spec fn spec_cpu_temp_of(s: Seq<char>) -> Option<u8> {
    let t = trimmed(s);
    if dec_parse_ok(t, u32::MAX as int) {
        Some(((dec_val(digits_of(t)) / 1000) % 256) as u8)
    } else {
        None
    }
}

/// Parse the diagnostic tool's single-line temperature output.
pub open spec fn spec_gpu_temp_of(s: Seq<char>) -> Option<u8> {
    let t = trimmed(s);
    if dec_parse_ok(t, 255) {
        Some(dec_val(digits_of(t)) as u8)
    } else {
        None
    }
}

/// The fixed set of USB-charge-while-off thresholds the hardware accepts.
pub open spec fn usb_threshold_ok(t: u8) -> bool {
    t == 0 || t == 10 || t == 20 || t == 30
}

pub fn is_usb_threshold(t: u8) -> (b: bool)
    ensures
        b == usb_threshold_ok(t),
{
    t == 0 || t == 10 || t == 20 || t == 30
}

/// Next threshold in the cycle a client steps through.
pub open spec fn spec_next_usb_threshold(current: u8) -> u8 {
    if current == 0 {
        10
    } else if current == 10 {
        20
    } else if current == 20 {
        30
    } else {
        0
    }
}

pub fn next_usb_threshold(current: u8) -> (next: u8)
    ensures
        next == spec_next_usb_threshold(current),
        usb_threshold_ok(next),
{
    if current == 0 {
        10
    } else if current == 10 {
        20
    } else if current == 20 {
        30
    } else {
        0
    }
}

/// Parse of the `usb_charging` attribute: a decimal that must be one of
/// the supported thresholds.
pub open spec fn spec_parse_usb_charging(s: Seq<char>) -> Option<u8> {
    let t = trimmed(s);
    if dec_parse_ok(t, 255) && usb_threshold_ok(dec_val(digits_of(t)) as u8) {
        Some(dec_val(digits_of(t)) as u8)
    } else {
        None
    }
}

/// Length of the maximal non-blank prefix.
pub open spec fn token_len(s: Seq<char>) -> int
    decreases s.len(),
{
    if s.len() == 0 || is_space_char(s[0]) {
        0
    } else {
        1 + token_len(s.drop_first())
    }
}

proof fn lemma_token_len_bounds(s: Seq<char>)
    ensures
        0 <= token_len(s) <= s.len(),
    decreases s.len(),
{
    if s.len() > 0 && !is_space_char(s[0]) {
        lemma_token_len_bounds(s.drop_first());
    }
}

proof fn lemma_token_len_exact(s: Seq<char>, k: int)
    requires
        0 <= k <= s.len(),
        forall|m: int| 0 <= m < k ==> !is_space_char(#[trigger] s[m]),
        k == s.len() || is_space_char(s[k]),
    ensures
        token_len(s) == k,
    decreases k,
{
    if k > 0 {
        let t = s.drop_first();
        assert(forall|m: int| 0 <= m < k - 1 ==> !is_space_char(#[trigger] t[m]));
        lemma_token_len_exact(t, k - 1);
    }
}

/// A choice token with the active-choice bracket marks removed.
pub open spec fn strip_brackets(t: Seq<char>) -> Seq<char> {
    trim_back_by(trim_front_by(t, |c: char| c == '['), |c: char| c == ']')
}

/// The thermal-profile choice list: blank-separated tokens, bracket marks
/// stripped, empties dropped.
pub open spec fn choices_of(s: Seq<char>) -> Seq<Seq<char>>
    decreases s.len(),
    via choices_of_dec
{
    if s.len() == 0 {
        seq![]
    } else if is_space_char(s[0]) {
        choices_of(s.drop_first())
    } else {
        let t = token_len(s);
        let tok = strip_brackets(s.subrange(0, t));
        let rest = choices_of(s.subrange(t, s.len() as int));
        if tok.len() > 0 {
            seq![tok] + rest
        } else {
            rest
        }
    }
}

#[via_fn]
proof fn choices_of_dec(s: Seq<char>) {
    if s.len() > 0 && !is_space_char(s[0]) {
        lemma_token_len_bounds(s.drop_first());
        lemma_token_len_bounds(s);
    }
}

/// Whether some choice in the live-read list equals `s`.
pub open spec fn contains_choice(choices: Seq<String>, s: Seq<char>) -> bool {
    exists|q: int| 0 <= q < choices.len() && #[trigger] choices[q]@ == s
}

impl HardwareInterface {
    /// Text written to a boolean attribute.
    pub fn bool_attr_value(enable: bool) -> (v: String)
        ensures
            enable ==> v@ == "1\n"@,
            !enable ==> v@ == "0\n"@,
    {
        if enable {
            String::from_str("1\n")
        } else {
            String::from_str("0\n")
        }
    }

    /// Text written to the `fan_speed` attribute for a fan mode.
    pub fn fan_mode_value(mode: &FanMode) -> (v: String)
        ensures
            v@ == spec_fan_pair_text(spec_fan_duties(*mode).0, spec_fan_duties(*mode).1),
    {
        let (cpu, gpu): (u8, u8) = match mode {
            FanMode::Auto => (0, 0),
            FanMode::Quiet => (30, 30),
            FanMode::Balanced => (50, 50),
            FanMode::Performance => (70, 70),
            FanMode::Turbo => (100, 100),
            FanMode::Custom(c, g) => (clamp100(*c), clamp100(*g)),
        };
        let mut v = u8_to_dec(cpu);
        v.append(",");
        let g = u8_to_dec(gpu);
        v.append(g.as_str());
        proof {
            reveal_strlit(",");
            assert(","@ =~= seq![',']);
        }
        v
    }

    /// Parse the `fan_speed` attribute text into a clamped duty pair.
    pub fn parse_fan_speed(raw: &str) -> (r: Result<(u8, u8), String>)
        ensures
            match r {
                Ok(p) => spec_parse_fan_pair(raw@) == Some(p),
                Err(_) => spec_parse_fan_pair(raw@) is None,
            },
    {
        let n = raw.unicode_len();
        match find(raw, ',') {
            None => Err(String::from_str("invalid fan_speed format: missing comma")),
            Some(i) => {
                let left = raw.substring_char(0, i);
                let right = raw.substring_char(i + 1, n);
                let lt = trim(left);
                let rt = trim(right);
                match (parse_u8_str(lt), parse_u8_str(rt)) {
                    (Some(cv), Some(gv)) => Ok((clamp100(cv), clamp100(gv))),
                    _ => Err(String::from_str("invalid fan_speed value")),
                }
            },
        }
    }

    /// Parse the thermal-zone reading (milli-degrees) into whole degrees.
    pub fn parse_cpu_temp(raw: &str) -> (r: Result<u8, String>)
        ensures
            match r {
                Ok(v) => spec_cpu_temp_of(raw@) == Some(v),
                Err(_) => spec_cpu_temp_of(raw@) is None,
            },
    {
        let t = trim(raw);
        match parse_u32_str(t) {
            Some(milli) => Ok(((milli / 1000) % 256) as u8),
            None => Err(String::from_str("invalid CPU temperature value")),
        }
    }

    pub fn parse_gpu_temp(raw: &str) -> (r: Result<u8, String>)
        ensures
            match r {
                Ok(v) => spec_gpu_temp_of(raw@) == Some(v),
                Err(_) => spec_gpu_temp_of(raw@) is None,
            },
    {
        let t = trim(raw);
        match parse_u8_str(t) {
            Some(v) => Ok(v),
            None => Err(String::from_str("invalid GPU temperature output")),
        }
    }

    pub fn parse_usb_charging(raw: &str) -> (r: Result<u8, String>)
        ensures
            match r {
                Ok(v) => spec_parse_usb_charging(raw@) == Some(v),
                Err(_) => spec_parse_usb_charging(raw@) is None,
            },
    {
        let t = trim(raw);
        match parse_u8_str(t) {
            Some(v) => {
                if is_usb_threshold(v) {
                    Ok(v)
                } else {
                    Err(String::from_str("unsupported usb_charging value"))
                }
            },
            None => Err(String::from_str("invalid usb_charging value")),
        }
    }

    /// Text written to the `usb_charging` attribute; rejected locally when the
    /// threshold is not one the hardware accepts.
    pub fn usb_charging_value(threshold: u8) -> (r: Result<String, String>)
        ensures
            match r {
                Ok(v) => usb_threshold_ok(threshold) && v@ == dec_chars(threshold as int).push('\n'),
                Err(_) => !usb_threshold_ok(threshold),
            },
    {
        if !is_usb_threshold(threshold) {
            return Err(String::from_str("USB threshold must be one of 0, 10, 20, 30"));
        }
        let mut v = u8_to_dec(threshold);
        v.append("\n");
        proof {
            reveal_strlit("\n");
            assert("\n"@ =~= seq!['\n']);
            assert(v@ =~= dec_chars(threshold as int).push('\n'));
        }
        Ok(v)
    }

    /// Parse the `platform_profile_choices` text into the list of profiles.
    pub fn parse_thermal_choices(raw: &str) -> (out: Vec<String>)
        ensures
            out@.map_values(|x: String| x@) == choices_of(raw@),
    {
        let n = raw.unicode_len();
        let mut out: Vec<String> = Vec::new();
        proof {
            assert(raw@.subrange(0, n as int) =~= raw@);
            assert(out@.map_values(|x: String| x@) =~= Seq::<Seq<char>>::empty());
            assert(Seq::<Seq<char>>::empty() + choices_of(raw@) =~= choices_of(raw@));
        }
        let mut i: usize = 0;
        while i < n
            invariant
                0 <= i <= n,
                n == raw@.len(),
                choices_of(raw@) == out@.map_values(|x: String| x@) + choices_of(
                    raw@.subrange(i as int, n as int),
                ),
            decreases n - i,
        {
            let ghost pre_map = out@.map_values(|x: String| x@);
            if is_space(raw.get_char(i)) {
                proof {
                    let t = raw@.subrange(i as int, n as int);
                    assert(t.drop_first() =~= raw@.subrange(i + 1, n as int));
                }
                i = i + 1;
            } else {
                let mut j: usize = i + 1;
                while j < n && !is_space(raw.get_char(j))
                    invariant
                        i < j <= n,
                        n == raw@.len(),
                        forall|m: int| i <= m < j ==> !is_space_char(#[trigger] raw@[m]),
                    decreases n - j,
                {
                    j = j + 1;
                }
                let mut a: usize = i;
                while a < j && raw.get_char(a) == '['
                    invariant
                        i <= a <= j <= n,
                        n == raw@.len(),
                        forall|m: int| i <= m < a ==> #[trigger] raw@[m] == '[',
                    decreases j - a,
                {
                    a = a + 1;
                }
                let mut b: usize = j;
                while b > a && raw.get_char(b - 1) == ']'
                    invariant
                        a <= b <= j <= n,
                        n == raw@.len(),
                        forall|m: int| b <= m < j ==> #[trigger] raw@[m] == ']',
                    decreases b,
                {
                    b = b - 1;
                }
                proof {
                    let t = raw@.subrange(i as int, n as int);
                    lemma_token_len_exact(t, j - i);
                    let whole_tok = raw@.subrange(i as int, j as int);
                    assert(t.subrange(0, j - i) =~= whole_tok);
                    assert(t.subrange(j - i, t.len() as int) =~= raw@.subrange(j as int, n as int));
                    // bracket stripping lands exactly on [a, b)
                    let popen = |c: char| c == '[';
                    let pclose = |c: char| c == ']';
                    lemma_trim_front_by_skip(whole_tok, popen, a - i);
                    assert(whole_tok.subrange(a - i, whole_tok.len() as int) =~= raw@.subrange(
                        a as int,
                        j as int,
                    ));
                    let after_open = raw@.subrange(a as int, j as int);
                    lemma_trim_back_by_skip(after_open, pclose, b - a);
                    assert(after_open.subrange(0, b - a) =~= raw@.subrange(a as int, b as int));
                    assert(strip_brackets(whole_tok) == raw@.subrange(a as int, b as int));
                }
                if a < b {
                    let tok = raw.substring_char(a, b);
                    let owned = String::from_str(tok);
                    out.push(owned);
                    proof {
                        let f = |x: String| x@;
                        assert(out@.map_values(f) =~= pre_map.push(raw@.subrange(a as int, b as int)));
                        assert(choices_of(raw@) =~= out@.map_values(f) + choices_of(
                            raw@.subrange(j as int, n as int),
                        ));
                    }
                } else {
                    proof {
                        assert(raw@.subrange(a as int, b as int).len() == 0);
                    }
                }
                i = j;
            }
        }
        proof {
            assert(raw@.subrange(i as int, n as int).len() == 0);
            assert(out@.map_values(|x: String| x@) + choices_of(raw@.subrange(i as int, n as int))
                =~= out@.map_values(|x: String| x@));
        }
        out
    }

    /// Validate a requested thermal profile against the live choice list and
    /// produce the text to write. Rejected locally — without touching hardware
    /// — when blank or unsupported.
    pub fn validate_thermal_profile(profile: &str, choices: &Vec<String>) -> (r: Result<String, String>)
        ensures
            match r {
                Ok(v) => trimmed(profile@).len() > 0 && contains_choice(choices@, trimmed(profile@))
                    && v@ == trimmed(profile@).push('\n'),
                Err(_) => trimmed(profile@).len() == 0 || !contains_choice(
                    choices@,
                    trimmed(profile@),
                ),
            },
    {
        let t = trim(profile);
        if t.unicode_len() == 0 {
            return Err(String::from_str("Thermal profile must not be empty"));
        }
        let m = choices.len();
        let mut k: usize = 0;
        while k < m
            invariant
                0 <= k <= m,
                m == choices@.len(),
                t@ == trimmed(profile@),
                t@.len() > 0,
                forall|q: int| 0 <= q < k ==> #[trigger] choices@[q]@ != trimmed(profile@),
            decreases m - k,
        {
            if str_eq(t, choices[k].as_str()) {
                proof {
                    assert(choices@[k as int]@ == trimmed(profile@));
                    assert(contains_choice(choices@, trimmed(profile@)));
                }
                let mut v = String::from_str(t);
                v.append("\n");
                proof {
                    reveal_strlit("\n");
                    assert("\n"@ =~= seq!['\n']);
                    assert(v@ =~= trimmed(profile@).push('\n'));
                }
                return Ok(v);
            }
            k = k + 1;
        }
        Err(String::from_str("unsupported thermal profile"))
    }
}

} // verus!
