//! Display helpers for the GUI: names of device types, modes and roles,
//! and summary values of a group's status.

use vstd::prelude::*;

use crate::rgb::RgbMode;
use crate::scheduler::{FanRole, ScheduleAction, ScheduleEntry};
use crate::model::Sensor;
use crate::show::Playback;
use crate::text::{chars_of, ci_fingerprint, contains_text, fingerprint_of, lowercase, occurs_in, same_text, to_lower};
use vstd::string::StringExecFns;

verus! {

/// Kind of device a group is.
#[derive(Clone, Copy, Debug, PartialEq, Eq, Structural)]
pub enum DeviceType {
    SlWireless,
    SlLcdWireless,
    SlInfWireless,
    ClWireless,
    TlWireless,
    TlLcdWireless,
    SlV2,
    P28,
    Rl120,
    HydroShift,
    HydroShiftII,
    GalahadIiLcd,
    GalahadIiTrinity,
    V150,
    StrimerWireless,
    StrimerPlusV2,
    SideArgbKit,
    WaterBlock,
    WaterBlock2,
    Led88,
    Ga2,
    Lc217,
    OpenRgb,
    Aura,
    Unknown,
}

/// Display name of a device type.
pub open spec fn device_type_name(dt: DeviceType) -> &'static str {
    match dt {
        DeviceType::SlWireless => "SL Wireless",
        DeviceType::SlLcdWireless => "SL LCD Wireless",
        DeviceType::SlInfWireless => "SL INF Wireless",
        DeviceType::ClWireless => "CL Wireless",
        DeviceType::TlWireless => "TL Wireless",
        DeviceType::TlLcdWireless => "TL LCD Wireless",
        DeviceType::SlV2 => "SL V2",
        DeviceType::P28 => "P28",
        DeviceType::Rl120 => "RL120",
        DeviceType::HydroShift => "HydroShift",
        DeviceType::HydroShiftII => "HydroShift II",
        DeviceType::GalahadIiLcd => "Galahad II LCD",
        DeviceType::GalahadIiTrinity => "Galahad II Trinity",
        DeviceType::V150 => "V150",
        DeviceType::StrimerWireless => "Strimer Wireless",
        DeviceType::StrimerPlusV2 => "Strimer Plus V2",
        DeviceType::SideArgbKit => "Side ARGB Kit",
        DeviceType::WaterBlock => "Water Block",
        DeviceType::WaterBlock2 => "Water Block 2",
        DeviceType::Led88 => "LED 88",
        DeviceType::Ga2 => "GA II",
        DeviceType::Lc217 => "LC217",
        DeviceType::OpenRgb => "OpenRGB",
        DeviceType::Aura => "Aura",
        DeviceType::Unknown => "Unknown",
    }
}

/// Display name of a device type.
pub fn device_type_display(dt: DeviceType) -> (s: &'static str)
    ensures
        s == device_type_name(dt),
{
    match dt {
        DeviceType::SlWireless => "SL Wireless",
        DeviceType::SlLcdWireless => "SL LCD Wireless",
        DeviceType::SlInfWireless => "SL INF Wireless",
        DeviceType::ClWireless => "CL Wireless",
        DeviceType::TlWireless => "TL Wireless",
        DeviceType::TlLcdWireless => "TL LCD Wireless",
        DeviceType::SlV2 => "SL V2",
        DeviceType::P28 => "P28",
        DeviceType::Rl120 => "RL120",
        DeviceType::HydroShift => "HydroShift",
        DeviceType::HydroShiftII => "HydroShift II",
        DeviceType::GalahadIiLcd => "Galahad II LCD",
        DeviceType::GalahadIiTrinity => "Galahad II Trinity",
        DeviceType::V150 => "V150",
        DeviceType::StrimerWireless => "Strimer Wireless",
        DeviceType::StrimerPlusV2 => "Strimer Plus V2",
        DeviceType::SideArgbKit => "Side ARGB Kit",
        DeviceType::WaterBlock => "Water Block",
        DeviceType::WaterBlock2 => "Water Block 2",
        DeviceType::Led88 => "LED 88",
        DeviceType::Ga2 => "GA II",
        DeviceType::Lc217 => "LC217",
        DeviceType::OpenRgb => "OpenRGB",
        DeviceType::Aura => "Aura",
        DeviceType::Unknown => "Unknown",
    }
}

/// Device type of a display name; `Unknown` for any other text.
pub open spec fn device_type_of_name(s: Seq<char>) -> DeviceType {
    if s == "SL Wireless"@ {
        DeviceType::SlWireless
    } else if s == "SL LCD Wireless"@ {
        DeviceType::SlLcdWireless
    } else if s == "SL INF Wireless"@ {
        DeviceType::SlInfWireless
    } else if s == "CL Wireless"@ {
        DeviceType::ClWireless
    } else if s == "TL Wireless"@ {
        DeviceType::TlWireless
    } else if s == "TL LCD Wireless"@ {
        DeviceType::TlLcdWireless
    } else if s == "SL V2"@ {
        DeviceType::SlV2
    } else if s == "P28"@ {
        DeviceType::P28
    } else if s == "RL120"@ {
        DeviceType::Rl120
    } else if s == "HydroShift"@ {
        DeviceType::HydroShift
    } else if s == "HydroShift II"@ {
        DeviceType::HydroShiftII
    } else if s == "Galahad II LCD"@ {
        DeviceType::GalahadIiLcd
    } else if s == "Galahad II Trinity"@ {
        DeviceType::GalahadIiTrinity
    } else if s == "V150"@ {
        DeviceType::V150
    } else if s == "Strimer Wireless"@ {
        DeviceType::StrimerWireless
    } else if s == "Strimer Plus V2"@ {
        DeviceType::StrimerPlusV2
    } else if s == "Side ARGB Kit"@ {
        DeviceType::SideArgbKit
    } else if s == "Water Block"@ {
        DeviceType::WaterBlock
    } else if s == "Water Block 2"@ {
        DeviceType::WaterBlock2
    } else if s == "LED 88"@ {
        DeviceType::Led88
    } else if s == "GA II"@ {
        DeviceType::Ga2
    } else if s == "LC217"@ {
        DeviceType::Lc217
    } else if s == "OpenRGB"@ {
        DeviceType::OpenRgb
    } else if s == "Aura"@ {
        DeviceType::Aura
    } else {
        DeviceType::Unknown
    }
}

/// A device type's display name reads back as that device type.
pub proof fn law_device_type_name_roundtrip(dt: DeviceType)
    ensures
        device_type_of_name(device_type_name(dt)@) == dt,
{
    reveal_strlit("SL Wireless");
    reveal_strlit("SL LCD Wireless");
    reveal_strlit("SL INF Wireless");
    reveal_strlit("CL Wireless");
    reveal_strlit("TL Wireless");
    reveal_strlit("TL LCD Wireless");
    reveal_strlit("SL V2");
    reveal_strlit("P28");
    reveal_strlit("RL120");
    reveal_strlit("HydroShift");
    reveal_strlit("HydroShift II");
    reveal_strlit("Galahad II LCD");
    reveal_strlit("Galahad II Trinity");
    reveal_strlit("V150");
    reveal_strlit("Strimer Wireless");
    reveal_strlit("Strimer Plus V2");
    reveal_strlit("Side ARGB Kit");
    reveal_strlit("Water Block");
    reveal_strlit("Water Block 2");
    reveal_strlit("LED 88");
    reveal_strlit("GA II");
    reveal_strlit("LC217");
    reveal_strlit("OpenRGB");
    reveal_strlit("Aura");
    reveal_strlit("Unknown");
    assert(ci_fingerprint("SL Wireless"@) == fingerprint_of(11, 's', 'l', 's'));
    assert(ci_fingerprint("SL LCD Wireless"@) == fingerprint_of(15, 's', 'l', 's'));
    assert(ci_fingerprint("SL INF Wireless"@) == fingerprint_of(15, 's', 'l', 's'));
    assert(ci_fingerprint("CL Wireless"@) == fingerprint_of(11, 'c', 'l', 's'));
    assert(ci_fingerprint("TL Wireless"@) == fingerprint_of(11, 't', 'l', 's'));
    assert(ci_fingerprint("TL LCD Wireless"@) == fingerprint_of(15, 't', 'l', 's'));
    assert(ci_fingerprint("SL V2"@) == fingerprint_of(5, 's', 'l', '2'));
    assert(ci_fingerprint("P28"@) == fingerprint_of(3, 'p', '2', '8'));
    assert(ci_fingerprint("RL120"@) == fingerprint_of(5, 'r', 'l', '0'));
    assert(ci_fingerprint("HydroShift"@) == fingerprint_of(10, 'h', 'y', 't'));
    assert(ci_fingerprint("HydroShift II"@) == fingerprint_of(13, 'h', 'y', 'i'));
    assert(ci_fingerprint("Galahad II LCD"@) == fingerprint_of(14, 'g', 'a', 'd'));
    assert(ci_fingerprint("Galahad II Trinity"@) == fingerprint_of(18, 'g', 'a', 'y'));
    assert(ci_fingerprint("V150"@) == fingerprint_of(4, 'v', '1', '0'));
    assert(ci_fingerprint("Strimer Wireless"@) == fingerprint_of(16, 's', 't', 's'));
    assert(ci_fingerprint("Strimer Plus V2"@) == fingerprint_of(15, 's', 't', '2'));
    assert(ci_fingerprint("Side ARGB Kit"@) == fingerprint_of(13, 's', 'i', 't'));
    assert(ci_fingerprint("Water Block"@) == fingerprint_of(11, 'w', 'a', 'k'));
    assert(ci_fingerprint("Water Block 2"@) == fingerprint_of(13, 'w', 'a', '2'));
    assert(ci_fingerprint("LED 88"@) == fingerprint_of(6, 'l', 'e', '8'));
    assert(ci_fingerprint("GA II"@) == fingerprint_of(5, 'g', 'a', 'i'));
    assert(ci_fingerprint("LC217"@) == fingerprint_of(5, 'l', 'c', '7'));
    assert(ci_fingerprint("OpenRGB"@) == fingerprint_of(7, 'o', 'p', 'b'));
    assert(ci_fingerprint("Aura"@) == fingerprint_of(4, 'a', 'u', 'a'));
    assert(ci_fingerprint("Unknown"@) == fingerprint_of(7, 'u', 'n', 'n'));
    assert("SL INF Wireless"@[3] != "SL LCD Wireless"@[3]);
    match dt {
        DeviceType::SlWireless => {},
        DeviceType::SlLcdWireless => {},
        DeviceType::SlInfWireless => {},
        DeviceType::ClWireless => {},
        DeviceType::TlWireless => {},
        DeviceType::TlLcdWireless => {},
        DeviceType::SlV2 => {},
        DeviceType::P28 => {},
        DeviceType::Rl120 => {},
        DeviceType::HydroShift => {},
        DeviceType::HydroShiftII => {},
        DeviceType::GalahadIiLcd => {},
        DeviceType::GalahadIiTrinity => {},
        DeviceType::V150 => {},
        DeviceType::StrimerWireless => {},
        DeviceType::StrimerPlusV2 => {},
        DeviceType::SideArgbKit => {},
        DeviceType::WaterBlock => {},
        DeviceType::WaterBlock2 => {},
        DeviceType::Led88 => {},
        DeviceType::Ga2 => {},
        DeviceType::Lc217 => {},
        DeviceType::OpenRgb => {},
        DeviceType::Aura => {},
        DeviceType::Unknown => {},
    }
}

/// Device type of a display name (inverse of `device_type_display`).
pub fn device_type_from_display(s: &str) -> (dt: DeviceType)
    ensures
        dt == device_type_of_name(s@),
{
    if same_text(s, "SL Wireless") {
        DeviceType::SlWireless
    } else if same_text(s, "SL LCD Wireless") {
        DeviceType::SlLcdWireless
    } else if same_text(s, "SL INF Wireless") {
        DeviceType::SlInfWireless
    } else if same_text(s, "CL Wireless") {
        DeviceType::ClWireless
    } else if same_text(s, "TL Wireless") {
        DeviceType::TlWireless
    } else if same_text(s, "TL LCD Wireless") {
        DeviceType::TlLcdWireless
    } else if same_text(s, "SL V2") {
        DeviceType::SlV2
    } else if same_text(s, "P28") {
        DeviceType::P28
    } else if same_text(s, "RL120") {
        DeviceType::Rl120
    } else if same_text(s, "HydroShift") {
        DeviceType::HydroShift
    } else if same_text(s, "HydroShift II") {
        DeviceType::HydroShiftII
    } else if same_text(s, "Galahad II LCD") {
        DeviceType::GalahadIiLcd
    } else if same_text(s, "Galahad II Trinity") {
        DeviceType::GalahadIiTrinity
    } else if same_text(s, "V150") {
        DeviceType::V150
    } else if same_text(s, "Strimer Wireless") {
        DeviceType::StrimerWireless
    } else if same_text(s, "Strimer Plus V2") {
        DeviceType::StrimerPlusV2
    } else if same_text(s, "Side ARGB Kit") {
        DeviceType::SideArgbKit
    } else if same_text(s, "Water Block") {
        DeviceType::WaterBlock
    } else if same_text(s, "Water Block 2") {
        DeviceType::WaterBlock2
    } else if same_text(s, "LED 88") {
        DeviceType::Led88
    } else if same_text(s, "GA II") {
        DeviceType::Ga2
    } else if same_text(s, "LC217") {
        DeviceType::Lc217
    } else if same_text(s, "OpenRGB") {
        DeviceType::OpenRgb
    } else if same_text(s, "Aura") {
        DeviceType::Aura
    } else {
        DeviceType::Unknown
    }
}

/// Display name of a role.
pub fn role_string(role: &FanRole) -> (s: String)
    ensures
        s@ == match role {
            FanRole::Intake => "Intake"@,
            FanRole::Exhaust => "Exhaust"@,
            FanRole::Pump => "Pump"@,
            FanRole::Custom(name) => name@,
        },
{
    match role {
        FanRole::Intake => "Intake".to_owned(),
        FanRole::Exhaust => "Exhaust".to_owned(),
        FanRole::Pump => "Pump".to_owned(),
        FanRole::Custom(name) => name.clone(),
    }
}

/// Display name of an RGB mode.
pub open spec fn rgb_mode_name(mode: RgbMode) -> &'static str {
    match mode {
        RgbMode::Off => "Off",
        RgbMode::Static { .. } => "Static",
        RgbMode::PerFan(_) => "Per-Fan",
        RgbMode::PerLed(_) => "Per-LED",
        RgbMode::Effect { .. } => "Effect",
        RgbMode::TempRgb(_) => "Temp RGB",
        RgbMode::Composed(_) => "Composed",
        RgbMode::SubZones => "Sub-Zones",
    }
}

/// Display name of an RGB mode.
pub fn rgb_mode_display(mode: &RgbMode) -> (s: &'static str)
    ensures
        s == rgb_mode_name(*mode),
{
    match mode {
        RgbMode::Off => "Off",
        RgbMode::Static { .. } => "Static",
        RgbMode::PerFan(_) => "Per-Fan",
        RgbMode::PerLed(_) => "Per-LED",
        RgbMode::Effect { .. } => "Effect",
        RgbMode::TempRgb(_) => "Temp RGB",
        RgbMode::Composed(_) => "Composed",
        RgbMode::SubZones => "Sub-Zones",
    }
}

/// Sum of the positive values.
pub open spec fn positive_sum(s: Seq<i32>) -> int
    decreases s.len(),
{
    if s.len() == 0 {
        0
    } else {
        positive_sum(s.drop_last()) + if s.last() > 0 {
            s.last() as int
        } else {
            0
        }
    }
}

/// Number of positive values.
pub open spec fn positive_count(s: Seq<i32>) -> int
    decreases s.len(),
{
    if s.len() == 0 {
        0
    } else {
        positive_count(s.drop_last()) + if s.last() > 0 {
            1int
        } else {
            0
        }
    }
}

proof fn lemma_positive_bounds(s: Seq<i32>)
    ensures
        0 <= positive_count(s) <= s.len(),
        0 <= positive_sum(s),
        positive_count(s) <= positive_sum(s),
        forall|n: int| 0 <= n <= s.len() ==> #[trigger] positive_sum(s.subrange(0, n)) <= positive_sum(s),
    decreases s.len(),
{
    if s.len() > 0 {
        lemma_positive_bounds(s.drop_last());
        assert forall|n: int| 0 <= n <= s.len() implies #[trigger] positive_sum(s.subrange(0, n))
            <= positive_sum(s) by {
            if n < s.len() {
                assert(s.subrange(0, n) =~= s.drop_last().subrange(0, n));
            } else {
                assert(s.subrange(0, n) =~= s);
            }
        }
    }
}

/// Average of the positive RPM values (rounded toward zero); 0 if there are none.
pub fn avg_nonzero_rpm(rpms: &[i32]) -> (avg: i32)
    requires
        positive_sum(rpms@) <= i32::MAX,
    ensures
        positive_count(rpms@) == 0 ==> avg == 0,
        positive_count(rpms@) > 0 ==> avg == positive_sum(rpms@) / positive_count(rpms@),
{
    proof {
        lemma_positive_bounds(rpms@);
    }
    let mut sum: i32 = 0;
    let mut count: i32 = 0;
    let mut i: usize = 0;
    while i < rpms.len()
        invariant
            i <= rpms@.len(),
            positive_sum(rpms@) <= i32::MAX,
            forall|n: int| 0 <= n <= rpms@.len() ==> #[trigger] positive_sum(rpms@.subrange(0, n))
                <= positive_sum(rpms@),
            sum == positive_sum(rpms@.subrange(0, i as int)),
            count == positive_count(rpms@.subrange(0, i as int)),
            0 <= count <= i,
        decreases rpms@.len() - i,
    {
        proof {
            assert(rpms@.subrange(0, i + 1).drop_last() =~= rpms@.subrange(0, i as int));
            lemma_positive_bounds(rpms@.subrange(0, i as int));
        }
        let r = rpms[i];
        assert(positive_sum(rpms@.subrange(0, i + 1)) <= positive_sum(rpms@));
        if r > 0 {
            sum = sum + r;
            assert(count < i32::MAX) by {
                lemma_positive_bounds(rpms@.subrange(0, i + 1));
            }
            count = count + 1;
        }
        i = i + 1;
    }
    assert(rpms@.subrange(0, i as int) =~= rpms@);
    if count == 0 {
        0
    } else {
        sum / count
    }
}

// ---------------------------------------------------------------------------
// Sensor labels
// ---------------------------------------------------------------------------

/// The character of a decimal digit.
pub open spec fn digit_char(d: nat) -> char {
    ((48 + d) as u32) as char
}

/// Decimal representation of `n`, without leading zeros.
pub open spec fn dec_chars(n: nat) -> Seq<char>
    decreases n,
{
    if n < 10 {
        seq![digit_char(n)]
    } else {
        dec_chars(n / 10).push(digit_char(n % 10))
    }
}

/// Display label of a sensor.
pub open spec fn label_of(sensor: Sensor) -> Seq<char> {
    match sensor {
        Sensor::Cpu => "CPU"@,
        Sensor::Gpu => "GPU"@,
        Sensor::GpuHotspot => "GPU Hotspot"@,
        Sensor::GpuVram => "GPU VRAM"@,
        Sensor::GpuPower => "GPU Power"@,
        Sensor::GpuUsage => "GPU Usage"@,
        Sensor::Water => "Water"@,
        Sensor::Motherboard { channel } => "Motherboard "@ + dec_chars(channel as nat),
        Sensor::Weighted { cpu_pct, gpu_pct } => "Weighted "@ + dec_chars(cpu_pct as nat) + "/"@
            + dec_chars(gpu_pct as nat),
    }
}

/// Every character is a decimal digit.
pub open spec fn all_digits(s: Seq<char>) -> bool {
    forall|i: int| 0 <= i < s.len() ==> '0' <= #[trigger] s[i] <= '9'
}

/// Value of a run of decimal digits.
pub open spec fn digits_value(s: Seq<char>) -> nat
    decreases s.len(),
{
    if s.len() == 0 {
        0
    } else {
        digits_value(s.drop_last()) * 10 + ((s.last() as u32) - 48) as nat
    }
}

/// What `str::parse::<u8>` gives: an optional `+`, then one or more
/// decimal digits whose value is at most 255.
pub open spec fn parse_u8_spec(s: Seq<char>) -> Option<u8> {
    let digits = if s.len() > 0 && s[0] == '+' {
        s.drop_first()
    } else {
        s
    };
    if digits.len() > 0 && all_digits(digits) && digits_value(digits) <= 255 {
        Some(digits_value(digits) as u8)
    } else {
        None
    }
}

/// The parsed value, or `default` when the text does not parse.
pub open spec fn parse_u8_or(s: Seq<char>, default: u8) -> u8 {
    match parse_u8_spec(s) {
        Some(v) => v,
        None => default,
    }
}

/// `s` begins with `p`.
pub open spec fn has_prefix(s: Seq<char>, p: Seq<char>) -> bool {
    p.len() <= s.len() && s.subrange(0, p.len() as int) == p
}

/// Index of the first occurrence of `c`.
pub open spec fn first_index_of(s: Seq<char>, c: char) -> Option<int>
    decreases s.len(),
{
    if s.len() == 0 {
        None
    } else {
        match first_index_of(s.drop_last(), c) {
            Some(i) => Some(i),
            None => if s.last() == c {
                Some(s.len() - 1)
            } else {
                None
            },
        }
    }
}

/// The sensor a label names: "Motherboard N" (channel 0 when N does not
/// parse), "Motherboard", "Weighted C/G" (50 for a part that does not
/// parse) or a fixed name; any other label names the CPU.
pub open spec fn sensor_of_label(l: Seq<char>) -> Sensor {
    let mb = "Motherboard "@;
    let w = "Weighted "@;
    if has_prefix(l, mb) {
        Sensor::Motherboard { channel: parse_u8_or(l.subrange(mb.len() as int, l.len() as int), 0) }
    } else if l == "Motherboard"@ {
        Sensor::Motherboard { channel: 0 }
    } else if has_prefix(l, w) && first_index_of(l.subrange(w.len() as int, l.len() as int), '/') is Some {
        let rest = l.subrange(w.len() as int, l.len() as int);
        let k = first_index_of(rest, '/')->0;
        Sensor::Weighted {
            cpu_pct: parse_u8_or(rest.subrange(0, k), 50),
            gpu_pct: parse_u8_or(rest.subrange(k + 1, rest.len() as int), 50),
        }
    } else if l == "CPU"@ {
        Sensor::Cpu
    } else if l == "GPU"@ {
        Sensor::Gpu
    } else if l == "GPU Hotspot"@ {
        Sensor::GpuHotspot
    } else if l == "GPU VRAM"@ {
        Sensor::GpuVram
    } else if l == "GPU Power"@ {
        Sensor::GpuPower
    } else if l == "GPU Usage"@ {
        Sensor::GpuUsage
    } else if l == "Water"@ {
        Sensor::Water
    } else {
        Sensor::Cpu
    }
}

fn digit_str(d: u8) -> (s: &'static str)
    requires
        d < 10,
    ensures
        s@ == seq![digit_char(d as nat)],
{
    proof {
        reveal_strlit("0");
        reveal_strlit("1");
        reveal_strlit("2");
        reveal_strlit("3");
        reveal_strlit("4");
        reveal_strlit("5");
        reveal_strlit("6");
        reveal_strlit("7");
        reveal_strlit("8");
        reveal_strlit("9");
    }
    match d {
        0 => "0",
        1 => "1",
        2 => "2",
        3 => "3",
        4 => "4",
        5 => "5",
        6 => "6",
        7 => "7",
        8 => "8",
        _ => "9",
    }
}

/// Appends the decimal digits of `n`.
pub fn append_dec(s: &mut String, n: u8)
    ensures
        final(s)@ == old(s)@ + dec_chars(n as nat),
{
    proof {
        reveal_with_fuel(dec_chars, 3);
    }
    let ghost s0 = s@;
    if n >= 100 {
        s.append(digit_str(n / 100));
        s.append(digit_str((n / 10) % 10));
        s.append(digit_str(n % 10));
        assert(s@ =~= s0 + dec_chars(n as nat));
    } else if n >= 10 {
        s.append(digit_str(n / 10));
        s.append(digit_str(n % 10));
        assert(s@ =~= s0 + dec_chars(n as nat));
    } else {
        s.append(digit_str(n));
        assert(s@ =~= s0 + dec_chars(n as nat));
    }
}

/// Append the decimal digits of `n`.
pub fn append_dec_u64(s: &mut String, n: u64)
    ensures
        final(s)@ == old(s)@ + dec_chars(n as nat),
    decreases n,
{
    if n >= 10 {
        append_dec_u64(s, n / 10);
    }
    s.append(digit_str((n % 10) as u8));
    proof {
        assert(old(s)@ + dec_chars(n as nat) =~= if n >= 10 {
            old(s)@ + dec_chars((n / 10) as nat) + seq![digit_char((n % 10) as nat)]
        } else {
            old(s)@ + seq![digit_char(n as nat)]
        });
    }
}

/// Display label of a sensor, such as "GPU Hotspot", "Motherboard 3" or "Weighted 60/40".
pub fn sensor_label(sensor: Sensor) -> (s: String)
    ensures
        s@ == label_of(sensor),
{
    match sensor {
        Sensor::Cpu => "CPU".to_owned(),
        Sensor::Gpu => "GPU".to_owned(),
        Sensor::GpuHotspot => "GPU Hotspot".to_owned(),
        Sensor::GpuVram => "GPU VRAM".to_owned(),
        Sensor::GpuPower => "GPU Power".to_owned(),
        Sensor::GpuUsage => "GPU Usage".to_owned(),
        Sensor::Water => "Water".to_owned(),
        Sensor::Motherboard { channel } => {
            let mut s = "Motherboard ".to_owned();
            append_dec(&mut s, channel);
            s
        },
        Sensor::Weighted { cpu_pct, gpu_pct } => {
            let mut s = "Weighted ".to_owned();
            append_dec(&mut s, cpu_pct);
            s.append("/");
            append_dec(&mut s, gpu_pct);
            s
        },
    }
}

/// Parse `s[from..to]` as `str::parse::<u8>` does.
pub(crate) fn parse_u8(s: &Vec<char>, from: usize, to: usize) -> (r: Option<u8>)
    requires
        from <= to <= s@.len(),
    ensures
        r == parse_u8_spec(s@.subrange(from as int, to as int)),
{
    let ghost t = s@.subrange(from as int, to as int);
    let mut start = from;
    if from < to && s[from] == '+' {
        start = from + 1;
    }
    let ghost digits = s@.subrange(start as int, to as int);
    proof {
        if from < to && s@[from as int] == '+' {
            assert(digits =~= t.drop_first());
        } else {
            assert(digits =~= t);
        }
    }
    if start == to {
        return None;
    }
    let mut acc: u32 = 0;
    let mut i: usize = start;
    while i < to
        invariant
            from <= start <= i <= to <= s@.len(),
            digits == s@.subrange(start as int, to as int),
            t == s@.subrange(from as int, to as int),
            from < to && s@[from as int] == '+' ==> digits == t.drop_first(),
            !(from < to && s@[from as int] == '+') ==> digits == t,
            all_digits(s@.subrange(start as int, i as int)),
            acc == if digits_value(s@.subrange(start as int, i as int)) < 256 {
                digits_value(s@.subrange(start as int, i as int))
            } else {
                256
            },
        decreases to - i,
    {
        let c = s[i];
        if c < '0' || c > '9' {
            proof {
                assert(digits[i - start] == c);
                assert(!all_digits(digits));
            }
            return None;
        }
        let d = (c as u32) - 48;
        proof {
            let p = s@.subrange(start as int, i + 1);
            assert(p.drop_last() =~= s@.subrange(start as int, i as int));
            assert(p.last() == c);
        }
        acc = if acc * 10 + d < 256 {
            acc * 10 + d
        } else {
            256
        };
        i = i + 1;
    }
    if acc <= 255 {
        Some(acc as u8)
    } else {
        None
    }
}

/// Whether `s[from..]` begins with `p`.
fn prefix_at(s: &Vec<char>, p: &Vec<char>) -> (r: bool)
    ensures
        r == has_prefix(s@, p@),
{
    if p.len() > s.len() {
        return false;
    }
    let mut i: usize = 0;
    while i < p.len()
        invariant
            p@.len() <= s@.len(),
            i <= p@.len(),
            forall|j: int| 0 <= j < i ==> s@[j] == p@[j],
        decreases p@.len() - i,
    {
        if s[i] != p[i] {
            assert(s@.subrange(0, p@.len() as int)[i as int] != p@[i as int]);
            return false;
        }
        i = i + 1;
    }
    assert(s@.subrange(0, p@.len() as int) =~= p@);
    true
}

proof fn lemma_first_index_of_prefix(s: Seq<char>, c: char, n: int)
    requires
        0 <= n <= s.len(),
        forall|j: int| 0 <= j < n ==> s[j] != c,
        n < s.len() ==> s[n] == c,
    ensures
        n < s.len() ==> first_index_of(s, c) == Some(n),
        n == s.len() ==> first_index_of(s, c) is None,
    decreases s.len(),
{
    if s.len() > 0 {
        if n < s.len() - 1 || n == s.len() {
            let m = if n == s.len() { n - 1 } else { n };
            assert forall|j: int| 0 <= j < m implies s.drop_last()[j] != c by {
                assert(s.drop_last()[j] == s[j]);
            }
            if n == s.len() {
                lemma_first_index_of_prefix(s.drop_last(), c, n - 1);
            } else {
                assert(s.drop_last()[n] == s[n]);
                lemma_first_index_of_prefix(s.drop_last(), c, n);
            }
        } else {
            assert forall|j: int| 0 <= j < n implies s.drop_last()[j] != c by {
                assert(s.drop_last()[j] == s[j]);
            }
            lemma_first_index_of_prefix(s.drop_last(), c, n);
        }
    }
}

/// The sensor a label names (inverse of `sensor_label`): "Motherboard N",
/// "Weighted C/G" and the fixed names; an unrecognised label names the CPU.
pub fn sensor_from_label(label: &str) -> (sensor: Sensor)
    ensures
        sensor == sensor_of_label(label@),
{
    let l = chars_of(label);
    let mb = chars_of("Motherboard ");
    if prefix_at(&l, &mb) {
        let channel = match parse_u8(&l, mb.len(), l.len()) {
            Some(v) => v,
            None => 0,
        };
        return Sensor::Motherboard { channel };
    }
    if same_text(label, "Motherboard") {
        return Sensor::Motherboard { channel: 0 };
    }
    let w = chars_of("Weighted ");
    if prefix_at(&l, &w) {
        let ghost rest = l@.subrange(w@.len() as int, l@.len() as int);
        let mut k: usize = w.len();
        while k < l.len() && l[k] != '/'
            invariant
                w@.len() <= k <= l@.len(),
                rest == l@.subrange(w@.len() as int, l@.len() as int),
                forall|j: int| 0 <= j < k - w@.len() ==> rest[j] != '/',
            decreases l@.len() - k,
        {
            assert(rest[k - w@.len()] == l@[k as int]);
            k = k + 1;
        }
        if k < l.len() {
            proof {
                assert(rest[k - w@.len()] == l@[k as int]);
                lemma_first_index_of_prefix(rest, '/', k - w@.len());
                assert(rest.subrange(0, k - w@.len()) =~= l@.subrange(w@.len() as int, k as int));
                assert(rest.subrange(k - w@.len() + 1, rest.len() as int) =~= l@.subrange(
                    k + 1,
                    l@.len() as int,
                ));
            }
            let cpu_pct = match parse_u8(&l, w.len(), k) {
                Some(v) => v,
                None => 50,
            };
            let gpu_pct = match parse_u8(&l, k + 1, l.len()) {
                Some(v) => v,
                None => 50,
            };
            return Sensor::Weighted { cpu_pct, gpu_pct };
        }
        proof {
            lemma_first_index_of_prefix(rest, '/', k - w@.len());
        }
    }
    if same_text(label, "CPU") {
        Sensor::Cpu
    } else if same_text(label, "GPU") {
        Sensor::Gpu
    } else if same_text(label, "GPU Hotspot") {
        Sensor::GpuHotspot
    } else if same_text(label, "GPU VRAM") {
        Sensor::GpuVram
    } else if same_text(label, "GPU Power") {
        Sensor::GpuPower
    } else if same_text(label, "GPU Usage") {
        Sensor::GpuUsage
    } else if same_text(label, "Water") {
        Sensor::Water
    } else {
        Sensor::Cpu
    }
}

proof fn lemma_digit_char(k: nat)
    requires
        k < 10,
    ensures
        digit_char(k) as u32 == 48 + k,
        '0' <= digit_char(k) <= '9',
{
    assert(((48 + k) as u32) as char as u32 == 48 + k);
}

proof fn lemma_dec_chars(n: nat)
    ensures
        dec_chars(n).len() > 0,
        all_digits(dec_chars(n)),
        digits_value(dec_chars(n)) == n,
    decreases n,
{
    lemma_digit_char(n % 10);
    if n < 10 {
        let d = dec_chars(n);
        assert(d.drop_last() =~= Seq::<char>::empty());
        assert(digits_value(d.drop_last()) == 0);
    } else {
        assert(n == (n / 10) * 10 + n % 10);
        lemma_dec_chars(n / 10);
        let d = dec_chars(n);
        assert(d.drop_last() =~= dec_chars(n / 10));
        assert forall|i: int| 0 <= i < d.len() implies '0' <= #[trigger] d[i] <= '9' by {
            if i < d.len() - 1 {
                assert(d[i] == dec_chars(n / 10)[i]);
            }
        }
    }
}

proof fn lemma_parse_dec(n: u8)
    ensures
        parse_u8_spec(dec_chars(n as nat)) == Some(n),
{
    lemma_dec_chars(n as nat);
    let d = dec_chars(n as nat);
    assert('0' <= d[0] <= '9');
}

/// A sensor's label names that sensor again.
pub proof fn law_sensor_label_roundtrip(sensor: Sensor)
    ensures
        sensor_of_label(label_of(sensor)) == sensor,
{
    reveal_strlit("Motherboard ");
    reveal_strlit("Motherboard");
    reveal_strlit("Weighted ");
    reveal_strlit("/");
    reveal_strlit("CPU");
    reveal_strlit("GPU");
    reveal_strlit("GPU Hotspot");
    reveal_strlit("GPU VRAM");
    reveal_strlit("GPU Power");
    reveal_strlit("GPU Usage");
    reveal_strlit("Water");
    let l = label_of(sensor);
    let mb = "Motherboard "@;
    let w = "Weighted "@;
    match sensor {
        Sensor::Motherboard { channel } => {
            lemma_parse_dec(channel);
            assert(l.subrange(0, mb.len() as int) =~= mb);
            assert(l.subrange(mb.len() as int, l.len() as int) =~= dec_chars(channel as nat));
            assert(has_prefix(l, mb));
            assert(parse_u8_or(l.subrange(mb.len() as int, l.len() as int), 0) == channel);
            assert(sensor_of_label(l) == Sensor::Motherboard { channel });
        },
        Sensor::Weighted { cpu_pct, gpu_pct } => {
            lemma_parse_dec(cpu_pct);
            lemma_parse_dec(gpu_pct);
            lemma_dec_chars(cpu_pct as nat);
            let c = dec_chars(cpu_pct as nat);
            let g = dec_chars(gpu_pct as nat);
            assert(l[0] == 'W');
            assert(!has_prefix(l, mb)) by {
                if has_prefix(l, mb) {
                    assert(l.subrange(0, mb.len() as int)[0] == mb[0]);
                }
            }
            assert(l != "Motherboard"@) by {
                if l == "Motherboard"@ {
                    assert(l[0] == 'M');
                }
            }
            assert(l.subrange(0, w.len() as int) =~= w);
            let rest = l.subrange(w.len() as int, l.len() as int);
            assert(rest =~= c + seq!['/'] + g);
            assert forall|j: int| 0 <= j < c.len() implies rest[j] != '/' by {
                assert(rest[j] == c[j]);
                assert('0' <= c[j] <= '9');
            }
            assert(rest[c.len() as int] == '/');
            lemma_first_index_of_prefix(rest, '/', c.len() as int);
            assert(rest.subrange(0, c.len() as int) =~= c);
            assert(rest.subrange(c.len() as int + 1, rest.len() as int) =~= g);
        },
        Sensor::Cpu => {
            assert(!has_prefix(l, mb)) by {
                if has_prefix(l, mb) {
                    assert(l.subrange(0, mb.len() as int)[0] == mb[0]);
                }
            }
            assert(!has_prefix(l, w)) by {
                if has_prefix(l, w) {
                    assert(l.subrange(0, w.len() as int)[0] == w[0]);
                    assert(l.subrange(0, w.len() as int)[1] == w[1]);
                }
            }
            assert(l != "Motherboard"@) by {
                assert(l.len() != "Motherboard"@.len());
            }
        },
        Sensor::Gpu => {
            assert(!has_prefix(l, mb)) by {
                if has_prefix(l, mb) {
                    assert(l.subrange(0, mb.len() as int)[0] == mb[0]);
                }
            }
            assert(!has_prefix(l, w)) by {
                if has_prefix(l, w) {
                    assert(l.subrange(0, w.len() as int)[0] == w[0]);
                    assert(l.subrange(0, w.len() as int)[1] == w[1]);
                }
            }
            assert(l != "Motherboard"@) by {
                assert(l.len() != "Motherboard"@.len());
            }
            assert(l != "CPU"@) by {
                assert(l[0] != "CPU"@[0]);
            }
        },
        Sensor::GpuHotspot => {
            assert(!has_prefix(l, mb)) by {
                if has_prefix(l, mb) {
                    assert(l.subrange(0, mb.len() as int)[0] == mb[0]);
                }
            }
            assert(!has_prefix(l, w)) by {
                if has_prefix(l, w) {
                    assert(l.subrange(0, w.len() as int)[0] == w[0]);
                    assert(l.subrange(0, w.len() as int)[1] == w[1]);
                }
            }
            assert(l != "Motherboard"@) by {
                assert(l[0] != "Motherboard"@[0]);
            }
            assert(l != "CPU"@) by {
                assert(l.len() != "CPU"@.len());
            }
            assert(l != "GPU"@) by {
                assert(l.len() != "GPU"@.len());
            }
        },
        Sensor::GpuVram => {
            assert(!has_prefix(l, mb)) by {
                if has_prefix(l, mb) {
                    assert(l.subrange(0, mb.len() as int)[0] == mb[0]);
                }
            }
            assert(!has_prefix(l, w)) by {
                if has_prefix(l, w) {
                    assert(l.subrange(0, w.len() as int)[0] == w[0]);
                    assert(l.subrange(0, w.len() as int)[1] == w[1]);
                }
            }
            assert(l != "Motherboard"@) by {
                assert(l.len() != "Motherboard"@.len());
            }
            assert(l != "CPU"@) by {
                assert(l.len() != "CPU"@.len());
            }
            assert(l != "GPU"@) by {
                assert(l.len() != "GPU"@.len());
            }
            assert(l != "GPU Hotspot"@) by {
                assert(l.len() != "GPU Hotspot"@.len());
            }
        },
        Sensor::GpuPower => {
            assert(!has_prefix(l, mb)) by {
                if has_prefix(l, mb) {
                    assert(l.subrange(0, mb.len() as int)[0] == mb[0]);
                }
            }
            assert(!has_prefix(l, w)) by {
                if has_prefix(l, w) {
                    assert(l.subrange(0, w.len() as int)[0] == w[0]);
                    assert(l.subrange(0, w.len() as int)[1] == w[1]);
                }
            }
            assert(l != "Motherboard"@) by {
                assert(l.len() != "Motherboard"@.len());
            }
            assert(l != "CPU"@) by {
                assert(l.len() != "CPU"@.len());
            }
            assert(l != "GPU"@) by {
                assert(l.len() != "GPU"@.len());
            }
            assert(l != "GPU Hotspot"@) by {
                assert(l.len() != "GPU Hotspot"@.len());
            }
            assert(l != "GPU VRAM"@) by {
                assert(l.len() != "GPU VRAM"@.len());
            }
        },
        Sensor::GpuUsage => {
            assert(!has_prefix(l, mb)) by {
                if has_prefix(l, mb) {
                    assert(l.subrange(0, mb.len() as int)[0] == mb[0]);
                }
            }
            assert(!has_prefix(l, w)) by {
                if has_prefix(l, w) {
                    assert(l.subrange(0, w.len() as int)[0] == w[0]);
                    assert(l.subrange(0, w.len() as int)[1] == w[1]);
                }
            }
            assert(l != "Motherboard"@) by {
                assert(l.len() != "Motherboard"@.len());
            }
            assert(l != "CPU"@) by {
                assert(l.len() != "CPU"@.len());
            }
            assert(l != "GPU"@) by {
                assert(l.len() != "GPU"@.len());
            }
            assert(l != "GPU Hotspot"@) by {
                assert(l.len() != "GPU Hotspot"@.len());
            }
            assert(l != "GPU VRAM"@) by {
                assert(l.len() != "GPU VRAM"@.len());
            }
            assert(l != "GPU Power"@) by {
                assert(l[4] != "GPU Power"@[4]);
            }
        },
        Sensor::Water => {
            assert(!has_prefix(l, mb)) by {
                if has_prefix(l, mb) {
                    assert(l.subrange(0, mb.len() as int)[0] == mb[0]);
                }
            }
            assert(!has_prefix(l, w)) by {
                if has_prefix(l, w) {
                    assert(l.subrange(0, w.len() as int)[0] == w[0]);
                    assert(l.subrange(0, w.len() as int)[1] == w[1]);
                }
            }
            assert(l != "Motherboard"@) by {
                assert(l.len() != "Motherboard"@.len());
            }
            assert(l != "CPU"@) by {
                assert(l.len() != "CPU"@.len());
            }
            assert(l != "GPU"@) by {
                assert(l.len() != "GPU"@.len());
            }
            assert(l != "GPU Hotspot"@) by {
                assert(l.len() != "GPU Hotspot"@.len());
            }
            assert(l != "GPU VRAM"@) by {
                assert(l.len() != "GPU VRAM"@.len());
            }
            assert(l != "GPU Power"@) by {
                assert(l.len() != "GPU Power"@.len());
            }
            assert(l != "GPU Usage"@) by {
                assert(l.len() != "GPU Usage"@.len());
            }
        },
    }
}

// ---------------------------------------------------------------------------
// Sensor graphs, playback and speed modes
// ---------------------------------------------------------------------------

/// Graph colour (r, g, b) of a sensor label: CPU tomato red, GPU lime
/// green, water blue, anything else grey.
pub open spec fn sensor_color_of(label: Seq<char>) -> (i32, i32, i32) {
    if label == "CPU"@ {
        (255, 99, 71)
    } else if label == "GPU"@ {
        (50, 205, 50)
    } else if label == "Water"@ {
        (74, 158, 255)
    } else {
        (200, 200, 200)
    }
}

/// Graph colour (r, g, b) of a sensor label.
pub fn sensor_color(label: &str) -> (c: (i32, i32, i32))
    ensures
        c == sensor_color_of(label@),
{
    if same_text(label, "CPU") {
        (255, 99, 71)
    } else if same_text(label, "GPU") {
        (50, 205, 50)
    } else if same_text(label, "Water") {
        (74, 158, 255)
    } else {
        (200, 200, 200)
    }
}

/// Unit of a sensor's readings, from its lower-case label: watts for
/// power, percent for usage, utilisation or load, else degrees Celsius.
pub open spec fn unit_of_lowered(l: Seq<char>) -> &'static str {
    if occurs_in(l, "power"@) || occurs_in(l, "watt"@) {
        "W"
    } else if occurs_in(l, "usage"@) || occurs_in(l, "util"@) || occurs_in(l, "load"@) {
        "%"
    } else {
        "\u{b0}C"
    }
}

/// Unit of a sensor's readings, from its label (case-insensitive).
pub open spec fn sensor_unit_of(label: Seq<char>) -> &'static str {
    unit_of_lowered(lowercase(label))
}

/// Unit of a sensor's readings, from its label already in lower case.
pub fn lowered_sensor_unit(l: &str) -> (u: &'static str)
    ensures
        u == unit_of_lowered(l@),
{
    if contains_text(l, "power") || contains_text(l, "watt") {
        "W"
    } else if contains_text(l, "usage") || contains_text(l, "util") || contains_text(l, "load") {
        "%"
    } else {
        "\u{b0}C"
    }
}

/// Unit of a sensor's readings, from its label.
pub fn sensor_unit(label: &str) -> (u: &'static str)
    ensures
        u == sensor_unit_of(label@),
{
    let l = to_lower(label);
    lowered_sensor_unit(l.as_str())
}

/// Name of a playback mode in the sequence editor; a counted loop shows as "Loop".
pub open spec fn playback_name(p: Playback) -> &'static str {
    match p {
        Playback::Once => "Once",
        Playback::Loop => "Loop",
        Playback::PingPong => "PingPong",
        Playback::Count(_) => "Loop",
    }
}

/// Name of a playback mode in the sequence editor.
pub fn playback_str(p: Playback) -> (s: &'static str)
    ensures
        s == playback_name(p),
{
    match p {
        Playback::Once => "Once",
        Playback::Loop => "Loop",
        Playback::PingPong => "PingPong",
        Playback::Count(_) => "Loop",
    }
}

/// Playback mode of an editor name; anything unknown loops.
pub fn playback_from_str(s: &str) -> (p: Playback)
    ensures
        p == (if s@ == "Once"@ {
            Playback::Once
        } else if s@ == "PingPong"@ {
            Playback::PingPong
        } else {
            Playback::Loop
        }),
{
    if same_text(s, "Once") {
        Playback::Once
    } else if same_text(s, "PingPong") {
        Playback::PingPong
    } else {
        Playback::Loop
    }
}

/// How a group's fan speed is controlled. The points of a custom curve are
/// edited elsewhere; here only its kind matters.
#[derive(Clone, Debug, PartialEq, Eq)]
pub enum SpeedMode {
    Manual(u8),
    Pwm,
    Curve,
    NamedCurve(String),
}

/// Display name of a speed mode.
pub open spec fn speed_mode_name(mode: SpeedMode) -> &'static str {
    match mode {
        SpeedMode::Manual(_) => "Manual",
        SpeedMode::Pwm => "PWM",
        SpeedMode::Curve => "Curve",
        SpeedMode::NamedCurve(_) => "Curve",
    }
}

/// Display name of a speed mode.
pub fn speed_mode_string(mode: &SpeedMode) -> (s: &'static str)
    ensures
        s == speed_mode_name(*mode),
{
    match mode {
        SpeedMode::Manual(_) => "Manual",
        SpeedMode::Pwm => "PWM",
        SpeedMode::Curve => "Curve",
        SpeedMode::NamedCurve(_) => "Curve",
    }
}

/// The manual speed percentage, or -1 for the other modes.
pub open spec fn speed_percent_of(mode: SpeedMode) -> i32 {
    match mode {
        SpeedMode::Manual(pct) => pct as i32,
        _ => -1i32,
    }
}

/// The manual speed percentage, or -1 for the other modes.
pub fn speed_percent(mode: &SpeedMode) -> (p: i32)
    ensures
        p == speed_percent_of(*mode),
{
    match mode {
        SpeedMode::Manual(pct) => *pct as i32,
        _ => -1,
    }
}

/// Name of the curve a mode follows: its name, "(custom)" for an unnamed
/// curve, empty otherwise.
pub open spec fn curve_name_of(mode: SpeedMode) -> Seq<char> {
    match mode {
        SpeedMode::NamedCurve(name) => name@,
        SpeedMode::Curve => "(custom)"@,
        _ => ""@,
    }
}

/// Name of the curve a mode follows: its name, "(custom)" for an unnamed
/// curve, empty otherwise.
pub fn speed_curve_name(mode: &SpeedMode) -> (s: &str)
    ensures
        s@ == curve_name_of(*mode),
{
    match mode {
        SpeedMode::NamedCurve(name) => name.as_str(),
        SpeedMode::Curve => "(custom)",
        _ => "",
    }
}

/// `n` written with at least two digits, as `{:02}` formats it.
pub open spec fn two_digits(n: nat) -> Seq<char> {
    if n < 10 {
        seq!['0'] + dec_chars(n)
    } else {
        dec_chars(n)
    }
}

fn append_two_digits(s: &mut String, n: u8)
    ensures
        final(s)@ == old(s)@ + two_digits(n as nat),
{
    let ghost s0 = s@;
    if n < 10 {
        s.append("0");
        proof {
            reveal_strlit("0");
        }
    }
    append_dec(s, n);
    proof {
        assert(s@ =~= s0 + two_digits(n as nat));
    }
}

/// The schedule list's line for an entry: the time as `HH:MM`, a dash,
/// then the action (`profile:NAME`, `speed:N%` or `curve:NAME`).
pub open spec fn schedule_line_text(e: ScheduleEntry) -> Seq<char> {
    two_digits(e.hour as nat) + ":"@ + two_digits(e.minute as nat) + " \u{2014} "@ + match e.action {
        ScheduleAction::SwitchProfile(name) => "profile:"@ + name@,
        ScheduleAction::SetSpeed { percent, .. } => "speed:"@ + dec_chars(percent as nat) + "%"@,
        ScheduleAction::ApplyCurve { curve, .. } => "curve:"@ + curve@,
    }
}

/// The schedule list's line for an entry (see [`schedule_line_text`]).
pub fn schedule_line(e: &ScheduleEntry) -> (line: String)
    ensures
        line@ == schedule_line_text(*e),
{
    let mut line = String::new();
    append_two_digits(&mut line, e.hour);
    line.append(":");
    append_two_digits(&mut line, e.minute);
    line.append(" \u{2014} ");
    match &e.action {
        ScheduleAction::SwitchProfile(name) => {
            line.append("profile:");
            line.append(name.as_str());
        },
        ScheduleAction::SetSpeed { percent, .. } => {
            line.append("speed:");
            append_dec(&mut line, *percent);
            line.append("%");
        },
        ScheduleAction::ApplyCurve { curve, .. } => {
            line.append("curve:");
            line.append(curve.as_str());
        },
    }
    proof {
        assert(line@ =~= schedule_line_text(*e));
    }
    line
}


/// `names` followed by each name of `more` that is not already listed.
pub open spec fn with_new_names(names: Seq<Seq<char>>, more: Seq<Seq<char>>) -> Seq<Seq<char>>
    decreases more.len(),
{
    if more.len() == 0 {
        names
    } else {
        let r = with_new_names(names, more.drop_last());
        if r.contains(more.last()) {
            r
        } else {
            r.push(more.last())
        }
    }
}

/// Names offered for sensor selection: CPU, GPU and Water, then the labels
/// of the detected sensors that are not listed yet.
pub open spec fn sensor_names_of(sensors: Seq<Sensor>) -> Seq<Seq<char>> {
    with_new_names(seq!["CPU"@, "GPU"@, "Water"@], sensors.map_values(|s: Sensor| label_of(s)))
}

fn listed(names: &Vec<String>, name: &String) -> (r: bool)
    ensures
        r == names@.map_values(|n: String| n@).contains(name@),
{
    let ghost v = names@.map_values(|n: String| n@);
    let mut i: usize = 0;
    while i < names.len()
        invariant
            i <= names@.len(),
            v == names@.map_values(|n: String| n@),
            forall|j: int| 0 <= j < i ==> v[j] != name@,
        decreases names@.len() - i,
    {
        if same_text(names[i].as_str(), name.as_str()) {
            proof {
                assert(v[i as int] == name@);
            }
            return true;
        }
        i = i + 1;
    }
    false
}

/// Names offered for sensor selection (see [`sensor_names_of`]).
pub fn sensor_names(sensors: &[Sensor]) -> (r: Vec<String>)
    ensures
        r@.map_values(|n: String| n@) == sensor_names_of(sensors@),
{
    let mut out: Vec<String> = Vec::new();
    out.push("CPU".to_owned());
    out.push("GPU".to_owned());
    out.push("Water".to_owned());
    let ghost labels = sensors@.map_values(|s: Sensor| label_of(s));
    proof {
        assert(out@.map_values(|n: String| n@) =~= seq!["CPU"@, "GPU"@, "Water"@]);
        assert(labels.subrange(0, 0) =~= Seq::<Seq<char>>::empty());
    }
    let mut i: usize = 0;
    while i < sensors.len()
        invariant
            i <= sensors@.len(),
            labels == sensors@.map_values(|s: Sensor| label_of(s)),
            out@.map_values(|n: String| n@) == with_new_names(
                seq!["CPU"@, "GPU"@, "Water"@],
                labels.subrange(0, i as int),
            ),
        decreases sensors@.len() - i,
    {
        let label = sensor_label(sensors[i]);
        proof {
            assert(labels.subrange(0, i + 1).drop_last() =~= labels.subrange(0, i as int));
            assert(labels.subrange(0, i + 1).last() == label@);
        }
        if !listed(&out, &label) {
            let ghost before = out@;
            out.push(label);
            proof {
                assert(out@.map_values(|n: String| n@) =~= before.map_values(|n: String| n@).push(
                    label@,
                ));
            }
        }
        i = i + 1;
    }
    proof {
        assert(labels.subrange(0, sensors@.len() as int) =~= labels);
    }
    out
}

} // verus!
