//! What the GUI's speed and show pages send: the speed of a slider position
//! or a preset, the speed control a mode's name stands for, and stopping
//! the shows.

use vstd::prelude::*;

use crate::convert::SpeedMode;
use crate::handler::Request;
use crate::model::GroupId;
use crate::scheduler::Target;
use crate::text::same_text;
use vstd::string::StrSliceExecFns;

verus! {

/// The percent of a speed preset: Quiet 25, Standard 50, High 75, Full 100.
pub open spec fn preset_spec(name: Seq<char>) -> Option<u8> {
    if name == "Quiet"@ {
        Some(25u8)
    } else if name == "Standard"@ {
        Some(50u8)
    } else if name == "High"@ {
        Some(75u8)
    } else if name == "Full"@ {
        Some(100u8)
    } else {
        None
    }
}

/// The percent of a speed preset, if the name is one.
pub fn preset_percent(name: &str) -> (r: Option<u8>)
    ensures
        r == preset_spec(name@),
{
    proof {
        reveal_strlit("Quiet");
        reveal_strlit("Standard");
        reveal_strlit("High");
        reveal_strlit("Full");
    }
    if same_text(name, "Quiet") {
        Some(25)
    } else if same_text(name, "Standard") {
        Some(50)
    } else if same_text(name, "High") {
        Some(75)
    } else if same_text(name, "Full") {
        Some(100)
    } else {
        None
    }
}

/// The low eight bits of a UI integer, as `as u8` keeps them.
pub open spec fn low_byte(v: i32) -> u8 {
    (if v >= 0 {
        v as int % 256
    } else {
        (v as int % 256 + 256) % 256
    }) as u8
}

fn to_byte(v: i32) -> (b: u8)
    ensures
        b == low_byte(v),
{
    let w: i64 = v as i64;
    let m: i64 = if w >= 0 {
        w % 256
    } else {
        (w % 256 + 256) % 256
    };
    m as u8
}

/// A percent as a speed: at most 100.
pub open spec fn capped_percent(p: u8) -> u8 {
    if p > 100 {
        100
    } else {
        p
    }
}

/// The request a slider position sends: a fixed speed for the group, the
/// position's low byte capped at 100 percent.
pub fn slider_request(group: i32, pct: i32) -> (r: Request)
    ensures
        r matches Request::SetSpeed { group: g, mode, inline_curve, invalid } && g == GroupId(low_byte(group))
            && mode == SpeedMode::Manual(capped_percent(low_byte(pct))) && inline_curve is None && invalid is None,
{
    let p = to_byte(pct);
    let p = if p > 100 {
        100
    } else {
        p
    };
    Request::SetSpeed { group: GroupId(to_byte(group)), mode: SpeedMode::Manual(p), inline_curve: None, invalid: None }
}

/// The request a preset button of one group sends, if the name is a preset.
pub fn preset_request(group: i32, name: &str) -> (r: Option<Request>)
    ensures
        preset_spec(name@) is None ==> r is None,
        preset_spec(name@) matches Some(p) ==> (r matches Some(Request::SetSpeed { group: g, mode, inline_curve, invalid })
            && g == GroupId(low_byte(group)) && mode == SpeedMode::Manual(p) && inline_curve is None && invalid is None),
{
    match preset_percent(name) {
        Some(p) => Some(
            Request::SetSpeed { group: GroupId(to_byte(group)), mode: SpeedMode::Manual(p), inline_curve: None, invalid: None },
        ),
        None => None,
    }
}

/// The request the "all groups" preset button sends, if the name is a preset.
pub fn preset_all_request(name: &str) -> (r: Option<Request>)
    ensures
        preset_spec(name@) is None ==> r is None,
        preset_spec(name@) matches Some(p) ==> (r matches Some(Request::SetSpeedAll { target, mode, invalid })
            && target is All && mode == SpeedMode::Manual(p) && invalid is None),
{
    match preset_percent(name) {
        Some(p) => Some(Request::SetSpeedAll { target: Target::All, mode: SpeedMode::Manual(p), invalid: None }),
        None => None,
    }
}

/// The speed control a mode's name other than "Curve" stands for: "Manual"
/// is half speed, "MB Sync" the motherboard's control, others nothing.
pub open spec fn fixed_mode_spec(mode: Seq<char>) -> Option<SpeedMode> {
    if mode == "Manual"@ {
        Some(SpeedMode::Manual(50))
    } else if mode == "MB Sync"@ {
        Some(SpeedMode::Pwm)
    } else {
        None
    }
}

/// The speed control a mode's name stands for, for a group whose current
/// curve is `curve` (empty when it has none): "Curve" keeps that curve, or
/// the one named "Default".
pub fn speed_mode_from_ui(mode: &str, curve: &str) -> (r: Option<SpeedMode>)
    ensures
        mode@ == "Curve"@ ==> (r matches Some(SpeedMode::NamedCurve(n)) && n@ == (if curve@.len() == 0 {
            "Default"@
        } else {
            curve@
        })),
        mode@ != "Curve"@ ==> r == fixed_mode_spec(mode@),
{
    proof {
        reveal_strlit("Manual");
        reveal_strlit("Curve");
        reveal_strlit("MB Sync");
        reveal_strlit("Default");
        assert("Manual"@ != "Curve"@) by {
            assert("Manual"@[0] != "Curve"@[0]);
        }
    }
    if same_text(mode, "Manual") {
        Some(SpeedMode::Manual(50))
    } else if same_text(mode, "Curve") {
        if curve.unicode_len() == 0 {
            Some(SpeedMode::NamedCurve("Default".to_owned()))
        } else {
            Some(SpeedMode::NamedCurve(curve.to_owned()))
        }
    } else if same_text(mode, "MB Sync") {
        Some(SpeedMode::Pwm)
    } else {
        None
    }
}

/// The request the show page's stop button sends, whatever show it names:
/// stop every sequence, since a show cannot be stopped by name.
pub fn stop_show_request(_name: &str) -> (r: Request)
    ensures
        r is StopAllSequences,
{
    Request::StopAllSequences
}

} // verus!
