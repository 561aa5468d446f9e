//! What the GUI's settings page sends and shows: schedule entries and sync
//! settings built from the form's values, the form's toggles read back from
//! a sync configuration, the alert and daemon settings written back after a
//! read, the profile name that may be saved, and the status line after each
//! reply.

use vstd::prelude::*;

use crate::alerts::AlertConfig;
use crate::convert::{
    append_dec, dec_chars, has_prefix, parse_u8, parse_u8_or, parse_u8_spec, schedule_line, schedule_line_text,
};
use crate::handler::{
    alert_config_view, copy_alerts, entry_view, name_problem, name_problem_spec, sync_config_view, AlertConfigView,
    EntryView, Request, Response, ScheduleActionView, SyncConfig, SyncConfigView, TargetView,
};
use crate::model::GroupId;
use crate::scheduler::{FanRole, ScheduleAction, ScheduleEntry, Target, Weekday};
use crate::text::chars_of;
use vstd::string::StrSliceExecFns;

verus! {

/// Every day of the week, Monday first.
pub open spec fn all_week() -> Seq<Weekday> {
    seq![Weekday::Mon, Weekday::Tue, Weekday::Wed, Weekday::Thu, Weekday::Fri, Weekday::Sat, Weekday::Sun]
}

/// `v` clamped to `lo..=hi`.
pub open spec fn clamped(v: int, lo: int, hi: int) -> int {
    if v < lo {
        lo
    } else if v > hi {
        hi
    } else {
        v
    }
}

/// The action of an entry typed as text: `profile:NAME` switches to NAME,
/// `speed:P` sets every group to P percent (50 when P is not a number from
/// 0 to 255), anything else switches to the profile named by the whole text.
pub open spec fn ui_action(a: Seq<char>) -> ScheduleActionView {
    if has_prefix(a, "profile:"@) {
        ScheduleActionView::SwitchProfile(a.subrange(8, a.len() as int))
    } else if has_prefix(a, "speed:"@) {
        ScheduleActionView::SetSpeed { target: TargetView::All, percent: parse_u8_or(a.subrange(6, a.len() as int), 50) }
    } else {
        ScheduleActionView::SwitchProfile(a)
    }
}

/// The entry the form describes: the hour clamped to 0..=23, the minute to
/// 0..=59, every day of the week, and the typed action.
pub open spec fn ui_entry(hour: i32, minute: i32, action: Seq<char>) -> EntryView {
    EntryView {
        hour: clamped(hour as int, 0, 23) as u8,
        minute: clamped(minute as int, 0, 59) as u8,
        days: all_week(),
        action: ui_action(action),
    }
}

fn clamp_to(v: i32, hi: i32) -> (r: u8)
    requires
        0 <= hi <= 255,
    ensures
        r == clamped(v as int, 0, hi as int),
{
    if v < 0 {
        0
    } else if v > hi {
        hi as u8
    } else {
        v as u8
    }
}

/// Whether the text starts with `p`.
fn starts_with(s: &Vec<char>, p: &str) -> (r: bool)
    ensures
        r == has_prefix(s@, p@),
{
    let pc = chars_of(p);
    if pc.len() > s.len() {
        return false;
    }
    let mut i: usize = 0;
    while i < pc.len()
        invariant
            pc@ == p@,
            pc@.len() <= s@.len(),
            i <= pc@.len(),
            forall|j: int| 0 <= j < i ==> s@[j] == pc@[j],
        decreases pc@.len() - i,
    {
        if s[i] != pc[i] {
            assert(s@.subrange(0, pc@.len() as int)[i as int] != pc@[i as int]);
            return false;
        }
        i = i + 1;
    }
    assert(s@.subrange(0, pc@.len() as int) =~= pc@);
    true
}

/// The schedule entry the form's hour, minute and action text describe.
pub fn schedule_entry_from_ui(hour: i32, minute: i32, action: &str) -> (e: ScheduleEntry)
    ensures
        entry_view(e) == ui_entry(hour, minute, action@),
{
    proof {
        reveal_strlit("profile:");
        reveal_strlit("speed:");
    }
    let a = chars_of(action);
    let n = action.unicode_len();
    let act = if starts_with(&a, "profile:") {
        ScheduleAction::SwitchProfile(action.substring_char(8, n).to_owned())
    } else if starts_with(&a, "speed:") {
        let percent = match parse_u8(&a, 6, n) {
            Some(p) => p,
            None => 50,
        };
        ScheduleAction::SetSpeed { target: Target::All, percent }
    } else {
        ScheduleAction::SwitchProfile(action.to_owned())
    };
    let days = vec![Weekday::Mon, Weekday::Tue, Weekday::Wed, Weekday::Thu, Weekday::Fri, Weekday::Sat, Weekday::Sun];
    assert(days@ =~= all_week());
    ScheduleEntry { hour: clamp_to(hour, 23), minute: clamp_to(minute, 59), days, action: act }
}

// ---------------------------------------------------------------------------
// Sync settings
// ---------------------------------------------------------------------------

/// A white-space character, as `char::is_whitespace` and `str::trim` know it
/// (the Unicode White_Space property).
pub open spec fn is_white(c: char) -> bool {
    let u = c as u32;
    ||| 0x09 <= u <= 0x0D
    ||| u == 0x20
    ||| u == 0x85
    ||| u == 0xA0
    ||| u == 0x1680
    ||| 0x2000 <= u <= 0x200A
    ||| u == 0x2028
    ||| u == 0x2029
    ||| u == 0x202F
    ||| u == 0x205F
    ||| u == 0x3000
}

/// The text without leading white space.
pub open spec fn trim_start(s: Seq<char>) -> Seq<char>
    decreases s.len(),
{
    if s.len() > 0 && is_white(s[0]) {
        trim_start(s.drop_first())
    } else {
        s
    }
}

/// The text without trailing white space.
pub open spec fn trim_end(s: Seq<char>) -> Seq<char>
    decreases s.len(),
{
    if s.len() > 0 && is_white(s.last()) {
        trim_end(s.drop_last())
    } else {
        s
    }
}

/// The text without white space at either end, as `str::trim` gives it.
pub open spec fn trimmed(s: Seq<char>) -> Seq<char> {
    trim_end(trim_start(s))
}

/// The parts of a text between commas, as `str::split(',')` gives them (an
/// empty text is one empty part).
pub open spec fn comma_parts(s: Seq<char>) -> Seq<Seq<char>>
    decreases s.len(),
{
    if s.len() == 0 {
        seq![Seq::empty()]
    } else {
        let p = comma_parts(s.drop_last());
        if s.last() == ',' {
            p.push(Seq::empty())
        } else {
            p.update(p.len() - 1, p.last().push(s.last()))
        }
    }
}

/// The groups the parts name: each part that, trimmed, is a number from 0
/// to 255, in order; the others are dropped.
pub open spec fn groups_named(parts: Seq<Seq<char>>) -> Seq<GroupId>
    decreases parts.len(),
{
    if parts.len() == 0 {
        Seq::empty()
    } else {
        let rest = groups_named(parts.drop_last());
        match parse_u8_spec(trimmed(parts.last())) {
            Some(v) => rest.push(GroupId(v)),
            None => rest,
        }
    }
}

proof fn lemma_comma_parts_nonempty(s: Seq<char>)
    ensures
        comma_parts(s).len() >= 1,
    decreases s.len(),
{
    if s.len() > 0 {
        lemma_comma_parts_nonempty(s.drop_last());
    }
}

proof fn lemma_trim_start_skip(s: Seq<char>, i: int)
    requires
        0 <= i < s.len(),
        is_white(s[i]),
        trim_start(s) == trim_start(s.subrange(i, s.len() as int)),
    ensures
        trim_start(s) == trim_start(s.subrange(i + 1, s.len() as int)),
{
    assert(s.subrange(i, s.len() as int).drop_first() =~= s.subrange(i + 1, s.len() as int));
}

proof fn lemma_trim_end_skip(s: Seq<char>, j: int)
    requires
        0 < j <= s.len(),
        is_white(s[j - 1]),
        trim_end(s) == trim_end(s.subrange(0, j)),
    ensures
        trim_end(s) == trim_end(s.subrange(0, j - 1)),
{
    assert(s.subrange(0, j).drop_last() =~= s.subrange(0, j - 1));
}

fn white(c: char) -> (r: bool)
    ensures
        r == is_white(c),
{
    let u = c as u32;
    (0x09 <= u && u <= 0x0D) || u == 0x20 || u == 0x85 || u == 0xA0 || u == 0x1680 || (0x2000 <= u && u <= 0x200A)
        || u == 0x2028 || u == 0x2029 || u == 0x202F || u == 0x205F || u == 0x3000
}

/// The group a part names, if it names one.
fn part_group(part: &Vec<char>) -> (r: Option<GroupId>)
    ensures
        r == (match parse_u8_spec(trimmed(part@)) {
            Some(v) => Some(GroupId(v)),
            None => None,
        }),
{
    let n = part.len();
    let mut i: usize = 0;
    assert(part@.subrange(0, n as int) =~= part@);
    while i < n && white(part[i])
        invariant
            n == part@.len(),
            i <= n,
            trim_start(part@) == trim_start(part@.subrange(i as int, n as int)),
        decreases n - i,
    {
        proof {
            lemma_trim_start_skip(part@, i as int);
        }
        i = i + 1;
    }
    let ghost front = part@.subrange(i as int, n as int);
    proof {
        if i < n {
            assert(front[0] == part@[i as int]);
        }
        assert(trim_start(front) == front);
    }
    let mut j: usize = n;
    assert(front.subrange(0, (j - i) as int) =~= front);
    while j > i && white(part[j - 1])
        invariant
            n == part@.len(),
            i <= j <= n,
            front == part@.subrange(i as int, n as int),
            trim_end(front) == trim_end(front.subrange(0, (j - i) as int)),
        decreases j - i,
    {
        proof {
            assert(front[(j - i) - 1] == part@[j - 1]);
            lemma_trim_end_skip(front, (j - i) as int);
        }
        j = j - 1;
    }
    proof {
        let t = front.subrange(0, (j - i) as int);
        if j > i {
            assert(t.last() == part@[j - 1]);
        }
        assert(trim_end(t) == t);
        assert(t =~= part@.subrange(i as int, j as int));
    }
    match parse_u8(part, i, j) {
        Some(v) => Some(GroupId(v)),
        None => None,
    }
}

/// The groups named in comma-separated text, in order: each part that,
/// trimmed, is a number from 0 to 255.
pub fn groups_from_text(text: &str) -> (r: Vec<GroupId>)
    ensures
        r@ == groups_named(comma_parts(text@)),
{
    let s = chars_of(text);
    let mut done: Vec<GroupId> = Vec::new();
    let mut part: Vec<char> = Vec::new();
    let ghost parts: Seq<Seq<char>> = Seq::empty();
    let mut i: usize = 0;
    while i < s.len()
        invariant
            s@ == text@,
            i <= s@.len(),
            comma_parts(s@.subrange(0, i as int)) == parts.push(part@),
            done@ == groups_named(parts),
        decreases s@.len() - i,
    {
        let c = s[i];
        proof {
            assert(s@.subrange(0, i + 1).drop_last() =~= s@.subrange(0, i as int));
            assert(s@.subrange(0, i + 1).last() == c);
        }
        if c == ',' {
            let g = part_group(&part);
            match g {
                Some(x) => done.push(x),
                None => {},
            }
            proof {
                assert(parts.push(part@).drop_last() =~= parts);
                parts = parts.push(part@);
            }
            part = Vec::new();
            proof {
                assert(part@ =~= Seq::<char>::empty());
            }
        } else {
            let ghost p0 = part@;
            part.push(c);
            proof {
                let q = parts.push(p0);
                assert(q.update(q.len() - 1, q.last().push(c)) =~= parts.push(part@));
            }
        }
        i = i + 1;
    }
    proof {
        assert(s@.subrange(0, i as int) =~= s@);
        assert(parts.push(part@).drop_last() =~= parts);
    }
    match part_group(&part) {
        Some(x) => done.push(x),
        None => {},
    }
    done
}

/// The roles picked by the three filters, in intake, exhaust, pump order.
pub open spec fn picked_roles(intake: bool, exhaust: bool, pump: bool) -> Seq<FanRole> {
    let a = if intake {
        seq![FanRole::Intake]
    } else {
        Seq::empty()
    };
    let b = if exhaust {
        a.push(FanRole::Exhaust)
    } else {
        a
    };
    if pump {
        b.push(FanRole::Pump)
    } else {
        b
    }
}

/// The sync settings the form describes.
pub open spec fn ui_sync(
    enabled: bool,
    lianli: bool,
    mobo: bool,
    openrgb: bool,
    intake: bool,
    exhaust: bool,
    pump: bool,
    exclude: Seq<char>,
) -> SyncConfigView {
    SyncConfigView {
        enabled,
        include_lianli: lianli,
        include_mobo_rgb: mobo,
        include_openrgb: openrgb,
        include_roles: picked_roles(intake, exhaust, pump),
        include_device_types: Seq::empty(),
        exclude_groups: groups_named(comma_parts(exclude)),
    }
}

/// The sync settings built from the form: the four switches, the roles
/// picked, every device type, and the groups named in the exclusion text.
pub fn sync_config_from_ui(
    enabled: bool,
    lianli: bool,
    mobo: bool,
    openrgb: bool,
    intake: bool,
    exhaust: bool,
    pump: bool,
    exclude: &str,
) -> (c: SyncConfig)
    ensures
        sync_config_view(c) == ui_sync(enabled, lianli, mobo, openrgb, intake, exhaust, pump, exclude@),
{
    let mut roles: Vec<FanRole> = Vec::new();
    if intake {
        roles.push(FanRole::Intake);
    }
    if exhaust {
        roles.push(FanRole::Exhaust);
    }
    if pump {
        roles.push(FanRole::Pump);
    }
    assert(roles@ =~= picked_roles(intake, exhaust, pump));
    SyncConfig {
        enabled,
        include_lianli: lianli,
        include_mobo_rgb: mobo,
        include_openrgb: openrgb,
        include_roles: roles,
        include_device_types: Vec::new(),
        exclude_groups: groups_from_text(exclude),
    }
}

/// The sync form as shown: the four switches, each role filter (all on when
/// the settings name no role), and the excluded groups as text.
pub struct SyncForm {
    pub enabled: bool,
    pub lianli: bool,
    pub mobo: bool,
    pub openrgb: bool,
    pub intake: bool,
    pub exhaust: bool,
    pub pump: bool,
    pub exclude: String,
}

/// The excluded groups as text: their numbers joined by commas.
pub open spec fn joined_groups(gs: Seq<GroupId>) -> Seq<char>
    decreases gs.len(),
{
    if gs.len() == 0 {
        Seq::empty()
    } else if gs.len() == 1 {
        dec_chars(gs[0].0 as nat)
    } else {
        joined_groups(gs.drop_last()) + ","@ + dec_chars(gs.last().0 as nat)
    }
}

/// A role filter is shown on when no role is named or the role is.
pub open spec fn filter_on(roles: Seq<FanRole>, r: FanRole) -> bool {
    roles.len() == 0 || roles.contains(r)
}

fn role_named(roles: &Vec<FanRole>, r: FanRole) -> (b: bool)
    requires
        r == FanRole::Intake || r == FanRole::Exhaust || r == FanRole::Pump,
    ensures
        b == filter_on(roles@, r),
{
    if roles.len() == 0 {
        return true;
    }
    let mut i: usize = 0;
    while i < roles.len()
        invariant
            i <= roles@.len(),
            r == FanRole::Intake || r == FanRole::Exhaust || r == FanRole::Pump,
            forall|j: int| 0 <= j < i ==> roles@[j] != r,
        decreases roles@.len() - i,
    {
        let same = match (&roles[i], &r) {
            (FanRole::Intake, FanRole::Intake) => true,
            (FanRole::Exhaust, FanRole::Exhaust) => true,
            (FanRole::Pump, FanRole::Pump) => true,
            _ => false,
        };
        if same {
            assert(roles@[i as int] == r);
            return true;
        }
        i = i + 1;
    }
    false
}

/// The sync form that shows a sync configuration.
pub fn sync_form(c: &SyncConfig) -> (f: SyncForm)
    ensures
        f.enabled == c.enabled,
        f.lianli == c.include_lianli,
        f.mobo == c.include_mobo_rgb,
        f.openrgb == c.include_openrgb,
        f.intake == filter_on(c.include_roles@, FanRole::Intake),
        f.exhaust == filter_on(c.include_roles@, FanRole::Exhaust),
        f.pump == filter_on(c.include_roles@, FanRole::Pump),
        f.exclude@ == joined_groups(c.exclude_groups@),
{
    let mut text = String::new();
    let gs = &c.exclude_groups;
    let mut i: usize = 0;
    while i < gs.len()
        invariant
            i <= gs@.len(),
            text@ == joined_groups(gs@.subrange(0, i as int)),
        decreases gs@.len() - i,
    {
        proof {
            assert(gs@.subrange(0, i + 1).drop_last() =~= gs@.subrange(0, i as int));
            reveal_strlit(",");
        }
        if i > 0 {
            text.append(",");
        }
        append_dec(&mut text, gs[i].0);
        proof {
            if i == 0 {
                assert(text@ =~= dec_chars(gs@[0].0 as nat));
            }
        }
        i = i + 1;
    }
    proof {
        assert(gs@.subrange(0, i as int) =~= gs@);
    }
    SyncForm {
        enabled: c.enabled,
        lianli: c.include_lianli,
        mobo: c.include_mobo_rgb,
        openrgb: c.include_openrgb,
        intake: role_named(&c.include_roles, FanRole::Intake),
        exhaust: role_named(&c.include_roles, FanRole::Exhaust),
        pump: role_named(&c.include_roles, FanRole::Pump),
        exclude: text,
    }
}

// ---------------------------------------------------------------------------
// Daemon and alert settings
// ---------------------------------------------------------------------------

/// The alert settings written back: those read (the defaults, no alerts and
/// both checks on, when the read gave none) with the two checks as the form
/// sets them.
pub open spec fn form_alerts(read: Response, fan_stall: bool, disconnect: bool) -> AlertConfigView {
    AlertConfigView {
        temp_alerts: match read {
            Response::AlertConfig(c) => c.temp_alerts@,
            _ => Seq::empty(),
        },
        fan_stall_detect: fan_stall,
        device_disconnect: disconnect,
    }
}

/// The alert settings to write back after reading `read`.
pub fn alert_config_from_form(read: &Response, fan_stall: bool, disconnect: bool) -> (c: AlertConfig)
    ensures
        alert_config_view(c) == form_alerts(*read, fan_stall, disconnect),
{
    let mut c = match read {
        Response::AlertConfig(cfg) => copy_alerts(cfg),
        _ => AlertConfig { temp_alerts: Vec::new(), fan_stall_detect: true, device_disconnect: true },
    };
    c.fan_stall_detect = fan_stall;
    c.device_disconnect = disconnect;
    c
}

/// The poll interval a form's value stands for: its bits read as unsigned.
pub open spec fn poll_from_form(poll_ms: i32) -> u32 {
    if poll_ms >= 0 {
        poll_ms as u32
    } else {
        (poll_ms + 0x1_0000_0000) as u32
    }
}

/// The daemon settings to write back after reading `read`: the interval the
/// form sets, when the read gave the daemon's settings; nothing otherwise.
pub fn daemon_config_from_form(read: &Response, poll_ms: i32) -> (r: Option<Request>)
    ensures
        read is DaemonConfig <==> r is Some,
        r matches Some(q) ==> q matches Request::SetDaemonConfig { poll_interval_ms } && poll_interval_ms
            == poll_from_form(poll_ms),
{
    match read {
        Response::DaemonConfig { .. } => {
            let poll: u32 = if poll_ms >= 0 {
                poll_ms as u32
            } else {
                (poll_ms as i64 + 0x1_0000_0000i64) as u32
            };
            Some(Request::SetDaemonConfig { poll_interval_ms: poll })
        },
        _ => None,
    }
}

/// The profile save the form asks for: none for an empty or invalid name.
pub fn save_profile_request(name: &str) -> (r: Option<Request>)
    ensures
        r is Some <==> name_problem_spec(name@) is None,
        r matches Some(q) ==> q matches Request::SaveProfile { name: n } && n@ == name@,
{
    match name_problem(name) {
        Some(_) => None,
        None => Some(Request::SaveProfile { name: name.to_owned() }),
    }
}

// ---------------------------------------------------------------------------
// Status line
// ---------------------------------------------------------------------------

/// What the settings page just asked the daemon.
#[derive(Clone, Copy, Debug, PartialEq, Eq, Structural)]
pub enum SettingsStep {
    Calibration,
    AlertConfig,
    DaemonConfig,
    SyncConfig,
    AddSchedule,
    SwitchProfile,
    DeleteProfile,
    SaveProfile,
}

/// Prefix of the status line when a step failed.
pub open spec fn failure_prefix(step: SettingsStep) -> Seq<char> {
    match step {
        SettingsStep::Calibration => "Calibration save failed: "@,
        SettingsStep::AlertConfig => "Alert config save failed: "@,
        SettingsStep::DaemonConfig => "Config save failed: "@,
        SettingsStep::SyncConfig => "Sync save failed: "@,
        SettingsStep::AddSchedule => "Add schedule failed: "@,
        SettingsStep::SwitchProfile => "Switch failed: "@,
        SettingsStep::DeleteProfile => "Delete failed: "@,
        SettingsStep::SaveProfile => "Save failed: "@,
    }
}

/// The status line after a step's reply: the error with the step's prefix;
/// "Settings saved" or "Sync config saved" when those succeed; nothing
/// otherwise.
pub open spec fn status_after(step: SettingsStep, reply: Response) -> Option<Seq<char>> {
    match reply {
        Response::Error(e) => Some(failure_prefix(step) + e@),
        Response::Done => match step {
            SettingsStep::DaemonConfig => Some("Settings saved"@),
            SettingsStep::SyncConfig => Some("Sync config saved"@),
            _ => None,
        },
        _ => None,
    }
}

/// The status line to show after a step's reply, if any.
pub fn settings_status(step: SettingsStep, reply: &Response) -> (r: Option<String>)
    ensures
        match r {
            Some(m) => status_after(step, *reply) == Some(m@),
            None => status_after(step, *reply) is None,
        },
{
    match reply {
        Response::Error(e) => {
            let mut m = match step {
                SettingsStep::Calibration => "Calibration save failed: ".to_owned(),
                SettingsStep::AlertConfig => "Alert config save failed: ".to_owned(),
                SettingsStep::DaemonConfig => "Config save failed: ".to_owned(),
                SettingsStep::SyncConfig => "Sync save failed: ".to_owned(),
                SettingsStep::AddSchedule => "Add schedule failed: ".to_owned(),
                SettingsStep::SwitchProfile => "Switch failed: ".to_owned(),
                SettingsStep::DeleteProfile => "Delete failed: ".to_owned(),
                SettingsStep::SaveProfile => "Save failed: ".to_owned(),
            };
            m.append(e.as_str());
            Some(m)
        },
        Response::Done => match step {
            SettingsStep::DaemonConfig => Some("Settings saved".to_owned()),
            SettingsStep::SyncConfig => Some("Sync config saved".to_owned()),
            _ => None,
        },
        _ => None,
    }
}


// ---------------------------------------------------------------------------
// Schedule list
// ---------------------------------------------------------------------------

/// The schedule list's lines for a reply: one per entry, in order, when the
/// reply is the schedule; nothing otherwise.
pub fn fetch_schedules(reply: &Response) -> (r: Option<Vec<String>>)
    ensures
        match *reply {
            Response::ScheduleList(v) => r matches Some(lines) && lines@.len() == v@.len() && forall|i: int|
                0 <= i < v@.len() ==> (#[trigger] lines@[i])@ == schedule_line_text(v@[i]),
            _ => r is None,
        },
{
    match reply {
        Response::ScheduleList(v) => {
            let mut lines: Vec<String> = Vec::new();
            let mut i: usize = 0;
            while i < v.len()
                invariant
                    i <= v@.len(),
                    lines@.len() == i,
                    forall|j: int| 0 <= j < i ==> (#[trigger] lines@[j])@ == schedule_line_text(v@[j]),
                decreases v@.len() - i,
            {
                lines.push(schedule_line(&v[i]));
                i = i + 1;
            }
            Some(lines)
        },
        _ => None,
    }
}
} // verus!
