//! The GUI's device rows and status line, and how daemon events change them.

use vstd::prelude::*;

use crate::convert::{
    append_dec, append_dec_u64, avg_nonzero_rpm, curve_name_of, dec_chars, positive_count, positive_sum,
    rgb_mode_display, rgb_mode_name, speed_curve_name, speed_mode_name, speed_mode_string, speed_percent,
    speed_percent_of, SpeedMode,
};
use crate::model::GroupId;
use crate::rgb::RgbMode;
use vstd::string::StringExecFns;

verus! {

/// One device group's row in the GUI's device list.
#[derive(Debug)]
pub struct GroupRow {
    pub group: GroupId,
    pub online: bool,
    pub rpms: Vec<i32>,
    pub avg_rpm: i32,
    pub speed_mode: String,
    pub speed_percent: i32,
    pub speed_curve_name: String,
    pub mb_sync: bool,
    pub rgb_mode: String,
}

/// A row's values, texts as characters.
pub struct GroupRowView {
    pub group: GroupId,
    pub online: bool,
    pub rpms: Seq<i32>,
    pub avg_rpm: i32,
    pub speed_mode: Seq<char>,
    pub speed_percent: i32,
    pub speed_curve_name: Seq<char>,
    pub mb_sync: bool,
    pub rgb_mode: Seq<char>,
}

impl View for GroupRow {
    type V = GroupRowView;

    open spec fn view(&self) -> GroupRowView {
        GroupRowView {
            group: self.group,
            online: self.online,
            rpms: self.rpms@,
            avg_rpm: self.avg_rpm,
            speed_mode: self.speed_mode@,
            speed_percent: self.speed_percent,
            speed_curve_name: self.speed_curve_name@,
            mb_sync: self.mb_sync,
            rgb_mode: self.rgb_mode@,
        }
    }
}

/// A daemon event, as far as the GUI shows it.
#[derive(Debug)]
pub enum UiEvent {
    RpmUpdate { group: GroupId, rpms: [u16; 4] },
    SpeedChanged { group: GroupId, mode: SpeedMode },
    RgbChanged { group: GroupId, mode: RgbMode },
    DeviceConnected { group: GroupId },
    DeviceDisconnected { group: GroupId },
    ProfileSwitched { name: String },
    FanStall { group: GroupId, fan: u8 },
    CurveApplied { group: GroupId, speed: u8 },
    SequenceStep { group: GroupId, step_index: usize },
    SequenceEnded { name: String },
    PowerChanged { on_ac: bool },
    BindDiscovered { fan_count: u8 },
}

/// What the GUI shows: the device rows, the status line, the active
/// profile and the running show.
#[derive(Debug)]
pub struct UiState {
    pub rows: Vec<GroupRow>,
    pub status: String,
    pub active_profile: String,
    pub active_show: String,
}

/// The rows' values.
pub open spec fn rows_view(rows: Seq<GroupRow>) -> Seq<GroupRowView> {
    rows.map_values(|r: GroupRow| r@)
}

/// Readings of the four fans, as the row keeps them.
pub open spec fn rpm_values(r: [u16; 4]) -> Seq<i32> {
    seq![r[0] as i32, r[1] as i32, r[2] as i32, r[3] as i32]
}

/// The average of the running fans' readings, 0 when none runs.
pub open spec fn running_average(s: Seq<i32>) -> i32 {
    if positive_count(s) == 0 {
        0
    } else {
        (positive_sum(s) / positive_count(s)) as i32
    }
}

/// The group whose row an event changes, if any.
pub open spec fn event_group(e: UiEvent) -> Option<GroupId> {
    match e {
        UiEvent::RpmUpdate { group, .. } => Some(group),
        UiEvent::SpeedChanged { group, .. } => Some(group),
        UiEvent::RgbChanged { group, .. } => Some(group),
        UiEvent::DeviceConnected { group } => Some(group),
        UiEvent::DeviceDisconnected { group } => Some(group),
        UiEvent::CurveApplied { group, .. } => Some(group),
        _ => None,
    }
}

/// A row after an event for its group.
pub open spec fn row_after(r: GroupRowView, e: UiEvent) -> GroupRowView {
    match e {
        UiEvent::RpmUpdate { rpms, .. } => GroupRowView {
            rpms: rpm_values(rpms),
            avg_rpm: running_average(rpm_values(rpms)),
            ..r
        },
        UiEvent::SpeedChanged { mode, .. } => GroupRowView {
            speed_mode: speed_mode_name(mode)@,
            speed_percent: speed_percent_of(mode),
            speed_curve_name: curve_name_of(mode),
            mb_sync: mode is Pwm,
            ..r
        },
        UiEvent::RgbChanged { mode, .. } => GroupRowView { rgb_mode: rgb_mode_name(mode)@, ..r },
        UiEvent::DeviceConnected { .. } => GroupRowView { online: true, ..r },
        UiEvent::DeviceDisconnected { .. } => GroupRowView { online: false, ..r },
        UiEvent::CurveApplied { speed, .. } => GroupRowView {
            speed_percent: speed as i32,
            speed_mode: "Curve"@,
            ..r
        },
        _ => r,
    }
}

/// Position of the first row of group `g`.
pub open spec fn first_row(rows: Seq<GroupRowView>, g: GroupId) -> Option<int>
    decreases rows.len(),
{
    if rows.len() == 0 {
        None
    } else {
        match first_row(rows.drop_last(), g) {
            Some(i) => Some(i),
            None => if rows.last().group == g {
                Some(rows.len() - 1)
            } else {
                None
            },
        }
    }
}

/// The rows after an event: the first row of its group changes; without
/// such a row, nothing does.
pub open spec fn rows_after(rows: Seq<GroupRowView>, e: UiEvent) -> Seq<GroupRowView> {
    match event_group(e) {
        Some(g) => match first_row(rows, g) {
            Some(i) => rows.update(i, row_after(rows[i], e)),
            None => rows,
        },
        None => rows,
    }
}

/// The status line after an event.
pub open spec fn status_after(status: Seq<char>, e: UiEvent) -> Seq<char> {
    match e {
        UiEvent::FanStall { group, fan } => "Fan stall: group "@ + dec_chars(group.0 as nat) + " fan "@
            + dec_chars(fan as nat),
        UiEvent::SequenceStep { group, step_index } => "Sequence: group "@ + dec_chars(group.0 as nat)
            + " step "@ + dec_chars((step_index + 1) as nat),
        UiEvent::SequenceEnded { name } => "Sequence \""@ + name@ + "\" ended"@,
        UiEvent::PowerChanged { on_ac } => if on_ac {
            "Power: AC"@
        } else {
            "Power: Battery"@
        },
        UiEvent::BindDiscovered { fan_count } => "Unbound device found: "@ + dec_chars(fan_count as nat)
            + " fans"@,
        _ => status,
    }
}

/// The active profile after an event.
pub open spec fn profile_after(profile: Seq<char>, e: UiEvent) -> Seq<char> {
    match e {
        UiEvent::ProfileSwitched { name } => name@,
        _ => profile,
    }
}

/// The running show after an event: none once a show ends.
pub open spec fn show_after(show: Seq<char>, e: UiEvent) -> Seq<char> {
    match e {
        UiEvent::SequenceEnded { .. } => Seq::empty(),
        _ => show,
    }
}

fn find_row(rows: &Vec<GroupRow>, g: GroupId) -> (r: Option<usize>)
    ensures
        match r {
            Some(i) => first_row(rows_view(rows@), g) == Some(i as int),
            None => first_row(rows_view(rows@), g) is None,
        },
{
    let ghost v = rows_view(rows@);
    let mut i: usize = 0;
    while i < rows.len()
        invariant
            i <= rows@.len(),
            v == rows_view(rows@),
            first_row(v.subrange(0, i as int), g) is None,
        decreases rows@.len() - i,
    {
        proof {
            assert(v.subrange(0, i + 1).drop_last() =~= v.subrange(0, i as int));
        }
        if rows[i].group == g {
            proof {
                lemma_first_row_prefix(v, g, i + 1);
            }
            return Some(i);
        }
        i = i + 1;
    }
    proof {
        assert(v.subrange(0, rows@.len() as int) =~= v);
    }
    None
}

proof fn lemma_first_row_prefix(rows: Seq<GroupRowView>, g: GroupId, n: int)
    requires
        0 <= n <= rows.len(),
        first_row(rows.subrange(0, n), g) is Some,
    ensures
        first_row(rows, g) == first_row(rows.subrange(0, n), g),
    decreases rows.len(),
{
    if n < rows.len() {
        assert(rows.drop_last().subrange(0, n) =~= rows.subrange(0, n));
        lemma_first_row_prefix(rows.drop_last(), g, n);
    } else {
        assert(rows.subrange(0, n) =~= rows);
    }
}

proof fn lemma_first_row_range(rows: Seq<GroupRowView>, g: GroupId)
    ensures
        first_row(rows, g) matches Some(i) ==> 0 <= i < rows.len() && rows[i].group == g,
    decreases rows.len(),
{
    if rows.len() > 0 {
        lemma_first_row_range(rows.drop_last(), g);
    }
}

fn rpms_row(r: [u16; 4]) -> (v: Vec<i32>)
    ensures
        v@ == rpm_values(r),
{
    let v = vec![r[0] as i32, r[1] as i32, r[2] as i32, r[3] as i32];
    proof {
        assert(v@ =~= rpm_values(r));
    }
    v
}

/// Applies an event to one row.
fn change_row(row: &mut GroupRow, e: &UiEvent)
    requires
        event_group(*e) is Some,
    ensures
        final(row)@ == row_after(old(row)@, *e),
{
    match e {
        UiEvent::RpmUpdate { rpms, .. } => {
            let v = rpms_row(*rpms);
            proof {
                reveal_with_fuel(positive_sum, 5);
                reveal_with_fuel(positive_count, 5);
            }
            let avg = avg_nonzero_rpm(v.as_slice());
            row.rpms = v;
            row.avg_rpm = avg;
        },
        UiEvent::SpeedChanged { mode, .. } => {
            row.speed_mode = speed_mode_string(mode).to_owned();
            row.speed_percent = speed_percent(mode);
            row.speed_curve_name = speed_curve_name(mode).to_owned();
            row.mb_sync = match mode {
                SpeedMode::Pwm => true,
                _ => false,
            };
        },
        UiEvent::RgbChanged { mode, .. } => {
            row.rgb_mode = rgb_mode_display(mode).to_owned();
        },
        UiEvent::DeviceConnected { .. } => {
            row.online = true;
        },
        UiEvent::DeviceDisconnected { .. } => {
            row.online = false;
        },
        UiEvent::CurveApplied { speed, .. } => {
            row.speed_percent = *speed as i32;
            row.speed_mode = "Curve".to_owned();
        },
        _ => {},
    }
}

fn status_text(e: &UiEvent, current: String) -> (s: String)
    requires
        e matches UiEvent::SequenceStep { step_index, .. } ==> step_index < usize::MAX,
    ensures
        s@ == status_after(current@, *e),
{
    match e {
        UiEvent::FanStall { group, fan } => {
            let mut s = "Fan stall: group ".to_owned();
            append_dec(&mut s, group.0);
            s.append(" fan ");
            append_dec(&mut s, *fan);
            s
        },
        UiEvent::SequenceStep { group, step_index } => {
            let mut s = "Sequence: group ".to_owned();
            append_dec(&mut s, group.0);
            s.append(" step ");
            append_dec_u64(&mut s, (*step_index as u64) + 1);
            s
        },
        UiEvent::SequenceEnded { name } => {
            let mut s = "Sequence \"".to_owned();
            s.append(name.as_str());
            s.append("\" ended");
            s
        },
        UiEvent::PowerChanged { on_ac } => if *on_ac {
            "Power: AC".to_owned()
        } else {
            "Power: Battery".to_owned()
        },
        UiEvent::BindDiscovered { fan_count } => {
            let mut s = "Unbound device found: ".to_owned();
            append_dec(&mut s, *fan_count);
            s.append(" fans");
            s
        },
        _ => current,
    }
}

impl UiState {
    /// Applies a daemon event: the first row of its group, the status line,
    /// the active profile and the running show change as the event says.
    pub fn apply_event(&mut self, e: UiEvent)
        requires
            e matches UiEvent::SequenceStep { step_index, .. } ==> step_index < usize::MAX,
        ensures
            rows_view(final(self).rows@) == rows_after(rows_view(old(self).rows@), e),
            final(self).status@ == status_after(old(self).status@, e),
            final(self).active_profile@ == profile_after(old(self).active_profile@, e),
            final(self).active_show@ == show_after(old(self).active_show@, e),
    {
        let ghost v0 = rows_view(self.rows@);
        let group = match &e {
            UiEvent::RpmUpdate { group, .. } => Some(*group),
            UiEvent::SpeedChanged { group, .. } => Some(*group),
            UiEvent::RgbChanged { group, .. } => Some(*group),
            UiEvent::DeviceConnected { group } => Some(*group),
            UiEvent::DeviceDisconnected { group } => Some(*group),
            UiEvent::CurveApplied { group, .. } => Some(*group),
            _ => None,
        };
        match group {
            Some(g) => match find_row(&self.rows, g) {
                Some(i) => {
                    proof {
                        lemma_first_row_range(v0, g);
                    }
                    let ghost before = self.rows@;
                    let mut row = self.rows.remove(i);
                    change_row(&mut row, &e);
                    self.rows.insert(i, row);
                    proof {
                        assert(rows_view(self.rows@) =~= v0.update(i as int, row_after(v0[i as int], e)));
                    }
                },
                None => {},
            },
            None => {},
        }
        let mut current = String::new();
        std::mem::swap(&mut current, &mut self.status);
        self.status = status_text(&e, current);
        match e {
            UiEvent::ProfileSwitched { name } => {
                self.active_profile = name;
            },
            UiEvent::SequenceEnded { .. } => {
                self.active_show = String::new();
            },
            _ => {},
        }
    }
}

} // verus!
