//! Schedule runner — evaluates time-based schedule entries.
//!
//! Checks configured schedules against the current local time and day and
//! yields the matching actions. Checks run at most once per 55 seconds and
//! at most once per wall-clock minute, so each schedule fires once within
//! the minute of its target time. The caller supplies the clock: a
//! monotonic seconds counter and the local time.

use vstd::prelude::*;

use crate::convert::{append_dec, dec_chars};
use crate::model::GroupId;

verus! {

/// Seconds that must pass between two checks.
pub const CHECK_INTERVAL_SECS: u64 = 55;

/// Day of the week.
#[derive(Clone, Copy, Debug, PartialEq, Eq, Structural)]
pub enum Weekday {
    Mon,
    Tue,
    Wed,
    Thu,
    Fri,
    Sat,
    Sun,
}

/// Role of a fan group in the case airflow.
#[derive(Clone, Debug)]
pub enum FanRole {
    Intake,
    Exhaust,
    Pump,
    Custom(String),
}

/// Which groups a request addresses.
#[derive(Clone, Debug)]
pub enum Target {
    All,
    Group(GroupId),
    Groups(Vec<GroupId>),
    Role(FanRole),
}

/// What a schedule entry does when it fires.
#[derive(Clone, Debug)]
pub enum ScheduleAction {
    SwitchProfile(String),
    SetSpeed { target: Target, percent: u8 },
    ApplyCurve { target: Target, curve: String },
}

/// A time of day (and optionally days of the week) with an action.
/// An empty `days` list means every day.
#[derive(Clone, Debug)]
pub struct ScheduleEntry {
    pub hour: u8,
    pub minute: u8,
    pub days: Vec<Weekday>,
    pub action: ScheduleAction,
}

/// Why an entry is refused: an hour past 23 is named first, then a minute
/// past 59.
pub open spec fn entry_error(e: ScheduleEntry) -> Option<Seq<char>> {
    if e.hour > 23 {
        Some("hour must be 0-23, got "@ + dec_chars(e.hour as nat))
    } else if e.minute > 59 {
        Some("minute must be 0-59, got "@ + dec_chars(e.minute as nat))
    } else {
        None
    }
}

impl ScheduleEntry {
    /// Checks that the time is a time of day.
    pub fn validate(&self) -> (r: Result<(), String>)
        ensures
            match r {
                Ok(()) => entry_error(*self) is None,
                Err(msg) => entry_error(*self) == Some(msg@),
            },
    {
        if self.hour > 23 {
            let mut msg = "hour must be 0-23, got ".to_owned();
            append_dec(&mut msg, self.hour);
            Err(msg)
        } else if self.minute > 59 {
            let mut msg = "minute must be 0-59, got ".to_owned();
            append_dec(&mut msg, self.minute);
            Err(msg)
        } else {
            Ok(())
        }
    }
}

/// Actions the schedule runner wants the engine to execute.
#[derive(Clone, Debug)]
pub enum ScheduleCommand {
    SwitchProfile(String),
    SetSpeed { group: GroupId, percent: u8 },
    ApplyCurve { group: GroupId, curve: String },
}

/// Local wall-clock time of day.
#[derive(Clone, Copy, Debug, PartialEq, Eq, Structural)]
pub struct LocalTime {
    pub hour: u8,
    pub minute: u8,
    pub weekday: Weekday,
}

/// Evaluates schedules against the clock.
#[derive(Debug)]
pub struct ScheduleRunner {
    pub entries: Vec<ScheduleEntry>,
    /// Last minute evaluated (hour * 60 + minute), to prevent repeat firing.
    pub last_evaluated_minute: Option<u16>,
    /// Monotonic seconds of the last check.
    pub last_check_secs: u64,
}

/// Groups a target stands for; a role stands for every group.
pub open spec fn resolve_spec(target: Target, all: Seq<GroupId>) -> Seq<GroupId> {
    match target {
        Target::All => all,
        Target::Group(g) => seq![g],
        Target::Groups(gs) => gs@,
        Target::Role(_) => all,
    }
}

/// The entry is due at `now`.
pub open spec fn entry_due(e: ScheduleEntry, now: LocalTime) -> bool {
    &&& e.hour == now.hour
    &&& e.minute == now.minute
    &&& (e.days@.len() == 0 || e.days@.contains(now.weekday))
}

/// Commands of one entry's action.
pub open spec fn action_commands(a: ScheduleAction, all: Seq<GroupId>) -> Seq<ScheduleCommand> {
    match a {
        ScheduleAction::SwitchProfile(name) => seq![ScheduleCommand::SwitchProfile(name)],
        ScheduleAction::SetSpeed { target, percent } => resolve_spec(target, all).map_values(
            |g: GroupId| ScheduleCommand::SetSpeed { group: g, percent },
        ),
        ScheduleAction::ApplyCurve { target, curve } => resolve_spec(target, all).map_values(
            |g: GroupId| ScheduleCommand::ApplyCurve { group: g, curve },
        ),
    }
}

/// Commands of the due entries, in entry order.
pub open spec fn due_commands(es: Seq<ScheduleEntry>, now: LocalTime, all: Seq<GroupId>) -> Seq<
    ScheduleCommand,
>
    decreases es.len(),
{
    if es.len() == 0 {
        Seq::empty()
    } else {
        let rest = due_commands(es.drop_last(), now, all);
        if entry_due(es.last(), now) {
            rest + action_commands(es.last().action, all)
        } else {
            rest
        }
    }
}

/// Minute of the day.
pub open spec fn minute_of_day(now: LocalTime) -> int {
    now.hour * 60 + now.minute
}

/// Whether a check at `now_secs` comes too soon after the last one
/// (a clock reading before the last check counts as no time elapsed).
pub open spec fn too_soon(last_check: u64, now_secs: u64) -> bool {
    now_secs < last_check || now_secs - last_check < CHECK_INTERVAL_SECS
}

fn copy_groups(groups: &[GroupId]) -> (r: Vec<GroupId>)
    ensures
        r@ == groups@,
{
    let mut r: Vec<GroupId> = Vec::new();
    let mut i: usize = 0;
    while i < groups.len()
        invariant
            i <= groups@.len(),
            r@ == groups@.subrange(0, i as int),
        decreases groups@.len() - i,
    {
        r.push(groups[i]);
        i = i + 1;
    }
    assert(groups@.subrange(0, i as int) =~= groups@);
    r
}

/// One evaluation from the check time and last minute of the runner:
/// the new check time, the new last minute and the commands.
pub open spec fn evaluate_spec(
    last_check: u64,
    last_minute: Option<u16>,
    entries: Seq<ScheduleEntry>,
    now_secs: u64,
    now: LocalTime,
    all: Seq<GroupId>,
) -> (u64, Option<u16>, Seq<ScheduleCommand>) {
    if too_soon(last_check, now_secs) {
        (last_check, last_minute, Seq::empty())
    } else if last_minute == Some(minute_of_day(now) as u16) {
        (now_secs, last_minute, Seq::empty())
    } else {
        (now_secs, Some(minute_of_day(now) as u16), due_commands(entries, now, all))
    }
}

/// A schedule fires at most once per minute: of two consecutive
/// evaluations at the same local time, at most one yields commands.
pub proof fn law_fires_once_per_minute(
    last_check: u64,
    last_minute: Option<u16>,
    entries: Seq<ScheduleEntry>,
    first_secs: u64,
    second_secs: u64,
    now: LocalTime,
    all: Seq<GroupId>,
)
    ensures
        ({
            let (c1, m1, r1) = evaluate_spec(last_check, last_minute, entries, first_secs, now, all);
            let (c2, m2, r2) = evaluate_spec(c1, m1, entries, second_secs, now, all);
            r1.len() == 0 || r2.len() == 0
        }),
{
}

/// Nothing fires within 55 seconds of the last check, and the runner is left as it was.
pub proof fn law_rate_limited(
    last_check: u64,
    last_minute: Option<u16>,
    entries: Seq<ScheduleEntry>,
    now_secs: u64,
    now: LocalTime,
    all: Seq<GroupId>,
)
    requires
        last_check <= now_secs < last_check + CHECK_INTERVAL_SECS,
    ensures
        evaluate_spec(last_check, last_minute, entries, now_secs, now, all) == (
            last_check,
            last_minute,
            Seq::<ScheduleCommand>::empty(),
        ),
{
}

/// Once the check interval has passed and the minute is new, evaluation
/// yields the due entries' commands in entry order: for entries `a`
/// followed by `b`, the commands of `a` followed by those of `b`. Each
/// entry contributes its action's commands when its hour and minute are
/// now and its days are empty or hold today.
pub proof fn law_due_commands_concatenate(
    last_check: u64,
    last_minute: Option<u16>,
    a: Seq<ScheduleEntry>,
    b: Seq<ScheduleEntry>,
    now_secs: u64,
    now: LocalTime,
    all: Seq<GroupId>,
)
    requires
        !too_soon(last_check, now_secs),
        last_minute != Some(minute_of_day(now) as u16),
    ensures
        evaluate_spec(last_check, last_minute, a + b, now_secs, now, all) == (
            now_secs,
            Some(minute_of_day(now) as u16),
            due_commands(a, now, all) + due_commands(b, now, all),
        ),
        due_commands(seq![], now, all) == Seq::<ScheduleCommand>::empty(),
        forall|e: ScheduleEntry|
            #[trigger] due_commands(seq![e], now, all) == if entry_due(e, now) {
                action_commands(e.action, all)
            } else {
                Seq::empty()
            },
{
    lemma_due_concat(a, b, now, all);
    assert forall|e: ScheduleEntry|
        #[trigger] due_commands(seq![e], now, all) == if entry_due(e, now) {
            action_commands(e.action, all)
        } else {
            Seq::empty()
        } by {
        assert(seq![e].drop_last() =~= Seq::<ScheduleEntry>::empty());
        assert(seq![e].last() == e);
        assert(due_commands(Seq::<ScheduleEntry>::empty(), now, all) == Seq::<ScheduleCommand>::empty());
        assert(Seq::<ScheduleCommand>::empty() + action_commands(e.action, all) =~= action_commands(
            e.action,
            all,
        ));
    }
}

proof fn lemma_due_concat(a: Seq<ScheduleEntry>, b: Seq<ScheduleEntry>, now: LocalTime, all: Seq<GroupId>)
    ensures
        due_commands(a + b, now, all) == due_commands(a, now, all) + due_commands(b, now, all),
    decreases b.len(),
{
    if b.len() == 0 {
        assert(a + b =~= a);
        assert(due_commands(a, now, all) + Seq::<ScheduleCommand>::empty() =~= due_commands(a, now, all));
    } else {
        lemma_due_concat(a, b.drop_last(), now, all);
        assert((a + b).drop_last() =~= a + b.drop_last());
        assert((a + b).last() == b.last());
        let x = due_commands(a, now, all);
        let y = due_commands(b.drop_last(), now, all);
        let z = action_commands(b.last().action, all);
        assert(x + y + z =~= x + (y + z));
    }
}

/// Groups a target resolves to.
pub fn resolve_target(target: &Target, all_groups: &[GroupId]) -> (r: Vec<GroupId>)
    ensures
        r@ == resolve_spec(*target, all_groups@),
{
    match target {
        Target::All => copy_groups(all_groups),
        Target::Group(g) => vec![*g],
        Target::Groups(gs) => gs.clone(),
        Target::Role(_) => copy_groups(all_groups),
    }
}

/// Weekday of a C `tm_wday` value (0 is Sunday); out-of-range values read as Monday.
pub fn weekday_from_tm(wday: i32) -> (d: Weekday)
    ensures
        d == (if wday == 0 {
            Weekday::Sun
        } else if wday == 1 {
            Weekday::Mon
        } else if wday == 2 {
            Weekday::Tue
        } else if wday == 3 {
            Weekday::Wed
        } else if wday == 4 {
            Weekday::Thu
        } else if wday == 5 {
            Weekday::Fri
        } else if wday == 6 {
            Weekday::Sat
        } else {
            Weekday::Mon
        }),
{
    match wday {
        0 => Weekday::Sun,
        1 => Weekday::Mon,
        2 => Weekday::Tue,
        3 => Weekday::Wed,
        4 => Weekday::Thu,
        5 => Weekday::Fri,
        6 => Weekday::Sat,
        _ => Weekday::Mon,
    }
}

/// Convert Unix seconds to `libc::time_t`, saturating instead of wrapping.
pub fn saturating_time_t(secs: u64) -> (t: i64)
    ensures
        t == (if secs <= i64::MAX as u64 {
            secs as int
        } else {
            i64::MAX as int
        }),
{
    if secs <= i64::MAX as u64 {
        secs as i64
    } else {
        i64::MAX
    }
}

fn day_matches(days: &Vec<Weekday>, day: Weekday) -> (r: bool)
    ensures
        r == (days@.len() == 0 || days@.contains(day)),
{
    if days.len() == 0 {
        return true;
    }
    let mut i: usize = 0;
    while i < days.len()
        invariant
            i <= days@.len(),
            forall|j: int| 0 <= j < i ==> days@[j] != day,
        decreases days@.len() - i,
    {
        if days[i] == day {
            assert(days@[i as int] == day);
            return true;
        }
        i = i + 1;
    }
    false
}

fn push_commands(commands: &mut Vec<ScheduleCommand>, action: &ScheduleAction, all_groups: &[GroupId])
    ensures
        final(commands)@ == old(commands)@ + action_commands(*action, all_groups@),
{
    let ghost c0 = commands@;
    match action {
        ScheduleAction::SwitchProfile(name) => {
            commands.push(ScheduleCommand::SwitchProfile(name.clone()));
            assert(commands@ =~= c0 + action_commands(*action, all_groups@));
        },
        ScheduleAction::SetSpeed { target, percent } => {
            let groups = resolve_target(target, all_groups);
            let ghost want = action_commands(*action, all_groups@);
            let mut i: usize = 0;
            while i < groups.len()
                invariant
                    i <= groups@.len(),
                    want == groups@.map_values(
                        |g: GroupId| ScheduleCommand::SetSpeed { group: g, percent: *percent },
                    ),
                    commands@ =~= c0 + want.subrange(0, i as int),
                decreases groups@.len() - i,
            {
                commands.push(ScheduleCommand::SetSpeed { group: groups[i], percent: *percent });
                assert(want.subrange(0, i + 1) =~= want.subrange(0, i as int).push(want[i as int]));
                i = i + 1;
            }
            assert(want.subrange(0, i as int) =~= want);
        },
        ScheduleAction::ApplyCurve { target, curve } => {
            let groups = resolve_target(target, all_groups);
            let ghost want = action_commands(*action, all_groups@);
            let mut i: usize = 0;
            while i < groups.len()
                invariant
                    i <= groups@.len(),
                    want == groups@.map_values(
                        |g: GroupId| ScheduleCommand::ApplyCurve { group: g, curve: *curve },
                    ),
                    commands@ =~= c0 + want.subrange(0, i as int),
                decreases groups@.len() - i,
            {
                commands.push(ScheduleCommand::ApplyCurve { group: groups[i], curve: curve.clone() });
                assert(want.subrange(0, i + 1) =~= want.subrange(0, i as int).push(want[i as int]));
                i = i + 1;
            }
            assert(want.subrange(0, i as int) =~= want);
        },
    }
}

impl ScheduleRunner {
    /// A runner with no entries whose first check is due 55 s after `now_secs`.
    pub fn new(now_secs: u64) -> (r: ScheduleRunner)
        ensures
            r.entries@.len() == 0,
            r.last_evaluated_minute is None,
            r.last_check_secs == now_secs,
    {
        ScheduleRunner { entries: Vec::new(), last_evaluated_minute: None, last_check_secs: now_secs }
    }

    /// Replace the schedule entries.
    pub fn load(&mut self, entries: Vec<ScheduleEntry>)
        ensures
            final(self).entries@ == entries@,
            final(self).last_evaluated_minute == old(self).last_evaluated_minute,
            final(self).last_check_secs == old(self).last_check_secs,
    {
        self.entries = entries;
    }

    /// Add a single schedule entry.
    pub fn add(&mut self, entry: ScheduleEntry)
        ensures
            final(self).entries@ == old(self).entries@.push(entry),
            final(self).last_evaluated_minute == old(self).last_evaluated_minute,
            final(self).last_check_secs == old(self).last_check_secs,
    {
        self.entries.push(entry);
    }

    /// Remove a schedule entry by index; false when there is none.
    pub fn remove(&mut self, index: usize) -> (r: bool)
        ensures
            r == (index < old(self).entries@.len()),
            r ==> final(self).entries@ == old(self).entries@.remove(index as int),
            !r ==> final(self).entries@ == old(self).entries@,
            final(self).last_evaluated_minute == old(self).last_evaluated_minute,
            final(self).last_check_secs == old(self).last_check_secs,
    {
        if index < self.entries.len() {
            self.entries.remove(index);
            true
        } else {
            false
        }
    }

    /// Clear all schedule entries.
    pub fn clear(&mut self)
        ensures
            final(self).entries@.len() == 0,
            final(self).last_evaluated_minute == old(self).last_evaluated_minute,
            final(self).last_check_secs == old(self).last_check_secs,
    {
        self.entries.clear();
    }

    /// All schedule entries (for listing).
    pub fn entries(&self) -> (r: &[ScheduleEntry])
        ensures
            r@ == self.entries@,
    {
        self.entries.as_slice()
    }

    /// Evaluate schedules against the clock: `now_secs` from a monotonic
    /// seconds counter, `now` the local time. Only checks once per 55 s and
    /// once per minute; returns the commands of the entries due right now.
    pub fn evaluate(&mut self, now_secs: u64, now: LocalTime, all_groups: &[GroupId]) -> (r: Vec<
        ScheduleCommand,
    >)
        ensures
            final(self).entries@ == old(self).entries@,
            (final(self).last_check_secs, final(self).last_evaluated_minute, r@) == evaluate_spec(
                old(self).last_check_secs,
                old(self).last_evaluated_minute,
                old(self).entries@,
                now_secs,
                now,
                all_groups@,
            ),
    {
        if now_secs < self.last_check_secs || now_secs - self.last_check_secs < CHECK_INTERVAL_SECS {
            return Vec::new();
        }
        self.last_check_secs = now_secs;
        let current_minute: u16 = now.hour as u16 * 60 + now.minute as u16;
        if self.last_evaluated_minute == Some(current_minute) {
            return Vec::new();
        }
        self.last_evaluated_minute = Some(current_minute);
        let mut commands: Vec<ScheduleCommand> = Vec::new();
        let mut i: usize = 0;
        let ghost es = self.entries@;
        while i < self.entries.len()
            invariant
                i <= es.len(),
                self.entries@ == es,
                commands@ == due_commands(es.subrange(0, i as int), now, all_groups@),
            decreases es.len() - i,
        {
            let entry = &self.entries[i];
            assert(es.subrange(0, i + 1).drop_last() =~= es.subrange(0, i as int));
            assert(es.subrange(0, i + 1).last() == es[i as int]);
            if entry.hour == now.hour && entry.minute == now.minute && day_matches(
                &entry.days,
                now.weekday,
            ) {
                push_commands(&mut commands, &entry.action, all_groups);
            }
            i = i + 1;
        }
        assert(es.subrange(0, i as int) =~= es);
        commands
    }

    /// Whether any schedules are configured.
    pub fn is_active(&self) -> (r: bool)
        ensures
            r == (self.entries@.len() > 0),
    {
        self.entries.len() > 0
    }
}


/// A timed speed or curve change reaches exactly the groups of its target,
/// in order, one command each: a single group only, a list exactly those
/// groups, everything (and, lacking the system's roles, a role) every
/// group given. A profile switch is one command for that profile.
pub proof fn law_action_reaches_its_target(target: Target, percent: u8, curve: String, all: Seq<GroupId>)
    ensures
        ({
            let groups = match target {
                Target::Group(g) => seq![g],
                Target::Groups(gs) => gs@,
                Target::All => all,
                Target::Role(_) => all,
            };
            let speed = action_commands(ScheduleAction::SetSpeed { target, percent }, all);
            let curves = action_commands(ScheduleAction::ApplyCurve { target, curve }, all);
            &&& speed.len() == groups.len()
            &&& forall|i: int| 0 <= i < groups.len() ==> #[trigger] speed[i] == ScheduleCommand::SetSpeed {
                group: groups[i],
                percent,
            }
            &&& action_commands(ScheduleAction::SwitchProfile(curve), all) == seq![ScheduleCommand::SwitchProfile(curve)]
            &&& curves.len() == groups.len()
            &&& forall|i: int| 0 <= i < groups.len() ==> #[trigger] curves[i] == ScheduleCommand::ApplyCurve {
                group: groups[i],
                curve,
            }
        }),
{
}

/// A due entry's commands are exactly those of its action, after those of
/// the due entries before it: a schedule with one due speed entry aimed at
/// one group yields one command, for that group.
pub proof fn law_due_speed_entry_hits_its_group(e: ScheduleEntry, g: GroupId, percent: u8, now: LocalTime, all: Seq<GroupId>)
    requires
        e.action == (ScheduleAction::SetSpeed { target: Target::Group(g), percent }),
        entry_due(e, now),
    ensures
        due_commands(seq![e], now, all) == seq![ScheduleCommand::SetSpeed { group: g, percent }],
{
    let es = seq![e];
    assert(es.drop_last() =~= Seq::<ScheduleEntry>::empty());
    assert(es.last() == e);
    assert(due_commands(Seq::<ScheduleEntry>::empty(), now, all) == Seq::<ScheduleCommand>::empty());
    assert(action_commands(e.action, all) =~= seq![ScheduleCommand::SetSpeed { group: g, percent }]);
    assert(Seq::<ScheduleCommand>::empty() + action_commands(e.action, all) =~= seq![
        ScheduleCommand::SetSpeed { group: g, percent },
    ]);
}
} // verus!
