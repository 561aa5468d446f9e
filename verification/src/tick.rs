//! One engine tick: what happens when, given what the host read.
//!
//! A tick first takes the indicator flashes whose time is up (their colour
//! is restored and announced) and decides whether the periodic poll is due.
//! When it is and the device discovery succeeded, [`after_discovery`] turns
//! the fresh device snapshot into the poll's events (connections, RPM
//! changes, RPM anomalies, unbound devices while bind scanning), brings the
//! LCD registry in line with the screens found, and picks the pumps whose
//! speed must be re-asserted. Curve commands only reach fan-capable groups.

use vstd::prelude::*;

use crate::curves::{curves_spec, CurveApplied, CurveRunner};
use crate::engine::{
    accumulate_spec, anomaly_spec, change_events, gone_events, history_groups, history_view, record_all,
    running_count, set_of, wear_map, wear_of, Engine, EngineEvent,
};
use crate::indicate::{due, not_due, take_due_restores, IndicateRestore};
use crate::lcd_manager::{mapped_all, registered_all, DeviceId, LcdManager};
use crate::handler::{actions_view, event_views, show_events, wrap_show_events, Action, ActionView, DaemonEvent, EventView};
use crate::model::GroupId;
use crate::rgb::copy_mode;
use crate::show::{can_advance, tick_spec, ShowRunner, StepAction};
use crate::scheduler::FanRole;

verus! {

/// What a tick reads of one device group after discovery.
#[derive(Clone, Debug)]
pub struct DeviceSnapshot {
    pub group: GroupId,
    pub rpms: [u16; 4],
    /// An all-in-one cooler (its pump forgets speed commands).
    pub aio: bool,
    pub role: FanRole,
    /// The speed last commanded, if any.
    pub speed_percent: Option<u8>,
    /// Whether any of its slots carries a screen.
    pub has_lcd: bool,
    pub fan_capable: bool,
}

/// The tick's own clock.
#[derive(Debug)]
pub struct TickState {
    /// Milliseconds (on the host's monotonic clock) of the last poll.
    pub last_poll_ms: u64,
}

/// The start of a tick: the flashes to undo now, and whether to poll.
#[derive(Debug)]
pub struct TickStart {
    /// The flashes to undo now: each group goes back to its lighting.
    pub restores: Vec<IndicateRestore>,
    /// One lighting command per flash undone, in order: the host applies
    /// each, whether or not an earlier one failed.
    pub actions: Vec<Action>,
    /// One lighting-changed event per flash undone, in order, announced
    /// whatever the commands' results.
    pub events: Vec<DaemonEvent>,
    pub poll: bool,
}

/// The lighting-changed events of undone flashes, in order.
pub open spec fn restore_events(rs: Seq<IndicateRestore>) -> Seq<EventView> {
    rs.map_values(|r: IndicateRestore| EventView::RgbChanged { group: r.group, mode: r.mode@ })
}

/// The lighting commands that undo flashes: each group back to the mode it
/// showed before, in order.
pub open spec fn restore_actions(rs: Seq<IndicateRestore>) -> Seq<ActionView> {
    rs.map_values(|r: IndicateRestore| ActionView::SetRgb { group: r.group, mode: r.mode@ })
}

fn announce_restores(rs: &Vec<IndicateRestore>) -> (r: (Vec<Action>, Vec<DaemonEvent>))
    ensures
        actions_view(r.0@) == restore_actions(rs@),
        event_views(r.1@) == restore_events(rs@),
{
    let mut acts: Vec<Action> = Vec::new();
    let mut r: Vec<DaemonEvent> = Vec::new();
    let mut i: usize = 0;
    while i < rs.len()
        invariant
            i <= rs@.len(),
            actions_view(acts@) =~= restore_actions(rs@.subrange(0, i as int)),
            event_views(r@) =~= restore_events(rs@.subrange(0, i as int)),
        decreases rs@.len() - i,
    {
        let a = Action::SetRgb { group: rs[i].group, mode: copy_mode(&rs[i].mode) };
        let e = DaemonEvent::RgbChanged { group: rs[i].group, mode: copy_mode(&rs[i].mode) };
        let ghost before = r@;
        let ghost abefore = acts@;
        acts.push(a);
        r.push(e);
        proof {
            assert(r@ =~= before.push(e));
            assert(acts@ =~= abefore.push(a));
            assert(event_views(r@) =~= event_views(before).push(e@));
            assert(actions_view(acts@) =~= actions_view(abefore).push(a@));
            assert(rs@.subrange(0, i + 1) =~= rs@.subrange(0, i as int).push(rs@[i as int]));
            assert(restore_events(rs@.subrange(0, i + 1)) =~= restore_events(rs@.subrange(0, i as int)).push(
                EventView::RgbChanged { group: rs@[i as int].group, mode: rs@[i as int].mode@ },
            ));
            assert(restore_actions(rs@.subrange(0, i + 1)) =~= restore_actions(rs@.subrange(0, i as int)).push(
                ActionView::SetRgb { group: rs@[i as int].group, mode: rs@[i as int].mode@ },
            ));
        }
        i = i + 1;
    }
    proof {
        assert(rs@.subrange(0, i as int) =~= rs@);
    }
    (acts, r)
}

/// What the poll asks for after a successful discovery.
#[derive(Debug)]
pub struct PollPlan {
    pub events: Vec<EngineEvent>,
    /// How many unbound devices to announce (all of them while scanning).
    pub bind_discovered: usize,
    /// Pumps whose commanded speed must be sent again, in device order.
    pub pump_keepalive: Vec<(GroupId, u8)>,
}

/// Whether the poll is due: at least `interval` ms since the last one (a
/// clock reading before the last poll counts as no time elapsed).
pub open spec fn poll_due(last_poll_ms: u64, interval_ms: u64, now_ms: u64) -> bool {
    if now_ms >= last_poll_ms {
        now_ms - last_poll_ms >= interval_ms
    } else {
        interval_ms == 0
    }
}

/// The readings of the snapshot, in order.
pub open spec fn rpms_of(devices: Seq<DeviceSnapshot>) -> Seq<(GroupId, [u16; 4])> {
    devices.map_values(|d: DeviceSnapshot| (d.group, d.rpms))
}

/// The groups with a screen, in order.
pub open spec fn lcd_groups(devices: Seq<DeviceSnapshot>) -> Seq<GroupId>
    decreases devices.len(),
{
    if devices.len() == 0 {
        Seq::empty()
    } else {
        let rest = lcd_groups(devices.drop_last());
        if devices.last().has_lcd {
            rest.push(devices.last().group)
        } else {
            rest
        }
    }
}

/// Whether a device's pump needs its speed re-sent: an all-in-one cooler or
/// a group in the pump role.
pub open spec fn is_pump(d: DeviceSnapshot) -> bool {
    d.aio || d.role is Pump
}

/// The pumps with a commanded speed and that speed, in order.
pub open spec fn pump_targets(devices: Seq<DeviceSnapshot>) -> Seq<(GroupId, u8)>
    decreases devices.len(),
{
    if devices.len() == 0 {
        Seq::empty()
    } else {
        let rest = pump_targets(devices.drop_last());
        let d = devices.last();
        if is_pump(d) && d.speed_percent is Some {
            rest.push((d.group, d.speed_percent->0))
        } else {
            rest
        }
    }
}

/// Whether some device of group `g` can run fans.
pub open spec fn fan_capable_group(devices: Seq<DeviceSnapshot>, g: GroupId) -> bool {
    exists|i: int| 0 <= i < devices.len() && devices[i].group == g && devices[i].fan_capable
}

/// The curve commands for fan-capable groups, in order.
pub open spec fn fan_commands(commands: Seq<(GroupId, u8)>, devices: Seq<DeviceSnapshot>) -> Seq<(GroupId, u8)>
    decreases commands.len(),
{
    if commands.len() == 0 {
        Seq::empty()
    } else {
        let rest = fan_commands(commands.drop_last(), devices);
        if fan_capable_group(devices, commands.last().0) {
            rest.push(commands.last())
        } else {
            rest
        }
    }
}

/// Whether a poll of `poll_secs` seconds can be added to the wear counters
/// without overflow for any of `n` readings: the poll times `n`, added to
/// every counter, stays within `u64`.
pub open spec fn wear_headroom(w: Seq<(GroupId, u64)>, n: nat, poll_secs: u64) -> bool {
    &&& poll_secs * n <= u64::MAX
    &&& forall|i: int| 0 <= i < w.len() ==> (#[trigger] w[i]).1 + poll_secs * n <= u64::MAX
}

proof fn lemma_running_count_le(s: Seq<(GroupId, [u16; 4])>, g: GroupId)
    ensures
        running_count(s, g) <= s.len(),
    decreases s.len(),
{
    if s.len() > 0 {
        lemma_running_count_le(s.drop_last(), g);
    }
}

proof fn lemma_wear_entry(w: Seq<(GroupId, u64)>, g: GroupId)
    ensures
        wear_map(w).contains_key(g) ==> exists|i: int| 0 <= i < w.len() && (#[trigger] w[i]).1 == wear_map(w)[g],
    decreases w.len(),
{
    if w.len() > 0 {
        lemma_wear_entry(w.drop_last(), g);
        if wear_map(w).contains_key(g) && w.last().0 != g {
            let i = choose|i: int| 0 <= i < w.drop_last().len() && (#[trigger] w.drop_last()[i]).1 == wear_map(
                w.drop_last(),
            )[g];
            assert(w[i] == w.drop_last()[i]);
        } else if wear_map(w).contains_key(g) {
            assert(w[w.len() - 1] == w.last());
        }
    }
}

/// Headroom for the wear counters means no counter can overflow.
proof fn lemma_headroom_bounds(w: Seq<(GroupId, u64)>, s: Seq<(GroupId, [u16; 4])>, poll_secs: u64)
    requires
        wear_headroom(w, s.len(), poll_secs),
    ensures
        forall|g: GroupId| wear_of(wear_map(w), g) + poll_secs * running_count(s, g) <= u64::MAX,
{
    assert forall|g: GroupId| wear_of(wear_map(w), g) + poll_secs * running_count(s, g) <= u64::MAX by {
        lemma_running_count_le(s, g);
        let rc = running_count(s, g);
        let n = s.len();
        assert(poll_secs * rc <= poll_secs * n) by (nonlinear_arith)
            requires
                rc <= n,
        ;
        lemma_wear_entry(w, g);
        if wear_map(w).contains_key(g) {
            let i = choose|i: int| 0 <= i < w.len() && (#[trigger] w[i]).1 == wear_map(w)[g];
            assert(w[i].1 + poll_secs * n <= u64::MAX);
        }
    }
}

fn has_wear_headroom(engine: &Engine, poll_secs: u64) -> (r: bool)
    ensures
        r == wear_headroom(engine.wear_counters@, engine.last_rpms@.len(), poll_secs),
{
    let n = engine.last_rpms.len() as u64;
    let k = match poll_secs.checked_mul(n) {
        Some(k) => k,
        None => return false,
    };
    let mut i: usize = 0;
    while i < engine.wear_counters.len()
        invariant
            i <= engine.wear_counters@.len(),
            k == poll_secs * engine.last_rpms@.len(),
            forall|j: int| 0 <= j < i ==> (#[trigger] engine.wear_counters@[j]).1 + k <= u64::MAX,
        decreases engine.wear_counters@.len() - i,
    {
        if engine.wear_counters[i].1 > u64::MAX - k {
            assert(engine.wear_counters@[i as int].1 + k > u64::MAX);
            return false;
        }
        i = i + 1;
    }
    true
}

/// A flash is undone once: after a tick takes the due flashes, a second
/// tick at the same time or earlier finds none due.
pub proof fn law_restore_fires_once(restores: Seq<IndicateRestore>, now_ms: u64, again_ms: u64)
    requires
        again_ms <= now_ms,
    ensures
        restores.filter(not_due(now_ms)).filter(due(again_ms)) == Seq::<IndicateRestore>::empty(),
    decreases restores.len(),
{
    reveal(Seq::filter);
    if restores.len() > 0 {
        law_restore_fires_once(restores.drop_last(), now_ms, again_ms);
        let kept = restores.filter(not_due(now_ms));
        let rest = restores.drop_last().filter(not_due(now_ms));
        if now_ms < restores.last().deadline_ms {
            assert(kept == rest.push(restores.last()));
            assert(kept.drop_last() =~= rest);
            assert(kept.filter(due(again_ms)) =~= rest.filter(due(again_ms)));
        } else {
            assert(kept == rest);
        }
    }
}

/// The poll runs at most once per interval: once it ran at `now_ms`, a
/// tick less than `interval_ms` later does not run it.
pub proof fn law_poll_spacing(interval_ms: u64, now_ms: u64, later_ms: u64)
    requires
        now_ms <= later_ms,
        later_ms - now_ms < interval_ms,
    ensures
        !poll_due(now_ms, interval_ms, later_ms),
{
}

impl TickState {
    /// The last poll at `now_ms`.
    pub fn new(now_ms: u64) -> (t: TickState)
        ensures
            t.last_poll_ms == now_ms,
    {
        TickState { last_poll_ms: now_ms }
    }
}

/// Starts a tick at `now_ms`: takes the pending flashes that are due, in
/// order, and decides whether the poll runs, moving the poll clock to
/// `now_ms` when it does.
pub fn begin_tick(state: &mut TickState, restores: &mut Vec<IndicateRestore>, interval_ms: u64, now_ms: u64) -> (t: TickStart)
    ensures
        t.restores@ == old(restores)@.filter(due(now_ms)),
        actions_view(t.actions@) == restore_actions(old(restores)@.filter(due(now_ms))),
        event_views(t.events@) == restore_events(old(restores)@.filter(due(now_ms))),
        final(restores)@ == old(restores)@.filter(not_due(now_ms)),
        t.poll == poll_due(old(state).last_poll_ms, interval_ms, now_ms),
        final(state).last_poll_ms == if t.poll { now_ms } else { old(state).last_poll_ms },
{
    let due_now = take_due_restores(restores, now_ms);
    let elapsed: u64 = if now_ms >= state.last_poll_ms { now_ms - state.last_poll_ms } else { 0 };
    let poll = elapsed >= interval_ms;
    if poll {
        state.last_poll_ms = now_ms;
    }
    let (actions, events) = announce_restores(&due_now);
    TickStart { restores: due_now, actions, events, poll }
}

fn snapshot_rpms(devices: &Vec<DeviceSnapshot>) -> (r: Vec<(GroupId, [u16; 4])>)
    ensures
        r@ == rpms_of(devices@),
{
    let mut r: Vec<(GroupId, [u16; 4])> = Vec::new();
    let mut i: usize = 0;
    while i < devices.len()
        invariant
            i <= devices@.len(),
            r@ =~= rpms_of(devices@.subrange(0, i as int)),
        decreases devices@.len() - i,
    {
        r.push((devices[i].group, devices[i].rpms));
        proof {
            assert(rpms_of(devices@.subrange(0, i + 1)) =~= rpms_of(devices@.subrange(0, i as int)).push(
                (devices@[i as int].group, devices@[i as int].rpms),
            ));
        }
        i = i + 1;
    }
    proof {
        assert(devices@.subrange(0, i as int) =~= devices@);
    }
    r
}

fn screen_groups(devices: &Vec<DeviceSnapshot>) -> (r: Vec<GroupId>)
    ensures
        r@ == lcd_groups(devices@),
{
    let mut r: Vec<GroupId> = Vec::new();
    let mut i: usize = 0;
    while i < devices.len()
        invariant
            i <= devices@.len(),
            r@ == lcd_groups(devices@.subrange(0, i as int)),
        decreases devices@.len() - i,
    {
        proof {
            assert(devices@.subrange(0, i + 1).drop_last() =~= devices@.subrange(0, i as int));
        }
        if devices[i].has_lcd {
            r.push(devices[i].group);
        }
        i = i + 1;
    }
    proof {
        assert(devices@.subrange(0, i as int) =~= devices@);
    }
    r
}

fn pumps(devices: &Vec<DeviceSnapshot>) -> (r: Vec<(GroupId, u8)>)
    ensures
        r@ == pump_targets(devices@),
{
    let mut r: Vec<(GroupId, u8)> = Vec::new();
    let mut i: usize = 0;
    while i < devices.len()
        invariant
            i <= devices@.len(),
            r@ == pump_targets(devices@.subrange(0, i as int)),
        decreases devices@.len() - i,
    {
        proof {
            assert(devices@.subrange(0, i + 1).drop_last() =~= devices@.subrange(0, i as int));
        }
        let pump = devices[i].aio || match devices[i].role {
            FanRole::Pump => true,
            _ => false,
        };
        if pump {
            match devices[i].speed_percent {
                Some(p) => r.push((devices[i].group, p)),
                None => {},
            }
        }
        i = i + 1;
    }
    proof {
        assert(devices@.subrange(0, i as int) =~= devices@);
    }
    r
}

/// The poll after a successful discovery at `now_ms`: the RPM change and
/// disconnection events of the snapshot, then the anomaly events of the
/// history that now includes it; `poll_secs` of running time for each
/// group of the snapshot with a fan turning, when no counter can overflow
/// (otherwise the counters stay); the unbound devices to announce while bind
/// scanning; the LCD registry synced with the `screens` found; and the
/// pumps to keep alive.
pub fn after_discovery(
    engine: &mut Engine,
    lcd: &mut LcdManager,
    devices: &Vec<DeviceSnapshot>,
    unbound: usize,
    screens: &[(DeviceId, u32, u32)],
    poll_secs: u64,
    now_ms: u64,
) -> (p: PollPlan)
    requires
        old(engine).wf(),
        old(lcd).wf(),
    ensures
        final(engine).wf(),
        final(lcd).wf(),
        ({
            let cur = rpms_of(devices@);
            let recorded = record_all(history_view(old(engine).rpm_history@), cur);
            let (al, anomalies) = anomaly_spec(recorded, set_of(old(engine).rpm_anomaly_alerted@));
            &&& p.events@ == change_events(old(engine).last_rpms@, cur) + gone_events(
                old(engine).last_rpms@,
                cur,
            ) + anomalies
            &&& final(engine).last_rpms@ == cur
            &&& history_view(final(engine).rpm_history@) == recorded
            &&& set_of(final(engine).rpm_anomaly_alerted@) == al.intersect(history_groups(recorded))
        }),
        wear_map(final(engine).wear_counters@) == if wear_headroom(
            old(engine).wear_counters@,
            devices@.len(),
            poll_secs,
        ) {
            accumulate_spec(wear_map(old(engine).wear_counters@), rpms_of(devices@), poll_secs)
        } else {
            wear_map(old(engine).wear_counters@)
        },
        final(engine).poll_interval_ms == old(engine).poll_interval_ms,
        final(engine).bind_scanning == old(engine).bind_scanning,
        p.bind_discovered == if old(engine).bind_scanning { unbound } else { 0 },
        p.pump_keepalive@ == pump_targets(devices@),
        screens@.len() == old(lcd).screens().len() ==> final(lcd).screens() == old(lcd).screens()
            && final(lcd).group_pairs() == old(lcd).group_pairs(),
        screens@.len() != old(lcd).screens().len() ==> final(lcd).screens() == registered_all(
            old(lcd).screens(),
            screens@,
            now_ms,
        ) && final(lcd).group_pairs() == mapped_all(old(lcd).group_pairs(), lcd_groups(devices@), screens@),
{
    let current = snapshot_rpms(devices);
    let mut events = engine.detect_rpm_changes(current);
    let mut anomalies = engine.check_rpm_anomalies();
    events.append(&mut anomalies);
    if has_wear_headroom(engine, poll_secs) {
        proof {
            lemma_headroom_bounds(engine.wear_counters@, engine.last_rpms@, poll_secs);
        }
        engine.accumulate_wear(poll_secs);
    }
    let bind_discovered = if engine.bind_scanning { unbound } else { 0 };
    let groups = screen_groups(devices);
    lcd.sync_devices(screens, groups.as_slice(), now_ms);
    PollPlan { events, bind_discovered, pump_keepalive: pumps(devices) }
}

/// The curve commands that may be sent: those for fan-capable groups, in
/// order.
pub fn fan_capable_commands(commands: &Vec<(GroupId, u8)>, devices: &Vec<DeviceSnapshot>) -> (r: Vec<(GroupId, u8)>)
    ensures
        r@ == fan_commands(commands@, devices@),
{
    let mut r: Vec<(GroupId, u8)> = Vec::new();
    let mut i: usize = 0;
    while i < commands.len()
        invariant
            i <= commands@.len(),
            r@ == fan_commands(commands@.subrange(0, i as int), devices@),
        decreases commands@.len() - i,
    {
        proof {
            assert(commands@.subrange(0, i + 1).drop_last() =~= commands@.subrange(0, i as int));
        }
        let g = commands[i].0;
        let mut capable = false;
        let mut k: usize = 0;
        while k < devices.len()
            invariant
                k <= devices@.len(),
                capable == exists|j: int| 0 <= j < k && devices@[j].group == g && devices@[j].fan_capable,
            decreases devices@.len() - k,
        {
            if devices[k].group == g && devices[k].fan_capable {
                capable = true;
            }
            k = k + 1;
        }
        if capable {
            r.push(commands[i]);
        }
        i = i + 1;
    }
    proof {
        assert(commands@.subrange(0, i as int) =~= commands@);
    }
    r
}

/// Advances sequence playback by `elapsed_ns`: the steps to show and the
/// playback events, as `ShowRunner::tick` gives them. When some playback
/// could not absorb that much time without overflow, nothing changes and
/// the result is `None`.
pub fn play_shows(show: &mut ShowRunner<String>, elapsed_ns: u64) -> (r: Option<(Vec<StepAction<String>>, Vec<DaemonEvent>)>)
    requires
        old(show).wf(),
    ensures
        final(show).wf(),
        final(show).sequences@ == old(show).sequences@,
        r is Some <==> can_advance(old(show).active@, elapsed_ns),
        r is None ==> final(show).active@ == old(show).active@,
        r matches Some(p) ==> ({
            let (a, acts, evs) = tick_spec(old(show).active@, elapsed_ns);
            &&& final(show).active@ == a
            &&& crate::show::actions_view(p.0@) == acts
            &&& event_views(p.1@) == show_events(evs)
        }),
{
    let mut i: usize = 0;
    while i < show.active.len()
        invariant
            i <= show.active@.len(),
            show.wf(),
            show.active@ == old(show).active@,
            show.sequences@ == old(show).sequences@,
            forall|j: int| 0 <= j < i ==> (#[trigger] show.active@[j]).state.step_elapsed_ns + elapsed_ns <= u64::MAX,
        decreases show.active@.len() - i,
    {
        if show.active[i].state.step_elapsed_ns > u64::MAX - elapsed_ns {
            assert(show.active@[i as int].state.step_elapsed_ns + elapsed_ns > u64::MAX);
            return None;
        }
        i = i + 1;
    }
    let (actions, evs) = show.tick(elapsed_ns);
    Some((actions, wrap_show_events(&evs)))
}


/// Applied curve speeds as daemon events, in order.
pub open spec fn curve_events(evs: Seq<CurveApplied>) -> Seq<EventView> {
    evs.map_values(|e: CurveApplied| EventView::CurveApplied { group: e.group, speed: e.speed, temp: e.temp })
}

fn announce_curves(evs: &Vec<CurveApplied>) -> (r: Vec<DaemonEvent>)
    ensures
        event_views(r@) == curve_events(evs@),
{
    let mut r: Vec<DaemonEvent> = Vec::new();
    let mut i: usize = 0;
    while i < evs.len()
        invariant
            i <= evs@.len(),
            event_views(r@) =~= curve_events(evs@.subrange(0, i as int)),
        decreases evs@.len() - i,
    {
        let e = evs[i];
        let d = DaemonEvent::CurveApplied { group: e.group, speed: e.speed, temp: e.temp };
        let ghost before = r@;
        r.push(d);
        proof {
            assert(r@ =~= before.push(d));
            assert(event_views(r@) =~= event_views(before).push(d@));
            assert(evs@.subrange(0, i + 1) =~= evs@.subrange(0, i as int).push(evs@[i as int]));
            assert(curve_events(evs@.subrange(0, i + 1)) =~= curve_events(evs@.subrange(0, i as int)).push(d@));
        }
        i = i + 1;
    }
    proof {
        assert(evs@.subrange(0, i as int) =~= evs@);
    }
    r
}

/// The poll's fan-curve step: when curves are active, each is evaluated one
/// poll interval after the last, every speed applied is announced, and the
/// speed commands for fan-capable groups are returned for sending.
pub fn run_curves(curves: &mut CurveRunner, devices: &Vec<DeviceSnapshot>, interval_ms: u64) -> (r: (
    Vec<(GroupId, u8)>,
    Vec<DaemonEvent>,
))
    requires
        old(curves).wf(),
    ensures
        final(curves).wf(),
        old(curves).curves@.len() == 0 ==> r.0@.len() == 0 && r.1@.len() == 0 && *final(curves) == *old(curves),
        old(curves).curves@.len() > 0 ==> {
            &&& !final(curves).sensors_dirty
            &&& final(curves).sensors == old(curves).sensors
            &&& !old(curves).sensors_dirty ==> r.0@.len() == 0 && r.1@.len() == 0 && final(curves).curves@
                == old(curves).curves@
            &&& old(curves).sensors_dirty ==> {
                let (next, applied) = curves_spec(old(curves).curves@, old(curves).sensors.view(), interval_ms);
                &&& final(curves).curves@ == next
                &&& event_views(r.1@) == curve_events(applied)
                &&& r.0@ == fan_commands(applied.map_values(|e: CurveApplied| (e.group, e.speed)), devices@)
            }
        },
{
    if !curves.is_active() {
        return (Vec::new(), Vec::new());
    }
    let (commands, applied) = curves.evaluate(interval_ms);
    let sent = fan_capable_commands(&commands, devices);
    let events = announce_curves(&applied);
    proof {
        if !old(curves).sensors_dirty {
            assert(commands@ =~= Seq::<(GroupId, u8)>::empty());
            assert(fan_commands(commands@, devices@) =~= Seq::<(GroupId, u8)>::empty());
            assert(event_views(events@).len() == events@.len());
            assert(curve_events(applied@).len() == 0);
        }
    }
    (sent, events)
}
} // verus!
