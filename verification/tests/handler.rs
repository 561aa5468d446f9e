use frgb::convert::{DeviceType, SpeedMode};
use frgb::handler::{
    build_status_list, complete_request, config_path_verdict, curve_problem, handle_request, is_awaited, name_problem, resolve_target_groups,
    speed_problem, wear_label, Action, DaemonEvent, DaemonState, DeviceInfo, HandleOutcome, ImportedConfig, Pending, Report,
    Request, Response, SavedItem, SyncConfig, SystemView,
};
use frgb::engine::{Engine, WearEntry};
use frgb::lcd::{LcdConfig, LcdContent, LcdRotation};
use frgb::lcd_manager::DeviceId;
use frgb::show::{cycle_show, EffectCycle, Playback, Sequence, Step};
use frgb::model::{Ring, Sensor};
use frgb::indicate::IndicateRestore;
use frgb::rgb::RgbMode;
use frgb::model::Rgb;
use frgb::scheduler::{FanRole, ScheduleAction, ScheduleEntry, Target, Weekday};
use frgb::GroupId;

fn base_system() -> SystemView {
    SystemView {
        devices: Vec::new(),
        unbound: 0,
        has_rf: true,
        has_aura: false,
        sensors: Vec::new(),
        lcd_devices: Vec::new(),
        tx_firmware: None,
        tx_mac: None,
    }
}

fn empty_system() -> SystemView {
    base_system()
}

fn device(group: u8, backend: &str, role: FanRole, fan_capable: bool) -> DeviceInfo {
    DeviceInfo {
        group: GroupId(group),
        name: format!("Group {group}"),
        backend: backend.to_string(),
        role,
        device_type: DeviceType::SlWireless,
        fan_capable,
        mb_sync: false,
        has_mac: true,
        rgb_mode: None,
        fan_count: 3,
        rpms: vec![1200, 1200, 1200],
        speed_percent: None,
        lcd_count: 0,
    }
}

fn system_with_device() -> SystemView {
    SystemView { devices: vec![device(1, "lianli-rf", FanRole::Intake, true)], unbound: 0, has_rf: true, ..base_system() }
}

fn two_device_system() -> SystemView {
    SystemView {
        devices: vec![
            device(1, "lianli-rf", FanRole::Intake, true),
            device(2, "lianli-rf", FanRole::Exhaust, true),
        ],
        unbound: 0,
        has_rf: true,
        ..base_system()
    }
}

fn state() -> DaemonState {
    DaemonState::new(0, 1000)
}

fn handle(st: &mut DaemonState, sys: &SystemView, req: Request) -> HandleOutcome {
    handle_request(st, req, sys)
}

fn item(key: &str, body: &str) -> SavedItem {
    SavedItem { key: key.to_string(), body: body.to_string() }
}

fn sync_config(roles: Vec<FanRole>, exclude: Vec<GroupId>) -> SyncConfig {
    SyncConfig {
        enabled: true,
        include_lianli: true,
        include_mobo_rgb: false,
        include_openrgb: false,
        include_roles: roles,
        include_device_types: Vec::new(),
        exclude_groups: exclude,
    }
}

/// Runs a request whose reply waits for the hardware, every action failing
/// as on a system without a working backend.
fn run_failing(st: &mut DaemonState, out: HandleOutcome) -> (Response, Vec<DaemonEvent>) {
    let n = match &out.pending {
        Pending::Nothing => 0,
        Pending::MergeOrder { .. } => 1,
        Pending::StopFans { groups } => groups.len(),
        Pending::Colors { groups, .. } => groups.len(),
        Pending::Rgb { .. } => 1,
        Pending::Indicate { .. } => 1,
        Pending::Reset { groups } => groups.len(),
        Pending::MbSync | Pending::Lock | Pending::Unlock => 1,
        Pending::Speeds { groups, .. } => groups.len(),
        Pending::Single | Pending::Discovery | Pending::MoboSpeed | Pending::MoboAuto => 1,
        Pending::Pump | Pending::Preview => 1,
    };
    let results = (0..n).map(|_| Err("mock: no hardware".to_string())).collect();
    let (resp, events, _) = complete_request(st, out.pending, results, 0);
    (resp, events)
}

fn error_text(r: &Response) -> String {
    match r {
        Response::Error(m) => m.clone(),
        other => panic!("expected Error response, got {:?}", other),
    }
}

fn items(r: Response) -> Vec<SavedItem> {
    match r {
        Response::Items(v) => v,
        other => panic!("expected Items, got {:?}", other),
    }
}

#[test]
fn subscribe_returns_ok() {
    let mut st = state();
    let out = handle(&mut st, &empty_system(), Request::Subscribe);
    assert!(matches!(out.response, Response::Done));
    assert!(out.events.is_empty());
}

#[test]
fn unsubscribe_returns_ok() {
    let mut st = state();
    let out = handle(&mut st, &empty_system(), Request::Unsubscribe);
    assert!(matches!(out.response, Response::Done));
}

#[test]
fn set_role_upserts_config_when_group_missing() {
    let mut st = state();
    assert!(st.groups.is_empty());
    let out = handle(&mut st, &system_with_device(), Request::SetRole { group: GroupId(1), role: FanRole::Exhaust });
    assert!(matches!(out.response, Response::Done));
    assert!(matches!(
        out.actions.as_slice(),
        [Action::SetDeviceRole { group: GroupId(1), role: FanRole::Exhaust }]
    ));
    assert_eq!(st.groups.len(), 1, "missing GroupConfig was not upserted");
    assert_eq!(st.groups[0].id, GroupId(1));
    assert!(matches!(st.groups[0].role, FanRole::Exhaust));
    assert_eq!(st.groups[0].name, "Group 1");
    assert!(!st.groups[0].excluded);
}

#[test]
fn new_group_entry_keeps_the_device_state() {
    let mut st = state();
    let mut d = device(1, "lianli-rf", FanRole::Intake, true);
    d.speed_percent = Some(65);
    d.rgb_mode = Some(RgbMode::Static { ring: Ring::Inner, color: Rgb { r: 1, g: 2, b: 3 }, brightness: 9 });
    d.fan_count = 4;
    let sys = SystemView { devices: vec![d], ..base_system() };
    handle(&mut st, &sys, Request::SetRole { group: GroupId(1), role: FanRole::Pump });
    let e = &st.groups[0];
    assert_eq!(e.device_type, DeviceType::SlWireless);
    assert_eq!(e.fan_count, 4);
    assert!(matches!(e.speed, SpeedMode::Manual(65)));
    assert!(matches!(e.rgb, RgbMode::Static { ring: Ring::Inner, brightness: 9, .. }));
    assert!(e.lcd.is_none());
    handle(&mut st, &sys, Request::RenameGroup { group: GroupId(1), name: "Pump".to_string(), invalid: None });
    assert_eq!(st.groups[0].name, "Pump");
    assert_eq!(st.groups[0].fan_count, 4, "a rename keeps the rest of the entry");
    assert!(matches!(st.groups[0].role, FanRole::Pump));
}

#[test]
fn set_role_updates_existing_entry() {
    let mut st = state();
    let sys = system_with_device();
    handle(&mut st, &sys, Request::SetRole { group: GroupId(1), role: FanRole::Intake });
    let out = handle(&mut st, &sys, Request::SetRole { group: GroupId(1), role: FanRole::Exhaust });
    assert_eq!(st.groups.len(), 1, "duplicate GroupConfig was created");
    assert!(matches!(st.groups[0].role, FanRole::Exhaust));
    assert!(matches!(
        out.actions.as_slice(),
        [Action::SetDeviceRole { group: GroupId(1), role: FanRole::Exhaust }]
    ));
}

#[test]
fn set_role_without_device_or_entry_changes_nothing() {
    let mut st = state();
    let out = handle(&mut st, &empty_system(), Request::SetRole { group: GroupId(7), role: FanRole::Pump });
    assert!(matches!(out.response, Response::Done));
    assert!(st.groups.is_empty());
    assert!(out.flush);
}

#[test]
fn enter_bind_mode_returns_ok() {
    let mut st = state();
    assert!(!st.bind_scanning);
    let out = handle(&mut st, &empty_system(), Request::EnterBindMode);
    assert!(matches!(out.response, Response::Done));
    assert!(st.bind_scanning);
}

#[test]
fn exit_bind_mode_returns_ok() {
    let mut st = state();
    st.bind_scanning = true;
    let out = handle(&mut st, &empty_system(), Request::ExitBindMode);
    assert!(matches!(out.response, Response::Done));
    assert!(!st.bind_scanning);
}

#[test]
fn enter_bind_mode_emits_existing_unbound() {
    let mut st = state();
    let sys = SystemView { devices: Vec::new(), unbound: 1, has_rf: true, ..base_system() };
    let out = handle(&mut st, &sys, Request::EnterBindMode);
    assert!(matches!(out.response, Response::Done));
    assert_eq!(out.events.len(), 1);
    assert!(matches!(out.events[0], DaemonEvent::BindDiscovered { index: 0 }));
}

#[test]
fn bind_mode_enter_exit_reenter_cycle() {
    let mut st = state();
    let sys = empty_system();
    let out = handle(&mut st, &sys, Request::EnterBindMode);
    assert!(matches!(out.response, Response::Done));
    assert!(st.bind_scanning);
    let out = handle(&mut st, &sys, Request::ExitBindMode);
    assert!(matches!(out.response, Response::Done));
    assert!(!st.bind_scanning);
    let out = handle(&mut st, &sys, Request::EnterBindMode);
    assert!(matches!(out.response, Response::Done));
    assert!(st.bind_scanning);
}

#[test]
fn sync_role_filter_includes_only_intake() {
    let mut st = state();
    let req = Request::Sync { color: Rgb { r: 255, g: 0, b: 0 }, config: sync_config(vec![FanRole::Intake], Vec::new()) };
    let out = handle(&mut st, &two_device_system(), req);
    let (resp, _) = run_failing(&mut st, out);
    let msg = error_text(&resp);
    assert!(msg.contains("group 1"), "group 1 should be attempted: {msg}");
    assert!(!msg.contains("group 2"), "group 2 should be excluded by role filter: {msg}");
}

#[test]
fn sync_exclude_groups_skips_group() {
    let mut st = state();
    let req = Request::Sync { color: Rgb { r: 0, g: 255, b: 0 }, config: sync_config(Vec::new(), vec![GroupId(1)]) };
    let out = handle(&mut st, &two_device_system(), req);
    let (resp, _) = run_failing(&mut st, out);
    let msg = error_text(&resp);
    assert!(msg.contains("group 2"), "group 2 should be attempted: {msg}");
    assert!(!msg.contains("group 1"), "group 1 should be excluded: {msg}");
}

#[test]
fn sync_no_filters_passes_all_groups() {
    let mut st = state();
    let req = Request::Sync { color: Rgb { r: 0, g: 0, b: 255 }, config: sync_config(Vec::new(), Vec::new()) };
    let out = handle(&mut st, &two_device_system(), req);
    let (resp, _) = run_failing(&mut st, out);
    let msg = error_text(&resp);
    assert!(msg.contains("group 1"), "group 1 should be attempted: {msg}");
    assert!(msg.contains("group 2"), "group 2 should be attempted: {msg}");
    assert_eq!(msg, "group 1: mock: no hardware; group 2: mock: no hardware");
}

#[test]
fn sync_disabled_is_refused() {
    let mut st = state();
    let mut config = sync_config(Vec::new(), Vec::new());
    config.enabled = false;
    let out = handle(&mut st, &two_device_system(), Request::Sync { color: Rgb { r: 1, g: 2, b: 3 }, config });
    assert_eq!(error_text(&out.response), "sync is disabled");
    assert!(out.actions.is_empty());
}

#[test]
fn sync_skips_other_backends_and_announces_successes() {
    let mut st = state();
    let sys = SystemView {
        devices: vec![
            device(1, "lianli-rf", FanRole::Intake, true),
            device(3, "aura", FanRole::Intake, false),
            device(4, "openrgb", FanRole::Custom("Top".to_string()), false),
        ],
        unbound: 0,
        has_rf: true,
        ..base_system()
    };
    let mut config = sync_config(vec![FanRole::Custom("Top".to_string()), FanRole::Intake], Vec::new());
    config.include_openrgb = true;
    let color = Rgb { r: 9, g: 8, b: 7 };
    let out = handle(&mut st, &sys, Request::Sync { color, config });
    assert!(matches!(
        out.actions.as_slice(),
        [Action::SetRgb { group: GroupId(1), .. }, Action::SetRgb { group: GroupId(4), .. }]
    ));
    let (resp, events, flush) = complete_request(&mut st, out.pending, vec![Ok(()), Err("busy".to_string())], 0);
    assert_eq!(error_text(&resp), "group 4: busy");
    assert_eq!(events.len(), 1);
    assert!(matches!(
        events[0],
        DaemonEvent::RgbChanged {
            group: GroupId(1),
            mode: RgbMode::Static { ring: Ring::Both, color: Rgb { r: 9, g: 8, b: 7 }, brightness: 255 }
        }
    ));
    assert!(!flush);
}

#[test]
fn save_led_preset_persists() {
    let mut st = state();
    let sys = empty_system();
    let out = handle(&mut st, &sys, Request::SaveLedPreset { preset: item("Test Layout", "{\"fan_count\":3}") });
    assert!(matches!(out.response, Response::Done));
    assert!(out.flush);
    let list = items(handle(&mut st, &sys, Request::ListLedPresets).response);
    assert_eq!(list.len(), 1);
    assert_eq!(list[0].key, "Test Layout");
    assert_eq!(list[0].body, "{\"fan_count\":3}");
}

#[test]
fn delete_led_preset_removes() {
    let mut st = state();
    let sys = empty_system();
    handle(&mut st, &sys, Request::SaveLedPreset { preset: item("Test Layout", "{\"fan_count\":3}") });
    let out = handle(&mut st, &sys, Request::DeleteLedPreset { name: "Test Layout".to_string() });
    assert!(matches!(out.response, Response::Done));
    let list = items(handle(&mut st, &sys, Request::ListLedPresets).response);
    assert!(list.is_empty());
}

#[test]
fn delete_missing_led_preset_is_an_error() {
    let mut st = state();
    let out = handle(&mut st, &empty_system(), Request::DeleteLedPreset { name: "Nope".to_string() });
    assert_eq!(error_text(&out.response), "LED preset 'Nope' not found");
    assert!(!out.flush);
}

#[test]
fn rename_group_rejects_empty_name() {
    let mut st = state();
    let out = handle(
        &mut st,
        &empty_system(),
        Request::RenameGroup { group: GroupId(1), name: String::new(), invalid: Some("name must not be empty".to_string()) },
    );
    assert!(matches!(out.response, Response::Error(ref e) if e.contains("empty")));
    assert!(out.actions.is_empty());
}

#[test]
fn rename_group_renames_entry_and_device() {
    let mut st = state();
    let sys = system_with_device();
    handle(&mut st, &sys, Request::SetRole { group: GroupId(1), role: FanRole::Intake });
    let out = handle(&mut st, &sys, Request::RenameGroup { group: GroupId(1), name: "Front".to_string(), invalid: None });
    assert!(matches!(out.response, Response::Done));
    assert_eq!(st.groups[0].name, "Front");
    assert!(matches!(out.actions.as_slice(), [Action::RenameDevice { group: GroupId(1), name }] if name == "Front"));
}

#[test]
fn save_led_preset_upserts() {
    let mut st = state();
    let sys = empty_system();
    handle(&mut st, &sys, Request::SaveLedPreset { preset: item("Test Layout", "{\"fan_count\":3}") });
    let out = handle(&mut st, &sys, Request::SaveLedPreset { preset: item("Test Layout", "{\"fan_count\":5}") });
    assert!(matches!(out.response, Response::Done));
    let list = items(handle(&mut st, &sys, Request::ListLedPresets).response);
    assert_eq!(list.len(), 1, "expected exactly one preset after upsert");
    assert_eq!(list[0].body, "{\"fan_count\":5}", "expected updated fan_count");
}

#[test]
fn save_effect_moves_to_end_but_sequence_keeps_place() {
    let mut st = state();
    let sys = empty_system();
    handle(&mut st, &sys, Request::SaveEffect { effect: item("a", "1") });
    handle(&mut st, &sys, Request::SaveEffect { effect: item("b", "2") });
    handle(&mut st, &sys, Request::SaveEffect { effect: item("a", "3") });
    let keys: Vec<String> = st.effects.iter().map(|i| i.key.clone()).collect();
    assert_eq!(keys, vec!["b", "a"]);
    handle(&mut st, &sys, Request::SaveSequence { sequence: item("a", "1") });
    handle(&mut st, &sys, Request::SaveSequence { sequence: item("b", "2") });
    let out = handle(&mut st, &sys, Request::SaveSequence { sequence: item("a", "3") });
    assert!(matches!(out.actions.as_slice(), [Action::ReloadSequences]));
    let seqs: Vec<(String, String)> = st.sequences.iter().map(|i| (i.key.clone(), i.body.clone())).collect();
    assert_eq!(seqs, vec![("a".to_string(), "3".to_string()), ("b".to_string(), "2".to_string())]);
}

#[test]
fn delete_effect_and_template_report_missing() {
    let mut st = state();
    let sys = empty_system();
    let out = handle(&mut st, &sys, Request::DeleteEffect { name: "x".to_string() });
    assert_eq!(error_text(&out.response), "effect 'x' not found");
    let out = handle(&mut st, &sys, Request::DeleteLcdTemplate { id: "t1".to_string() });
    assert_eq!(error_text(&out.response), "template 't1' not found");
    handle(&mut st, &sys, Request::SaveLcdTemplate { template: item("t1", "{}") });
    let out = handle(&mut st, &sys, Request::DeleteLcdTemplate { id: "t1".to_string() });
    assert!(matches!(out.response, Response::Done));
    assert!(st.lcd_templates.is_empty());
}

#[test]
fn invalid_curve_is_refused_and_valid_one_saved() {
    let mut st = state();
    let sys = empty_system();
    let out = handle(&mut st, &sys, Request::SaveCurve { curve: item("quiet", "{}"), invalid: Some("no points".to_string()) });
    assert_eq!(error_text(&out.response), "invalid curve: no points");
    assert!(st.curves.is_empty());
    let out = handle(&mut st, &sys, Request::SaveCurve { curve: item("quiet", "{}"), invalid: None });
    assert!(matches!(out.response, Response::Done));
    assert_eq!(items(handle(&mut st, &sys, Request::ListCurves).response).len(), 1);
    let out = handle(&mut st, &sys, Request::DeleteCurve { name: "loud".to_string() });
    assert!(matches!(out.response, Response::Done));
    assert_eq!(st.curves.len(), 1);
}

#[test]
fn switch_profile_applies_and_announces() {
    let mut st = state();
    let sys = empty_system();
    let out = handle(&mut st, &sys, Request::SwitchProfile { name: "Night".to_string() });
    assert_eq!(error_text(&out.response), "profile 'Night' not found");
    let out = handle(&mut st, &sys, Request::SaveProfile { name: "Night".to_string() });
    assert!(matches!(out.actions.as_slice(), [Action::CaptureProfile { name }] if name == "Night"));
    handle(&mut st, &sys, Request::SaveProfile { name: "Night".to_string() });
    assert_eq!(st.profiles, vec!["Night".to_string()]);
    let out = handle(&mut st, &sys, Request::SwitchProfile { name: "Night".to_string() });
    assert!(matches!(out.response, Response::Done));
    assert!(matches!(out.actions.as_slice(), [Action::ApplyProfile { name }] if name == "Night"));
    assert!(matches!(&out.events[0], DaemonEvent::ProfileSwitched { name } if name == "Night"));
    match handle(&mut st, &sys, Request::ListProfiles).response {
        Response::ProfileList(names) => assert_eq!(names, vec!["Night".to_string()]),
        other => panic!("expected ProfileList, got {:?}", other),
    }
    handle(&mut st, &sys, Request::DeleteProfile { name: "Night".to_string() });
    assert!(st.profiles.is_empty());
}

#[test]
fn schedule_requests_go_through_validation() {
    let mut st = state();
    let sys = empty_system();
    let entry = ScheduleEntry { hour: 25, minute: 0, days: vec![Weekday::Mon], action: ScheduleAction::SwitchProfile("Night".to_string()) };
    let out = handle(&mut st, &sys, Request::AddSchedule { entry });
    assert_eq!(error_text(&out.response), "hour must be 0-23, got 25");
    let entry = ScheduleEntry { hour: 22, minute: 0, days: Vec::new(), action: ScheduleAction::SwitchProfile("Night".to_string()) };
    let out = handle(&mut st, &sys, Request::AddSchedule { entry });
    assert!(matches!(out.response, Response::Done));
    assert_eq!(st.schedule.entries.len(), 1);
    let out = handle(&mut st, &sys, Request::DeleteSchedule { index: 3 });
    assert_eq!(error_text(&out.response), "schedule index 3 out of bounds");
    let out = handle(&mut st, &sys, Request::ClearSchedule);
    assert!(matches!(out.response, Response::Done));
    assert!(st.schedule.entries.is_empty());
}

#[test]
fn exclude_include_forget_group() {
    let mut st = state();
    let sys = two_device_system();
    handle(&mut st, &sys, Request::SetRole { group: GroupId(1), role: FanRole::Intake });
    handle(&mut st, &sys, Request::SetRole { group: GroupId(2), role: FanRole::Exhaust });
    handle(&mut st, &sys, Request::ExcludeGroup { group: GroupId(2) });
    assert!(!st.groups[0].excluded);
    assert!(st.groups[1].excluded);
    handle(&mut st, &sys, Request::IncludeGroup { group: GroupId(2) });
    assert!(!st.groups[1].excluded);
    handle(&mut st, &sys, Request::ForgetGroup { group: GroupId(1) });
    assert_eq!(st.groups.len(), 1);
    assert_eq!(st.groups[0].id, GroupId(2));
}

#[test]
fn reorder_groups_checks_size_and_keeps_order_on_success() {
    let mut st = state();
    let sys = empty_system();
    let out = handle(&mut st, &sys, Request::ReorderGroups { order: Vec::new() });
    assert_eq!(error_text(&out.response), "order must be 1-4 groups, got 0");
    let five = vec![GroupId(1), GroupId(2), GroupId(3), GroupId(4), GroupId(5)];
    let out = handle(&mut st, &sys, Request::ReorderGroups { order: five });
    assert_eq!(error_text(&out.response), "order must be 1-4 groups, got 5");
    let out = handle(&mut st, &sys, Request::ReorderGroups { order: vec![GroupId(2), GroupId(1)] });
    assert!(matches!(out.actions.as_slice(), [Action::SetMergeOrder { order }] if order == &vec![GroupId(2), GroupId(1)]));
    let (resp, _, flush) = complete_request(&mut st, out.pending, vec![Err("nack".to_string())], 0);
    assert_eq!(error_text(&resp), "set merge order: nack");
    assert!(!flush);
    assert!(st.merge_order.is_none());
    let out = handle(&mut st, &sys, Request::ReorderGroups { order: vec![GroupId(2), GroupId(1)] });
    let (resp, _, flush) = complete_request(&mut st, out.pending, vec![Ok(())], 0);
    assert!(matches!(resp, Response::Done));
    assert!(flush);
    assert_eq!(st.merge_order, Some(vec![GroupId(2), GroupId(1)]));
}

#[test]
fn aura_filter_stop_fans_skips_aura() {
    let mut st = state();
    let sys = SystemView {
        devices: vec![device(1, "lianli-rf", FanRole::Intake, true), device(5, "aura", FanRole::Intake, false)],
        unbound: 0,
        has_rf: true,
        ..base_system()
    };
    let out = handle(&mut st, &sys, Request::StopFans);
    assert!(matches!(
        out.actions.as_slice(),
        [Action::RemoveCurve { group: GroupId(1) }, Action::MbSyncOff { group: GroupId(1) }, Action::StopFan { group: GroupId(1) }]
    ));
    let (response, events, _) = complete_request(&mut st, out.pending, vec![Ok(())], 0);
    assert!(matches!(response, Response::Done), "expected Ok, got {:?}", response);
    assert_eq!(events.len(), 1);
    assert!(matches!(events[0], DaemonEvent::SpeedChanged { group: GroupId(1), mode: SpeedMode::Manual(0) }));
}

#[test]
fn settings_requests_update_state() {
    let mut st = state();
    let sys = empty_system();
    let out = handle(&mut st, &sys, Request::SetDaemonConfig { poll_interval_ms: 250 });
    assert!(out.flush);
    assert_eq!(st.poll_interval_ms, 250);
    handle(&mut st, &sys, Request::SetSyncConfig { config: sync_config(Vec::new(), Vec::new()) });
    assert!(st.sync.is_some());
    let out = handle(&mut st, &sys, Request::Hello { protocol_version: 0 });
    assert!(matches!(out.response, Response::Error(_)));
    let out = handle(&mut st, &sys, Request::Hello { protocol_version: 9 });
    assert!(matches!(out.response, Response::Hello { protocol_version: 1 }));
}

#[test]
fn indicate_flashes_then_schedules_restore() {
    let mut st = state();
    let sys = system_with_device();
    let out = handle(&mut st, &sys, Request::Indicate { group: GroupId(1), duration_secs: 30, previous: RgbMode::Off });
    assert!(matches!(out.actions.as_slice(), [Action::Flash { group: GroupId(1) }]));
    let (resp, _, _) = complete_request(&mut st, out.pending, vec![Ok(())], 1000);
    assert!(matches!(resp, Response::Done));
    assert_eq!(st.restores.len(), 1);
    let r: &IndicateRestore = &st.restores[0];
    assert_eq!(r.deadline_ms, 11_000);
    assert_eq!(r.group, GroupId(1));
    let out = handle(&mut st, &sys, Request::Indicate { group: GroupId(1), duration_secs: 0, previous: RgbMode::Off });
    let (_, _, _) = complete_request(&mut st, out.pending, vec![Ok(())], 5000);
    assert_eq!(st.restores.len(), 1, "a new flash of the group replaces the old one");
    assert_eq!(st.restores[0].deadline_ms, 6000);
    let out = handle(&mut st, &sys, Request::Indicate { group: GroupId(2), duration_secs: 3, previous: RgbMode::Off });
    let (resp, _, _) = complete_request(&mut st, out.pending, vec![Err("no such group".to_string())], 5000);
    assert_eq!(error_text(&resp), "no such group");
    assert_eq!(st.restores.len(), 1);
}

#[test]
fn resolve_target_all() {
    let sys = system_with_device();
    let groups = resolve_target_groups(&sys, None);
    assert_eq!(groups, vec![GroupId::new(1)]);
    let groups = resolve_target_groups(&sys, Some(&Target::All));
    assert_eq!(groups, vec![GroupId::new(1)]);
}

#[test]
fn resolve_target_single_group() {
    let sys = system_with_device();
    let groups = resolve_target_groups(&sys, Some(&Target::Group(GroupId::new(1))));
    assert_eq!(groups, vec![GroupId::new(1)]);
}

#[test]
fn resolve_target_role() {
    let sys = system_with_device();
    let groups = resolve_target_groups(&sys, Some(&Target::Role(FanRole::Intake)));
    assert_eq!(groups, vec![GroupId::new(1)]);
    let groups = resolve_target_groups(&sys, Some(&Target::Role(FanRole::Exhaust)));
    assert!(groups.is_empty());
}

#[test]
fn reset_reports_each_failed_group() {
    let mut st = state();
    let sys = two_device_system();
    let out = handle(&mut st, &sys, Request::Reset { target: None });
    assert!(matches!(
        out.actions.as_slice(),
        [Action::ResetDevice { group: GroupId(1) }, Action::ResetDevice { group: GroupId(2) }]
    ));
    let (resp, events, _) = complete_request(&mut st, out.pending, vec![Err("timeout".to_string()), Ok(())], 0);
    assert_eq!(error_text(&resp), "group 1: timeout");
    assert!(events.is_empty());
    let out = handle(&mut st, &sys, Request::Reset { target: Some(Target::Role(FanRole::Exhaust)) });
    assert!(matches!(out.actions.as_slice(), [Action::ResetDevice { group: GroupId(2) }]));
    let (resp, _, _) = complete_request(&mut st, out.pending, vec![Ok(())], 0);
    assert!(matches!(resp, Response::Done));
}

#[test]
fn copy_profile_checks_source_and_target() {
    let mut st = state();
    let sys = empty_system();
    let out = handle(&mut st, &sys, Request::CopyProfile { from: "Day".to_string(), to: "Night".to_string(), invalid: None });
    assert_eq!(error_text(&out.response), "profile 'Day' not found");
    handle(&mut st, &sys, Request::SaveProfile { name: "Day".to_string() });
    handle(&mut st, &sys, Request::SaveProfile { name: "Night".to_string() });
    let out = handle(&mut st, &sys, Request::CopyProfile { from: "Day".to_string(), to: "Night".to_string(), invalid: None });
    assert_eq!(error_text(&out.response), "profile 'Night' already exists");
    let out = handle(&mut st, &sys, Request::CopyProfile { from: "Day".to_string(), to: String::new(), invalid: Some("name must not be empty".to_string()) });
    assert_eq!(error_text(&out.response), "name must not be empty");
    let out = handle(&mut st, &sys, Request::CopyProfile { from: "Day".to_string(), to: "Eve".to_string(), invalid: None });
    assert!(matches!(out.response, Response::Done));
    assert!(matches!(out.actions.as_slice(), [Action::CopyProfile { from, to }] if from == "Day" && to == "Eve"));
    assert_eq!(st.profiles, vec!["Day".to_string(), "Night".to_string(), "Eve".to_string()]);
}

#[test]
fn lock_needs_rf_backend_and_reports_failure() {
    let mut st = state();
    let no_rf = SystemView { devices: Vec::new(), unbound: 0, has_rf: false, ..base_system() };
    let out = handle(&mut st, &no_rf, Request::Lock);
    assert_eq!(error_text(&out.response), "no RF backend available");
    let out = handle(&mut st, &empty_system(), Request::Unlock);
    assert!(matches!(out.actions.as_slice(), [Action::Unlock]));
    let (resp, _, _) = complete_request(&mut st, out.pending, vec![Err("radio busy".to_string())], 0);
    assert_eq!(error_text(&resp), "Unlock failed: radio busy");
    let out = handle(&mut st, &empty_system(), Request::SetMbSync { group: GroupId(3), enable: true });
    let (resp, _, _) = complete_request(&mut st, out.pending, vec![Err("no header".to_string())], 0);
    assert_eq!(error_text(&resp), "MB sync failed: no header");
}

fn set_speed(group: u8, mode: SpeedMode, invalid: Option<&str>) -> Request {
    Request::SetSpeed { group: GroupId(group), mode, inline_curve: None, invalid: invalid.map(str::to_string) }
}

#[test]
fn set_speed_manual_over_100_clamped() {
    let mut st = state();
    let out = handle(&mut st, &empty_system(), set_speed(1, SpeedMode::Manual(101), Some("speed must be 0-100, got 101")));
    assert!(matches!(out.response, Response::Error(_)));
    assert!(out.actions.is_empty());
}

#[test]
fn set_speed_curve_empty_points_rejected() {
    let mut st = state();
    let out = handle(&mut st, &empty_system(), set_speed(1, SpeedMode::Curve, Some("FanCurve has no points")));
    assert!(matches!(out.response, Response::Error(ref msg) if msg.contains("FanCurve")));
    assert!(out.events.is_empty());
}

#[test]
fn set_speed_manual_missing_group() {
    let mut st = state();
    let out = handle(&mut st, &empty_system(), set_speed(99, SpeedMode::Manual(50), None));
    let (resp, events) = run_failing(&mut st, out);
    assert!(matches!(resp, Response::Error(_)));
    assert!(events.is_empty());
}

#[test]
fn set_speed_inline_curve_activates_runner() {
    let mut st = state();
    let req = Request::SetSpeed {
        group: GroupId(1),
        mode: SpeedMode::Curve,
        inline_curve: Some("{\"points\":[[30,30],[70,80]]}".to_string()),
        invalid: None,
    };
    let out = handle(&mut st, &empty_system(), req);
    assert!(matches!(out.response, Response::Done));
    assert_eq!(out.events.len(), 1);
    assert!(matches!(out.events[0], DaemonEvent::SpeedChanged { group, .. } if group == GroupId(1)));
    assert!(matches!(out.actions.as_slice(), [Action::RemoveCurve { .. }, Action::SetInlineCurve { curve: Some(_), .. }]));
    assert!(matches!(out.pending, Pending::Nothing));
}

#[test]
fn set_speed_pwm_no_backend() {
    let mut st = state();
    let out = handle(&mut st, &system_with_device(), set_speed(1, SpeedMode::Pwm, None));
    let (resp, _) = run_failing(&mut st, out);
    assert!(matches!(resp, Response::Error(_)));
}

#[test]
fn set_speed_manual_removes_active_curve() {
    let mut st = state();
    let out = handle(&mut st, &empty_system(), set_speed(1, SpeedMode::Manual(50), None));
    assert!(matches!(
        out.actions.as_slice(),
        [Action::RemoveCurve { group: GroupId(1) }, Action::MbSyncOff { group: GroupId(1) }, Action::SetSpeed { group: GroupId(1), mode: SpeedMode::Manual(50) }]
    ));
    let (resp, events, _) = complete_request(&mut st, out.pending, vec![Ok(())], 0);
    assert!(matches!(resp, Response::Done));
    assert!(matches!(events.as_slice(), [DaemonEvent::SpeedChanged { group: GroupId(1), mode: SpeedMode::Manual(50) }]));
}

#[test]
fn set_speed_named_curve_needs_saved_curve() {
    let mut st = state();
    let sys = empty_system();
    let out = handle(&mut st, &sys, set_speed(1, SpeedMode::NamedCurve("quiet".to_string()), None));
    assert_eq!(error_text(&out.response), "curve 'quiet' not found");
    assert!(matches!(out.actions.as_slice(), [Action::RemoveCurve { .. }]));
    handle(&mut st, &sys, Request::SaveCurve { curve: item("quiet", "{}"), invalid: None });
    let out = handle(&mut st, &sys, set_speed(1, SpeedMode::NamedCurve("quiet".to_string()), None));
    assert!(matches!(out.response, Response::Done));
    assert!(matches!(out.actions.as_slice(), [Action::RemoveCurve { .. }, Action::ActivateCurve { name, .. }] if name == "quiet"));
}

#[test]
fn aura_filter_set_speed_all_skips_aura() {
    let mut st = state();
    let mut synced = device(2, "lianli-rf", FanRole::Intake, true);
    synced.mb_sync = true;
    let sys = SystemView {
        devices: vec![device(1, "lianli-rf", FanRole::Intake, true), synced, device(5, "aura", FanRole::Intake, false)],
        unbound: 0,
        has_rf: true,
        ..base_system()
    };
    let out = handle(&mut st, &sys, Request::SetSpeedAll { target: Target::All, mode: SpeedMode::Manual(50), invalid: None });
    assert!(matches!(
        out.actions.as_slice(),
        [Action::RemoveCurve { group: GroupId(1) }, Action::SetSpeed { group: GroupId(1), mode: SpeedMode::Manual(50) }]
    ));
    let (response, events, _) = complete_request(&mut st, out.pending, vec![Ok(())], 0);
    assert!(matches!(response, Response::Done), "expected Ok, got {:?}", response);
    assert_eq!(events.len(), 1);
    assert!(matches!(events[0], DaemonEvent::SpeedChanged { group: GroupId(1), .. }));
}

#[test]
fn bind_no_rf_backend() {
    let mut st = state();
    let sys = SystemView { devices: Vec::new(), unbound: 0, has_rf: false, ..base_system() };
    let out = handle(&mut st, &sys, Request::Bind { group: GroupId::new(1), lock: false });
    assert!(matches!(out.response, Response::Error(ref msg) if msg.contains("backend does not support bind")));
}

#[test]
fn bind_and_unbind_go_to_the_radio() {
    let mut st = state();
    let out = handle(&mut st, &empty_system(), Request::Bind { group: GroupId(4), lock: true });
    assert_eq!(error_text(&out.response), "no unbound devices");
    let sys = SystemView { devices: vec![device(1, "lianli-rf", FanRole::Intake, true)], unbound: 2, has_rf: true, ..base_system() };
    let out = handle(&mut st, &sys, Request::Bind { group: GroupId(4), lock: true });
    assert!(matches!(out.actions.as_slice(), [Action::BindDevice { index: 0, group: GroupId(4), lock: true }]));
    let (resp, _, _) = complete_request(&mut st, out.pending, vec![Err("rejected".to_string())], 0);
    assert_eq!(error_text(&resp), "rejected");
    let out = handle(&mut st, &sys, Request::Unbind { group: GroupId(9) });
    assert_eq!(error_text(&out.response), "no device found in group 9");
    let out = handle(&mut st, &sys, Request::Unbind { group: GroupId(1) });
    assert!(matches!(out.actions.as_slice(), [Action::UnbindDevice { group: GroupId(1) }]));
    let (resp, _, _) = complete_request(&mut st, out.pending, vec![Ok(())], 0);
    assert!(matches!(resp, Response::Done));
}

fn report(r: &Response) -> Report {
    match r {
        Response::Report(k) => k.clone(),
        other => panic!("expected a report, got {:?}", other),
    }
}

#[test]
fn status_empty_system() {
    let mut st = state();
    let out = handle(&mut st, &empty_system(), Request::Status);
    assert!(matches!(out.response, Response::DeviceStatus(ref list) if list.is_empty()));
    assert!(out.events.is_empty());
    assert!(out.actions.is_empty());
}

#[test]
fn status_verbose_same_as_status() {
    let mut st = state();
    let out = handle(&mut st, &system_with_device(), Request::StatusVerbose);
    assert!(matches!(out.response, Response::DeviceStatus(ref list) if list.len() == 1));
}

#[test]
fn list_groups_empty() {
    let mut st = state();
    let out = handle(&mut st, &empty_system(), Request::ListGroups);
    assert!(matches!(out.response, Response::GroupList(ref list) if list.is_empty()));
}

#[test]
fn list_groups_with_device() {
    let mut st = state();
    let out = handle(&mut st, &system_with_device(), Request::ListGroups);
    match out.response {
        Response::GroupList(list) => {
            assert_eq!(list.len(), 1);
            assert_eq!(list[0].group, GroupId::new(1));
            assert_eq!(list[0].fan_count, 3);
        }
        other => panic!("expected GroupList, got {:?}", other),
    }
}

#[test]
fn status_with_device() {
    let mut st = state();
    let out = handle(&mut st, &system_with_device(), Request::Status);
    match out.response {
        Response::DeviceStatus(list) => {
            assert_eq!(list.len(), 1);
            assert_eq!(list[0].info.group, GroupId::new(1));
            assert_eq!(list[0].info.rpms, vec![1200, 1200, 1200]);
            assert!(list[0].online);
            assert!(list[0].lcd.is_none());
        }
        other => panic!("expected DeviceStatus, got {:?}", other),
    }
}

#[test]
fn watch_with_device_returns_populated_status() {
    let mut st = state();
    let out = handle(&mut st, &system_with_device(), Request::Watch);
    match out.response {
        Response::DeviceStatus(groups) => assert!(!groups.is_empty(), "expected non-empty status list"),
        other => panic!("expected DeviceStatus, got {:?}", other),
    }
}

fn live_system() -> SystemView {
    let mut d = device(1, "lianli-rf", FanRole::Intake, true);
    d.speed_percent = Some(70);
    d.rgb_mode = Some(RgbMode::Off);
    d.lcd_count = 2;
    SystemView { devices: vec![d], ..base_system() }
}

#[test]
fn build_status_list_live_state() {
    let list = build_status_list(&live_system(), true);
    assert_eq!(list.len(), 1);
    assert!(matches!(list[0].speed, SpeedMode::Manual(70)));
    assert!(matches!(list[0].rgb, RgbMode::Off));
    assert_eq!(list[0].lcd_count, 2);
    assert!(matches!(list[0].lcd, Some(LcdConfig { brightness: 200, rotation: LcdRotation::R0, content: LcdContent::Off })));
}

#[test]
fn build_status_list_defaults() {
    let list = build_status_list(&live_system(), false);
    assert_eq!(list.len(), 1);
    assert!(matches!(list[0].speed, SpeedMode::Pwm));
    assert!(matches!(list[0].rgb, RgbMode::Off));
}

#[test]
fn watch_returns_device_status() {
    let mut st = state();
    let out = handle(&mut st, &empty_system(), Request::Watch);
    assert!(matches!(out.response, Response::DeviceStatus(_)));
}

#[test]
fn set_effect_cycle_ok() {
    let mut st = state();
    let show = cycle_show(EffectCycle { steps: Vec::new(), playback: Playback::Loop });
    let out = handle(&mut st, &system_with_device(), Request::SetEffectCycle { show });
    assert!(matches!(out.response, Response::Done));
    assert!(!st.show.is_active(), "a cycle without steps starts nothing");
    let show = cycle_show(EffectCycle {
        steps: vec![Step { duration_ms: 500, scene: "{}".to_string() }],
        playback: Playback::Loop,
    });
    let out = handle(&mut st, &system_with_device(), Request::SetEffectCycle { show });
    assert!(matches!(out.response, Response::Done));
    assert_eq!(st.show.active.len(), 1);
    assert_eq!(st.show.active[0].group, GroupId(1));
}

#[test]
fn stop_all_sequences_ok() {
    let mut st = state();
    let out = handle(&mut st, &empty_system(), Request::StopAllSequences);
    assert!(matches!(out.response, Response::Done));
}

#[test]
fn stop_sequence_no_target() {
    let mut st = state();
    let out = handle(&mut st, &empty_system(), Request::StopSequence { target: None });
    assert!(matches!(out.response, Response::Done));
}

#[test]
fn start_sequence_not_found() {
    let mut st = state();
    let out = handle(&mut st, &empty_system(), Request::StartSequence { name: "nonexistent".to_string(), target: None });
    assert_eq!(error_text(&out.response), "sequence 'nonexistent' not found in config");
}

#[test]
fn start_and_stop_a_saved_sequence() {
    let mut st = state();
    let seq = Sequence {
        name: "wave".to_string(),
        steps: vec![Step { duration_ms: 100, scene: "a".to_string() }],
        playback: Playback::Once,
    };
    st.show.load_sequences(vec![seq], Vec::new());
    let sys = two_device_system();
    let out = handle(&mut st, &sys, Request::StartSequence { name: "wave".to_string(), target: Some(Target::Group(GroupId(2))) });
    assert!(matches!(out.response, Response::Done));
    assert_eq!(st.show.active.len(), 1);
    assert_eq!(st.show.active[0].group, GroupId(2));
    let out = handle(&mut st, &sys, Request::StopSequence { target: Some(Target::Group(GroupId(2))) });
    assert!(matches!(out.response, Response::Done));
    assert!(!st.show.is_active());
    assert_eq!(out.events.len(), 1);
}

#[test]
fn firmware_info_no_rf() {
    let mut st = state();
    let out = handle(&mut st, &empty_system(), Request::GetFirmwareInfo);
    match out.response {
        Response::FirmwareInfo { tx_version, rx_version } => {
            assert_eq!(tx_version, "unknown");
            assert_eq!(rx_version, "n/a");
        }
        other => panic!("expected FirmwareInfo, got {:?}", other),
    }
}

#[test]
fn firmware_info_formats_version_and_address() {
    let mut st = state();
    let sys = SystemView { tx_firmware: Some(0x0203), tx_mac: Some([0x29, 0x7a, 0x84, 0xe5, 0x66, 0x04]), ..base_system() };
    let out = handle(&mut st, &sys, Request::GetFirmwareInfo);
    match out.response {
        Response::FirmwareInfo { tx_version, rx_version } => {
            assert_eq!(tx_version, "2.3");
            assert_eq!(rx_version, "29:7a:84:e5:66:04");
        }
        other => panic!("expected FirmwareInfo, got {:?}", other),
    }
}

#[test]
fn set_lcd_missing_device() {
    let mut st = state();
    let config = LcdConfig { brightness: 50, rotation: LcdRotation::R0, content: LcdContent::Off };
    let out = handle(&mut st, &empty_system(), Request::SetLcd { lcd_index: 99, config });
    assert_eq!(error_text(&out.response), "no LCD device at index 99");
}

#[test]
fn set_lcd_configures_the_indexed_screen() {
    let mut st = state();
    let sys = SystemView { lcd_devices: vec![DeviceId(0xAA), DeviceId(0xBB)], ..base_system() };
    let config = LcdConfig { brightness: 80, rotation: LcdRotation::R90, content: LcdContent::SystemInfo };
    let out = handle(&mut st, &sys, Request::SetLcd { lcd_index: 1, config });
    assert!(matches!(out.response, Response::Done));
    assert!(matches!(
        out.actions.as_slice(),
        [Action::ConfigureLcd { device: DeviceId(0xBB), config: LcdConfig { brightness: 80, .. } }]
    ));
}

#[test]
fn set_pump_missing_group() {
    let mut st = state();
    let out = handle(&mut st, &empty_system(), Request::SetPumpMode { group: GroupId(1), mode: "Quiet".to_string(), invalid: None });
    let (resp, events) = run_failing(&mut st, out);
    assert_eq!(error_text(&resp), "set pump mode: mock: no hardware");
    assert!(events.is_empty());
}

#[test]
fn set_rgb_missing_group() {
    let mut st = state();
    let out = handle(&mut st, &empty_system(), Request::SetRgb { group: GroupId(99), mode: RgbMode::Off });
    assert!(matches!(out.actions.as_slice(), [Action::SetRgb { group: GroupId(99), mode: RgbMode::Off }]));
    let (resp, events) = run_failing(&mut st, out);
    assert!(matches!(resp, Response::Error(_)));
    assert!(events.is_empty());
}

#[test]
fn set_rgb_announces_the_new_mode() {
    let mut st = state();
    let out = handle(&mut st, &system_with_device(), Request::SetRgb { group: GroupId(1), mode: RgbMode::Off });
    let (resp, events, _) = complete_request(&mut st, out.pending, vec![Ok(())], 0);
    assert!(matches!(resp, Response::Done));
    assert!(matches!(events.as_slice(), [DaemonEvent::RgbChanged { group: GroupId(1), mode: RgbMode::Off }]));
}

#[test]
fn set_rgb_all_reaches_each_target_group() {
    let mut st = state();
    let out = handle(&mut st, &two_device_system(), Request::SetRgbAll { target: Target::All, mode: RgbMode::Off });
    assert!(matches!(
        out.actions.as_slice(),
        [Action::SetRgb { group: GroupId(1), .. }, Action::SetRgb { group: GroupId(2), .. }]
    ));
    let (resp, events, _) = complete_request(&mut st, out.pending, vec![Err("busy".to_string()), Ok(())], 0);
    assert_eq!(error_text(&resp), "group 1: busy");
    assert!(matches!(events.as_slice(), [DaemonEvent::RgbChanged { group: GroupId(2), .. }]));
}

#[test]
fn set_brightness_dims_the_lit_groups_only() {
    let mut st = state();
    let mut lit = device(1, "lianli-rf", FanRole::Intake, true);
    lit.rgb_mode = Some(RgbMode::Static { ring: Ring::Both, color: Rgb { r: 10, g: 20, b: 30 }, brightness: 255 });
    let dark = device(2, "lianli-rf", FanRole::Intake, true);
    let sys = SystemView { devices: vec![lit, dark], ..base_system() };
    let out = handle(&mut st, &sys, Request::SetBrightness { target: Target::All, level: 40 });
    assert!(matches!(
        out.actions.as_slice(),
        [Action::SetRgb { group: GroupId(1), mode: RgbMode::Static { brightness: 40, color: Rgb { r: 10, g: 20, b: 30 }, .. } }]
    ));
}

#[test]
fn sensor_reading_needs_an_available_sensor() {
    let mut st = state();
    let out = handle(&mut st, &empty_system(), Request::GetSensorReading { sensor: Sensor::Cpu });
    assert_eq!(error_text(&out.response), "sensor Cpu not available");
    let out = handle(&mut st, &empty_system(), Request::GetSensorReading { sensor: Sensor::Motherboard { channel: 2 } });
    assert_eq!(error_text(&out.response), format!("sensor {:?} not available", Sensor::Motherboard { channel: 2 }));
    let sys = SystemView { sensors: vec![Sensor::Gpu], ..base_system() };
    let out = handle(&mut st, &sys, Request::GetSensorReading { sensor: Sensor::Gpu });
    assert!(matches!(report(&out.response), Report::SensorReading(Sensor::Gpu)));
}

#[test]
fn mobo_requests_need_an_aura_backend() {
    let mut st = state();
    let out = handle(&mut st, &empty_system(), Request::MoboDetect);
    assert_eq!(error_text(&out.response), "no AURA motherboard RGB device found");
    let out = handle(&mut st, &empty_system(), Request::MoboStatus);
    assert_eq!(error_text(&out.response), "no AURA devices in registry");
    let out = handle(&mut st, &empty_system(), Request::MoboTemps);
    assert_eq!(error_text(&out.response), "use ListSensors for temperature data");
    let out = handle(&mut st, &empty_system(), Request::MoboSetSpeed { channel: 2, percent: 70 });
    assert!(matches!(out.actions.as_slice(), [Action::SetSpeed { group: GroupId(2), mode: SpeedMode::Manual(70) }]));
    let (resp, _) = run_failing(&mut st, out);
    assert_eq!(error_text(&resp), "mobo speed: mock: no hardware");
    let out = handle(&mut st, &empty_system(), Request::MoboAuto { channel: 2 });
    assert!(matches!(out.actions.as_slice(), [Action::SetSpeed { group: GroupId(2), mode: SpeedMode::Pwm }]));
}

#[test]
fn render_template_preview_passes_through_normal_size() {
    let mut st = state();
    let out = handle(&mut st, &system_with_device(), Request::RenderTemplatePreview { template: "{}".to_string(), width: 400, height: 400 });
    assert!(matches!(out.actions.as_slice(), [Action::RenderPreview { width: 400, height: 400, .. }]));
}

#[test]
fn render_template_preview_clamps_huge_dimensions() {
    let mut st = state();
    let out = handle(
        &mut st,
        &system_with_device(),
        Request::RenderTemplatePreview { template: "{}".to_string(), width: 65535, height: 65535 },
    );
    assert!(matches!(out.actions.as_slice(), [Action::RenderPreview { width: 2048, height: 2048, .. }]));
}

#[test]
fn get_wear_stats_empty() {
    let mut st = state();
    let out = handle(&mut st, &empty_system(), Request::GetWearStats);
    assert!(out.events.is_empty());
    assert!(matches!(report(&out.response), Report::WearStats));
    assert!(Engine::new(2000).wear_entries().is_empty());
}

#[test]
fn get_wear_stats_after_load() {
    let mut engine = Engine::new(2000);
    engine.load_wear_stats(&[WearEntry { group_id: GroupId(1), running_seconds: 3600 }]);
    let entries = engine.wear_entries();
    assert_eq!(entries.len(), 1);
    assert_eq!(entries[0].running_seconds, 3600);
    let sys = system_with_device();
    assert_eq!(wear_label(&sys, entries[0].group_id), "Group 1");
    assert!(!wear_label(&sys, entries[0].group_id).is_empty());
    assert_eq!(wear_label(&empty_system(), GroupId(7)), "Group 7");
}

#[test]
fn get_curve_suggestions_empty() {
    let mut st = state();
    let out = handle(&mut st, &empty_system(), Request::GetCurveSuggestions);
    assert!(out.events.is_empty());
    assert!(matches!(report(&out.response), Report::CurveSuggestions));
}

#[test]
fn get_recovery_counters_returns_snapshot() {
    let mut st = state();
    let out = handle(&mut st, &empty_system(), Request::GetRecoveryCounters);
    assert!(out.events.is_empty());
    assert!(matches!(report(&out.response), Report::RecoveryCounters));
}

#[test]
fn config_reads_give_defaults_then_settings() {
    let mut st = state();
    let out = handle(&mut st, &empty_system(), Request::GetSyncConfig);
    match out.response {
        Response::SyncConfig(c) => assert!(!c.enabled && c.include_lianli && !c.include_openrgb),
        other => panic!("expected SyncConfig, got {:?}", other),
    }
    let out = handle(&mut st, &empty_system(), Request::GetAlertConfig);
    match out.response {
        Response::AlertConfig(c) => assert!(c.temp_alerts.is_empty() && c.fan_stall_detect && c.device_disconnect),
        other => panic!("expected AlertConfig, got {:?}", other),
    }
    handle(&mut st, &empty_system(), Request::SetDaemonConfig { poll_interval_ms: 5000 });
    let out = handle(&mut st, &empty_system(), Request::GetDaemonConfig);
    assert!(matches!(out.response, Response::DaemonConfig { poll_interval_ms: 5000 }));
    let out = handle(&mut st, &empty_system(), Request::ListSchedule);
    assert!(matches!(out.response, Response::ScheduleList(ref v) if v.is_empty()));
}

fn import(profiles: &[&str], curves: Vec<SavedItem>) -> ImportedConfig {
    ImportedConfig {
        profiles: profiles.iter().map(|p| p.to_string()).collect(),
        curves,
        sequences: Vec::new(),
        effects: Vec::new(),
        led_presets: Vec::new(),
        lcd_templates: Vec::new(),
        groups: Vec::new(),
    }
}

#[test]
fn import_config_merges_or_replaces() {
    let mut st = state();
    handle(&mut st, &empty_system(), Request::SaveLedPreset { preset: item("p", "{}") });
    st.curves = vec![item("quiet", "old"), item("loud", "x")];
    let out = handle(
        &mut st,
        &empty_system(),
        Request::ImportConfig { imported: import(&["home"], vec![item("quiet", "new")]), merge: true, problem: None },
    );
    assert!(matches!(out.response, Response::Done));
    assert!(out.flush);
    let curves: Vec<(&str, &str)> = st.curves.iter().map(|c| (c.key.as_str(), c.body.as_str())).collect();
    assert_eq!(curves, vec![("loud", "x"), ("quiet", "new")]);
    assert_eq!(st.profiles, vec!["home".to_string()]);
    assert_eq!(st.led_presets.len(), 1, "a merge keeps what the file does not list");
    let out = handle(&mut st, &empty_system(), Request::ImportConfig { imported: import(&[], Vec::new()), merge: false, problem: None });
    assert!(matches!(out.response, Response::Done));
    assert!(st.curves.is_empty() && st.led_presets.is_empty() && st.profiles.is_empty());
}

#[test]
fn import_config_rejects_dotdot_traversal_outside_safe_paths() {
    let verdict = config_path_verdict("/etc/passwd", Some("/home/user"));
    let msg = verdict.unwrap_err();
    assert!(msg.contains("path must be"));
    assert_eq!(msg, "path must be within home directory or /tmp, got: /etc/passwd");
    let mut st = state();
    let out = handle(
        &mut st,
        &empty_system(),
        Request::ImportConfig { imported: import(&["x"], Vec::new()), merge: false, problem: Some(msg.clone()) },
    );
    assert_eq!(error_text(&out.response), msg);
    assert!(st.profiles.is_empty());
}

#[test]
fn config_paths_must_lie_in_home_or_tmp() {
    assert!(config_path_verdict("/tmp/a.json", None).is_ok());
    assert!(config_path_verdict("/tmp", None).is_ok());
    assert!(config_path_verdict("/home/user/cfg/a.json", Some("/home/user")).is_ok());
    assert!(config_path_verdict("/home/username/a.json", Some("/home/user")).is_err());
    assert!(config_path_verdict("/tmpfoo/a.json", None).is_err());
    assert!(config_path_verdict("/home/user/a.json", None).is_err());
}

#[test]
fn export_config_writes_after_the_path_check() {
    let mut st = state();
    let out = handle(&mut st, &empty_system(), Request::ExportConfig { path: "/tmp/x.json".to_string(), path_error: None });
    assert!(matches!(out.actions.as_slice(), [Action::WriteConfig { path }] if path == "/tmp/x.json"));
    let (resp, _) = run_failing(&mut st, out);
    assert_eq!(error_text(&resp), "mock: no hardware");
    let out = handle(
        &mut st,
        &empty_system(),
        Request::ExportConfig { path: "/etc/x".to_string(), path_error: Some("refused".to_string()) },
    );
    assert_eq!(error_text(&out.response), "refused");
    assert!(out.actions.is_empty());
}

#[test]
fn calibration_and_reload_are_handed_to_the_host() {
    let mut st = state();
    let out = handle(&mut st, &empty_system(), Request::SetSensorCalibration { calibration: "{\"cpu_offset\":2}".to_string() });
    assert!(matches!(out.actions.as_slice(), [Action::ApplyCalibration { .. }]));
    assert!(out.flush);
    let out = handle(&mut st, &empty_system(), Request::ReloadConfig);
    assert!(matches!(out.actions.as_slice(), [Action::ReloadConfig]));
}

#[test]
fn validators_name_speed_and_curve_problems() {
    assert_eq!(name_problem(""), Some("name must not be empty".to_string()));
    assert_eq!(name_problem(&"x".repeat(64)), None);
    assert_eq!(name_problem(&"x".repeat(65)), Some("name must be at most 64 characters".to_string()));
    assert_eq!(speed_problem(&SpeedMode::Manual(101)), Some("speed must be 0-100, got 101".to_string()));
    assert_eq!(speed_problem(&SpeedMode::Manual(100)), None);
    assert_eq!(speed_problem(&SpeedMode::Pwm), None);
    assert_eq!(curve_problem(0), Some("FanCurve has no points".to_string()));
    assert_eq!(curve_problem(3), None);
}

#[test]
fn save_profile_rejects_empty_name_at_serde() {
    assert!(name_problem("").is_some());
}

#[test]
fn save_profile_rejects_long_name_at_serde() {
    assert!(name_problem(&"x".repeat(65)).is_some());
}

#[test]
fn save_curve_rejects_empty_name_at_serde() {
    assert!(name_problem("").is_some());
}

#[test]
fn awaited_results_follow_the_pending_reply() {
    let mut st = state();
    let out = handle(&mut st, &two_device_system(), Request::SetRgbAll { target: Target::All, mode: RgbMode::Off });
    assert!(out.actions.iter().all(|a| is_awaited(&out.pending, a)));
    let out = handle(&mut st, &system_with_device(), Request::SetSpeed {
        group: GroupId(1),
        mode: SpeedMode::Manual(40),
        inline_curve: None,
        invalid: None,
    });
    let awaited: Vec<bool> = out.actions.iter().map(|a| is_awaited(&out.pending, a)).collect();
    assert_eq!(awaited.iter().filter(|b| **b).count(), 1);
    assert!(!is_awaited(&Pending::Nothing, &Action::Lock));
}
