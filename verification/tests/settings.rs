use frgb::alerts::{AlertAction, AlertConfig, TempAlert};
use frgb::handler::{Request, Response};
use frgb::model::Sensor;
use frgb::scheduler::{FanRole, ScheduleAction, Target, Weekday};
use frgb::settings_page::{
    alert_config_from_form, daemon_config_from_form, groups_from_text, save_profile_request, schedule_entry_from_ui,
    settings_status, sync_config_from_ui, sync_form, SettingsStep,
};
use frgb::GroupId;

#[test]
fn schedule_entry_clamps_time_and_runs_every_day() {
    let e = schedule_entry_from_ui(30, -5, "profile:Night");
    assert_eq!(e.hour, 23);
    assert_eq!(e.minute, 0);
    assert_eq!(
        e.days,
        vec![Weekday::Mon, Weekday::Tue, Weekday::Wed, Weekday::Thu, Weekday::Fri, Weekday::Sat, Weekday::Sun]
    );
    assert!(matches!(e.action, ScheduleAction::SwitchProfile(ref n) if n == "Night"));
    let e = schedule_entry_from_ui(7, 75, "x");
    assert_eq!((e.hour, e.minute), (7, 59));
}

#[test]
fn schedule_action_is_read_from_its_prefix() {
    let e = schedule_entry_from_ui(8, 30, "speed:70");
    assert!(matches!(e.action, ScheduleAction::SetSpeed { target: Target::All, percent: 70 }));
    let e = schedule_entry_from_ui(8, 30, "speed:fast");
    assert!(matches!(e.action, ScheduleAction::SetSpeed { target: Target::All, percent: 50 }));
    let e = schedule_entry_from_ui(8, 30, "speed:300");
    assert!(matches!(e.action, ScheduleAction::SetSpeed { percent: 50, .. }));
    let e = schedule_entry_from_ui(8, 30, "Gaming");
    assert!(matches!(e.action, ScheduleAction::SwitchProfile(ref n) if n == "Gaming"));
    let e = schedule_entry_from_ui(8, 30, "profile:");
    assert!(matches!(e.action, ScheduleAction::SwitchProfile(ref n) if n.is_empty()));
}

#[test]
fn sync_config_takes_roles_in_order_and_named_groups() {
    let c = sync_config_from_ui(true, true, false, true, true, false, true, " 3, x,7 ,256,,+9");
    assert!(c.enabled && c.include_lianli && !c.include_mobo_rgb && c.include_openrgb);
    assert!(matches!(c.include_roles.as_slice(), [FanRole::Intake, FanRole::Pump]));
    assert!(c.include_device_types.is_empty());
    assert_eq!(c.exclude_groups, vec![GroupId(3), GroupId(7), GroupId(9)]);
    let c = sync_config_from_ui(false, false, false, false, false, false, false, "");
    assert!(c.include_roles.is_empty() && c.exclude_groups.is_empty());
}

#[test]
fn exclusion_text_splits_like_the_form_does() {
    assert_eq!(groups_from_text("1,2,3"), vec![GroupId(1), GroupId(2), GroupId(3)]);
    assert_eq!(groups_from_text("\t4\u{a0}"), vec![GroupId(4)]);
    assert_eq!(groups_from_text("-1, 1 2"), Vec::<GroupId>::new());
}

#[test]
fn sync_form_shows_a_config() {
    let c = sync_config_from_ui(true, false, true, false, false, true, false, "2,10");
    let f = sync_form(&c);
    assert!(f.enabled && !f.lianli && f.mobo && !f.openrgb);
    assert!(!f.intake && f.exhaust && !f.pump);
    assert_eq!(f.exclude, "2,10");
    let none = sync_config_from_ui(false, true, false, false, false, false, false, "");
    let f = sync_form(&none);
    assert!(f.intake && f.exhaust && f.pump, "no role named means every role");
    assert_eq!(f.exclude, "");
}

#[test]
fn alert_settings_keep_alerts_and_take_the_checks() {
    let read = Response::AlertConfig(AlertConfig {
        temp_alerts: vec![TempAlert { sensor: Sensor::Cpu, threshold: 80, action: AlertAction::Notify }],
        fan_stall_detect: true,
        device_disconnect: true,
    });
    let c = alert_config_from_form(&read, false, true);
    assert_eq!(c.temp_alerts.len(), 1);
    assert_eq!(c.temp_alerts[0].threshold, 80);
    assert!(!c.fan_stall_detect && c.device_disconnect);
    let c = alert_config_from_form(&Response::Error("down".to_string()), true, false);
    assert!(c.temp_alerts.is_empty() && c.fan_stall_detect && !c.device_disconnect);
}

#[test]
fn daemon_settings_written_only_after_a_read() {
    let read = Response::DaemonConfig { poll_interval_ms: 1000 };
    assert!(matches!(daemon_config_from_form(&read, 2500), Some(Request::SetDaemonConfig { poll_interval_ms: 2500 })));
    assert!(matches!(
        daemon_config_from_form(&read, -1),
        Some(Request::SetDaemonConfig { poll_interval_ms: 4294967295 })
    ));
    assert!(daemon_config_from_form(&Response::Done, 2500).is_none());
}

#[test]
fn profile_names_are_checked_before_saving() {
    assert!(save_profile_request("").is_none());
    assert!(save_profile_request(&"p".repeat(65)).is_none());
    assert!(matches!(save_profile_request("Quiet"), Some(Request::SaveProfile { ref name }) if name == "Quiet"));
}

#[test]
fn status_line_after_replies() {
    let err = Response::Error("busy".to_string());
    assert_eq!(settings_status(SettingsStep::Calibration, &err), Some("Calibration save failed: busy".to_string()));
    assert_eq!(settings_status(SettingsStep::AlertConfig, &err), Some("Alert config save failed: busy".to_string()));
    assert_eq!(settings_status(SettingsStep::DaemonConfig, &err), Some("Config save failed: busy".to_string()));
    assert_eq!(settings_status(SettingsStep::SyncConfig, &err), Some("Sync save failed: busy".to_string()));
    assert_eq!(settings_status(SettingsStep::AddSchedule, &err), Some("Add schedule failed: busy".to_string()));
    assert_eq!(settings_status(SettingsStep::SwitchProfile, &err), Some("Switch failed: busy".to_string()));
    assert_eq!(settings_status(SettingsStep::DeleteProfile, &err), Some("Delete failed: busy".to_string()));
    assert_eq!(settings_status(SettingsStep::SaveProfile, &err), Some("Save failed: busy".to_string()));
    assert_eq!(settings_status(SettingsStep::DaemonConfig, &Response::Done), Some("Settings saved".to_string()));
    assert_eq!(settings_status(SettingsStep::SyncConfig, &Response::Done), Some("Sync config saved".to_string()));
    assert_eq!(settings_status(SettingsStep::AddSchedule, &Response::Done), None);
}
