use frgb::alerts::{AlertAction, AlertConfig, AlertRunner, TempAlert};
use frgb::app_profiles::{find_app_profile, find_lowered, AppProfile, AppProfileCommand, AppProfileRunner};
use frgb::model::{GroupId, Rgb, Ring, Sensor};
use frgb::power::{on_ac_from_supplies, PowerCommand, PowerConfig, PowerRunner, PowerSupply};
use frgb::rgb::RgbMode;
use frgb::scheduler::{
    resolve_target, saturating_time_t, weekday_from_tm, LocalTime, ScheduleAction, ScheduleCommand,
    ScheduleEntry, ScheduleRunner, Target, Weekday,
};
use frgb::temp_rgb::{interpolate_gradient, TempColorPoint, TempRgbConfig, TempRgbRunner};

// ---------------------------------------------------------------------------
// Alerts (readings in milli-degrees)
// ---------------------------------------------------------------------------

fn alert_config() -> AlertConfig {
    AlertConfig {
        temp_alerts: vec![
            TempAlert { sensor: Sensor::Cpu, threshold: 80, action: AlertAction::Notify },
            TempAlert { sensor: Sensor::Gpu, threshold: 90, action: AlertAction::SetSpeed(100) },
        ],
        fan_stall_detect: true,
        device_disconnect: true,
    }
}

#[test]
fn no_config_no_events() {
    let mut runner = AlertRunner::new();
    runner.ingest(Sensor::Cpu, 95_000);
    let events = runner.evaluate();
    assert!(events.is_empty());
    assert!(!runner.is_active());
}

#[test]
fn below_threshold_no_alert() {
    let mut runner = AlertRunner::new();
    runner.set_config(alert_config());
    runner.ingest(Sensor::Cpu, 75_000);
    assert!(runner.evaluate().is_empty());
}

#[test]
fn crosses_threshold_fires_alert() {
    let mut runner = AlertRunner::new();
    runner.set_config(alert_config());
    runner.ingest(Sensor::Cpu, 82_000);

    let events = runner.evaluate();
    assert_eq!(events.len(), 1);
    assert_eq!(events[0].sensor, Sensor::Cpu);
    assert_eq!(events[0].threshold, 80);
    assert!((events[0].value_milli - 82_000).abs() < 10);
}

#[test]
fn no_repeat_while_active() {
    let mut runner = AlertRunner::new();
    runner.set_config(alert_config());
    runner.ingest(Sensor::Cpu, 85_000);
    assert_eq!(runner.evaluate().len(), 1);

    runner.ingest(Sensor::Cpu, 86_000);
    assert!(runner.evaluate().is_empty());
}

#[test]
fn hysteresis_prevents_flapping() {
    let mut runner = AlertRunner::new();
    runner.set_config(alert_config());
    runner.ingest(Sensor::Cpu, 82_000);
    runner.evaluate();
    runner.ingest(Sensor::Cpu, 79_000);
    runner.evaluate();
    runner.ingest(Sensor::Cpu, 81_000);
    let events = runner.evaluate();
    assert!(events.is_empty(), "should not re-fire within hysteresis band");
}

#[test]
fn clears_after_hysteresis() {
    let mut runner = AlertRunner::new();
    runner.set_config(alert_config());
    runner.ingest(Sensor::Cpu, 82_000);
    runner.evaluate();
    runner.ingest(Sensor::Cpu, 77_000);
    runner.evaluate();
    runner.ingest(Sensor::Cpu, 81_000);
    assert_eq!(runner.evaluate().len(), 1, "should re-fire after clearing hysteresis");
}

#[test]
fn multiple_alerts_independent() {
    let mut runner = AlertRunner::new();
    runner.set_config(alert_config());
    runner.ingest(Sensor::Cpu, 85_000);
    runner.ingest(Sensor::Gpu, 70_000);

    let events = runner.evaluate();
    assert_eq!(events.len(), 1);
    assert_eq!(events[0].sensor, Sensor::Cpu);

    runner.ingest(Sensor::Gpu, 92_000);
    let events = runner.evaluate();
    assert_eq!(events.len(), 1);
    assert_eq!(events[0].sensor, Sensor::Gpu);
}

#[test]
fn missing_sensor_no_panic() {
    let mut runner = AlertRunner::new();
    runner.set_config(alert_config());
    assert!(runner.evaluate().is_empty());
}

#[test]
fn hysteresis_band_edge_keeps_alert_active() {
    // 78 °C is exactly threshold - 2: still inside the band, so no re-fire.
    let mut runner = AlertRunner::new();
    runner.set_config(alert_config());
    runner.ingest(Sensor::Cpu, 80_000);
    assert_eq!(runner.evaluate().len(), 1);
    runner.ingest(Sensor::Cpu, 78_000);
    runner.evaluate();
    runner.ingest(Sensor::Cpu, 80_000);
    assert!(runner.evaluate().is_empty());
    // Just below the band clears it.
    runner.ingest(Sensor::Cpu, 77_999);
    runner.evaluate();
    runner.ingest(Sensor::Cpu, 80_000);
    assert_eq!(runner.evaluate().len(), 1);
}

#[test]
fn pending_actions_lists_fired_alerts() {
    let mut runner = AlertRunner::new();
    runner.set_config(alert_config());
    runner.ingest(Sensor::Gpu, 95_000);
    runner.evaluate();
    let pending = runner.pending_actions();
    assert_eq!(pending.len(), 1);
    assert_eq!(pending[0].sensor, Sensor::Gpu);
    assert_eq!(pending[0].action, AlertAction::SetSpeed(100));
}

// ---------------------------------------------------------------------------
// Temperature-reactive RGB (temperatures in milli-degrees)
// ---------------------------------------------------------------------------

fn test_gradient() -> Vec<TempColorPoint> {
    vec![
        TempColorPoint { temp: 30, color: Rgb { r: 0, g: 0, b: 255 } },
        TempColorPoint { temp: 50, color: Rgb { r: 0, g: 255, b: 0 } },
        TempColorPoint { temp: 80, color: Rgb { r: 255, g: 0, b: 0 } },
    ]
}

fn test_rgb_config() -> TempRgbConfig {
    TempRgbConfig { sensor: Sensor::Cpu, gradient: test_gradient(), ring: Ring::Both }
}

#[test]
fn interpolate_below_range_clamps() {
    assert_eq!(interpolate_gradient(&test_gradient(), 10_000), Rgb { r: 0, g: 0, b: 255 });
}

#[test]
fn interpolate_above_range_clamps() {
    assert_eq!(interpolate_gradient(&test_gradient(), 100_000), Rgb { r: 255, g: 0, b: 0 });
}

#[test]
fn interpolate_exact_point() {
    assert_eq!(interpolate_gradient(&test_gradient(), 50_000), Rgb { r: 0, g: 255, b: 0 });
}

#[test]
fn interpolate_midpoint() {
    let c = interpolate_gradient(&test_gradient(), 40_000);
    assert_eq!(c.r, 0);
    assert_eq!(c.g, 128);
    assert_eq!(c.b, 128);
}

#[test]
fn empty_gradient_returns_black() {
    assert_eq!(interpolate_gradient(&[], 50_000), Rgb { r: 0, g: 0, b: 0 });
}

#[test]
fn interpolate_quarter_point() {
    // 65 °C lies halfway between 50 (green) and 80 (red).
    let c = interpolate_gradient(&test_gradient(), 65_000);
    assert_eq!(c, Rgb { r: 128, g: 128, b: 0 });
    // 35 °C: a quarter of the way from blue to green: 63.75 -> 64, 191.25 -> 191.
    let c = interpolate_gradient(&test_gradient(), 35_000);
    assert_eq!(c, Rgb { r: 0, g: 64, b: 191 });
}

#[test]
fn temp_rgb_evaluate_no_sensors_no_commands() {
    let mut runner = TempRgbRunner::new();
    runner.set(GroupId::new(1), test_rgb_config());
    let (commands, _) = runner.evaluate();
    assert!(commands.is_empty());
}

#[test]
fn evaluate_produces_rgb_command() {
    let mut runner = TempRgbRunner::new();
    runner.set(GroupId::new(1), test_rgb_config());
    runner.ingest(Sensor::Cpu, 50_000);

    let (commands, events) = runner.evaluate();
    assert_eq!(commands.len(), 1);
    assert_eq!(commands[0].0, GroupId::new(1));
    match &commands[0].1 {
        RgbMode::Static { color, ring, brightness } => {
            assert_eq!(*color, Rgb { r: 0, g: 255, b: 0 });
            assert_eq!(*ring, Ring::Both);
            assert_eq!(*brightness, 255);
        }
        other => panic!("expected Static, got {:?}", other),
    }
    assert_eq!(events.len(), 1);
}

#[test]
fn no_change_no_event() {
    let mut runner = TempRgbRunner::new();
    runner.set(GroupId::new(1), test_rgb_config());
    runner.ingest(Sensor::Cpu, 50_000);
    runner.evaluate();

    runner.ingest(Sensor::Cpu, 50_000);
    let (commands, events) = runner.evaluate();
    assert!(commands.is_empty());
    assert!(events.is_empty());
}

#[test]
fn remove_stops_evaluation() {
    let mut runner = TempRgbRunner::new();
    runner.set(GroupId::new(1), test_rgb_config());
    assert!(runner.is_active());
    runner.remove(GroupId::new(1));
    assert!(!runner.is_active());
}

#[test]
fn evaluate_without_new_readings_is_silent() {
    let mut runner = TempRgbRunner::new();
    runner.set(GroupId::new(1), test_rgb_config());
    runner.ingest(Sensor::Cpu, 40_000);
    assert_eq!(runner.evaluate().0.len(), 1);
    // Nothing ingested since: nothing to do even though the colour would be recomputed.
    runner.set(GroupId::new(1), test_rgb_config());
    assert!(runner.evaluate().0.is_empty());
}

#[test]
fn set_replaces_existing_group_config() {
    let mut runner = TempRgbRunner::new();
    runner.set(GroupId::new(1), test_rgb_config());
    runner.set(GroupId::new(1), TempRgbConfig { sensor: Sensor::Gpu, gradient: test_gradient(), ring: Ring::Inner });
    assert_eq!(runner.configs.len(), 1);
    runner.ingest(Sensor::Gpu, 90_000);
    let (commands, _) = runner.evaluate();
    assert_eq!(commands.len(), 1);
    assert!(matches!(commands[0].1, RgbMode::Static { ring: Ring::Inner, .. }));
}

// ---------------------------------------------------------------------------
// Scheduler
// ---------------------------------------------------------------------------

fn entry(hour: u8, minute: u8, days: Vec<Weekday>, action: ScheduleAction) -> ScheduleEntry {
    ScheduleEntry { hour, minute, days, action }
}

fn at(hour: u8, minute: u8, weekday: Weekday) -> LocalTime {
    LocalTime { hour, minute, weekday }
}

#[test]
fn no_entries_no_commands() {
    let mut runner = ScheduleRunner::new(0);
    let commands = runner.evaluate(0, at(8, 0, Weekday::Mon), &[GroupId::new(1), GroupId::new(2), GroupId::new(3)]);
    assert!(commands.is_empty());
    assert!(!runner.is_active());
}

#[test]
fn add_and_remove() {
    let mut runner = ScheduleRunner::new(0);
    runner.add(entry(8, 0, vec![], ScheduleAction::SwitchProfile("quiet".into())));
    assert!(runner.is_active());
    assert_eq!(runner.entries().len(), 1);

    assert!(runner.remove(0));
    assert!(!runner.is_active());
    assert!(!runner.remove(0));
}

#[test]
fn clear_removes_all() {
    let mut runner = ScheduleRunner::new(0);
    runner.add(entry(8, 0, vec![], ScheduleAction::SwitchProfile("a".into())));
    runner.add(entry(9, 0, vec![], ScheduleAction::SwitchProfile("b".into())));
    assert_eq!(runner.entries().len(), 2);
    runner.clear();
    assert!(!runner.is_active());
}

#[test]
fn load_replaces() {
    let mut runner = ScheduleRunner::new(0);
    runner.add(entry(8, 0, vec![], ScheduleAction::SwitchProfile("old".into())));
    runner.load(vec![entry(10, 30, vec![Weekday::Mon], ScheduleAction::SwitchProfile("new".into()))]);
    assert_eq!(runner.entries().len(), 1);
    assert_eq!(runner.entries()[0].hour, 10);
}

#[test]
fn scheduler_resolve_target_all() {
    let all = vec![GroupId::new(1), GroupId::new(2), GroupId::new(3)];
    assert_eq!(resolve_target(&Target::All, &all), all);
}

#[test]
fn resolve_target_single() {
    let all = vec![GroupId::new(1), GroupId::new(2), GroupId::new(3)];
    assert_eq!(resolve_target(&Target::Group(GroupId::new(5)), &all), vec![GroupId::new(5)]);
}

#[test]
fn resolve_target_multiple() {
    let all = vec![GroupId::new(1), GroupId::new(2), GroupId::new(3)];
    let groups = resolve_target(&Target::Groups(vec![GroupId::new(2), GroupId::new(4)]), &all);
    assert_eq!(groups, vec![GroupId::new(2), GroupId::new(4)]);
}

#[test]
fn saturating_time_t_handles_boundaries() {
    assert_eq!(saturating_time_t(0), 0 as libc::time_t);
    let mid = 1_000_000_000u64;
    assert_eq!(saturating_time_t(mid), mid as libc::time_t);
    assert_eq!(saturating_time_t(u64::MAX), libc::time_t::MAX);
    let just_past_i32 = (i32::MAX as u64) + 1;
    assert_eq!(saturating_time_t(just_past_i32), just_past_i32 as libc::time_t);
}

#[test]
fn schedule_fires_once_per_minute() {
    let mut runner = ScheduleRunner::new(0);
    runner.add(entry(8, 30, vec![], ScheduleAction::SwitchProfile("day".into())));
    runner.add(entry(8, 30, vec![Weekday::Sat], ScheduleAction::SwitchProfile("weekend".into())));
    runner.add(entry(9, 0, vec![], ScheduleAction::SwitchProfile("later".into())));

    // Too soon after construction: nothing is checked.
    assert!(runner.evaluate(10, at(8, 30, Weekday::Mon), &[]).is_empty());
    let cmds = runner.evaluate(60, at(8, 30, Weekday::Mon), &[]);
    assert_eq!(cmds.len(), 1);
    assert!(matches!(&cmds[0], ScheduleCommand::SwitchProfile(n) if n == "day"));
    // Same minute again, a minute of monotonic time later: no repeat.
    assert!(runner.evaluate(120, at(8, 30, Weekday::Mon), &[]).is_empty());
    // Next check at a new minute.
    assert!(runner.evaluate(180, at(8, 31, Weekday::Mon), &[]).is_empty());
}

#[test]
fn schedule_day_filter_and_targets() {
    let all = [GroupId::new(1), GroupId::new(2)];
    let mut runner = ScheduleRunner::new(0);
    runner.add(entry(22, 0, vec![Weekday::Fri, Weekday::Sat], ScheduleAction::SetSpeed { target: Target::All, percent: 30 }));
    runner.add(entry(22, 0, vec![], ScheduleAction::ApplyCurve { target: Target::Group(GroupId::new(2)), curve: "silent".into() }));
    let cmds = runner.evaluate(100, at(22, 0, Weekday::Sat), &all);
    assert_eq!(cmds.len(), 3);
    assert!(matches!(cmds[0], ScheduleCommand::SetSpeed { group, percent: 30 } if group == GroupId::new(1)));
    assert!(matches!(cmds[1], ScheduleCommand::SetSpeed { group, percent: 30 } if group == GroupId::new(2)));
    assert!(matches!(&cmds[2], ScheduleCommand::ApplyCurve { group, curve } if *group == GroupId::new(2) && curve == "silent"));

    let mut runner = ScheduleRunner::new(0);
    runner.add(entry(22, 0, vec![Weekday::Fri, Weekday::Sat], ScheduleAction::SetSpeed { target: Target::All, percent: 30 }));
    assert!(runner.evaluate(100, at(22, 0, Weekday::Mon), &all).is_empty());
}

#[test]
fn weekday_from_tm_values() {
    assert_eq!(weekday_from_tm(0), Weekday::Sun);
    assert_eq!(weekday_from_tm(1), Weekday::Mon);
    assert_eq!(weekday_from_tm(6), Weekday::Sat);
    assert_eq!(weekday_from_tm(7), Weekday::Mon);
    assert_eq!(weekday_from_tm(-1), Weekday::Mon);
}

// ---------------------------------------------------------------------------
// Power
// ---------------------------------------------------------------------------

fn supply(t: &str, online: Option<&str>) -> PowerSupply {
    PowerSupply { supply_type: t.into(), online: online.map(|s| s.to_string()) }
}

#[test]
fn no_config_no_command() {
    let mut runner = PowerRunner::new();
    assert!(runner.evaluate(true).is_none());
    assert!(!runner.is_active());
}

#[test]
fn is_on_ac_power_returns_bool() {
    let _result = on_ac_from_supplies(true, &[supply("Mains", Some("1"))]);
}

#[test]
fn ac_detection_from_supplies() {
    assert!(on_ac_from_supplies(false, &[supply("Battery", None)]));
    assert!(on_ac_from_supplies(true, &[]));
    assert!(on_ac_from_supplies(true, &[supply("Battery", None), supply("Mains", Some("1"))]));
    assert!(!on_ac_from_supplies(true, &[supply("Battery", None), supply("Mains", Some("0"))]));
    assert!(!on_ac_from_supplies(true, &[supply("Mains", None), supply("Battery", None)]));
    assert!(on_ac_from_supplies(true, &[supply("USB", Some("1"))]));
}

#[test]
fn power_switches_once_per_change() {
    let mut runner = PowerRunner::new();
    assert!(runner.is_on_ac());
    runner.set_config(PowerConfig { on_ac: Some("perf".into()), on_battery: Some("quiet".into()) });
    assert!(matches!(runner.evaluate(false), Some(PowerCommand::SwitchProfile(n)) if n == "quiet"));
    assert!(!runner.is_on_ac());
    assert!(runner.evaluate(false).is_none());
    assert!(matches!(runner.evaluate(true), Some(PowerCommand::SwitchProfile(n)) if n == "perf"));
}

// ---------------------------------------------------------------------------
// App profiles
// ---------------------------------------------------------------------------

fn firefox_gaming() -> AppProfile {
    AppProfile { app_name: "firefox".into(), profile: "Gaming".into() }
}

#[test]
fn no_profiles_no_command() {
    let mut runner = AppProfileRunner::new();
    assert!(runner.evaluate(None).is_none());
    assert!(!runner.is_active());
}

#[test]
fn load_and_active() {
    let mut runner = AppProfileRunner::new();
    runner.load(vec![firefox_gaming()]);
    assert!(runner.is_active());
}

#[test]
fn no_repeat_switch() {
    let mut runner = AppProfileRunner::new();
    runner.last_matched = Some("Gaming".into());
    runner.load(vec![firefox_gaming()]);
    let cmd = runner.evaluate(None);
    assert!(cmd.is_none());
    assert!(runner.last_matched.is_none());
}

#[test]
fn app_profile_case_insensitive_match() {
    let mut runner = AppProfileRunner::new();
    runner.load(vec![AppProfile { app_name: "steam".into(), profile: "Quiet".into() }, firefox_gaming()]);
    let cmd = runner.evaluate(Some("Firefox-ESR".into()));
    assert!(matches!(cmd, Some(AppProfileCommand::SwitchProfile(ref p)) if p == "Gaming"));
    // Same profile again: no repeat.
    assert!(runner.evaluate(Some("firefox".into())).is_none());
    assert_eq!(find_app_profile(&runner.profiles, "SteamWebHelper"), Some(0));
    assert_eq!(find_app_profile(&runner.profiles, "bash"), None);
}

#[test]
fn actions_for_fired_alert() {
    let mut runner = AlertRunner::new();
    let mut cfg = alert_config();
    cfg.temp_alerts.push(TempAlert { sensor: Sensor::Cpu, threshold: 80, action: AlertAction::SwitchProfile("cool".into()) });
    runner.set_config(cfg);
    runner.ingest(Sensor::Cpu, 81_000);
    let events = runner.evaluate();
    assert_eq!(events.len(), 2);
    let actions = runner.actions_for(&events[0]);
    assert_eq!(actions, vec![AlertAction::Notify, AlertAction::SwitchProfile("cool".into())]);
}

// ---------------------------------------------------------------------------
// Schedule requests (validation, add, delete, clear)
// ---------------------------------------------------------------------------

#[test]
fn list_schedule_empty() {
    let runner = ScheduleRunner::new(0);
    assert!(runner.entries().is_empty());
}

#[test]
fn add_schedule_invalid_hour() {
    let entry = ScheduleEntry { hour: 25, minute: 0, days: vec![], action: ScheduleAction::SwitchProfile("test".into()) };
    assert!(matches!(entry.validate(), Err(ref msg) if msg.contains("hour")));
}

#[test]
fn add_schedule_invalid_minute() {
    let entry = ScheduleEntry { hour: 12, minute: 60, days: vec![], action: ScheduleAction::SwitchProfile("test".into()) };
    assert!(matches!(entry.validate(), Err(ref msg) if msg.contains("minute")));
}

#[test]
fn add_schedule_valid() {
    let mut runner = ScheduleRunner::new(0);
    let entry = ScheduleEntry {
        hour: 8,
        minute: 30,
        days: vec![Weekday::Mon, Weekday::Fri],
        action: ScheduleAction::SwitchProfile("quiet".into()),
    };
    assert!(entry.validate().is_ok());
    runner.add(entry);
    assert_eq!(runner.entries().len(), 1);
}

#[test]
fn remove_schedule_out_of_bounds() {
    let mut runner = ScheduleRunner::new(0);
    assert!(!runner.remove(0));
}

#[test]
fn clear_schedule() {
    let mut runner = ScheduleRunner::new(0);
    runner.add(ScheduleEntry { hour: 12, minute: 0, days: vec![], action: ScheduleAction::SwitchProfile("test".into()) });
    runner.clear();
    assert!(runner.entries().is_empty());
}

#[test]
fn schedule_validation_messages() {
    let e = |hour, minute| ScheduleEntry { hour, minute, days: vec![], action: ScheduleAction::SwitchProfile("x".into()) };
    assert_eq!(e(24, 0).validate(), Err("hour must be 0-23, got 24".to_string()));
    assert_eq!(e(23, 60).validate(), Err("minute must be 0-59, got 60".to_string()));
    assert_eq!(e(30, 99).validate(), Err("hour must be 0-23, got 30".to_string()));
    assert_eq!(e(23, 59).validate(), Ok(()));
}

#[test]
fn lowered_names_are_found_in_order() {
    let needles = vec!["steam".to_string(), "web".to_string()];
    assert_eq!(find_lowered(&needles, "steamwebhelper"), Some(0));
    assert_eq!(find_lowered(&needles, "firefox web"), Some(1));
    assert_eq!(find_lowered(&needles, "bash"), None);
    assert_eq!(find_lowered(&needles, "STEAM"), None, "the text is taken as already lowered");
}
