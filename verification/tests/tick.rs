use frgb::engine::{Engine, EngineEvent};
use frgb::handler::{Action, DaemonEvent};
use frgb::model::{Rgb, Ring};
use frgb::indicate::IndicateRestore;
use frgb::lcd_manager::{DeviceId, LcdManager};
use frgb::rgb::RgbMode;
use frgb::scheduler::FanRole;
use frgb::tick::{after_discovery, begin_tick, fan_capable_commands, play_shows, DeviceSnapshot, TickState};
use frgb::show::{EffectCycle, Playback, ShowRunner, Step};
use frgb::GroupId;

fn snap(group: u8, rpm: u16, role: FanRole, aio: bool, speed: Option<u8>, has_lcd: bool, fan_capable: bool) -> DeviceSnapshot {
    DeviceSnapshot { group: GroupId(group), rpms: [rpm, rpm, rpm, 0], aio, role, speed_percent: speed, has_lcd, fan_capable }
}

#[test]
fn due_flashes_are_restored_and_poll_waits_for_interval() {
    let mut ts = TickState::new(1000);
    let mut restores = vec![
        IndicateRestore { deadline_ms: 1500, group: GroupId(1), mode: RgbMode::Off },
        IndicateRestore { deadline_ms: 9000, group: GroupId(2), mode: RgbMode::Off },
    ];
    let start = begin_tick(&mut ts, &mut restores, 2000, 2000);
    assert_eq!(start.restores.len(), 1);
    assert_eq!(start.restores[0].group, GroupId(1));
    assert!(!start.poll);
    assert_eq!(ts.last_poll_ms, 1000);
    assert_eq!(restores.len(), 1);
    let start = begin_tick(&mut ts, &mut restores, 2000, 3000);
    assert!(start.poll);
    assert!(start.restores.is_empty());
    assert_eq!(ts.last_poll_ms, 3000);
    let start = begin_tick(&mut ts, &mut restores, 2000, 500);
    assert!(!start.poll);
}

#[test]
fn poll_reports_connections_pumps_and_bind_devices() {
    let mut engine = Engine::new(2000);
    let mut lcd = LcdManager::new();
    let devices = vec![
        snap(1, 1200, FanRole::Intake, false, Some(40), false, true),
        snap(2, 2400, FanRole::Pump, false, Some(80), false, true),
        snap(3, 1800, FanRole::Exhaust, true, None, true, true),
        snap(4, 0, FanRole::Exhaust, true, Some(60), true, false),
    ];
    let plan = after_discovery(&mut engine, &mut lcd, &devices, 2, &[], 2, 0);
    assert_eq!(plan.bind_discovered, 0);
    assert!(plan.events.iter().any(|e| matches!(e, EngineEvent::DeviceConnected { group } if *group == GroupId(1))));
    assert_eq!(plan.pump_keepalive, vec![(GroupId(2), 80), (GroupId(4), 60)]);
    assert_eq!(lcd.device_count(), 0);

    engine.bind_scanning = true;
    let screens = [(DeviceId(0xAA), 480, 480), (DeviceId(0xBB), 400, 400)];
    let plan = after_discovery(&mut engine, &mut lcd, &devices, 2, &screens, 2, 10);
    assert_eq!(plan.bind_discovered, 2);
    assert!(plan.events.is_empty());
    assert_eq!(lcd.device_count(), 2);
}

#[test]
fn curve_commands_only_reach_fan_capable_groups() {
    let devices = vec![
        snap(1, 1000, FanRole::Intake, false, None, false, true),
        snap(5, 0, FanRole::Intake, false, None, false, false),
    ];
    let commands = vec![(GroupId(1), 30), (GroupId(5), 40), (GroupId(9), 50)];
    assert_eq!(fan_capable_commands(&commands, &devices), vec![(GroupId(1), 30)]);
}

#[test]
fn poll_counts_wear_for_running_groups_unless_it_would_overflow() {
    let mut engine = Engine::new(2000);
    let mut lcd = LcdManager::new();
    let devices = vec![
        snap(1, 1200, FanRole::Intake, false, None, false, true),
        snap(2, 0, FanRole::Intake, false, None, false, true),
    ];
    after_discovery(&mut engine, &mut lcd, &devices, 0, &[], 2, 0);
    after_discovery(&mut engine, &mut lcd, &devices, 0, &[], 2, 2000);
    assert_eq!(engine.wear_stats(), &vec![(GroupId(1), 4)]);
    engine.wear_counters = vec![(GroupId(1), u64::MAX - 1)];
    after_discovery(&mut engine, &mut lcd, &devices, 0, &[], 2, 4000);
    assert_eq!(engine.wear_stats(), &vec![(GroupId(1), u64::MAX - 1)], "a poll that would overflow is not counted");
}

#[test]
fn due_flash_is_undone_and_announced() {
    let mut ts = TickState::new(0);
    let red = RgbMode::Static { ring: Ring::Both, color: Rgb { r: 255, g: 0, b: 0 }, brightness: 200 };
    let mut restores = vec![
        IndicateRestore { deadline_ms: 100, group: GroupId(3), mode: red.clone() },
        IndicateRestore { deadline_ms: 5000, group: GroupId(4), mode: RgbMode::Off },
    ];
    let start = begin_tick(&mut ts, &mut restores, 2000, 100);
    assert_eq!(start.actions.len(), 1);
    assert!(matches!(&start.actions[0], Action::SetRgb { group, mode } if *group == GroupId(3) && matches!(mode, RgbMode::Static { brightness: 200, .. })));
    assert_eq!(start.events.len(), 1);
    assert!(matches!(&start.events[0], DaemonEvent::RgbChanged { group, mode } if *group == GroupId(3) && matches!(mode, RgbMode::Static { color: Rgb { r: 255, .. }, .. })));
    assert_eq!(restores.len(), 1);
    assert_eq!(restores[0].group, GroupId(4));
}

#[test]
fn tick_empty_system_no_events() {
    let mut engine = Engine::new(2000);
    let mut lcd = LcdManager::new();
    let mut ts = TickState::new(0);
    let mut restores: Vec<IndicateRestore> = Vec::new();
    let start = begin_tick(&mut ts, &mut restores, 2000, 0);
    assert!(start.events.is_empty());
    assert!(start.actions.is_empty());
    assert!(!start.poll);
    let plan = after_discovery(&mut engine, &mut lcd, &Vec::new(), 0, &[], 2, 0);
    assert!(plan.events.is_empty());
}

#[test]
fn tick_does_not_poll_before_interval() {
    let _engine = Engine::new(60_000);
    let mut ts = TickState::new(0);
    let mut restores: Vec<IndicateRestore> = Vec::new();
    let start = begin_tick(&mut ts, &mut restores, 60_000, 10);
    assert!(!start.poll);
    assert!(start.events.is_empty());
    assert_eq!(ts.last_poll_ms, 0);
}

#[test]
fn bind_scanning_defaults_false() {
    let engine = Engine::new(2000);
    assert!(!engine.bind_scanning);
}

#[test]
fn running_cycle_shows_its_first_step_and_announces_it() {
    let mut runner: ShowRunner<String> = ShowRunner::new();
    let (steps, events) = play_shows(&mut runner, 0).expect("nothing running can always advance");
    assert!(steps.is_empty() && events.is_empty());
    let cycle = EffectCycle {
        steps: vec![Step { duration_ms: 1000, scene: "red".to_string() }, Step { duration_ms: 1000, scene: "blue".to_string() }],
        playback: Playback::Loop,
    };
    runner.start_cycle(&[GroupId(2)], cycle);
    let (steps, events) = play_shows(&mut runner, 0).expect("a fresh cycle can advance");
    assert_eq!(steps.len(), 1);
    assert_eq!(steps[0].group, GroupId(2));
    assert_eq!(steps[0].step_index, 0);
    assert_eq!(events.len(), 1);
    assert!(matches!(&events[0], DaemonEvent::Show(_)));
}
