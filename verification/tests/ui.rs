use frgb::convert::SpeedMode;
use frgb::model::{GroupId, Rgb, Ring};
use frgb::rgb::RgbMode;
use frgb::ui_state::{GroupRow, UiEvent, UiState};

fn row(g: u8) -> GroupRow {
    GroupRow {
        group: GroupId(g),
        online: true,
        rpms: vec![],
        avg_rpm: 0,
        speed_mode: "PWM".to_string(),
        speed_percent: -1,
        speed_curve_name: String::new(),
        mb_sync: true,
        rgb_mode: "Off".to_string(),
    }
}

fn ui() -> UiState {
    UiState { rows: vec![row(1), row(2)], status: "Connected".to_string(), active_profile: String::new(), active_show: "night".to_string() }
}

#[test]
fn rpm_update_sets_readings_and_average_of_running_fans() {
    let mut s = ui();
    s.apply_event(UiEvent::RpmUpdate { group: GroupId(2), rpms: [1000, 0, 1200, 0] });
    assert_eq!(s.rows[1].rpms, vec![1000, 0, 1200, 0]);
    assert_eq!(s.rows[1].avg_rpm, 1100);
    assert!(s.rows[0].rpms.is_empty());
    s.apply_event(UiEvent::RpmUpdate { group: GroupId(1), rpms: [0, 0, 0, 0] });
    assert_eq!(s.rows[0].avg_rpm, 0);
}

#[test]
fn speed_and_rgb_changes_update_the_row() {
    let mut s = ui();
    s.apply_event(UiEvent::SpeedChanged { group: GroupId(1), mode: SpeedMode::Manual(55) });
    assert_eq!((s.rows[0].speed_mode.as_str(), s.rows[0].speed_percent, s.rows[0].mb_sync), ("Manual", 55, false));
    s.apply_event(UiEvent::SpeedChanged { group: GroupId(1), mode: SpeedMode::NamedCurve("quiet".to_string()) });
    assert_eq!((s.rows[0].speed_mode.as_str(), s.rows[0].speed_curve_name.as_str()), ("Curve", "quiet"));
    s.apply_event(UiEvent::CurveApplied { group: GroupId(1), speed: 42 });
    assert_eq!((s.rows[0].speed_mode.as_str(), s.rows[0].speed_percent), ("Curve", 42));
    s.apply_event(UiEvent::RgbChanged {
        group: GroupId(2),
        mode: RgbMode::Static { ring: Ring::Both, color: Rgb { r: 1, g: 2, b: 3 }, brightness: 9 },
    });
    assert_eq!(s.rows[1].rgb_mode, "Static");
}

#[test]
fn connection_events_toggle_online() {
    let mut s = ui();
    s.apply_event(UiEvent::DeviceDisconnected { group: GroupId(2) });
    assert!(!s.rows[1].online);
    s.apply_event(UiEvent::DeviceConnected { group: GroupId(2) });
    assert!(s.rows[1].online);
    // An unknown group changes nothing.
    s.apply_event(UiEvent::DeviceDisconnected { group: GroupId(9) });
    assert!(s.rows.iter().all(|r| r.online));
}

#[test]
fn status_line_messages() {
    let mut s = ui();
    s.apply_event(UiEvent::FanStall { group: GroupId(3), fan: 2 });
    assert_eq!(s.status, "Fan stall: group 3 fan 2");
    s.apply_event(UiEvent::SequenceStep { group: GroupId(1), step_index: 0 });
    assert_eq!(s.status, "Sequence: group 1 step 1");
    s.apply_event(UiEvent::PowerChanged { on_ac: false });
    assert_eq!(s.status, "Power: Battery");
    s.apply_event(UiEvent::BindDiscovered { fan_count: 3 });
    assert_eq!(s.status, "Unbound device found: 3 fans");
    s.apply_event(UiEvent::SequenceEnded { name: "night".to_string() });
    assert_eq!(s.status, "Sequence \"night\" ended");
    assert_eq!(s.active_show, "");
    s.apply_event(UiEvent::ProfileSwitched { name: "gaming".to_string() });
    assert_eq!(s.active_profile, "gaming");
    assert_eq!(s.status, "Sequence \"night\" ended");
}
