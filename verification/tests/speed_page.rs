use frgb::convert::SpeedMode;
use frgb::handler::{Request, Response};
use frgb::scheduler::{ScheduleAction, ScheduleEntry, Target};
use frgb::settings_page::fetch_schedules;
use frgb::speed_page::{
    preset_all_request, preset_percent, preset_request, slider_request, speed_mode_from_ui, stop_show_request,
};
use frgb::GroupId;

#[test]
fn presets_map_to_fixed_speeds() {
    assert_eq!(preset_percent("Quiet"), Some(25));
    assert_eq!(preset_percent("Standard"), Some(50));
    assert_eq!(preset_percent("High"), Some(75));
    assert_eq!(preset_percent("Full"), Some(100));
    assert_eq!(preset_percent("quiet"), None);
    assert!(matches!(
        preset_request(3, "High"),
        Some(Request::SetSpeed { group: GroupId(3), mode: SpeedMode::Manual(75), inline_curve: None, invalid: None })
    ));
    assert!(preset_request(3, "Turbo").is_none());
    assert!(matches!(
        preset_all_request("Full"),
        Some(Request::SetSpeedAll { target: Target::All, mode: SpeedMode::Manual(100), invalid: None })
    ));
    assert!(preset_all_request("").is_none());
}

#[test]
fn slider_positions_become_fixed_speeds() {
    assert!(matches!(slider_request(2, 40), Request::SetSpeed { group: GroupId(2), mode: SpeedMode::Manual(40), .. }));
    assert!(matches!(slider_request(2, 150), Request::SetSpeed { mode: SpeedMode::Manual(100), .. }));
    assert!(matches!(slider_request(258, 300), Request::SetSpeed { group: GroupId(2), mode: SpeedMode::Manual(44), .. }));
    assert!(matches!(slider_request(-1, 10), Request::SetSpeed { group: GroupId(255), .. }));
}

#[test]
fn mode_names_stand_for_speed_controls() {
    assert!(matches!(speed_mode_from_ui("Manual", ""), Some(SpeedMode::Manual(50))));
    assert!(matches!(speed_mode_from_ui("MB Sync", "x"), Some(SpeedMode::Pwm)));
    assert!(matches!(speed_mode_from_ui("Curve", "Silent"), Some(SpeedMode::NamedCurve(ref n)) if n == "Silent"));
    assert!(matches!(speed_mode_from_ui("Curve", ""), Some(SpeedMode::NamedCurve(ref n)) if n == "Default"));
    assert!(speed_mode_from_ui("Auto", "").is_none());
}

#[test]
fn stopping_a_show_stops_every_sequence() {
    assert!(matches!(stop_show_request("Aurora"), Request::StopAllSequences));
}

#[test]
fn schedule_list_lines_follow_the_entries() {
    let entries = vec![
        ScheduleEntry { hour: 7, minute: 5, days: Vec::new(), action: ScheduleAction::SwitchProfile("Day".to_string()) },
        ScheduleEntry { hour: 22, minute: 30, days: Vec::new(), action: ScheduleAction::SetSpeed { target: Target::All, percent: 40 } },
    ];
    let lines = fetch_schedules(&Response::ScheduleList(entries)).unwrap();
    assert_eq!(lines, vec!["07:05 \u{2014} profile:Day".to_string(), "22:30 \u{2014} speed:40%".to_string()]);
    assert!(fetch_schedules(&Response::Done).is_none());
}
