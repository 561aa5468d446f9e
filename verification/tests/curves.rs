use frgb::curves::{
    ramp_limit, record_peaks, speed_at_temp, whole_degrees, CurveApplied, CurvePoint, CurveRunner, CurveSuggestion, FanCurve,
};
use frgb::handler::DaemonEvent;
use frgb::model::{Sensor, SensorReadings};
use frgb::tick::{run_curves, DeviceSnapshot};
use frgb::scheduler::FanRole;
use frgb::GroupId;

fn test_curve(sensor: Sensor) -> FanCurve {
    FanCurve {
        points: vec![
            CurvePoint { temp: 30, speed: 30 },
            CurvePoint { temp: 50, speed: 50 },
            CurvePoint { temp: 70, speed: 80 },
            CurvePoint { temp: 90, speed: 100 },
        ],
        sensor,
        min_speed: 25,
        ramp_rate: None,
    }
}

#[test]
fn curves_evaluate_no_sensors_no_commands() {
    let mut runner = CurveRunner::new();
    runner.set_curve(GroupId::new(1), test_curve(Sensor::Cpu));
    let (commands, _) = runner.evaluate(2000);
    assert!(commands.is_empty(), "no sensor readings = no commands");
}

#[test]
fn evaluate_with_sensor() {
    let mut runner = CurveRunner::new();
    runner.set_curve(GroupId::new(1), test_curve(Sensor::Cpu));
    runner.ingest_readings(&[(Sensor::Cpu, 50_000)]);
    let (commands, events) = runner.evaluate(2000);
    assert_eq!(commands.len(), 1);
    assert_eq!(commands[0].0, GroupId::new(1));
    assert_eq!(commands[0].1, 50);
    assert_eq!(events, vec![CurveApplied { group: GroupId::new(1), speed: 50, temp: 50 }]);
}

#[test]
fn evaluate_no_change_no_event() {
    let mut runner = CurveRunner::new();
    runner.set_curve(GroupId::new(1), test_curve(Sensor::Cpu));
    runner.ingest_readings(&[(Sensor::Cpu, 50_000)]);
    runner.evaluate(2000);
    let (commands, events) = runner.evaluate(2000);
    assert!(commands.is_empty());
    assert!(events.is_empty());
}

#[test]
fn ramp_rate_limiting() {
    let mut curve = test_curve(Sensor::Cpu);
    curve.ramp_rate = Some(5);
    let mut runner = CurveRunner::new();
    runner.set_curve(GroupId::new(1), curve);
    runner.ingest_readings(&[(Sensor::Cpu, 30_000)]);
    runner.evaluate(2000);
    runner.ingest_readings(&[(Sensor::Cpu, 90_000)]);
    let (commands, _) = runner.evaluate(2000);
    assert_eq!(commands[0].1, 40);
}

#[test]
fn remove_curve_stops_evaluation() {
    let mut runner = CurveRunner::new();
    runner.set_curve(GroupId::new(1), test_curve(Sensor::Cpu));
    assert!(runner.is_active());
    runner.remove_curve(GroupId::new(1));
    assert!(!runner.is_active());
}

#[test]
fn tick_with_active_curve_evaluates() {
    let mut runner = CurveRunner::new();
    let curve = FanCurve {
        points: vec![CurvePoint { temp: 30, speed: 30 }, CurvePoint { temp: 70, speed: 80 }],
        sensor: Sensor::Cpu,
        min_speed: 25,
        ramp_rate: None,
    };
    runner.set_curve(GroupId::new(1), curve);
    runner.ingest_readings(&[(Sensor::Cpu, 50_000)]);
    let devices = vec![DeviceSnapshot {
        group: GroupId::new(1),
        rpms: [1200, 1200, 1200, 0],
        aio: false,
        role: FanRole::Intake,
        speed_percent: None,
        has_lcd: false,
        fan_capable: true,
    }];
    let (commands, events) = run_curves(&mut runner, &devices, 1000);
    assert!(
        events.iter().any(|e| matches!(e, DaemonEvent::CurveApplied { group, .. } if *group == GroupId::new(1))),
        "expected a curve-applied event, got {:?}",
        events
    );
    assert_eq!(commands, vec![(GroupId::new(1), 55)]);
}

#[test]
fn curve_commands_skip_groups_without_fans_but_still_announce() {
    let mut runner = CurveRunner::new();
    runner.set_curve(GroupId::new(4), test_curve(Sensor::Gpu));
    runner.ingest_readings(&[(Sensor::Gpu, 70_000)]);
    let (commands, events) = run_curves(&mut runner, &Vec::new(), 1000);
    assert!(commands.is_empty());
    assert!(matches!(
        events.as_slice(),
        [DaemonEvent::CurveApplied { group, speed: 80, temp: 70 }] if *group == GroupId::new(4)
    ));
}

#[test]
fn curve_speed_interpolates_clamps_and_keeps_minimum() {
    let c = test_curve(Sensor::Cpu);
    assert_eq!(speed_at_temp(&c, 60), 65);
    assert_eq!(speed_at_temp(&c, 40), 40);
    assert_eq!(speed_at_temp(&c, 10), 30);
    assert_eq!(speed_at_temp(&c, 120), 100);
    let low = FanCurve { points: vec![CurvePoint { temp: 20, speed: 0 }, CurvePoint { temp: 60, speed: 100 }], ..test_curve(Sensor::Cpu) };
    assert_eq!(speed_at_temp(&low, 20), 25, "never below the minimum speed");
    assert_eq!(speed_at_temp(&low, 31), 28, "27.5 rounds up");
    let empty = FanCurve { points: Vec::new(), ..test_curve(Sensor::Cpu) };
    assert_eq!(speed_at_temp(&empty, 50), 25);
}

#[test]
fn readings_truncate_to_whole_degrees() {
    assert_eq!(whole_degrees(50_999), 50);
    assert_eq!(whole_degrees(-1_500), -1);
    assert_eq!(whole_degrees(999), 0);
}

#[test]
fn ramp_moves_at_least_one_step_and_at_most_the_rate() {
    assert_eq!(ramp_limit(100, Some(30), Some(5), 2000), 40);
    assert_eq!(ramp_limit(0, Some(30), Some(5), 2000), 20);
    assert_eq!(ramp_limit(35, Some(30), Some(5), 2000), 35);
    assert_eq!(ramp_limit(100, Some(30), Some(5), 10), 31, "a short interval still moves by one");
    assert_eq!(ramp_limit(100, None, Some(5), 2000), 100);
    assert_eq!(ramp_limit(100, Some(30), None, 2000), 100);
    assert_eq!(ramp_limit(255, Some(0), Some(200), u64::MAX), 255);
}

#[test]
fn small_changes_are_not_taken_as_new_readings() {
    let mut runner = CurveRunner::new();
    let changed = runner.ingest_readings(&[(Sensor::Cpu, 40_000), (Sensor::Cpu, 40_400), (Sensor::Cpu, 40_600)]);
    assert_eq!(changed, vec![(Sensor::Cpu, 40_000), (Sensor::Cpu, 40_600)]);
    runner.evaluate(1000);
    assert!(runner.ingest_readings(&[(Sensor::Cpu, 41_000)]).is_empty());
    assert!(!runner.sensors_dirty);
}

#[test]
fn sensor_peaks_track_max() {
    let mut peaks = SensorReadings::new();
    record_peaks(&mut peaks, &[(Sensor::Cpu, 55_000)]);
    record_peaks(&mut peaks, &[(Sensor::Cpu, 72_000)]);
    record_peaks(&mut peaks, &[(Sensor::Cpu, 60_000)]);
    assert_eq!(peaks.get(Sensor::Cpu), Some(72_000));
    record_peaks(&mut peaks, &[(Sensor::Gpu, -5_000)]);
    assert_eq!(peaks.get(Sensor::Gpu), Some(0), "a peak never goes below zero");
}

#[test]
fn curves_with_headroom_are_suggested() {
    let mut runner = CurveRunner::new();
    runner.set_curve(GroupId::new(1), test_curve(Sensor::Cpu));
    runner.set_curve(GroupId::new(2), test_curve(Sensor::Gpu));
    runner.set_curve(GroupId::new(3), FanCurve { points: Vec::new(), ..test_curve(Sensor::Cpu) });
    let mut peaks = SensorReadings::new();
    assert!(runner.curve_suggestions(&peaks).is_empty());
    record_peaks(&mut peaks, &[(Sensor::Cpu, 70_000), (Sensor::Gpu, 80_000)]);
    assert_eq!(
        runner.curve_suggestions(&peaks),
        vec![CurveSuggestion { group: GroupId::new(1), sensor: Sensor::Cpu, observed_max_milli: 70_000, curve_max_temp: 90 }]
    );
}
