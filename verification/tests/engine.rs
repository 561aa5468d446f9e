use frgb::engine::{average_rpm, Engine, EngineEvent, WearEntry};
use frgb::indicate::{flash_mode, schedule_restore, take_due_restores, IndicateRestore};
use frgb::model::{GroupId, Rgb, Ring};
use frgb::rgb::RgbMode;
use frgb::wire::{
    decode_frame, encode_frame, frame_len, hello_reply, negotiate_protocol, Backoff, FrameError, IPC_MAX_MESSAGE_SIZE,
    PROTOCOL_VERSION,
};

fn g(n: u8) -> GroupId {
    GroupId::new(n)
}

fn one_device(rpm: u16) -> Vec<(GroupId, [u16; 4])> {
    vec![(g(1), [rpm, rpm, rpm, 0])]
}

fn history(first: u16, second: u16) -> Vec<u16> {
    let mut h = vec![first; 5];
    h.extend(vec![second; 5]);
    h
}

fn anomalies_for(events: &[EngineEvent], group: GroupId) -> usize {
    events.iter().filter(|e| matches!(e, EngineEvent::RpmAnomaly { group: x, .. } if *x == group)).count()
}

fn wear_of(engine: &Engine, group: GroupId) -> Option<u64> {
    engine.wear_stats().iter().find(|(x, _)| *x == group).map(|(_, s)| *s)
}

#[test]
fn engine_new() {
    let engine = Engine::new(2000);
    assert_eq!(engine.poll_interval_ms, 2000);
    assert!(engine.last_rpms.is_empty());
    assert!(!engine.bind_scanning);
}

#[test]
fn engine_zero_poll_interval() {
    let engine = Engine::new(0);
    assert_eq!(engine.poll_interval_ms, 0);
}

#[test]
fn rpm_first_detection_emits_connected() {
    let mut engine = Engine::new(2000);
    let events = engine.detect_rpm_changes(one_device(1200));
    assert_eq!(events.len(), 2);
    assert!(matches!(events[0], EngineEvent::DeviceConnected { group } if group == g(1)));
    assert!(matches!(events[1], EngineEvent::RpmUpdate { group, .. } if group == g(1)));
}

#[test]
fn rpm_no_change_no_events() {
    let mut engine = Engine::new(2000);
    engine.detect_rpm_changes(one_device(1200));
    let events = engine.detect_rpm_changes(one_device(1200));
    assert!(events.is_empty());
}

#[test]
fn rpm_change_emits_update() {
    let mut engine = Engine::new(2000);
    engine.detect_rpm_changes(one_device(1200));
    let events = engine.detect_rpm_changes(one_device(1500));
    assert_eq!(events.len(), 1);
    if let EngineEvent::RpmUpdate { group, rpms } = &events[0] {
        assert_eq!(*group, g(1));
        assert_eq!(rpms[0], 1500);
    } else {
        panic!("expected RpmUpdate, got {:?}", events[0]);
    }
}

#[test]
fn rpm_device_disconnected() {
    let mut engine = Engine::new(2000);
    engine.detect_rpm_changes(vec![(g(1), [1200, 1200, 1200, 0]), (g(2), [900, 900, 0, 0])]);
    let events = engine.detect_rpm_changes(one_device(1200));
    let disconnected = events.iter().any(|e| matches!(e, EngineEvent::DeviceDisconnected { group } if *group == g(2)));
    assert!(disconnected, "expected DeviceDisconnected for group 2, got: {:?}", events);
}

#[test]
fn rpm_new_device_connected() {
    let mut engine = Engine::new(2000);
    engine.detect_rpm_changes(one_device(1200));
    let events = engine.detect_rpm_changes(vec![(g(1), [1200, 1200, 1200, 0]), (g(2), [900, 900, 0, 0])]);
    assert!(events.iter().any(|e| matches!(e, EngineEvent::DeviceConnected { group } if *group == g(2))));
    assert!(events.iter().any(|e| matches!(e, EngineEvent::RpmUpdate { group, .. } if *group == g(2))));
}

#[test]
fn rpm_history_tracks_readings() {
    let mut engine = Engine::new(2000);
    assert!(engine.rpm_history.is_empty());
    let len = |e: &Engine| e.rpm_history.iter().find(|(x, _)| *x == g(1)).map(|(_, h)| h.len()).unwrap_or(0);
    engine.detect_rpm_changes(one_device(1200));
    assert_eq!(len(&engine), 1, "history should have 1 entry after first call");
    engine.detect_rpm_changes(one_device(1200));
    assert_eq!(len(&engine), 2, "history should have 2 entries after second call");
}

#[test]
fn rpm_anomaly_detects_drop() {
    let mut engine = Engine::new(2000);
    engine.rpm_history.push((g(1), history(1200, 800)));
    let events = engine.check_rpm_anomalies();
    assert!(!events.is_empty(), "expected at least one RpmAnomaly event");
    assert_eq!(anomalies_for(&events, g(1)), 1, "expected RpmAnomaly for group 1, got: {:?}", events);
}

#[test]
fn wear_counter_increments_for_running_fans() {
    let mut engine = Engine::new(2000);
    engine.detect_rpm_changes(one_device(1200));
    assert!(engine.wear_counters.is_empty(), "no wear increments before tick");
    engine.accumulate_wear(engine.poll_interval_ms / 1000);
    assert_eq!(wear_of(&engine, g(1)), Some(2), "expected 2s of wear for group 1 after one poll tick");
}

#[test]
fn load_wear_stats_restores_counters() {
    let mut engine = Engine::new(2000);
    let entries = vec![
        WearEntry { group_id: g(1), running_seconds: 3600 },
        WearEntry { group_id: g(2), running_seconds: 7200 },
    ];
    engine.load_wear_stats(&entries);
    assert_eq!(wear_of(&engine, g(1)), Some(3600));
    assert_eq!(wear_of(&engine, g(2)), Some(7200));
}

#[test]
fn wear_entries_round_trip() {
    let mut engine = Engine::new(2000);
    engine.wear_counters.push((g(3), 100));
    engine.wear_counters.push((g(4), 200));
    let entries = engine.wear_entries();
    assert_eq!(entries.len(), 2);
    let find = |x: GroupId| entries.iter().find(|e| e.group_id == x).map(|e| e.running_seconds);
    assert_eq!(find(g(3)), Some(100));
    assert_eq!(find(g(4)), Some(200));
}

#[test]
fn rpm_anomaly_e2e_via_detect_and_check() {
    let mut engine = Engine::new(2000);
    for _ in 0..5 {
        engine.detect_rpm_changes(one_device(1200));
    }
    for _ in 0..5 {
        engine.detect_rpm_changes(one_device(750));
    }
    let events = engine.check_rpm_anomalies();
    assert_eq!(anomalies_for(&events, g(1)), 1, "expected RpmAnomaly for group 1 after 37% RPM drop, got: {:?}", events);
}

#[test]
fn wear_counter_persistence_roundtrip() {
    let mut engine = Engine::new(2000);
    engine.load_wear_stats(&[WearEntry { group_id: g(1), running_seconds: 3600 }]);
    assert_eq!(wear_of(&engine, g(1)), Some(3600), "initial wear should be 3600s");
    engine.detect_rpm_changes(one_device(1200));
    engine.accumulate_wear(engine.poll_interval_ms / 1000);
    let entries = engine.wear_entries();
    let entry = entries.iter().find(|e| e.group_id == g(1)).expect("should have wear entry for group 1");
    assert_eq!(entry.running_seconds, 3600 + 2, "wear should be initial 3600 + one poll interval (2s)");
}

#[test]
fn rpm_anomaly_fires_once_per_degradation_episode() {
    let mut engine = Engine::new(2000);
    engine.rpm_history.push((g(1), history(1200, 750)));
    let events1 = engine.check_rpm_anomalies();
    assert_eq!(anomalies_for(&events1, g(1)), 1, "expected 1 anomaly on first detection");
    let events2 = engine.check_rpm_anomalies();
    assert_eq!(anomalies_for(&events2, g(1)), 0, "expected 0 anomalies on re-check (still degraded)");
}

#[test]
fn rpm_anomaly_re_fires_after_recovery() {
    let mut engine = Engine::new(2000);
    engine.rpm_history.push((g(1), history(1200, 750)));
    assert_eq!(anomalies_for(&engine.check_rpm_anomalies(), g(1)), 1);

    engine.rpm_history[0].1 = vec![1200; 10];
    let _recovered = engine.check_rpm_anomalies();

    engine.rpm_history[0].1 = history(1200, 750);
    assert_eq!(anomalies_for(&engine.check_rpm_anomalies(), g(1)), 1, "expected anomaly to re-fire after recovery");
}

#[test]
fn rpm_anomaly_groups_independent() {
    let mut engine = Engine::new(2000);
    engine.rpm_history.push((g(1), history(1200, 750)));
    engine.rpm_history.push((g(2), vec![1200; 10]));
    let events = engine.check_rpm_anomalies();
    assert_eq!(anomalies_for(&events, g(1)), 1);
    assert_eq!(anomalies_for(&events, g(2)), 0);
}

#[test]
fn anomaly_needs_enough_samples_and_a_real_drop() {
    let mut engine = Engine::new(2000);
    engine.rpm_history.push((g(1), vec![1200, 1200, 1200, 700, 700, 700]));
    assert!(engine.check_rpm_anomalies().is_empty());
    let mut engine = Engine::new(2000);
    // A 20% drop is not more than 20%.
    engine.rpm_history.push((g(1), history(1000, 800)));
    assert!(engine.check_rpm_anomalies().is_empty());
}

#[test]
fn average_rpm_ignores_stopped_fans() {
    assert_eq!(average_rpm([1200, 0, 1000, 0]), 1100);
    assert_eq!(average_rpm([0, 0, 0, 0]), 0);
}

#[test]
fn discovery_failure_forgets_readings() {
    let mut engine = Engine::new(2000);
    engine.detect_rpm_changes(one_device(1200));
    engine.discovery_failed();
    assert!(engine.last_rpms.is_empty());
    // The group is reported as connected again on the next discovery.
    let events = engine.detect_rpm_changes(one_device(1200));
    assert!(matches!(events[0], EngineEvent::DeviceConnected { .. }));
}

// ---------------------------------------------------------------------------
// IPC framing
// ---------------------------------------------------------------------------

#[test]
fn roundtrip_string() {
    let json = serde_json::to_vec(&"hello").unwrap();
    let frame = encode_frame(&json);
    let body = decode_frame(&frame).unwrap().unwrap();
    let result: String = serde_json::from_slice(&body).unwrap();
    assert_eq!(result, "hello");
}

#[test]
fn oversized_message_rejected() {
    let len = (IPC_MAX_MESSAGE_SIZE as u32 + 1).to_le_bytes();
    let result = decode_frame(&len);
    assert!(result.unwrap().is_err());
    assert_eq!(frame_len(&len), Err(FrameError::TooLarge(IPC_MAX_MESSAGE_SIZE + 1)));
}

#[test]
fn eof_returns_none() {
    assert!(decode_frame(&[0u8; 2]).is_none());
}

#[test]
fn truncated_body_is_an_error() {
    let mut frame = encode_frame(b"abcdef");
    frame.truncate(7);
    assert_eq!(decode_frame(&frame), Some(Err(FrameError::Truncated)));
}

#[test]
fn frame_header_is_little_endian_length() {
    let frame = encode_frame(&[7u8; 300]);
    assert_eq!(&frame[0..4], &[44, 1, 0, 0]);
    assert_eq!(frame_len(&frame[0..4]), Ok(300));
}

#[test]
fn hello_negotiation() {
    assert_eq!(negotiate_protocol(1, 2, 5), None);
    assert_eq!(negotiate_protocol(3, 2, 5), Some(3));
    assert_eq!(negotiate_protocol(9, 2, 5), Some(5));
}

#[test]
fn backoff_doubles_up_to_five_seconds() {
    let mut b = Backoff::new();
    let waits: Vec<u64> = (0..8).map(|_| b.next_delay()).collect();
    assert_eq!(waits, vec![100, 200, 400, 800, 1600, 3200, 5000, 5000]);
    b.reset();
    assert_eq!(b.next_delay(), 100);
}

// ---------------------------------------------------------------------------
// Identify flashes
// ---------------------------------------------------------------------------

fn prev_mode(r: u8) -> RgbMode {
    RgbMode::Static { ring: Ring::Both, color: Rgb { r, g: 0, b: 0 }, brightness: 255 }
}

#[test]
fn indicate_clamps_and_replaces() {
    let mut restores: Vec<IndicateRestore> = Vec::new();
    schedule_restore(&mut restores, 1000, g(1), 0, prev_mode(1));
    assert_eq!(restores[0].deadline_ms, 2000);
    schedule_restore(&mut restores, 1000, g(2), 60, prev_mode(2));
    assert_eq!(restores[1].deadline_ms, 11_000);
    // Re-indicating group 1 replaces its restore and moves it last.
    schedule_restore(&mut restores, 5000, g(1), 3, prev_mode(3));
    assert_eq!(restores.len(), 2);
    assert_eq!(restores[0].group, g(2));
    assert_eq!(restores[1].group, g(1));
    assert_eq!(restores[1].deadline_ms, 8000);
    assert!(matches!(flash_mode(), RgbMode::Static { color: Rgb { r: 255, g: 255, b: 255 }, brightness: 255, .. }));
}

#[test]
fn due_restores_are_taken_in_order() {
    let mut restores: Vec<IndicateRestore> = Vec::new();
    schedule_restore(&mut restores, 0, g(1), 2, prev_mode(1));
    schedule_restore(&mut restores, 0, g(2), 5, prev_mode(2));
    schedule_restore(&mut restores, 0, g(3), 1, prev_mode(3));
    let due = take_due_restores(&mut restores, 2000);
    assert_eq!(due.iter().map(|r| r.group).collect::<Vec<_>>(), vec![g(1), g(3)]);
    assert_eq!(restores.len(), 1);
    assert_eq!(restores[0].group, g(2));
    assert!(take_due_restores(&mut restores, 4999).is_empty());
    assert_eq!(take_due_restores(&mut restores, 5000).len(), 1);
}

#[test]
fn anomaly_message_text() {
    assert_eq!(frgb::engine::anomaly_message(37, 1200, 750), "RPM dropped 37% (avg 1200 \u{2192} 750)");
    assert_eq!(frgb::engine::anomaly_message(0, 0, 18_446_744_073_709_551_615), "RPM dropped 0% (avg 0 \u{2192} 18446744073709551615)");
}

#[test]
fn hello_negotiation_same_version() {
    let resp = hello_reply(PROTOCOL_VERSION);
    assert!(
        matches!(resp, Ok(v) if v == PROTOCOL_VERSION),
        "expected negotiated version {}, got {:?}",
        PROTOCOL_VERSION,
        resp,
    );
}

#[test]
fn hello_negotiation_client_newer() {
    // Client claims v2, daemon max is v1 → negotiated to daemon max
    let resp = hello_reply(PROTOCOL_VERSION + 1);
    assert!(
        matches!(resp, Ok(v) if v == PROTOCOL_VERSION),
        "expected daemon max v{}, got {:?}",
        PROTOCOL_VERSION,
        resp,
    );
}

#[test]
fn hello_negotiation_client_too_old() {
    // Client sends v0, daemon min is v1 → error
    let resp = hello_reply(0);
    assert!(
        matches!(resp, Err(ref msg) if msg.contains("too old")),
        "expected 'too old' error, got {:?}",
        resp,
    );
    assert_eq!(resp, Err("client protocol v0 too old (daemon requires v1-v1)".to_string()));
}
