use frgb::lcd::{sensor_key, LcdConfig, LcdContent, LcdPreset, LcdPresetCategory, LcdRotation, LcdSensorColor, LcdSensorDisplay, LcdSensorStyle, TempUnit};
use frgb::lcd_manager::{DecodedFrames, DeviceId, FrameRequest, LcdAction, LcdManager, LcdWork};
use frgb::model::Sensor;
use frgb::presets::{category_dir, preset_categories, text_less, PresetDir, PresetMeta};
use frgb::GroupId;

fn test_device_id() -> DeviceId {
    DeviceId::from_vid_pid(0x1CBE, 0x0001)
}

fn make_manager() -> LcdManager {
    let mut mgr = LcdManager::new();
    mgr.register_device(test_device_id(), 400, 400, 0);
    mgr
}

fn config(content: LcdContent) -> LcdConfig {
    LcdConfig { brightness: 200, rotation: LcdRotation::R0, content }
}

fn no_frames() -> DecodedFrames {
    DecodedFrames { count: 0, still_image: false }
}

/// Stands in for the renderer and JPEG encoder: the same request always
/// encodes to the same bytes.
fn encode(frame: FrameRequest) -> Vec<u8> {
    match frame {
        FrameRequest::Black => vec![0xFF, 0xD8, 0],
        FrameRequest::Content => vec![0xFF, 0xD8, 1],
        FrameRequest::Graph => vec![0xFF, 0xD8, 2],
        FrameRequest::CarouselItem(i) => vec![0xFF, 0xD8, 3, i as u8],
        FrameRequest::AnimationFrame(i) => vec![0xFF, 0xD8, 4, i as u8],
        FrameRequest::Template => vec![0xFF, 0xD8, 5],
    }
}

/// One tick at `now`, with every requested frame rendered and handed back;
/// returns the commands to perform.
fn run_tick(mgr: &mut LcdManager, now: u64) -> Vec<LcdAction> {
    let mut actions = Vec::new();
    for w in mgr.tick(now) {
        match w {
            LcdWork::Action(a) => actions.push(a),
            LcdWork::Render { device_id, frame } => {
                if let Some(a) = mgr.frame_rendered(device_id, now, encode(frame)) {
                    actions.push(a);
                }
            }
            LcdWork::Capture { .. } => {}
        }
    }
    actions
}

fn frames_sent(actions: &[LcdAction]) -> usize {
    actions.iter().filter(|a| matches!(a, LcdAction::SendFrame { .. })).count()
}

#[test]
fn new_manager_is_empty() {
    let mgr = LcdManager::new();
    assert!(!mgr.has_devices());
}

#[test]
fn register_device() {
    let mut mgr = LcdManager::new();
    assert!(!mgr.has_devices());
    mgr.register_device(test_device_id(), 400, 400, 0);
    assert!(mgr.has_devices());
}

#[test]
fn set_config_stores_config() {
    let mut mgr = make_manager();
    mgr.set_config(test_device_id(), config(LcdContent::Off), no_frames(), 0);
    let state = mgr.screen(test_device_id()).unwrap();
    assert!(state.config.is_some());
}

#[test]
fn tick_off_content_sends_black_frame_once() {
    let mut mgr = make_manager();
    mgr.set_config(test_device_id(), config(LcdContent::Off), no_frames(), 0);

    let actions = mgr.tick(0);
    let renders: Vec<&LcdWork> = actions.iter().filter(|w| matches!(w, LcdWork::Render { .. })).collect();
    assert_eq!(renders.len(), 1);
    assert!(matches!(renders[0], LcdWork::Render { frame: FrameRequest::Black, .. }));

    let mut mgr = make_manager();
    mgr.set_config(test_device_id(), config(LcdContent::Off), no_frames(), 0);
    let actions = run_tick(&mut mgr, 0);
    assert_eq!(frames_sent(&actions), 1, "first tick should send one frame");

    // second immediate tick — same content, hash unchanged → no frame
    let actions2 = run_tick(&mut mgr, 0);
    assert_eq!(frames_sent(&actions2), 0, "second tick with same content should not send");
}

#[test]
fn tick_text_sends_frame_once() {
    let mut mgr = make_manager();
    mgr.set_config(test_device_id(), config(LcdContent::Text("Hello".to_string())), no_frames(), 0);

    let actions = run_tick(&mut mgr, 0);
    assert_eq!(frames_sent(&actions), 1);

    // immediate second tick — hash unchanged, not past refresh → no frame
    let actions2 = run_tick(&mut mgr, 0);
    assert_eq!(frames_sent(&actions2), 0);
}

#[test]
fn tick_sensor_refreshes_after_interval() {
    let cpu_display = LcdSensorDisplay {
        sensor: Sensor::Cpu,
        label: Some("CPU".to_string()),
        unit: TempUnit::Celsius,
        style: LcdSensorStyle::Gauge,
        color: LcdSensorColor::Blue,
    };
    let mut mgr = make_manager();
    mgr.set_config(test_device_id(), config(LcdContent::Sensor(cpu_display)), no_frames(), 0);

    let actions = run_tick(&mut mgr, 0);
    assert_eq!(frames_sent(&actions), 1, "first tick should send");

    // Immediate second tick is before next_refresh → no frame
    let actions2 = mgr.tick(10);
    assert!(
        !actions2.iter().any(|w| matches!(w, LcdWork::Render { .. })),
        "immediate second tick should not render (before refresh interval)"
    );
    assert_eq!(mgr.screen(test_device_id()).unwrap().next_refresh_ms, 1000);

    // Once the sensor refresh interval has passed, a frame is asked for again.
    let actions3 = mgr.tick(1000);
    assert!(actions3.iter().any(|w| matches!(w, LcdWork::Render { frame: FrameRequest::Content, .. })));
}

#[test]
fn config_change_triggers_brightness_and_rotation() {
    let mut mgr = make_manager();
    mgr.set_config(
        test_device_id(),
        LcdConfig { brightness: 150, rotation: LcdRotation::R90, content: LcdContent::Off },
        no_frames(),
        0,
    );

    let actions = run_tick(&mut mgr, 0);

    let has_brightness = actions.iter().any(|a| matches!(a, LcdAction::SetBrightness { brightness: 150, .. }));
    let has_rotation = actions.iter().any(|a| matches!(a, LcdAction::SetRotation { rotation: LcdRotation::R90, .. }));

    assert!(has_brightness, "should emit SetBrightness action");
    assert!(has_rotation, "should emit SetRotation action");

    // They are sent once.
    let again = run_tick(&mut mgr, 60_000);
    assert!(!again.iter().any(|a| matches!(a, LcdAction::SetBrightness { .. } | LcdAction::SetRotation { .. })));
}

#[test]
fn sensor_key_maps_correctly() {
    assert_eq!(sensor_key(Sensor::Cpu), "CPU");
    assert_eq!(sensor_key(Sensor::Gpu), "GPU");
    assert_eq!(sensor_key(Sensor::Water), "Water");
    assert_eq!(sensor_key(Sensor::Motherboard { channel: 0 }), "MB");
}

#[test]
fn frame_hash_dedup_skips_identical_frames() {
    let mut mgr = make_manager();
    mgr.set_config(test_device_id(), config(LcdContent::Text("Same".to_string())), no_frames(), 0);

    // First tick sends
    let actions = run_tick(&mut mgr, 0);
    assert_eq!(frames_sent(&actions), 1);

    // Tick once the refresh time has come, so timing doesn't block
    let next = mgr.screen(test_device_id()).unwrap().next_refresh_ms;
    assert_eq!(next, 30_000);
    let work = mgr.tick(next);
    assert!(work.iter().any(|w| matches!(w, LcdWork::Render { .. })));

    // Same content, hash dedup should suppress
    let second = mgr.frame_rendered(test_device_id(), next, encode(FrameRequest::Content));
    assert!(second.is_none(), "identical frame hash should suppress send");
}

#[test]
fn gif_single_frame_produces_identical_jpeg_on_retick() {
    // A single still image given as a one-frame "GIF"; the caller decoded
    // one frame from it as a still image.
    let png_bytes: Vec<u8> = vec![0x89, b'P', b'N', b'G', 0x0D, 0x0A, 0x1A, 0x0A];
    let gif = || config(LcdContent::Gif { frames: vec![png_bytes.clone()], fps: 1 });
    let decoded = DecodedFrames { count: 1, still_image: true };

    let mut mgr = make_manager();
    mgr.set_config(test_device_id(), gif(), decoded, 0);

    // First tick — should produce a frame
    let actions1 = run_tick(&mut mgr, 0);
    let frame1: Vec<u8> = actions1
        .iter()
        .find_map(|a| match a {
            LcdAction::SendFrame { jpeg, .. } => Some(jpeg.clone()),
            _ => None,
        })
        .expect("first tick should produce SendFrame");
    assert!(!frame1.is_empty(), "JPEG data should be non-empty");

    // Configure again, which forces a refresh and resets the frame hash.
    mgr.set_config(test_device_id(), gif(), decoded, 5);

    // Second tick — same single frame, should produce identical JPEG
    let actions2 = run_tick(&mut mgr, 5);
    let frame2: Vec<u8> = actions2
        .iter()
        .find_map(|a| match a {
            LcdAction::SendFrame { jpeg, .. } => Some(jpeg.clone()),
            _ => None,
        })
        .expect("second tick should produce SendFrame after hash reset");

    assert_eq!(frame1, frame2, "identical GIF frame should produce identical JPEG data");
}

// ---------------------------------------------------------------------------
// Further cases
// ---------------------------------------------------------------------------

#[test]
fn device_id_from_vid_pid_layout() {
    assert_eq!(DeviceId::from_vid_pid(0x1CBE, 0x0001).0, 0x1CBE_0001_0000);
}

#[test]
fn register_twice_keeps_one_screen() {
    let mut mgr = make_manager();
    mgr.set_config(test_device_id(), config(LcdContent::Off), no_frames(), 0);
    mgr.register_device(test_device_id(), 480, 480, 7);
    assert_eq!(mgr.device_count(), 1);
    let s = mgr.screen(test_device_id()).unwrap();
    assert_eq!((s.width, s.height), (400, 400));
    assert!(s.config.is_some());
}

#[test]
fn device_ids_by_index_follow_registration_order() {
    let mut mgr = LcdManager::new();
    let a = DeviceId::from_vid_pid(1, 2);
    let b = DeviceId::from_vid_pid(3, 4);
    mgr.register_device(a, 400, 400, 0);
    mgr.register_device(b, 480, 480, 0);
    assert_eq!(mgr.device_id_by_index(0), Some(a));
    assert_eq!(mgr.device_id_by_index(1), Some(b));
    assert_eq!(mgr.device_id_by_index(2), None);
}

#[test]
fn map_group_keeps_each_screen_once() {
    let mut mgr = make_manager();
    let other = DeviceId::from_vid_pid(9, 9);
    mgr.map_group(GroupId(1), test_device_id());
    mgr.map_group(GroupId(1), test_device_id());
    mgr.map_group(GroupId(1), other);
    mgr.map_group(GroupId(2), other);
    assert_eq!(mgr.lcd_ids_for_group(GroupId(1)), vec![test_device_id(), other]);
    assert_eq!(mgr.lcd_ids_for_group(GroupId(2)), vec![other]);
    assert!(mgr.lcd_ids_for_group(GroupId(3)).is_empty());
}

#[test]
fn unknown_screen_is_ignored() {
    let mut mgr = make_manager();
    let stranger = DeviceId::from_vid_pid(7, 7);
    mgr.set_config(stranger, config(LcdContent::Off), no_frames(), 0);
    assert!(mgr.screen(stranger).is_none());
    assert!(mgr.frame_rendered(stranger, 0, vec![1, 2, 3]).is_none());
    assert!(mgr.tick(0).is_empty());
}

#[test]
fn clock_resyncs_every_minute() {
    let mut mgr = make_manager();
    mgr.set_config(test_device_id(), config(LcdContent::Clock(frgb::lcd::ClockStyle::C1)), no_frames(), 0);
    let first = run_tick(&mut mgr, 0);
    assert_eq!(first.iter().filter(|a| matches!(a, LcdAction::SetClock { .. })).count(), 1);
    assert!(run_tick(&mut mgr, 59_999).is_empty());
    let again = run_tick(&mut mgr, 60_000);
    assert_eq!(again.iter().filter(|a| matches!(a, LcdAction::SetClock { .. })).count(), 1);
}

#[test]
fn carousel_moves_on_every_three_seconds() {
    let d = |s: Sensor| LcdSensorDisplay {
        sensor: s,
        label: None,
        unit: TempUnit::Celsius,
        style: LcdSensorStyle::Gauge,
        color: LcdSensorColor::Blue,
    };
    let mut mgr = make_manager();
    mgr.set_config(
        test_device_id(),
        config(LcdContent::SensorCarousel(vec![d(Sensor::Cpu), d(Sensor::Gpu), d(Sensor::Water)])),
        no_frames(),
        0,
    );
    let item = |w: &[LcdWork]| {
        w.iter().find_map(|x| match x {
            LcdWork::Render { frame: FrameRequest::CarouselItem(i), .. } => Some(*i),
            _ => None,
        })
    };
    // The switch is due at once, so the first tick already moves on.
    assert_eq!(item(&mgr.tick(0)), Some(1));
    mgr.frame_rendered(test_device_id(), 0, vec![1]);
    assert_eq!(item(&mgr.tick(1000)), Some(1));
    mgr.frame_rendered(test_device_id(), 1000, vec![2]);
    assert_eq!(item(&mgr.tick(3000)), Some(2));
    mgr.frame_rendered(test_device_id(), 3000, vec![3]);
    assert_eq!(item(&mgr.tick(6000)), Some(0));
}

#[test]
fn empty_carousel_shows_black() {
    let mut mgr = make_manager();
    mgr.set_config(test_device_id(), config(LcdContent::SensorCarousel(vec![])), no_frames(), 0);
    let w = mgr.tick(0);
    assert!(w.iter().any(|x| matches!(x, LcdWork::Render { frame: FrameRequest::Black, .. })));
}

#[test]
fn gif_frames_cycle_at_their_rate() {
    let mut mgr = make_manager();
    mgr.set_config(
        test_device_id(),
        config(LcdContent::Gif { frames: vec![vec![1], vec![2], vec![3]], fps: 0 }),
        DecodedFrames { count: 3, still_image: false },
        0,
    );
    let frame = |w: &[LcdWork]| {
        w.iter().find_map(|x| match x {
            LcdWork::Render { frame: FrameRequest::AnimationFrame(i), .. } => Some(*i),
            _ => None,
        })
    };
    assert_eq!(frame(&mgr.tick(0)), Some(0));
    mgr.frame_rendered(test_device_id(), 0, vec![10]);
    // A rate of 0 plays at 24 fps: 41 ms per frame.
    assert_eq!(mgr.screen(test_device_id()).unwrap().next_refresh_ms, 41);
    assert_eq!(frame(&mgr.tick(40)), None);
    assert_eq!(frame(&mgr.tick(41)), Some(1));
    mgr.frame_rendered(test_device_id(), 41, vec![11]);
    assert_eq!(frame(&mgr.tick(82)), Some(2));
    mgr.frame_rendered(test_device_id(), 82, vec![12]);
    assert_eq!(frame(&mgr.tick(123)), Some(0));
}

#[test]
fn undecodable_gif_shows_black() {
    let mut mgr = make_manager();
    mgr.set_config(test_device_id(), config(LcdContent::Gif { frames: vec![vec![0]], fps: 5 }), no_frames(), 0);
    let w = mgr.tick(0);
    assert!(w.iter().any(|x| matches!(x, LcdWork::Render { frame: FrameRequest::Black, .. })));
}

#[test]
fn loaded_preset_plays_its_frames() {
    let preset = LcdPreset {
        category: LcdPresetCategory::Fan,
        index: 0,
        name: "spin".to_string(),
        frame_count: 2,
        fps: 0,
        thumbnail: vec![],
    };
    let mut mgr = make_manager();
    mgr.set_config(test_device_id(), config(LcdContent::Preset(preset.clone())), no_frames(), 0);
    mgr.load_preset(test_device_id(), &preset, 2);
    let a = mgr.screen(test_device_id()).unwrap().animation.unwrap();
    assert_eq!((a.frame_count, a.fps, a.index), (2, 24, 0));
    let w = mgr.tick(0);
    assert!(w.iter().any(|x| matches!(x, LcdWork::Render { frame: FrameRequest::AnimationFrame(0), .. })));
    // No frames read: nothing changes.
    let mut other = make_manager();
    other.load_preset(test_device_id(), &preset, 0);
    assert!(other.screen(test_device_id()).unwrap().animation.is_none());
}

#[test]
fn capture_frames_are_deduplicated() {
    let mut mgr = make_manager();
    mgr.set_config(
        test_device_id(),
        config(LcdContent::ScreenCapture { display: None, window: None, fps: 30 }),
        no_frames(),
        0,
    );
    let w = mgr.tick(0);
    assert!(w.iter().any(|x| matches!(x, LcdWork::Capture { .. })));
    let sent = mgr.frame_captured(test_device_id(), 0, vec![9, 9], 33);
    assert!(matches!(sent, Some(LcdAction::SendFrame { .. })));
    assert_eq!(mgr.screen(test_device_id()).unwrap().next_refresh_ms, 33);
    assert!(!mgr.tick(32).iter().any(|x| matches!(x, LcdWork::Capture { .. })));
    assert!(mgr.tick(33).iter().any(|x| matches!(x, LcdWork::Capture { .. })));
    assert!(mgr.frame_captured(test_device_id(), 33, vec![9, 9], 33).is_none());
}

#[test]
fn video_sends_nothing() {
    let mut mgr = make_manager();
    mgr.set_config(test_device_id(), config(LcdContent::Video), no_frames(), 0);
    let w = mgr.tick(0);
    assert_eq!(w.len(), 2);
    assert!(w.iter().all(|x| matches!(x, LcdWork::Action(_))));
}

#[test]
fn sync_registers_found_screens_and_maps_groups_by_position() {
    let mut mgr = LcdManager::new();
    let a = DeviceId::from_vid_pid(1, 1);
    let b = DeviceId::from_vid_pid(1, 2);
    mgr.sync_devices(&[(a, 400, 400), (b, 480, 480)], &[GroupId(3), GroupId(5), GroupId(7)], 0);
    assert_eq!(mgr.device_count(), 2);
    assert_eq!(mgr.lcd_ids_for_group(GroupId(3)), vec![a]);
    assert_eq!(mgr.lcd_ids_for_group(GroupId(5)), vec![b]);
    assert!(mgr.lcd_ids_for_group(GroupId(7)).is_empty());
    assert_eq!(mgr.screen(b).unwrap().width, 480);

    // Same number of screens: nothing is redone.
    mgr.sync_devices(&[(b, 1, 1), (a, 1, 1)], &[GroupId(9)], 5);
    assert!(mgr.lcd_ids_for_group(GroupId(9)).is_empty());
    assert_eq!(mgr.device_id_by_index(0), Some(a));
}

#[test]
fn set_config_for_group_configures_the_group_screens() {
    let mut mgr = LcdManager::new();
    let a = DeviceId::from_vid_pid(1, 1);
    let b = DeviceId::from_vid_pid(1, 2);
    let c = DeviceId::from_vid_pid(1, 3);
    for id in [a, b, c] {
        mgr.register_device(id, 400, 400, 0);
    }
    mgr.map_group(GroupId(1), a);
    mgr.map_group(GroupId(1), c);
    mgr.set_config_for_group(GroupId(1), config(LcdContent::Text("hi".to_string())), no_frames(), 0);
    let text_of = |id| match &mgr.screen(id).unwrap().config {
        Some(LcdConfig { content: LcdContent::Text(t), .. }) => Some(t.clone()),
        _ => None,
    };
    assert_eq!(text_of(a), Some("hi".to_string()));
    assert_eq!(text_of(b), None);
    assert_eq!(text_of(c), Some("hi".to_string()));
    assert_eq!(mgr.screen(c).unwrap().pending_brightness, Some(200));
}

// ---------------------------------------------------------------------------
// Preset listing
// ---------------------------------------------------------------------------

fn dir(name: &str, meta: Option<PresetMeta>, frame_files: usize) -> PresetDir {
    PresetDir { dir_name: name.to_string(), meta, frame_files, thumbnail: vec![1, 2] }
}

#[test]
fn presets_listed_by_category_then_name() {
    let groups = vec![
        (LcdPresetCategory::Cooler, vec![dir("zeta", None, 3), dir("alpha", None, 2)]),
        (LcdPresetCategory::Fan, vec![dir("mid", None, 1)]),
    ];
    let presets = LcdManager::new().list_presets(groups);
    let names: Vec<&str> = presets.iter().map(|p| p.name.as_str()).collect();
    assert_eq!(names, vec!["alpha", "zeta", "mid"]);
    let indices: Vec<u8> = presets.iter().map(|p| p.index).collect();
    assert_eq!(indices, vec![0, 1, 2]);
    assert_eq!(presets[2].category, LcdPresetCategory::Fan);
    // Without meta.json: 24 fps and the number of image files.
    assert_eq!((presets[0].fps, presets[0].frame_count), (24, 2));
    assert_eq!(presets[0].thumbnail, vec![1, 2]);
}

#[test]
fn preset_meta_overrides_name_rate_and_frames() {
    let meta = PresetMeta { name: Some("Pretty".to_string()), fps: Some(30), frame_count: Some(12) };
    let empty_name = PresetMeta { name: Some(String::new()), fps: Some(300), frame_count: Some(0) };
    let presets = LcdManager::new().list_presets(vec![(
        LcdPresetCategory::Led,
        vec![dir("b", Some(meta), 5), dir("a", Some(empty_name), 7)],
    )]);
    // "a" sorts first; its empty meta name falls back to the directory name,
    // its rate is cut to a byte (300 -> 44), and a zero frame count falls
    // back to the image files.
    assert_eq!(presets[0].name, "a");
    assert_eq!(presets[0].fps, 44);
    assert_eq!(presets[0].frame_count, 7);
    assert_eq!(presets[1].name, "Pretty");
    assert_eq!((presets[1].fps, presets[1].frame_count), (30, 12));
}

#[test]
fn preset_names_sort_in_string_order() {
    assert!(text_less("Apple", "apple"));
    assert!(text_less("ab", "abc"));
    assert!(!text_less("abc", "abc"));
    assert!(!text_less("b", "abc"));
    let mut names = vec!["b", "Z", "a", "ab", "é"];
    let presets = LcdManager::new().list_presets(vec![(
        LcdPresetCategory::Legacy,
        names.iter().map(|n| dir(n, None, 1)).collect(),
    )]);
    names.sort();
    let listed: Vec<&str> = presets.iter().map(|p| p.name.as_str()).collect();
    assert_eq!(listed, names);
}

#[test]
fn preset_index_is_held_at_255() {
    let dirs: Vec<PresetDir> = (0..300).map(|i| dir(&format!("{i:03}"), None, 1)).collect();
    let presets = LcdManager::new().list_presets(vec![(LcdPresetCategory::Ga2v, dirs)]);
    assert_eq!(presets.len(), 300);
    assert_eq!(presets[254].index, 254);
    assert_eq!(presets[255].index, 255);
    assert_eq!(presets[299].index, 255);
    assert_eq!(presets[299].name, "299");
}

#[test]
fn preset_categories_in_listing_order() {
    assert_eq!(
        preset_categories(),
        [
            LcdPresetCategory::Cooler,
            LcdPresetCategory::Fan,
            LcdPresetCategory::Led,
            LcdPresetCategory::Ga2v,
            LcdPresetCategory::Legacy
        ]
    );
    assert_eq!(category_dir(LcdPresetCategory::Ga2v), "ga2v");
}
