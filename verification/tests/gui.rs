use frgb::convert::{
    avg_nonzero_rpm, device_type_display, device_type_from_display, rgb_mode_display, role_string,
    sensor_from_label, sensor_label, DeviceType,
};
use frgb::debounce::Debouncer;
use frgb::effects::{
    direction_from_index, direction_to_index, effect_by_name, effect_display_name, effect_display_names,
    effect_from_display_name, effect_table_entry, Effect, EffectDirection, EFFECT_TABLE_LEN,
};
use frgb::lcd::{
    build_lcd_config, clock_style_from_index, frame_is_new, next_in_cycle, refresh_interval_ms,
    rotation_from_degrees, sensor_color_from_str, sensor_key, sensor_style_from_str, ClockStyle, LcdContent,
    LcdPreset, LcdPresetCategory, LcdRotation, LcdSensorColor, LcdSensorStyle, TempUnit,
};
use frgb::model::{Rgb, Ring, Sensor};
use frgb::rgb::{with_brightness, EffectParams, EffectScope, FanZoneSpec, RgbMode, ZoneSource};
use frgb::rgb_page::{
    build_mode, build_rgb_mode, ring_from_index, ring_settings_from_zone, save_to_active_rings,
    state_from_rgb_mode, zone_source, RingSettings, SavedRgbState,
};
use frgb::scheduler::{FanRole, ScheduleAction, ScheduleEntry, Target};
use frgb::convert::{schedule_line, sensor_names};
use frgb::launch::{early_exit_message, spawn_failure_message, BUSY_ADVICE, NOT_FOUND_ADVICE, PERMISSION_ADVICE};
use frgb::sensor_history::{SensorTimeSeries, MAX_POINTS};
use frgb::convert::{lowered_sensor_unit, sensor_color, sensor_unit};
use frgb::convert::{playback_from_str, playback_str, speed_curve_name, speed_mode_string, speed_percent, SpeedMode};
use frgb::show::Playback;
use frgb::led_page::group_led_colors;
use frgb::rgb::{FanColorAssignment, FanLedAssignment};

// ---------------------------------------------------------------------------
// Debouncer (time in milliseconds)
// ---------------------------------------------------------------------------

#[test]
fn immediate_first_call() {
    let mut d: Debouncer<i32> = Debouncer::new(100);
    assert_eq!(d.update(0, 42), Some(42));
}

#[test]
fn suppresses_rapid_updates() {
    let mut emitted = Vec::new();
    let mut d: Debouncer<i32> = Debouncer::new(10_000);
    for (t, v) in [(0, 1), (1, 2), (2, 3)] {
        if let Some(x) = d.update(t, v) {
            emitted.push(x);
        }
    }
    assert_eq!(emitted, vec![1]);
    if let Some(x) = d.flush(3) {
        emitted.push(x);
    }
    assert_eq!(emitted, vec![1, 3]);
}

#[test]
fn debouncer_emits_again_after_interval() {
    let mut d: Debouncer<i32> = Debouncer::new(100);
    assert_eq!(d.update(1000, 1), Some(1));
    assert_eq!(d.update(1099, 2), None);
    assert_eq!(d.update(1100, 3), Some(3));
    // The emission cleared the pending value.
    assert_eq!(d.flush(1101), None);
}

// ---------------------------------------------------------------------------
// Sensor history
// ---------------------------------------------------------------------------

fn min_of(v: &[f32]) -> f32 {
    v.iter().copied().fold(f32::INFINITY, f32::min)
}

fn max_of(v: &[f32]) -> f32 {
    v.iter().copied().fold(f32::NEG_INFINITY, f32::max)
}

#[test]
fn push_and_read() {
    let mut s = SensorTimeSeries::new();
    s.push(10.0f32);
    s.push(20.0);
    s.push(30.0);

    assert_eq!(s.len(), 3);
    assert_eq!(s.readings(), vec![10.0, 20.0, 30.0]);
    assert_eq!(s.current(), Some(30.0));
    assert_eq!(min_of(&s.readings()), 10.0);
    assert_eq!(max_of(&s.readings()), 30.0);
}

#[test]
fn wraps_around() {
    let mut s = SensorTimeSeries::new();
    for i in 0..(MAX_POINTS + 5) {
        s.push(i as f32);
    }
    assert_eq!(s.len(), MAX_POINTS);
    let readings = s.readings();
    assert_eq!(readings.len(), MAX_POINTS);
    assert_eq!(readings[0], 5.0);
    assert_eq!(*readings.last().unwrap(), (MAX_POINTS + 4) as f32);
    assert_eq!(s.current(), Some((MAX_POINTS + 4) as f32));
}

#[test]
fn empty_series_has_no_current() {
    let s: SensorTimeSeries<u32> = SensorTimeSeries::new();
    assert!(s.is_empty());
    assert_eq!(s.current(), None);
    assert!(s.readings().is_empty());
}

#[test]
fn series_exactly_full_keeps_order() {
    let mut s = SensorTimeSeries::new();
    for i in 0..MAX_POINTS as u32 {
        s.push(i);
    }
    let r = s.readings();
    assert_eq!(r.len(), MAX_POINTS);
    assert_eq!(r[0], 0);
    assert_eq!(r[MAX_POINTS - 1], (MAX_POINTS - 1) as u32);
    s.push(1000);
    assert_eq!(s.readings()[0], 1);
    assert_eq!(s.current(), Some(1000));
}

// ---------------------------------------------------------------------------
// Effects and RGB mode construction
// ---------------------------------------------------------------------------

#[test]
fn effect_table_count() {
    assert_eq!(EFFECT_TABLE_LEN, 47);
    assert_eq!(effect_display_names().len(), 47);
}

#[test]
fn no_omitted_effects_in_table() {
    let omitted = [
        Effect::Voice,
        Effect::CoverCycle,
        Effect::Wave,
        Effect::MeteorShower,
        Effect::Paint,
        Effect::Snooker,
        Effect::BlowUp,
    ];
    for i in 0..EFFECT_TABLE_LEN {
        let (effect, _) = effect_table_entry(i);
        assert!(!omitted.contains(&effect), "omitted effect {:?} found in display table", effect);
    }
}

#[test]
fn effect_by_name_roundtrip() {
    for i in 0..EFFECT_TABLE_LEN {
        let (effect, display) = effect_table_entry(i);
        assert_eq!(effect_by_name(display), Some(effect), "lookup failed for '{}'", display);
        assert_eq!(effect_from_display_name(display), Some(effect));
        assert_eq!(effect_display_name(effect), display);
    }
}

#[test]
fn effect_by_name_case_insensitive() {
    assert_eq!(effect_by_name("rainbow"), Some(Effect::Rainbow));
    assert_eq!(effect_by_name("CANDY BOX"), Some(Effect::CandyBox));
    assert_eq!(effect_from_display_name("rainbow"), None);
}

#[test]
fn effect_display_name_known() {
    assert_eq!(effect_display_name(Effect::Rainbow), "Rainbow");
    assert_eq!(effect_display_name(Effect::CandyBox), "Candy Box");
    assert_eq!(effect_display_name(Effect::ElectricCurrent), "Electric Current");
    assert_eq!(effect_display_name(Effect::Voice), Effect::Voice.name());
}

#[test]
fn effect_display_names_count() {
    assert_eq!(effect_display_names().len(), 47);
    assert_eq!(effect_display_names()[0], "Rainbow");
    assert_eq!(effect_display_names()[46], "Bounce");
}

#[test]
fn ring_from_index_all() {
    assert_eq!(ring_from_index(0), Ring::Inner);
    assert_eq!(ring_from_index(1), Ring::Outer);
    assert_eq!(ring_from_index(2), Ring::Both);
    assert_eq!(ring_from_index(99), Ring::Both);
}

#[test]
fn direction_from_index_all() {
    assert_eq!(direction_from_index(0), EffectDirection::Cw);
    assert_eq!(direction_from_index(1), EffectDirection::Ccw);
    assert_eq!(direction_from_index(2), EffectDirection::Out);
    assert_eq!(direction_from_index(3), EffectDirection::In);
    assert_eq!(direction_from_index(99), EffectDirection::Cw);
    for d in [EffectDirection::Cw, EffectDirection::Ccw, EffectDirection::Out, EffectDirection::In] {
        assert_eq!(direction_from_index(direction_to_index(d)), d);
    }
}

#[test]
fn build_rgb_mode_off() {
    let result = build_rgb_mode("off", "", 0, 0, 0, 2, 0, 3, 255);
    assert!(matches!(result, Some(RgbMode::Off)));
}

#[test]
fn build_rgb_mode_static() {
    let result = build_rgb_mode("static", "", 255, 0, 128, 2, 0, 3, 255);
    match result {
        Some(RgbMode::Static { ring, color, brightness }) => {
            assert_eq!(ring, Ring::Both);
            assert_eq!(color, Rgb { r: 255, g: 0, b: 128 });
            assert_eq!(brightness, 255);
        }
        other => panic!("expected Static mode, got {:?}", other),
    }
}

#[test]
fn build_rgb_mode_effect() {
    let result = build_rgb_mode("effect", "Rainbow", 0, 120, 255, 0, 1, 3, 200);
    match result {
        Some(RgbMode::Effect { effect, params, ring }) => {
            assert_eq!(effect, Effect::Rainbow);
            assert_eq!(ring, Ring::Inner);
            assert_eq!(params.speed, 3);
            assert_eq!(params.direction, EffectDirection::Ccw);
            assert_eq!(params.brightness, 200);
            assert_eq!(params.color, Some(Rgb { r: 0, g: 120, b: 255 }));
            assert_eq!(params.scope, EffectScope::All);
        }
        other => panic!("expected Effect mode, got {:?}", other),
    }
}

#[test]
fn build_rgb_mode_effect_unknown_returns_none() {
    assert!(build_rgb_mode("effect", "NotAnEffect", 0, 0, 0, 2, 0, 3, 255).is_none());
}

#[test]
fn build_rgb_mode_per_fan_returns_none() {
    assert!(build_rgb_mode("per-fan", "", 0, 0, 0, 2, 0, 3, 255).is_none());
}

#[test]
fn build_rgb_mode_clamps_values() {
    match build_rgb_mode("effect", "meteor", -5, 300, 10, 7, 2, 9, 999) {
        Some(RgbMode::Effect { effect, params, ring }) => {
            assert_eq!(effect, Effect::Meteor);
            assert_eq!(ring, Ring::Both);
            assert_eq!(params.speed, 5);
            assert_eq!(params.brightness, 255);
            assert_eq!(params.color, Some(Rgb { r: 0, g: 255, b: 10 }));
            assert_eq!(params.direction, EffectDirection::Out);
        }
        other => panic!("expected Effect mode, got {:?}", other),
    }
}

// ---------------------------------------------------------------------------
// RGB page state
// ---------------------------------------------------------------------------

#[test]
fn state_from_static_inner_ring() {
    let st = state_from_rgb_mode(&RgbMode::Static { ring: Ring::Inner, color: Rgb { r: 1, g: 2, b: 3 }, brightness: 40 });
    assert_eq!(st.ring, 0);
    assert_eq!(st.inner.mode, "static");
    assert_eq!((st.inner.r, st.inner.g, st.inner.b, st.inner.brightness), (1, 2, 3, 40));
    assert_eq!(st.outer.mode, "off");
    assert_eq!((st.outer.r, st.outer.g, st.outer.b), (255, 0, 128));
}

#[test]
fn state_from_effect_both_rings() {
    let params = EffectParams { speed: 4, direction: EffectDirection::In, brightness: 90, color: None, scope: EffectScope::All };
    let st = state_from_rgb_mode(&RgbMode::Effect { effect: Effect::CandyBox, params, ring: Ring::Both });
    assert_eq!(st.ring, 2);
    for s in [&st.inner, &st.outer] {
        assert_eq!(s.mode, "effect");
        assert_eq!(s.effect, "Candy Box");
        assert_eq!((s.r, s.g, s.b), (255, 0, 128));
        assert_eq!((s.speed, s.direction, s.brightness), (4, 3, 90));
    }
}

#[test]
fn state_from_composed_and_named_modes() {
    let spec = FanZoneSpec {
        inner: ZoneSource::Color { color: Rgb { r: 9, g: 9, b: 9 }, brightness: 10 },
        outer: ZoneSource::Off,
    };
    let st = state_from_rgb_mode(&RgbMode::Composed(vec![spec]));
    assert_eq!(st.ring, 2);
    assert_eq!(st.inner.mode, "static");
    assert_eq!(st.outer.mode, "off");
    let st = state_from_rgb_mode(&RgbMode::PerFan(vec![]));
    assert_eq!((st.inner.mode.as_str(), st.outer.mode.as_str(), st.ring), ("per-fan", "per-fan", 2));
    let st = state_from_rgb_mode(&RgbMode::SubZones);
    assert_eq!(st.inner.mode, "sub-zones");
    let st = state_from_rgb_mode(&RgbMode::Composed(vec![]));
    assert_eq!(st.inner.mode, "off");
}

#[test]
fn zone_settings_roundtrip() {
    let zone = ZoneSource::Color { color: Rgb { r: 10, g: 20, b: 30 }, brightness: 77 };
    assert_eq!(zone_source(&ring_settings_from_zone(&zone)), zone);
    let params = EffectParams { speed: 2, direction: EffectDirection::Ccw, brightness: 5, color: Some(Rgb { r: 1, g: 2, b: 3 }), scope: EffectScope::All };
    let zone = ZoneSource::Effect { effect: Effect::Tide, params };
    assert_eq!(zone_source(&ring_settings_from_zone(&zone)), zone);
    assert_eq!(zone_source(&ring_settings_from_zone(&ZoneSource::Off)), ZoneSource::Off);
}

#[test]
fn save_and_build_mode() {
    let mut st = SavedRgbState::new();
    assert!(matches!(build_mode(&st), RgbMode::Off));
    st.ring = 1;
    let ui = RingSettings { mode: "static".into(), r: 300, g: -4, b: 7, effect: String::new(), speed: 3, direction: 0, brightness: 128 };
    save_to_active_rings(&mut st, &ui);
    assert_eq!(st.inner.mode, "off");
    assert_eq!(st.outer.mode, "static");
    match build_mode(&st) {
        RgbMode::Composed(v) => {
            assert_eq!(v.len(), 1);
            assert_eq!(v[0].inner, ZoneSource::Off);
            assert_eq!(v[0].outer, ZoneSource::Color { color: Rgb { r: 255, g: 0, b: 7 }, brightness: 128 });
        }
        other => panic!("expected Composed, got {:?}", other),
    }
}

#[test]
fn brightness_applies_to_every_zone() {
    let params = EffectParams { speed: 2, direction: EffectDirection::Cw, brightness: 5, color: None, scope: EffectScope::All };
    let mode = RgbMode::Composed(vec![FanZoneSpec {
        inner: ZoneSource::Effect { effect: Effect::Disco, params },
        outer: ZoneSource::Color { color: Rgb { r: 1, g: 1, b: 1 }, brightness: 9 },
    }]);
    match with_brightness(mode, 200) {
        RgbMode::Composed(v) => {
            assert!(matches!(v[0].inner, ZoneSource::Effect { params: EffectParams { brightness: 200, .. }, .. }));
            assert!(matches!(v[0].outer, ZoneSource::Color { brightness: 200, .. }));
        }
        other => panic!("expected Composed, got {:?}", other),
    }
    assert!(matches!(with_brightness(RgbMode::PerFan(vec![]), 3), RgbMode::PerFan(_)));
    assert!(matches!(
        with_brightness(RgbMode::Static { ring: Ring::Both, color: Rgb { r: 0, g: 0, b: 0 }, brightness: 1 }, 7),
        RgbMode::Static { brightness: 7, .. }
    ));
}

// ---------------------------------------------------------------------------
// Display helpers
// ---------------------------------------------------------------------------

#[test]
fn avg_nonzero_rpm_values() {
    assert_eq!(avg_nonzero_rpm(&[]), 0);
    assert_eq!(avg_nonzero_rpm(&[0, 0, 0]), 0);
    assert_eq!(avg_nonzero_rpm(&[1200, 0, 1000]), 1100);
    assert_eq!(avg_nonzero_rpm(&[1000, 1001]), 1000);
    assert_eq!(avg_nonzero_rpm(&[-5, 900]), 900);
}

#[test]
fn sensor_labels_roundtrip() {
    let sensors = [
        Sensor::Cpu,
        Sensor::Gpu,
        Sensor::GpuHotspot,
        Sensor::GpuVram,
        Sensor::GpuPower,
        Sensor::GpuUsage,
        Sensor::Water,
        Sensor::Motherboard { channel: 3 },
        Sensor::Motherboard { channel: 255 },
        Sensor::Weighted { cpu_pct: 60, gpu_pct: 40 },
        Sensor::Weighted { cpu_pct: 0, gpu_pct: 100 },
    ];
    for s in sensors {
        assert_eq!(sensor_from_label(&sensor_label(s)), s);
    }
    assert_eq!(sensor_label(Sensor::Motherboard { channel: 3 }), "Motherboard 3");
    assert_eq!(sensor_label(Sensor::Weighted { cpu_pct: 60, gpu_pct: 40 }), "Weighted 60/40");
}

#[test]
fn sensor_from_label_fallbacks() {
    assert_eq!(sensor_from_label("Motherboard"), Sensor::Motherboard { channel: 0 });
    assert_eq!(sensor_from_label("Motherboard x"), Sensor::Motherboard { channel: 0 });
    assert_eq!(sensor_from_label("Motherboard 256"), Sensor::Motherboard { channel: 0 });
    assert_eq!(sensor_from_label("Motherboard +7"), Sensor::Motherboard { channel: 7 });
    assert_eq!(sensor_from_label("Weighted 70/x"), Sensor::Weighted { cpu_pct: 70, gpu_pct: 50 });
    assert_eq!(sensor_from_label("Weighted 70"), Sensor::Cpu);
    assert_eq!(sensor_from_label("nonsense"), Sensor::Cpu);
}

#[test]
fn device_type_names_roundtrip() {
    for dt in [DeviceType::SlWireless, DeviceType::HydroShiftII, DeviceType::Led88, DeviceType::OpenRgb, DeviceType::Unknown] {
        assert_eq!(device_type_from_display(device_type_display(dt)), dt);
    }
    assert_eq!(device_type_display(DeviceType::Ga2), "GA II");
    assert_eq!(device_type_from_display("nothing"), DeviceType::Unknown);
}

#[test]
fn mode_and_role_names() {
    assert_eq!(rgb_mode_display(&RgbMode::Off), "Off");
    assert_eq!(rgb_mode_display(&RgbMode::PerLed(vec![])), "Per-LED");
    assert_eq!(role_string(&FanRole::Exhaust), "Exhaust");
    assert_eq!(role_string(&FanRole::Custom("Top".into())), "Top");
}

// ---------------------------------------------------------------------------
// LCD configuration
// ---------------------------------------------------------------------------

fn lcd(content: &str, brightness: i32, rotation: i32, sensor: &str, style: &str, color: &str, clock: i32, text: &str, path: &str, presets: &[LcdPreset]) -> frgb::lcd::LcdConfig {
    build_lcd_config(content, brightness, rotation, sensor, style, color, clock, text, path, presets, None)
}

#[test]
fn rotation_from_degrees_all() {
    assert_eq!(rotation_from_degrees(0), LcdRotation::R0);
    assert_eq!(rotation_from_degrees(90), LcdRotation::R90);
    assert_eq!(rotation_from_degrees(180), LcdRotation::R180);
    assert_eq!(rotation_from_degrees(270), LcdRotation::R270);
    assert_eq!(rotation_from_degrees(999), LcdRotation::R0);
}

#[test]
fn sensor_style_from_str_all() {
    assert_eq!(sensor_style_from_str("Gauge"), LcdSensorStyle::Gauge);
    assert_eq!(sensor_style_from_str("Number"), LcdSensorStyle::Number);
    assert_eq!(sensor_style_from_str("Graph"), LcdSensorStyle::Graph);
    assert_eq!(sensor_style_from_str("Carousel"), LcdSensorStyle::Carousel);
    assert_eq!(sensor_style_from_str("unknown"), LcdSensorStyle::Gauge);
}

#[test]
fn sensor_color_from_str_all() {
    assert_eq!(sensor_color_from_str("Blue"), LcdSensorColor::Blue);
    assert_eq!(sensor_color_from_str("Green"), LcdSensorColor::Green);
    assert_eq!(sensor_color_from_str("Purple"), LcdSensorColor::Purple);
    assert_eq!(sensor_color_from_str("Red"), LcdSensorColor::Red);
    assert_eq!(sensor_color_from_str("unknown"), LcdSensorColor::Blue);
}

#[test]
fn clock_style_from_index_all() {
    assert_eq!(clock_style_from_index(0), ClockStyle::C1);
    assert_eq!(clock_style_from_index(1), ClockStyle::C2);
    assert_eq!(clock_style_from_index(2), ClockStyle::C3);
    assert_eq!(clock_style_from_index(3), ClockStyle::C4);
    assert_eq!(clock_style_from_index(4), ClockStyle::C5);
    assert_eq!(clock_style_from_index(5), ClockStyle::C6);
    assert_eq!(clock_style_from_index(6), ClockStyle::C7);
    assert_eq!(clock_style_from_index(99), ClockStyle::C1);
}

#[test]
fn build_lcd_config_off() {
    let cfg = lcd("Off", 128, 0, "", "", "", 0, "", "", &[]);
    assert_eq!(cfg.content, LcdContent::Off);
    assert_eq!(cfg.brightness, 128);
    assert_eq!(cfg.rotation, LcdRotation::R0);
}

#[test]
fn build_lcd_config_sensor() {
    let cfg = lcd("Sensor", 200, 90, "CPU", "Gauge", "Blue", 0, "", "", &[]);
    match cfg.content {
        LcdContent::Sensor(ref disp) => {
            assert_eq!(disp.sensor, Sensor::Cpu);
            assert_eq!(disp.style, LcdSensorStyle::Gauge);
            assert_eq!(disp.color, LcdSensorColor::Blue);
            assert_eq!(disp.unit, TempUnit::Celsius);
            assert!(disp.label.is_none());
        }
        ref other => panic!("expected Sensor, got {:?}", other),
    }
    assert_eq!(cfg.rotation, LcdRotation::R90);
}

#[test]
fn build_lcd_config_clock() {
    let cfg = lcd("Clock", 255, 180, "", "", "", 3, "", "", &[]);
    assert_eq!(cfg.content, LcdContent::Clock(ClockStyle::C4));
    assert_eq!(cfg.rotation, LcdRotation::R180);
}

#[test]
fn build_lcd_config_system_info() {
    let cfg = lcd("System Info", 100, 270, "", "", "", 0, "", "", &[]);
    assert_eq!(cfg.content, LcdContent::SystemInfo);
    assert_eq!(cfg.rotation, LcdRotation::R270);
}

#[test]
fn build_lcd_config_text() {
    let cfg = lcd("Text", 50, 0, "", "", "", 0, "Hello World", "", &[]);
    assert_eq!(cfg.content, LcdContent::Text("Hello World".into()));
}

#[test]
fn build_lcd_config_brightness_clamped() {
    let cfg = lcd("Off", 300, 0, "", "", "", 0, "", "", &[]);
    assert_eq!(cfg.brightness, 255);
    let cfg2 = lcd("Off", -10, 0, "", "", "", 0, "", "", &[]);
    assert_eq!(cfg2.brightness, 0);
}

#[test]
fn build_lcd_config_image_no_path() {
    let cfg = lcd("Image", 200, 0, "", "", "", 0, "", "", &[]);
    assert_eq!(cfg.content, LcdContent::Off);
}

#[test]
fn build_lcd_config_gif_no_path() {
    let cfg = lcd("GIF", 200, 0, "", "", "", 0, "", "", &[]);
    assert_eq!(cfg.content, LcdContent::Off);
}

#[test]
fn build_lcd_config_preset_no_name() {
    let cfg = lcd("Preset", 200, 0, "", "", "", 0, "", "", &[]);
    assert_eq!(cfg.content, LcdContent::Off);
}

#[test]
fn build_lcd_config_preset_with_name_fallback() {
    let cfg = lcd("Preset", 200, 0, "", "", "", 0, "", "Snowfall", &[]);
    match cfg.content {
        LcdContent::Preset(ref p) => {
            assert_eq!(p.name, "Snowfall");
            assert_eq!(p.category, LcdPresetCategory::Cooler);
            assert_eq!(p.fps, 24);
            assert_eq!(p.index, 0);
        }
        ref other => panic!("expected Preset, got {:?}", other),
    }
}

#[test]
fn build_lcd_config_preset_lookup_from_list() {
    let presets = vec![
        LcdPreset { category: LcdPresetCategory::Fan, index: 3, name: "Aurora".into(), frame_count: 120, fps: 30, thumbnail: Vec::new() },
        LcdPreset { category: LcdPresetCategory::Cooler, index: 7, name: "Snowfall".into(), frame_count: 60, fps: 15, thumbnail: Vec::new() },
    ];
    let cfg = lcd("Preset", 200, 0, "", "", "", 0, "", "Snowfall", &presets);
    match cfg.content {
        LcdContent::Preset(ref p) => {
            assert_eq!(p.name, "Snowfall");
            assert_eq!(p.category, LcdPresetCategory::Cooler);
            assert_eq!(p.index, 7);
            assert_eq!(p.frame_count, 60);
            assert_eq!(p.fps, 15);
        }
        ref other => panic!("expected Preset, got {:?}", other),
    }
}

#[test]
fn build_lcd_config_with_file_bytes() {
    let cfg = build_lcd_config("Image", 10, 0, "", "", "", 0, "", "/tmp/a.png", &[], Some(vec![1, 2, 3]));
    assert_eq!(cfg.content, LcdContent::Image(vec![1, 2, 3]));
    let cfg = build_lcd_config("GIF", 10, 0, "", "", "", 0, "", "/tmp/a.gif", &[], Some(vec![4]));
    assert_eq!(cfg.content, LcdContent::Gif { frames: vec![vec![4]], fps: 10 });
    // An unreadable file shows nothing.
    let cfg = build_lcd_config("GIF", 10, 0, "", "", "", 0, "", "/tmp/a.gif", &[], None);
    assert_eq!(cfg.content, LcdContent::Off);
    let cfg = build_lcd_config("Video", 10, 0, "", "", "", 0, "", "", &[], None);
    assert_eq!(cfg.content, LcdContent::Off);
}

#[test]
fn lcd_refresh_and_cycles() {
    assert_eq!(refresh_interval_ms(&LcdContent::Off, None), 30_000);
    assert_eq!(refresh_interval_ms(&LcdContent::Clock(ClockStyle::C1), None), 60_000);
    assert_eq!(refresh_interval_ms(&LcdContent::Gif { frames: vec![], fps: 0 }, None), 1000);
    assert_eq!(refresh_interval_ms(&LcdContent::Gif { frames: vec![], fps: 10 }, Some(20)), 50);
    assert_eq!(refresh_interval_ms(&LcdContent::SystemInfo, None), 1000);
    assert_eq!(refresh_interval_ms(&LcdContent::Video, None), 33);
    assert_eq!(next_in_cycle(0, 3), 1);
    assert_eq!(next_in_cycle(2, 3), 0);
    assert_eq!(sensor_key(Sensor::Motherboard { channel: 2 }), "MB");
    assert_eq!(sensor_key(Sensor::Weighted { cpu_pct: 1, gpu_pct: 2 }), "CPU");
}

#[test]
fn frame_dedup_by_hash() {
    let mut last = 0u64;
    assert!(frame_is_new(&mut last, &[1, 2, 3]));
    let h = last;
    assert!(!frame_is_new(&mut last, &[1, 2, 3]));
    assert_eq!(last, h);
    assert!(frame_is_new(&mut last, &[1, 2, 4]));
    assert_ne!(last, h);
}

#[test]
fn sensor_graph_colour_and_unit() {
    assert_eq!(sensor_color("CPU"), (255, 99, 71));
    assert_eq!(sensor_color("GPU"), (50, 205, 50));
    assert_eq!(sensor_color("Water"), (74, 158, 255));
    assert_eq!(sensor_color("cpu"), (200, 200, 200));
    assert_eq!(sensor_unit("GPU Power"), "W");
    assert_eq!(sensor_unit("PSU WATTS"), "W");
    assert_eq!(sensor_unit("GPU Usage"), "%");
    assert_eq!(sensor_unit("CPU Load"), "%");
    assert_eq!(sensor_unit("Water"), "\u{b0}C");
}

#[test]
fn playback_and_speed_names() {
    assert_eq!(playback_str(Playback::Count(3)), "Loop");
    assert_eq!(playback_str(Playback::PingPong), "PingPong");
    assert_eq!(playback_from_str("Once"), Playback::Once);
    assert_eq!(playback_from_str("whatever"), Playback::Loop);
    assert_eq!(speed_mode_string(&SpeedMode::Pwm), "PWM");
    assert_eq!(speed_mode_string(&SpeedMode::NamedCurve("x".into())), "Curve");
    assert_eq!(speed_percent(&SpeedMode::Manual(42)), 42);
    assert_eq!(speed_percent(&SpeedMode::Curve), -1);
    assert_eq!(speed_curve_name(&SpeedMode::NamedCurve("silent".into())), "silent");
    assert_eq!(speed_curve_name(&SpeedMode::Curve), "(custom)");
    assert_eq!(speed_curve_name(&SpeedMode::Manual(3)), "");
}

#[test]
fn led_colors_from_modes() {
    let red = Rgb { r: 255, g: 0, b: 0 };
    let black = Rgb { r: 0, g: 0, b: 0 };
    let v = group_led_colors(&RgbMode::Static { ring: Ring::Both, color: red, brightness: 9 }, 2, 3, 1).unwrap();
    assert_eq!(v.len(), 2);
    assert_eq!(v[1].inner, vec![red; 3]);
    assert_eq!(v[1].outer, vec![red]);

    let per_fan = RgbMode::PerFan(vec![FanColorAssignment { inner: Some(red), outer: None }]);
    let v = group_led_colors(&per_fan, 3, 2, 2).unwrap();
    // Fans beyond the list repeat its last entry.
    assert_eq!(v[2].inner, vec![red; 2]);
    assert_eq!(v[2].outer, vec![black; 2]);

    let per_led = RgbMode::PerLed(vec![FanLedAssignment { inner: vec![red], outer: vec![red, red, red] }]);
    let v = group_led_colors(&per_led, 1, 2, 2).unwrap();
    assert_eq!(v[0].inner, vec![red, black]);
    assert_eq!(v[0].outer, vec![red, red]);

    let composed = RgbMode::Composed(vec![FanZoneSpec {
        inner: ZoneSource::Off,
        outer: ZoneSource::Color { color: red, brightness: 1 },
    }]);
    let v = group_led_colors(&composed, 1, 1, 1).unwrap();
    assert_eq!((v[0].inner[0], v[0].outer[0]), (black, red));

    let effect = RgbMode::Effect {
        effect: Effect::Rainbow,
        params: EffectParams { speed: 1, direction: EffectDirection::Cw, brightness: 1, color: None, scope: EffectScope::All },
        ring: Ring::Both,
    };
    assert!(group_led_colors(&effect, 2, 1, 1).is_none());
    assert_eq!(group_led_colors(&RgbMode::Off, -1, 1, 1).unwrap().len(), 0);
}


#[test]
fn schedule_lines_show_time_and_action() {
    let e = |hour: u8, minute: u8, action: ScheduleAction| ScheduleEntry { hour, minute, days: vec![], action };
    assert_eq!(schedule_line(&e(7, 5, ScheduleAction::SwitchProfile("quiet".to_string()))), "07:05 \u{2014} profile:quiet");
    assert_eq!(
        schedule_line(&e(22, 30, ScheduleAction::SetSpeed { target: Target::All, percent: 40 })),
        "22:30 \u{2014} speed:40%"
    );
    assert_eq!(
        schedule_line(&e(0, 0, ScheduleAction::ApplyCurve { target: Target::All, curve: "silent".to_string() })),
        "00:00 \u{2014} curve:silent"
    );
    // `{:02}` pads to two digits but does not cut a wider number.
    assert_eq!(
        schedule_line(&e(123, 9, ScheduleAction::SetSpeed { target: Target::All, percent: 100 })),
        format!("{:02}:{:02} \u{2014} speed:{}%", 123, 9, 100)
    );
}

#[test]
fn daemon_early_exit_messages() {
    assert_eq!(early_exit_message("Error: Permission denied (os error 13)", Some(1), "exit status: 1"), PERMISSION_ADVICE);
    assert_eq!(early_exit_message("", Some(126), "exit status: 126"), PERMISSION_ADVICE);
    assert_eq!(early_exit_message("open failed: EACCES", None, "signal: 9"), PERMISSION_ADVICE);
    assert_eq!(early_exit_message("Resource busy", Some(1), "exit status: 1"), BUSY_ADVICE);
    assert_eq!(early_exit_message("", Some(2), "exit status: 2"), "Daemon exited with exit status: 2");
    assert_eq!(early_exit_message("no dongle", Some(1), "exit status: 1"), "Daemon failed: no dongle");
    assert_eq!(spawn_failure_message(true, "ignored"), NOT_FOUND_ADVICE);
    assert_eq!(spawn_failure_message(false, "boom"), "Failed to start daemon: boom");
}

#[test]
fn sensor_names_start_with_base_sensors() {
    assert_eq!(sensor_names(&[]), vec!["CPU", "GPU", "Water"]);
    let detected = [Sensor::Gpu, Sensor::Motherboard { channel: 1 }, Sensor::GpuHotspot, Sensor::Cpu];
    let names = sensor_names(&detected);
    let expected: Vec<String> = {
        let mut v: Vec<String> = vec!["CPU".into(), "GPU".into(), "Water".into()];
        for s in detected {
            let l = sensor_label(s);
            if !v.contains(&l) {
                v.push(l);
            }
        }
        v
    };
    assert_eq!(names, expected);
    assert_eq!(names.len(), 5);
}

#[test]
fn effect_zone_without_colour_comes_back_with_the_default_colour() {
    let params = EffectParams { speed: 3, direction: EffectDirection::Cw, brightness: 200, color: None, scope: EffectScope::All };
    let zone = ZoneSource::Effect { effect: Effect::Rainbow, params };
    let back = zone_source(&ring_settings_from_zone(&zone));
    let expected = ZoneSource::Effect {
        effect: Effect::Rainbow,
        params: EffectParams { color: Some(Rgb { r: 255, g: 0, b: 128 }), ..params },
    };
    assert_eq!(back, expected);
}

#[test]
fn composed_mode_comes_back_through_the_editor() {
    let params = EffectParams { speed: 4, direction: EffectDirection::Ccw, brightness: 90, color: Some(Rgb { r: 3, g: 4, b: 5 }), scope: EffectScope::All };
    let spec = FanZoneSpec {
        inner: ZoneSource::Effect { effect: Effect::Tide, params },
        outer: ZoneSource::Color { color: Rgb { r: 10, g: 20, b: 30 }, brightness: 77 },
    };
    let mode = RgbMode::Composed(vec![spec]);
    match build_mode(&state_from_rgb_mode(&mode)) {
        RgbMode::Composed(v) => assert_eq!(v, vec![spec]),
        other => panic!("expected Composed, got {:?}", other),
    }
    let off_inner = FanZoneSpec { inner: ZoneSource::Off, outer: spec.outer };
    match build_mode(&state_from_rgb_mode(&RgbMode::Composed(vec![off_inner]))) {
        RgbMode::Composed(v) => assert_eq!(v, vec![off_inner]),
        other => panic!("expected Composed, got {:?}", other),
    }
}

#[test]
fn units_of_lowered_labels() {
    assert_eq!(lowered_sensor_unit("gpu power"), "W");
    assert_eq!(lowered_sensor_unit("cpu load"), "%");
    assert_eq!(lowered_sensor_unit("cpu tctl"), "°C");
    assert_eq!(lowered_sensor_unit("GPU Power"), "°C", "the text is taken as already lowered");
}
