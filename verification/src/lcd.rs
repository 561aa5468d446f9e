//! LCD screen configuration and its construction from the LCD page's UI values.

use vstd::prelude::*;

use crate::convert::{sensor_from_label, sensor_of_label};
use crate::model::Sensor;
use crate::rgb_page::{clamp_i32, clamp_spec};
use crate::text::same_text;
use std::collections::hash_map::DefaultHasher;
use std::hash::Hasher;
use vstd::std_specs::hash::DefaultHasherAdditionalSpecFns;

verus! {

/// The writes that `<[u8] as Hash>::hash` adds to a hasher's record
/// `before` when hashing `data`.
pub uninterp spec fn slice_hash_writes(before: Seq<Seq<u8>>, data: Seq<u8>) -> Seq<Seq<u8>>;

/// Feeds `data` to the hasher with `<[u8] as Hash>::hash`. What it writes
/// is taken to depend on the bytes and the earlier writes alone; which
/// writes they are (std adds a length prefix) is not stated here.
#[verifier::external_body]
fn hash_slice(data: &[u8], hasher: &mut DefaultHasher)
    ensures
        final(hasher)@ == slice_hash_writes(old(hasher)@, data@),
{
    std::hash::Hash::hash(data, hasher)
}

/// Hash of an encoded frame: the bytes hashed into a fresh `DefaultHasher`.
pub open spec fn frame_hash(data: Seq<u8>) -> u64 {
    DefaultHasher::spec_finish(slice_hash_writes(Seq::empty(), data))
}

/// Hash of an encoded frame, for detecting unchanged frames.
pub fn hash_bytes(data: &[u8]) -> (h: u64)
    ensures
        h == frame_hash(data@),
{
    let mut hasher = DefaultHasher::new();
    hash_slice(data, &mut hasher);
    hasher.finish()
}

/// Whether an encoded frame differs from the last one sent, by hash; when
/// it does, its hash becomes the last one.
pub fn frame_is_new(last_hash: &mut u64, jpeg: &[u8]) -> (r: bool)
    ensures
        r == (frame_hash(jpeg@) != *old(last_hash)),
        *final(last_hash) == frame_hash(jpeg@),
{
    let h = hash_bytes(jpeg);
    if h == *last_hash {
        false
    } else {
        *last_hash = h;
        true
    }
}

/// Milliseconds between frame refreshes for the content: 30 s for static
/// content, 1 s for sensor displays and templates, 60 s for the clock,
/// 33 ms for video, and one frame at the animation's rate (24 fps for a
/// preset that has not been loaded; a rate of 0 counts as 1).
pub open spec fn refresh_ms(content: LcdContent, loaded_fps: Option<u8>) -> int {
    match content {
        LcdContent::Off | LcdContent::Text(_) | LcdContent::Image(_) => 30000,
        LcdContent::SystemInfo | LcdContent::Sensor(_) | LcdContent::SensorCarousel(_) => 1000,
        LcdContent::Gif { fps, .. } => {
            let f = match loaded_fps {
                Some(l) => l,
                None => fps,
            };
            1000int / (if f == 0 { 1int } else { f as int })
        },
        LcdContent::Preset(_) => match loaded_fps {
            Some(l) => 1000int / (if l == 0 { 1int } else { l as int }),
            None => 1000int / 24,
        },
        LcdContent::Clock(_) => 60000,
        LcdContent::Video => 33,
        LcdContent::Template => 1000,
        LcdContent::ScreenCapture { fps, .. } => 1000int / (if fps == 0 { 1int } else { fps as int }),
    }
}

fn per_frame_ms(fps: u8) -> (ms: u64)
    ensures
        ms == 1000int / (if fps == 0 { 1int } else { fps as int }),
{
    let f: u64 = if fps == 0 {
        1
    } else {
        fps as u64
    };
    1000 / f
}

/// Milliseconds between frame refreshes; `loaded_fps` is the rate of the
/// decoded animation, if one is loaded.
pub fn refresh_interval_ms(content: &LcdContent, loaded_fps: Option<u8>) -> (ms: u64)
    ensures
        ms == refresh_ms(*content, loaded_fps),
{
    match content {
        LcdContent::Off | LcdContent::Text(_) | LcdContent::Image(_) => 30000,
        LcdContent::SystemInfo | LcdContent::Sensor(_) | LcdContent::SensorCarousel(_) => 1000,
        LcdContent::Gif { fps, .. } => {
            let f = match loaded_fps {
                Some(l) => l,
                None => *fps,
            };
            per_frame_ms(f)
        },
        LcdContent::Preset(_) => match loaded_fps {
            Some(l) => per_frame_ms(l),
            None => 1000 / 24,
        },
        LcdContent::Clock(_) => 60000,
        LcdContent::Video => 33,
        LcdContent::Template => 1000,
        LcdContent::ScreenCapture { fps, .. } => per_frame_ms(*fps),
    }
}

/// Key under which a sensor's reading is looked up for the screen.
pub open spec fn sensor_key_of(sensor: Sensor) -> &'static str {
    match sensor {
        Sensor::Cpu => "CPU",
        Sensor::Gpu => "GPU",
        Sensor::GpuHotspot => "GPU Hotspot",
        Sensor::GpuVram => "GPU VRAM",
        Sensor::GpuPower => "GPU Power",
        Sensor::GpuUsage => "GPU Usage",
        Sensor::Water => "Water",
        Sensor::Motherboard { .. } => "MB",
        Sensor::Weighted { .. } => "CPU",
    }
}

/// Key under which a sensor's reading is looked up for the screen.
pub fn sensor_key(sensor: Sensor) -> (k: &'static str)
    ensures
        k == sensor_key_of(sensor),
{
    match sensor {
        Sensor::Cpu => "CPU",
        Sensor::Gpu => "GPU",
        Sensor::GpuHotspot => "GPU Hotspot",
        Sensor::GpuVram => "GPU VRAM",
        Sensor::GpuPower => "GPU Power",
        Sensor::GpuUsage => "GPU Usage",
        Sensor::Water => "Water",
        Sensor::Motherboard { .. } => "MB",
        Sensor::Weighted { .. } => "CPU",
    }
}

/// Next position in a cycle of `len` items (a carousel or animation frames).
pub fn next_in_cycle(index: usize, len: usize) -> (n: usize)
    requires
        index < len,
    ensures
        n == (index + 1) % (len as int),
{
    if index + 1 < len {
        assert((index + 1) % (len as int) == index + 1) by (nonlinear_arith)
            requires
                0 <= index + 1 < len,
        ;
        index + 1
    } else {
        assert((index + 1) % (len as int) == 0) by (nonlinear_arith)
            requires
                index + 1 == len,
                len > 0,
        ;
        0
    }
}

/// Screen rotation.
#[derive(Clone, Copy, Debug, PartialEq, Eq, Structural)]
pub enum LcdRotation {
    R0,
    R90,
    R180,
    R270,
}

/// How a sensor reading is drawn.
#[derive(Clone, Copy, Debug, PartialEq, Eq, Structural)]
pub enum LcdSensorStyle {
    Gauge,
    Number,
    Graph,
    Carousel,
}

/// Colour theme of a sensor display.
#[derive(Clone, Copy, Debug, PartialEq, Eq, Structural)]
pub enum LcdSensorColor {
    Blue,
    Green,
    Purple,
    Red,
}

/// Clock face.
#[derive(Clone, Copy, Debug, PartialEq, Eq, Structural)]
pub enum ClockStyle {
    C1,
    C2,
    C3,
    C4,
    C5,
    C6,
    C7,
}

/// Temperature unit.
#[derive(Clone, Copy, Debug, PartialEq, Eq, Structural)]
pub enum TempUnit {
    Celsius,
    Fahrenheit,
}

/// A sensor reading shown on the screen.
#[derive(Clone, Debug, PartialEq, Eq)]
pub struct LcdSensorDisplay {
    pub sensor: Sensor,
    pub label: Option<String>,
    pub unit: TempUnit,
    pub style: LcdSensorStyle,
    pub color: LcdSensorColor,
}

/// Category (directory) of an animation preset.
#[derive(Clone, Copy, Debug, PartialEq, Eq, Structural)]
pub enum LcdPresetCategory {
    Cooler,
    Fan,
    Led,
    Ga2v,
    Legacy,
}

/// An animation preset.
#[derive(Clone, Debug, PartialEq, Eq)]
pub struct LcdPreset {
    pub category: LcdPresetCategory,
    pub index: u8,
    pub name: String,
    pub frame_count: u16,
    pub fps: u8,
    pub thumbnail: Vec<u8>,
}

/// What the screen shows.
#[derive(Clone, Debug, PartialEq, Eq)]
pub enum LcdContent {
    Off,
    Sensor(LcdSensorDisplay),
    Clock(ClockStyle),
    SystemInfo,
    Text(String),
    Image(Vec<u8>),
    Gif { frames: Vec<Vec<u8>>, fps: u8 },
    Preset(LcdPreset),
    SensorCarousel(Vec<LcdSensorDisplay>),
    ScreenCapture { display: Option<String>, window: Option<String>, fps: u8 },
    Video,
    Template,
}

/// Screen configuration.
#[derive(Clone, Debug, PartialEq, Eq)]
pub struct LcdConfig {
    pub brightness: u8,
    pub rotation: LcdRotation,
    pub content: LcdContent,
}

/// Rotation of a number of degrees; anything but 90, 180 or 270 is no rotation.
pub open spec fn rotation_of(deg: i32) -> LcdRotation {
    if deg == 90 {
        LcdRotation::R90
    } else if deg == 180 {
        LcdRotation::R180
    } else if deg == 270 {
        LcdRotation::R270
    } else {
        LcdRotation::R0
    }
}

/// Sensor style of a name; unknown names give the gauge.
pub open spec fn style_of(s: Seq<char>) -> LcdSensorStyle {
    if s == "Number"@ {
        LcdSensorStyle::Number
    } else if s == "Graph"@ {
        LcdSensorStyle::Graph
    } else if s == "Carousel"@ {
        LcdSensorStyle::Carousel
    } else {
        LcdSensorStyle::Gauge
    }
}

/// Sensor colour of a name; unknown names give blue.
pub open spec fn color_of(s: Seq<char>) -> LcdSensorColor {
    if s == "Green"@ {
        LcdSensorColor::Green
    } else if s == "Purple"@ {
        LcdSensorColor::Purple
    } else if s == "Red"@ {
        LcdSensorColor::Red
    } else {
        LcdSensorColor::Blue
    }
}

/// Clock face of an index 0..=6; others give the first face.
pub open spec fn clock_of(idx: i32) -> ClockStyle {
    if idx == 1 {
        ClockStyle::C2
    } else if idx == 2 {
        ClockStyle::C3
    } else if idx == 3 {
        ClockStyle::C4
    } else if idx == 4 {
        ClockStyle::C5
    } else if idx == 5 {
        ClockStyle::C6
    } else if idx == 6 {
        ClockStyle::C7
    } else {
        ClockStyle::C1
    }
}

/// Index of the first preset with the given name.
pub open spec fn preset_named(ps: Seq<LcdPreset>, name: Seq<char>) -> Option<int>
    decreases ps.len(),
{
    if ps.len() == 0 {
        None
    } else {
        match preset_named(ps.drop_last(), name) {
            Some(i) => Some(i),
            None => if ps.last().name@ == name {
                Some(ps.len() - 1)
            } else {
                None
            },
        }
    }
}

/// Two presets hold the same values.
pub open spec fn same_preset(a: LcdPreset, b: LcdPreset) -> bool {
    &&& a.category == b.category
    &&& a.index == b.index
    &&& a.name@ == b.name@
    &&& a.frame_count == b.frame_count
    &&& a.fps == b.fps
    &&& a.thumbnail@ == b.thumbnail@
}

/// The content that the LCD page's values stand for. `file` holds the
/// bytes read from `path` for an image or GIF, `None` when they could not
/// be read.
pub open spec fn content_is(
    c: LcdContent,
    kind: Seq<char>,
    sensor: Seq<char>,
    style: Seq<char>,
    color: Seq<char>,
    clock_style: i32,
    text: Seq<char>,
    path: Seq<char>,
    presets: Seq<LcdPreset>,
    file: Option<Seq<u8>>,
) -> bool {
    if kind == "Sensor"@ {
        c matches LcdContent::Sensor(d) && d.sensor == sensor_of_label(sensor) && d.label is None
            && d.unit == TempUnit::Celsius && d.style == style_of(style) && d.color == color_of(
            color,
        )
    } else if kind == "Clock"@ {
        c == LcdContent::Clock(clock_of(clock_style))
    } else if kind == "System Info"@ {
        c is SystemInfo
    } else if kind == "Text"@ {
        c matches LcdContent::Text(t) && t@ == text
    } else if kind == "Image"@ {
        if path.len() > 0 && file is Some {
            c matches LcdContent::Image(b) && b@ == file->0
        } else {
            c is Off
        }
    } else if kind == "GIF"@ {
        if path.len() > 0 && file is Some {
            c matches LcdContent::Gif { frames, fps } && fps == 10 && frames@.len() == 1
                && frames@[0]@ == file->0
        } else {
            c is Off
        }
    } else if kind == "Preset"@ {
        match preset_named(presets, path) {
            Some(i) => c matches LcdContent::Preset(p) && same_preset(p, presets[i]),
            None => if path.len() > 0 {
                c matches LcdContent::Preset(p) && p.category == LcdPresetCategory::Cooler
                    && p.index == 0 && p.name@ == path && p.frame_count == 0 && p.fps == 24
                    && p.thumbnail@.len() == 0
            } else {
                c is Off
            },
        }
    } else {
        c is Off
    }
}

/// Rotation of a number of degrees (see [`rotation_of`]).
pub fn rotation_from_degrees(deg: i32) -> (r: LcdRotation)
    ensures
        r == rotation_of(deg),
{
    match deg {
        90 => LcdRotation::R90,
        180 => LcdRotation::R180,
        270 => LcdRotation::R270,
        _ => LcdRotation::R0,
    }
}

/// Sensor style of a name (see [`style_of`]).
pub fn sensor_style_from_str(s: &str) -> (r: LcdSensorStyle)
    ensures
        r == style_of(s@),
{
    if same_text(s, "Number") {
        LcdSensorStyle::Number
    } else if same_text(s, "Graph") {
        LcdSensorStyle::Graph
    } else if same_text(s, "Carousel") {
        LcdSensorStyle::Carousel
    } else {
        LcdSensorStyle::Gauge
    }
}

/// Sensor colour of a name (see [`color_of`]).
pub fn sensor_color_from_str(s: &str) -> (r: LcdSensorColor)
    ensures
        r == color_of(s@),
{
    if same_text(s, "Green") {
        LcdSensorColor::Green
    } else if same_text(s, "Purple") {
        LcdSensorColor::Purple
    } else if same_text(s, "Red") {
        LcdSensorColor::Red
    } else {
        LcdSensorColor::Blue
    }
}

/// Clock face of an index (see [`clock_of`]).
pub fn clock_style_from_index(idx: i32) -> (r: ClockStyle)
    ensures
        r == clock_of(idx),
{
    match idx {
        1 => ClockStyle::C2,
        2 => ClockStyle::C3,
        3 => ClockStyle::C4,
        4 => ClockStyle::C5,
        5 => ClockStyle::C6,
        6 => ClockStyle::C7,
        _ => ClockStyle::C1,
    }
}

impl LcdPreset {
    /// A copy of the preset.
    pub fn duplicate(&self) -> (p: LcdPreset)
        ensures
            same_preset(p, *self),
    {
        let thumbnail = self.thumbnail.clone();
        proof {
            assert(thumbnail@ =~= self.thumbnail@);
        }
        LcdPreset {
            category: self.category,
            index: self.index,
            name: self.name.clone(),
            frame_count: self.frame_count,
            fps: self.fps,
            thumbnail,
        }
    }
}

/// Two contents hold the same values (byte buffers compared by their bytes).
pub open spec fn same_content(a: LcdContent, b: LcdContent) -> bool {
    match (a, b) {
        (LcdContent::Image(x), LcdContent::Image(y)) => x@ == y@,
        (LcdContent::Gif { frames: f1, fps: r1 }, LcdContent::Gif { frames: f2, fps: r2 }) => {
            &&& r1 == r2
            &&& f1@.len() == f2@.len()
            &&& forall|i: int| 0 <= i < f1@.len() ==> (#[trigger] f1@[i])@ == f2@[i]@
        },
        (LcdContent::Preset(p), LcdContent::Preset(q)) => same_preset(p, q),
        (LcdContent::SensorCarousel(d1), LcdContent::SensorCarousel(d2)) => d1@ == d2@,
        _ => a == b,
    }
}

/// Two screen configurations hold the same values.
pub open spec fn same_config(a: LcdConfig, b: LcdConfig) -> bool {
    &&& a.brightness == b.brightness
    &&& a.rotation == b.rotation
    &&& same_content(a.content, b.content)
}

fn copy_text(s: &Option<String>) -> (r: Option<String>)
    ensures
        r == *s,
{
    match s {
        Some(t) => Some(t.clone()),
        None => None,
    }
}

impl LcdSensorDisplay {
    /// A copy of the display.
    pub fn duplicate(&self) -> (d: LcdSensorDisplay)
        ensures
            d == *self,
    {
        LcdSensorDisplay {
            sensor: self.sensor,
            label: copy_text(&self.label),
            unit: self.unit,
            style: self.style,
            color: self.color,
        }
    }
}

fn copy_bytes(b: &Vec<u8>) -> (r: Vec<u8>)
    ensures
        r@ == b@,
{
    let r = b.clone();
    proof {
        assert(r@ =~= b@);
    }
    r
}

impl LcdContent {
    /// A copy of the content.
    pub fn duplicate(&self) -> (c: LcdContent)
        ensures
            same_content(c, *self),
    {
        match self {
            LcdContent::Off => LcdContent::Off,
            LcdContent::Sensor(d) => LcdContent::Sensor(d.duplicate()),
            LcdContent::Clock(k) => LcdContent::Clock(*k),
            LcdContent::SystemInfo => LcdContent::SystemInfo,
            LcdContent::Text(t) => LcdContent::Text(t.clone()),
            LcdContent::Image(b) => LcdContent::Image(copy_bytes(b)),
            LcdContent::Gif { frames, fps } => {
                let mut out: Vec<Vec<u8>> = Vec::new();
                let mut i: usize = 0;
                while i < frames.len()
                    invariant
                        i <= frames@.len(),
                        out@.len() == i,
                        forall|j: int| 0 <= j < i ==> (#[trigger] out@[j])@ == frames@[j]@,
                    decreases frames@.len() - i,
                {
                    out.push(copy_bytes(&frames[i]));
                    i = i + 1;
                }
                LcdContent::Gif { frames: out, fps: *fps }
            },
            LcdContent::Preset(p) => LcdContent::Preset(p.duplicate()),
            LcdContent::SensorCarousel(ds) => {
                let mut out: Vec<LcdSensorDisplay> = Vec::new();
                let mut i: usize = 0;
                while i < ds.len()
                    invariant
                        i <= ds@.len(),
                        out@ == ds@.subrange(0, i as int),
                    decreases ds@.len() - i,
                {
                    out.push(ds[i].duplicate());
                    proof {
                        assert(out@ =~= ds@.subrange(0, i + 1));
                    }
                    i = i + 1;
                }
                proof {
                    assert(out@ =~= ds@);
                }
                LcdContent::SensorCarousel(out)
            },
            LcdContent::ScreenCapture { display, window, fps } => LcdContent::ScreenCapture {
                display: copy_text(display),
                window: copy_text(window),
                fps: *fps,
            },
            LcdContent::Video => LcdContent::Video,
            LcdContent::Template => LcdContent::Template,
        }
    }
}

impl LcdConfig {
    /// A copy of the configuration.
    pub fn duplicate(&self) -> (c: LcdConfig)
        ensures
            same_config(c, *self),
    {
        LcdConfig { brightness: self.brightness, rotation: self.rotation, content: self.content.duplicate() }
    }
}

fn find_preset(presets: &[LcdPreset], name: &str) -> (r: Option<usize>)
    ensures
        match r {
            Some(i) => preset_named(presets@, name@) == Some(i as int),
            None => preset_named(presets@, name@) is None,
        },
{
    let mut i: usize = 0;
    while i < presets.len()
        invariant
            i <= presets@.len(),
            preset_named(presets@.subrange(0, i as int), name@) is None,
        decreases presets@.len() - i,
    {
        let ghost next = presets@.subrange(0, i + 1);
        assert(next.drop_last() =~= presets@.subrange(0, i as int));
        if same_text(presets[i].name.as_str(), name) {
            proof {
                lemma_preset_named_prefix(presets@, name@, i + 1);
            }
            return Some(i);
        }
        i = i + 1;
    }
    assert(presets@.subrange(0, i as int) =~= presets@);
    None
}

proof fn lemma_preset_named_prefix(ps: Seq<LcdPreset>, name: Seq<char>, n: int)
    requires
        0 <= n <= ps.len(),
        preset_named(ps.subrange(0, n), name) is Some,
    ensures
        preset_named(ps, name) == preset_named(ps.subrange(0, n), name),
    decreases ps.len(),
{
    if n < ps.len() {
        assert(ps.drop_last().subrange(0, n) =~= ps.subrange(0, n));
        lemma_preset_named_prefix(ps.drop_last(), name, n);
    } else {
        assert(ps.subrange(0, n) =~= ps);
    }
}

proof fn lemma_preset_named_range(ps: Seq<LcdPreset>, name: Seq<char>)
    ensures
        preset_named(ps, name) matches Some(i) ==> 0 <= i < ps.len(),
    decreases ps.len(),
{
    if ps.len() > 0 {
        lemma_preset_named_range(ps.drop_last(), name);
    }
}

fn build_content(
    content_type: &str,
    sensor: &str,
    style: &str,
    color: &str,
    clock_style: i32,
    text: &str,
    file_path: &str,
    presets: &[LcdPreset],
    file: Option<Vec<u8>>,
) -> (c: LcdContent)
    ensures
        content_is(
            c,
            content_type@,
            sensor@,
            style@,
            color@,
            clock_style,
            text@,
            file_path@,
            presets@,
            match file {
                Some(b) => Some(b@),
                None => None,
            },
        ),
{
    let has_path = !file_path.is_empty();
    if same_text(content_type, "Sensor") {
        LcdContent::Sensor(
            LcdSensorDisplay {
                sensor: sensor_from_label(sensor),
                label: None,
                unit: TempUnit::Celsius,
                style: sensor_style_from_str(style),
                color: sensor_color_from_str(color),
            },
        )
    } else if same_text(content_type, "Clock") {
        LcdContent::Clock(clock_style_from_index(clock_style))
    } else if same_text(content_type, "System Info") {
        LcdContent::SystemInfo
    } else if same_text(content_type, "Text") {
        LcdContent::Text(text.to_owned())
    } else if same_text(content_type, "Image") {
        match file {
            Some(bytes) => if has_path {
                LcdContent::Image(bytes)
            } else {
                LcdContent::Off
            },
            None => LcdContent::Off,
        }
    } else if same_text(content_type, "GIF") {
        match file {
            Some(bytes) => if has_path {
                LcdContent::Gif { frames: vec![bytes], fps: 10 }
            } else {
                LcdContent::Off
            },
            None => LcdContent::Off,
        }
    } else if same_text(content_type, "Preset") {
        match find_preset(presets, file_path) {
            Some(i) => {
                proof {
                    lemma_preset_named_range(presets@, file_path@);
                }
                LcdContent::Preset(presets[i].duplicate())
            },
            None => if has_path {
                LcdContent::Preset(
                    LcdPreset {
                        category: LcdPresetCategory::Cooler,
                        index: 0,
                        name: file_path.to_owned(),
                        frame_count: 0,
                        fps: 24,
                        thumbnail: Vec::new(),
                    },
                )
            } else {
                LcdContent::Off
            },
        }
    } else {
        LcdContent::Off
    }
}

/// Build an LCD configuration from the LCD page's values. For an image or
/// GIF, `file` holds the bytes the caller read from `file_path` (`None`
/// when it could not be read); with an empty path nothing is shown.
pub fn build_lcd_config(
    content_type: &str,
    brightness: i32,
    rotation: i32,
    sensor: &str,
    style: &str,
    color: &str,
    clock_style: i32,
    text: &str,
    file_path: &str,
    presets: &[LcdPreset],
    file: Option<Vec<u8>>,
) -> (cfg: LcdConfig)
    ensures
        cfg.brightness == clamp_spec(brightness as int, 0, 255),
        cfg.rotation == rotation_of(rotation),
        content_is(
            cfg.content,
            content_type@,
            sensor@,
            style@,
            color@,
            clock_style,
            text@,
            file_path@,
            presets@,
            match file {
                Some(b) => Some(b@),
                None => None,
            },
        ),
{
    let content = build_content(
        content_type,
        sensor,
        style,
        color,
        clock_style,
        text,
        file_path,
        presets,
        file,
    );
    LcdConfig {
        brightness: clamp_i32(brightness, 0, 255) as u8,
        rotation: rotation_from_degrees(rotation),
        content,
    }
}

} // verus!
