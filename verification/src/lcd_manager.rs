//! LCD screens: the registered screens, which fan group each belongs to,
//! and what each tick sends them. Rendering, JPEG encoding and screen
//! capture are done by the caller: a tick hands out [`LcdWork`] items, and
//! the caller reports the encoded frames back through
//! [`LcdManager::frame_rendered`] and [`LcdManager::frame_captured`].

use vstd::prelude::*;

use crate::lcd::{
    frame_hash, frame_is_new, refresh_interval_ms, refresh_ms, same_config, LcdConfig, LcdContent, LcdPreset,
    LcdPresetCategory, LcdRotation, LcdSensorStyle,
};
use crate::model::GroupId;
use crate::presets::{
    listed_index, listing, listing_entries, preset_from, preset_of, sort_by_name, PresetDir,
};

verus! {

/// How long a sensor carousel shows one sensor, in milliseconds.
pub const CAROUSEL_SWITCH_MS: u64 = 3000;

/// How often the screen clock is resynchronised, in milliseconds.
pub const CLOCK_RESYNC_MS: u64 = 60000;

/// Identifier of a USB device: six bytes, the first one most significant.
#[derive(Clone, Copy, Debug, PartialEq, Eq, Hash, Structural)]
pub struct DeviceId(pub u64);

impl DeviceId {
    /// Identifier made from a USB vendor and product id: the vendor id in
    /// the first two bytes, the product id in the next two, zeros after.
    pub fn from_vid_pid(vid: u16, pid: u16) -> (d: DeviceId)
        ensures
            d.0 == vid as int * 0x1_0000_0000 + pid as int * 0x1_0000,
    {
        DeviceId((vid as u64) * 0x1_0000_0000 + (pid as u64) * 0x1_0000)
    }
}

/// A command for a screen.
#[derive(Clone, Debug, PartialEq, Eq)]
pub enum LcdAction {
    SendFrame { device_id: DeviceId, jpeg: Vec<u8> },
    SetClock { device_id: DeviceId },
    SetBrightness { device_id: DeviceId, brightness: u8 },
    SetRotation { device_id: DeviceId, rotation: LcdRotation },
}

/// The picture the caller is asked to render for a screen.
#[derive(Clone, Copy, Debug, PartialEq, Eq, Structural)]
pub enum FrameRequest {
    /// A black frame.
    Black,
    /// The configured content itself (text, image, system info, sensor).
    Content,
    /// The configured sensor as a graph of its recent readings.
    Graph,
    /// The carousel's sensor at this position.
    CarouselItem(usize),
    /// The decoded animation's frame at this position.
    AnimationFrame(usize),
    /// The configured template, if it needs a new rendering.
    Template,
}

/// One item of a tick's work, in order.
#[derive(Clone, Debug, PartialEq, Eq)]
pub enum LcdWork {
    /// Perform the command.
    Action(LcdAction),
    /// Render and encode a frame, then hand it to `frame_rendered`.
    Render { device_id: DeviceId, frame: FrameRequest },
    /// Take a frame from the screen capture, if one is ready, and hand it to
    /// `frame_captured`.
    Capture { device_id: DeviceId },
}

/// How the caller's decoding of an animation's frames went: how many frames
/// it got, and whether the single blob was read as a still image rather
/// than as an animation.
#[derive(Clone, Copy, Debug, PartialEq, Eq, Structural)]
pub struct DecodedFrames {
    pub count: usize,
    pub still_image: bool,
}

/// A decoded animation: its number of frames, its rate and the frame shown next.
#[derive(Clone, Copy, Debug, PartialEq, Eq, Structural)]
pub struct Animation {
    pub frame_count: usize,
    pub fps: u8,
    pub index: usize,
}

/// What a registered screen holds between ticks. Times are in milliseconds
/// of the caller's monotonic clock.
#[derive(Debug)]
pub struct LcdScreen {
    pub id: DeviceId,
    pub config: Option<LcdConfig>,
    pub pending_brightness: Option<u8>,
    pub pending_rotation: Option<LcdRotation>,
    pub width: u32,
    pub height: u32,
    pub last_frame_hash: u64,
    pub next_refresh_ms: u64,
    pub animation: Option<Animation>,
    pub carousel_index: usize,
    pub carousel_next_switch_ms: u64,
}

/// How a content is brought to the screen.
#[derive(Clone, Copy, Debug, PartialEq, Eq, Structural)]
pub enum ContentKind {
    /// A black frame (the screen is off).
    Blank,
    /// A frame rendered from the content.
    Rendered,
    /// A sensor graph.
    Graph,
    /// A sensor carousel of this many sensors.
    Carousel(usize),
    /// An animation (a GIF or a preset).
    Animated,
    /// A template.
    Template,
    /// The screen's own clock.
    Clock,
    /// Frames from a screen capture.
    Capture,
    /// Nothing is sent (video).
    Idle,
}

/// How the content is brought to the screen.
pub open spec fn content_kind(c: LcdContent) -> ContentKind {
    match c {
        LcdContent::Off => ContentKind::Blank,
        LcdContent::Text(_) | LcdContent::Image(_) | LcdContent::SystemInfo => ContentKind::Rendered,
        LcdContent::Sensor(d) => if d.style == LcdSensorStyle::Graph {
            ContentKind::Graph
        } else {
            ContentKind::Rendered
        },
        LcdContent::SensorCarousel(ds) => ContentKind::Carousel(ds.len()),
        LcdContent::Gif { .. } | LcdContent::Preset(_) => ContentKind::Animated,
        LcdContent::Template => ContentKind::Template,
        LcdContent::Clock(_) => ContentKind::Clock,
        LcdContent::ScreenCapture { .. } => ContentKind::Capture,
        LcdContent::Video => ContentKind::Idle,
    }
}

fn kind_of(c: &LcdContent) -> (k: ContentKind)
    ensures
        k == content_kind(*c),
{
    match c {
        LcdContent::Off => ContentKind::Blank,
        LcdContent::Text(_) | LcdContent::Image(_) | LcdContent::SystemInfo => ContentKind::Rendered,
        LcdContent::Sensor(d) => if d.style == LcdSensorStyle::Graph {
            ContentKind::Graph
        } else {
            ContentKind::Rendered
        },
        LcdContent::SensorCarousel(ds) => ContentKind::Carousel(ds.len()),
        LcdContent::Gif { .. } | LcdContent::Preset(_) => ContentKind::Animated,
        LcdContent::Template => ContentKind::Template,
        LcdContent::Clock(_) => ContentKind::Clock,
        LcdContent::ScreenCapture { .. } => ContentKind::Capture,
        LcdContent::Video => ContentKind::Idle,
    }
}

/// Upper bound of a screen's carousel position: the carousel's length, or 1
/// where there is no carousel (or an empty one).
pub open spec fn carousel_bound(c: Option<LcdConfig>) -> int {
    match c {
        Some(cfg) => match content_kind(cfg.content) {
            ContentKind::Carousel(n) => if n == 0 {
                1
            } else {
                n as int
            },
            _ => 1,
        },
        None => 1,
    }
}

/// A screen's positions are in range.
pub open spec fn screen_wf(s: LcdScreen) -> bool {
    &&& match s.animation {
        Some(a) => 0 < a.frame_count && a.index < a.frame_count,
        None => true,
    }
    &&& s.carousel_index < carousel_bound(s.config)
}

/// No device is registered twice.
pub open spec fn ids_unique(s: Seq<LcdScreen>) -> bool {
    forall|i: int, j: int| 0 <= i < j < s.len() ==> (#[trigger] s[i]).id != (#[trigger] s[j]).id
}

/// Position of the screen with identifier `id`, if one is registered.
pub open spec fn position_of(s: Seq<LcdScreen>, id: DeviceId) -> Option<int> {
    if exists|i: int| 0 <= i < s.len() && (#[trigger] s[i]).id == id {
        Some(choose|i: int| 0 <= i < s.len() && (#[trigger] s[i]).id == id)
    } else {
        None
    }
}

/// The identifiers mapped to group `g`, in the order they were mapped.
pub open spec fn ids_for(pairs: Seq<(GroupId, DeviceId)>, g: GroupId) -> Seq<DeviceId>
    decreases pairs.len(),
{
    if pairs.len() == 0 {
        Seq::empty()
    } else {
        let r = ids_for(pairs.drop_last(), g);
        if pairs.last().0 == g {
            r.push(pairs.last().1)
        } else {
            r
        }
    }
}

/// The screens after registering `id` at `now`, unless it already is.
pub open spec fn with_registered(s: Seq<LcdScreen>, id: DeviceId, width: u32, height: u32, now: u64) -> Seq<LcdScreen> {
    match position_of(s, id) {
        Some(_) => s,
        None => s.push(fresh_screen(id, width, height, now)),
    }
}

/// The screens after registering each device of `devs` in turn.
pub open spec fn registered_all(s: Seq<LcdScreen>, devs: Seq<(DeviceId, u32, u32)>, now: u64) -> Seq<LcdScreen>
    decreases devs.len(),
{
    if devs.len() == 0 {
        s
    } else {
        let d = devs.last();
        with_registered(registered_all(s, devs.drop_last(), now), d.0, d.1, d.2, now)
    }
}

/// The group mappings after mapping `g` to `id`, unless it already is.
pub open spec fn with_mapping(pairs: Seq<(GroupId, DeviceId)>, g: GroupId, id: DeviceId) -> Seq<(GroupId, DeviceId)> {
    if pairs.contains((g, id)) {
        pairs
    } else {
        pairs.push((g, id))
    }
}

/// The group mappings after mapping the `k`-th group to the `k`-th device,
/// for each `k` that both lists have.
pub open spec fn mapped_all(
    pairs: Seq<(GroupId, DeviceId)>,
    groups: Seq<GroupId>,
    devs: Seq<(DeviceId, u32, u32)>,
) -> Seq<(GroupId, DeviceId)>
    decreases groups.len(),
{
    if groups.len() == 0 {
        pairs
    } else {
        let k = groups.len() - 1;
        let r = mapped_all(pairs, groups.drop_last(), devs);
        if k < devs.len() {
            with_mapping(r, groups[k], devs[k].0)
        } else {
            r
        }
    }
}


/// A freshly registered screen: nothing configured, due at once.
pub open spec fn fresh_screen(id: DeviceId, width: u32, height: u32, now: u64) -> LcdScreen {
    LcdScreen {
        id,
        config: None,
        pending_brightness: None,
        pending_rotation: None,
        width,
        height,
        last_frame_hash: 0,
        next_refresh_ms: now,
        animation: None,
        carousel_index: 0,
        carousel_next_switch_ms: now,
    }
}

/// The animation kept for a content after the caller decoded its frames:
/// only a GIF keeps one, when at least one frame was decoded; a still image
/// plays at 1 fps, and a rate of 0 means 24.
pub open spec fn animation_for(c: LcdContent, d: DecodedFrames) -> Option<Animation> {
    match c {
        LcdContent::Gif { fps, .. } => if d.count == 0 {
            None
        } else {
            Some(
                Animation {
                    frame_count: d.count,
                    fps: if d.still_image {
                        1
                    } else if fps == 0 {
                        24
                    } else {
                        fps
                    },
                    index: 0,
                },
            )
        },
        _ => None,
    }
}

/// A screen after a new configuration: brightness and rotation pending,
/// positions and the last frame's hash reset, due at once.
pub open spec fn configured(s: LcdScreen, c: LcdConfig, d: DecodedFrames, now: u64) -> LcdScreen {
    LcdScreen {
        id: s.id,
        config: Some(c),
        pending_brightness: Some(c.brightness),
        pending_rotation: Some(c.rotation),
        width: s.width,
        height: s.height,
        last_frame_hash: 0,
        next_refresh_ms: now,
        animation: animation_for(c.content, d),
        carousel_index: 0,
        carousel_next_switch_ms: now,
    }
}

/// Screen `s` as set by a group configuration `config`: screens of the group
/// get a copy of it, the others are unchanged.
pub open spec fn group_configured(
    before: LcdScreen,
    after: LcdScreen,
    in_group: bool,
    config: LcdConfig,
    d: DecodedFrames,
    now: u64,
) -> bool {
    if in_group {
        exists|c: LcdConfig| same_config(c, config) && after == configured(before, c, d, now)
    } else {
        after == before
    }
}


/// Commands for a screen's pending brightness and rotation, in that order.
pub open spec fn pending_work(s: LcdScreen) -> Seq<LcdWork> {
    let b = match s.pending_brightness {
        Some(b) => seq![LcdWork::Action(LcdAction::SetBrightness { device_id: s.id, brightness: b })],
        None => Seq::empty(),
    };
    let r = match s.pending_rotation {
        Some(r) => seq![LcdWork::Action(LcdAction::SetRotation { device_id: s.id, rotation: r })],
        None => Seq::empty(),
    };
    b + r
}

/// The carousel position shown at `now`: the next one once the switch time
/// has come.
pub open spec fn carousel_position(s: LcdScreen, n: usize, now: u64) -> usize {
    if now >= s.carousel_next_switch_ms {
        ((s.carousel_index + 1) % (n as int)) as usize
    } else {
        s.carousel_index
    }
}

/// The frame asked for a screen whose refresh time has come.
pub open spec fn frame_request(s: LcdScreen, k: ContentKind, now: u64) -> FrameRequest {
    match k {
        ContentKind::Rendered => FrameRequest::Content,
        ContentKind::Graph => FrameRequest::Graph,
        ContentKind::Carousel(n) => if n == 0 {
            FrameRequest::Black
        } else {
            FrameRequest::CarouselItem(carousel_position(s, n, now))
        },
        ContentKind::Animated => match s.animation {
            Some(a) => FrameRequest::AnimationFrame(a.index),
            None => FrameRequest::Black,
        },
        ContentKind::Template => FrameRequest::Template,
        _ => FrameRequest::Black,
    }
}

/// Work for a configured screen's content at `now`: the clock is resynced
/// and the capture read once their time has come; the others are rendered
/// once the refresh time has come; video sends nothing.
pub open spec fn content_work(s: LcdScreen, k: ContentKind, now: u64) -> Seq<LcdWork> {
    match k {
        ContentKind::Clock => if now >= s.next_refresh_ms {
            seq![LcdWork::Action(LcdAction::SetClock { device_id: s.id })]
        } else {
            Seq::empty()
        },
        ContentKind::Capture => if now >= s.next_refresh_ms {
            seq![LcdWork::Capture { device_id: s.id }]
        } else {
            Seq::empty()
        },
        ContentKind::Idle => Seq::empty(),
        _ => if now < s.next_refresh_ms {
            Seq::empty()
        } else {
            seq![LcdWork::Render { device_id: s.id, frame: frame_request(s, k, now) }]
        },
    }
}

/// All work for one screen at `now`.
pub open spec fn screen_work(s: LcdScreen, now: u64) -> Seq<LcdWork> {
    pending_work(s) + match s.config {
        Some(c) => content_work(s, content_kind(c.content), now),
        None => Seq::empty(),
    }
}

/// Work for the screens at `now`, screen after screen.
pub open spec fn works_of(s: Seq<LcdScreen>, now: u64) -> Seq<LcdWork>
    decreases s.len(),
{
    if s.len() == 0 {
        Seq::empty()
    } else {
        works_of(s.drop_last(), now) + screen_work(s.last(), now)
    }
}

/// A screen with its pending commands taken.
pub open spec fn without_pending(s: LcdScreen) -> LcdScreen {
    LcdScreen { pending_brightness: None, pending_rotation: None, ..s }
}

/// A screen after a tick at `now`: pending commands taken; the clock's
/// next resync a minute on; the carousel moved on once its switch time has
/// come; the animation moved to its next frame.
pub open spec fn screen_ticked(s: LcdScreen, now: u64) -> LcdScreen {
    let s0 = without_pending(s);
    match s.config {
        None => s0,
        Some(c) => match content_kind(c.content) {
            ContentKind::Clock => if now >= s.next_refresh_ms {
                LcdScreen { next_refresh_ms: (now + CLOCK_RESYNC_MS) as u64, ..s0 }
            } else {
                s0
            },
            ContentKind::Carousel(n) => if now >= s.next_refresh_ms && n > 0
                && now >= s.carousel_next_switch_ms {
                LcdScreen {
                    carousel_index: carousel_position(s, n, now),
                    carousel_next_switch_ms: (now + CAROUSEL_SWITCH_MS) as u64,
                    ..s0
                }
            } else {
                s0
            },
            ContentKind::Animated => match s.animation {
                Some(a) => if now >= s.next_refresh_ms {
                    LcdScreen {
                        animation: Some(
                            Animation {
                                index: ((a.index + 1) % (a.frame_count as int)) as usize,
                                ..a
                            },
                        ),
                        ..s0
                    }
                } else {
                    s0
                },
                None => s0,
            },
            _ => s0,
        },
    }
}

/// Rate of the loaded animation, if any.
pub open spec fn loaded_fps(s: LcdScreen) -> Option<u8> {
    match s.animation {
        Some(a) => Some(a.fps),
        None => None,
    }
}

/// A screen after a rendered frame was handed back at `now`: its hash is
/// the last one, and the next refresh is one interval on.
pub open spec fn rendered(s: LcdScreen, now: u64, jpeg: Seq<u8>) -> LcdScreen {
    LcdScreen {
        last_frame_hash: frame_hash(jpeg),
        next_refresh_ms: match s.config {
            Some(c) => (now + refresh_ms(c.content, loaded_fps(s))) as u64,
            None => s.next_refresh_ms,
        },
        ..s
    }
}

/// A screen after a captured frame was handed back at `now`, with the
/// capture's frame interval.
pub open spec fn captured(s: LcdScreen, now: u64, jpeg: Seq<u8>, interval: u64) -> LcdScreen {
    LcdScreen { last_frame_hash: frame_hash(jpeg), next_refresh_ms: (now + interval) as u64, ..s }
}

/// Position `i` holds the screen `id`, so it is where `id` is found.
proof fn lemma_position(s: Seq<LcdScreen>, id: DeviceId, i: int)
    requires
        ids_unique(s),
        0 <= i < s.len(),
        s[i].id == id,
    ensures
        position_of(s, id) == Some(i),
{
    let j = choose|j: int| 0 <= j < s.len() && (#[trigger] s[j]).id == id;
    if j < i {
        assert(s[j].id != s[i].id);
    } else if i < j {
        assert(s[i].id != s[j].id);
    }
}

proof fn lemma_ids_for_contains(pairs: Seq<(GroupId, DeviceId)>, g: GroupId, id: DeviceId)
    ensures
        ids_for(pairs, g).contains(id) <==> exists|i: int|
            0 <= i < pairs.len() && #[trigger] pairs[i] == (g, id),
    decreases pairs.len(),
{
    if pairs.len() > 0 {
        let p = pairs.drop_last();
        lemma_ids_for_contains(p, g, id);
        let r = ids_for(p, g);
        if ids_for(pairs, g).contains(id) {
            let k = choose|k: int| 0 <= k < ids_for(pairs, g).len() && ids_for(pairs, g)[k] == id;
            if pairs.last().0 == g && k == r.len() {
                assert(pairs[pairs.len() - 1] == (g, id));
            } else {
                assert(r[k] == id);
                assert(r.contains(id));
                let i = choose|i: int| 0 <= i < p.len() && #[trigger] p[i] == (g, id);
                assert(pairs[i] == p[i]);
            }
        }
        if exists|i: int| 0 <= i < pairs.len() && #[trigger] pairs[i] == (g, id) {
            let i = choose|i: int| 0 <= i < pairs.len() && #[trigger] pairs[i] == (g, id);
            if i == pairs.len() - 1 {
                let full = ids_for(pairs, g);
                assert(full[full.len() - 1] == id);
            } else {
                assert(p[i] == pairs[i]);
                let k = choose|k: int| 0 <= k < r.len() && r[k] == id;
                assert(ids_for(pairs, g)[k] == id);
            }
        }
    }
}


/// The animation a loaded preset plays: its frames at its rate (0 means 24).
pub open spec fn preset_animation(fps: u8, frame_count: usize) -> Animation {
    Animation { frame_count, fps: if fps == 0 { 24 } else { fps }, index: 0 }
}

fn animation_of(c: &LcdContent, d: DecodedFrames) -> (a: Option<Animation>)
    ensures
        a == animation_for(*c, d),
{
    match c {
        LcdContent::Gif { fps, .. } => if d.count == 0 {
            None
        } else {
            let f: u8 = if d.still_image {
                1
            } else if *fps == 0 {
                24
            } else {
                *fps
            };
            Some(Animation { frame_count: d.count, fps: f, index: 0 })
        },
        _ => None,
    }
}

proof fn lemma_ticked_wf(s: LcdScreen, now: u64)
    requires
        screen_wf(s),
    ensures
        screen_wf(screen_ticked(s, now)),
        screen_ticked(s, now).id == s.id,
        screen_ticked(s, now).config == s.config,
{
    match s.config {
        Some(c) => match content_kind(c.content) {
            ContentKind::Carousel(n) => {
                if n > 0 {
                    assert((s.carousel_index + 1) % (n as int) < n);
                }
            },
            ContentKind::Animated => match s.animation {
                Some(a) => {
                    assert((a.index + 1) % (a.frame_count as int) < a.frame_count);
                },
                None => {},
            },
            _ => {},
        },
        None => {},
    }
}

/// One screen's part of a tick: its work is appended and its state moved on.
fn tick_screen(s: &mut LcdScreen, now_ms: u64, work: &mut Vec<LcdWork>)
    requires
        screen_wf(*old(s)),
        now_ms <= u64::MAX - CLOCK_RESYNC_MS,
    ensures
        *final(s) == screen_ticked(*old(s), now_ms),
        final(work)@ == old(work)@ + screen_work(*old(s), now_ms),
{
    let ghost s0 = *s;
    let ghost w0 = work@;
    let id = s.id;
    match s.pending_brightness {
        Some(b) => work.push(LcdWork::Action(LcdAction::SetBrightness { device_id: id, brightness: b })),
        None => {},
    }
    match s.pending_rotation {
        Some(r) => work.push(LcdWork::Action(LcdAction::SetRotation { device_id: id, rotation: r })),
        None => {},
    }
    s.pending_brightness = None;
    s.pending_rotation = None;
    proof {
        assert(work@ =~= w0 + pending_work(s0));
    }
    let kind = match &s.config {
        Some(c) => kind_of(&c.content),
        None => {
            proof {
                assert(work@ =~= w0 + screen_work(s0, now_ms));
            }
            return ;
        },
    };
    let ghost wp = work@;
    let due = now_ms >= s.next_refresh_ms;
    match kind {
        ContentKind::Clock => {
            if due {
                work.push(LcdWork::Action(LcdAction::SetClock { device_id: id }));
                s.next_refresh_ms = now_ms + CLOCK_RESYNC_MS;
            }
        },
        ContentKind::Capture => {
            if due {
                work.push(LcdWork::Capture { device_id: id });
            }
        },
        ContentKind::Idle => {},
        _ => {
            if due {
                let frame = match kind {
                    ContentKind::Carousel(n) => {
                        if n == 0 {
                            FrameRequest::Black
                        } else {
                            if now_ms >= s.carousel_next_switch_ms {
                                s.carousel_index = crate::lcd::next_in_cycle(s.carousel_index, n);
                                s.carousel_next_switch_ms = now_ms + CAROUSEL_SWITCH_MS;
                            }
                            FrameRequest::CarouselItem(s.carousel_index)
                        }
                    },
                    ContentKind::Animated => match s.animation {
                        Some(a) => {
                            let next = crate::lcd::next_in_cycle(a.index, a.frame_count);
                            s.animation = Some(Animation { index: next, ..a });
                            FrameRequest::AnimationFrame(a.index)
                        },
                        None => FrameRequest::Black,
                    },
                    ContentKind::Rendered => FrameRequest::Content,
                    ContentKind::Graph => FrameRequest::Graph,
                    ContentKind::Template => FrameRequest::Template,
                    _ => FrameRequest::Black,
                };
                work.push(LcdWork::Render { device_id: id, frame });
            }
        },
    }
    proof {
        assert(work@ =~= w0 + screen_work(s0, now_ms));
    }
}

proof fn lemma_refresh_at_most_a_minute(c: LcdContent, fps: Option<u8>)
    ensures
        0 <= refresh_ms(c, fps) <= CLOCK_RESYNC_MS,
{
    assert forall|f: int| 1 <= f <= 255 implies 0 <= #[trigger] (1000int / f) <= 1000 by {
        assert(1000int / f <= 1000int / 1) by (nonlinear_arith)
            requires
                1 <= f,
        ;
    }
}


/// The screens and which group each belongs to.
pub struct LcdManager {
    screens: Vec<LcdScreen>,
    groups: Vec<(GroupId, DeviceId)>,
}

impl LcdManager {
    /// The registered screens, in registration order.
    pub closed spec fn screens(&self) -> Seq<LcdScreen> {
        self.screens@
    }

    /// The group mappings, in the order they were made.
    pub closed spec fn group_pairs(&self) -> Seq<(GroupId, DeviceId)> {
        self.groups@
    }

    /// No device is registered twice and every screen's positions are in range.
    pub closed spec fn wf(&self) -> bool {
        &&& ids_unique(self.screens@)
        &&& forall|i: int| 0 <= i < self.screens@.len() ==> screen_wf(#[trigger] self.screens@[i])
    }

    /// A manager with no screens.
    pub fn new() -> (m: LcdManager)
        ensures
            m.wf(),
            m.screens() == Seq::<LcdScreen>::empty(),
            m.group_pairs() == Seq::<(GroupId, DeviceId)>::empty(),
    {
        LcdManager { screens: Vec::new(), groups: Vec::new() }
    }

    fn find(&self, id: DeviceId) -> (r: Option<usize>)
        requires
            self.wf(),
        ensures
            match r {
                Some(i) => position_of(self.screens@, id) == Some(i as int),
                None => position_of(self.screens@, id) is None,
            },
    {
        let mut i: usize = 0;
        while i < self.screens.len()
            invariant
                self.wf(),
                i <= self.screens@.len(),
                forall|j: int| 0 <= j < i ==> (#[trigger] self.screens@[j]).id != id,
            decreases self.screens@.len() - i,
        {
            if self.screens[i].id == id {
                proof {
                    lemma_position(self.screens@, id, i as int);
                }
                return Some(i);
            }
            i = i + 1;
        }
        None
    }

    /// Maps group `group` to the screen `lcd_device_id`, unless it already is.
    pub fn map_group(&mut self, group: GroupId, lcd_device_id: DeviceId)
        ensures
            final(self).screens() == old(self).screens(),
            old(self).wf() ==> final(self).wf(),
            final(self).group_pairs() == with_mapping(old(self).group_pairs(), group, lcd_device_id),
            forall|g: GroupId|
                #![trigger ids_for(final(self).group_pairs(), g)]
                ids_for(final(self).group_pairs(), g) == if g == group && !ids_for(
                    old(self).group_pairs(),
                    g,
                ).contains(lcd_device_id) {
                    ids_for(old(self).group_pairs(), g).push(lcd_device_id)
                } else {
                    ids_for(old(self).group_pairs(), g)
                },
    {
        proof {
            lemma_ids_for_contains(self.groups@, group, lcd_device_id);
        }
        let mut i: usize = 0;
        while i < self.groups.len()
            invariant
                i <= self.groups@.len(),
                forall|j: int| 0 <= j < i ==> (#[trigger] self.groups@[j]) != (group, lcd_device_id),
            decreases self.groups@.len() - i,
        {
            if self.groups[i].0 == group && self.groups[i].1 == lcd_device_id {
                proof {
                    assert(self.groups@[i as int] == (group, lcd_device_id));
                    lemma_ids_for_contains(self.groups@, group, lcd_device_id);
                }
                return;
            }
            i = i + 1;
        }
        let ghost before = self.groups@;
        self.groups.push((group, lcd_device_id));
        proof {
            assert(self.groups@.drop_last() =~= before);
        }
    }

    /// Number of registered screens.
    pub fn device_count(&self) -> (n: usize)
        ensures
            n == self.screens().len(),
    {
        self.screens.len()
    }

    /// Identifiers of the screens mapped to group `group`, in mapping order.
    pub fn lcd_ids_for_group(&self, group: GroupId) -> (ids: Vec<DeviceId>)
        ensures
            ids@ == ids_for(self.group_pairs(), group),
    {
        let mut ids: Vec<DeviceId> = Vec::new();
        let mut i: usize = 0;
        while i < self.groups.len()
            invariant
                i <= self.groups@.len(),
                ids@ == ids_for(self.groups@.subrange(0, i as int), group),
            decreases self.groups@.len() - i,
        {
            proof {
                assert(self.groups@.subrange(0, i + 1).drop_last() =~= self.groups@.subrange(
                    0,
                    i as int,
                ));
            }
            if self.groups[i].0 == group {
                ids.push(self.groups[i].1);
            }
            i = i + 1;
        }
        proof {
            assert(self.groups@.subrange(0, self.groups@.len() as int) =~= self.groups@);
        }
        ids
    }

    /// Identifier of the screen at position `index` in registration order.
    pub fn device_id_by_index(&self, index: u8) -> (r: Option<DeviceId>)
        ensures
            r == if (index as int) < self.screens().len() {
                Some(self.screens()[index as int].id)
            } else {
                None::<DeviceId>
            },
    {
        let i = index as usize;
        if i < self.screens.len() {
            Some(self.screens[i].id)
        } else {
            None
        }
    }

    /// Registers a screen of the given resolution at time `now_ms`; a
    /// screen already registered is left as it is.
    pub fn register_device(&mut self, id: DeviceId, width: u32, height: u32, now_ms: u64)
        requires
            old(self).wf(),
        ensures
            final(self).wf(),
            final(self).group_pairs() == old(self).group_pairs(),
            final(self).screens() == match position_of(old(self).screens(), id) {
                Some(_) => old(self).screens(),
                None => old(self).screens().push(fresh_screen(id, width, height, now_ms)),
            },
    {
        match self.find(id) {
            Some(_) => {},
            None => {
                let ghost before = self.screens@;
                self.screens.push(
                    LcdScreen {
                        id,
                        config: None,
                        pending_brightness: None,
                        pending_rotation: None,
                        width,
                        height,
                        last_frame_hash: 0,
                        next_refresh_ms: now_ms,
                        animation: None,
                        carousel_index: 0,
                        carousel_next_switch_ms: now_ms,
                    },
                );
                proof {
                    assert(self.screens@ =~= before.push(fresh_screen(id, width, height, now_ms)));
                    assert forall|a: int, b: int|
                        0 <= a < b < self.screens@.len() implies (#[trigger] self.screens@[a]).id
                        != (#[trigger] self.screens@[b]).id by {
                        if b == before.len() {
                            assert(self.screens@[a] == before[a]);
                        } else {
                            assert(before[a].id != before[b].id);
                        }
                    }
                    assert forall|a: int| 0 <= a < self.screens@.len() implies screen_wf(
                        #[trigger] self.screens@[a],
                    ) by {
                        if a < before.len() {
                            assert(self.screens@[a] == before[a]);
                        }
                    }
                }
            },
        }
    }

    /// The registered screen `id`, if any.
    pub fn screen(&self, id: DeviceId) -> (r: Option<&LcdScreen>)
        requires
            self.wf(),
        ensures
            match position_of(self.screens(), id) {
                Some(i) => r is Some && *r.unwrap() == self.screens()[i],
                None => r is None,
            },
    {
        match self.find(id) {
            Some(i) => Some(&self.screens[i]),
            None => None,
        }
    }

    /// Gives screen `device_id` a new configuration at time `now_ms`:
    /// brightness and rotation become pending, a GIF keeps the frames the
    /// caller decoded (`decoded`), and the screen is due at once. An
    /// unknown screen is left alone.
    pub fn set_config(&mut self, device_id: DeviceId, config: LcdConfig, decoded: DecodedFrames, now_ms: u64)
        requires
            old(self).wf(),
        ensures
            final(self).wf(),
            final(self).group_pairs() == old(self).group_pairs(),
            final(self).screens() == match position_of(old(self).screens(), device_id) {
                Some(i) => old(self).screens().update(
                    i,
                    configured(old(self).screens()[i], config, decoded, now_ms),
                ),
                None => old(self).screens(),
            },
    {
        match self.find(device_id) {
            None => {},
            Some(i) => {
                let ghost before = self.screens@;
                let prev = self.screens.remove(i);
                let animation = animation_of(&config.content, decoded);
                let brightness = config.brightness;
                let rotation = config.rotation;
                let next = LcdScreen {
                    id: prev.id,
                    config: Some(config),
                    pending_brightness: Some(brightness),
                    pending_rotation: Some(rotation),
                    width: prev.width,
                    height: prev.height,
                    last_frame_hash: 0,
                    next_refresh_ms: now_ms,
                    animation,
                    carousel_index: 0,
                    carousel_next_switch_ms: now_ms,
                };
                self.screens.insert(i, next);
                proof {
                    assert(self.screens@ =~= before.update(i as int, self.screens@[i as int]));
                    self.lemma_replaced(before, i as int);
                }
            },
        }
    }

    /// Position `i` of `before` was replaced by a well-formed screen with
    /// the same identifier, so the manager is still well-formed.
    proof fn lemma_replaced(&self, before: Seq<LcdScreen>, i: int)
        requires
            ids_unique(before),
            forall|j: int| 0 <= j < before.len() ==> screen_wf(#[trigger] before[j]),
            0 <= i < before.len(),
            self.screens@ == before.update(i, self.screens@[i]),
            self.screens@[i].id == before[i].id,
            screen_wf(self.screens@[i]),
        ensures
            self.wf(),
    {
        assert forall|a: int, b: int|
            0 <= a < b < self.screens@.len() implies (#[trigger] self.screens@[a]).id
            != (#[trigger] self.screens@[b]).id by {
            assert(before[a].id != before[b].id);
        }
        assert forall|a: int| 0 <= a < self.screens@.len() implies screen_wf(
            #[trigger] self.screens@[a],
        ) by {
            if a != i {
                assert(self.screens@[a] == before[a]);
            }
        }
    }

    /// Gives every screen mapped to group `group` a copy of `config` (see
    /// [`LcdManager::set_config`]).
    pub fn set_config_for_group(&mut self, group: GroupId, config: LcdConfig, decoded: DecodedFrames, now_ms: u64)
        requires
            old(self).wf(),
        ensures
            final(self).wf(),
            final(self).group_pairs() == old(self).group_pairs(),
            final(self).screens().len() == old(self).screens().len(),
            forall|i: int|
                0 <= i < old(self).screens().len() ==> group_configured(
                    old(self).screens()[i],
                    #[trigger] final(self).screens()[i],
                    ids_for(old(self).group_pairs(), group).contains(old(self).screens()[i].id),
                    config,
                    decoded,
                    now_ms,
                ),
    {
        let ids = self.lcd_ids_for_group(group);
        let ghost s0 = self.screens@;
        let mut k: usize = 0;
        while k < ids.len()
            invariant
                self.wf(),
                k <= ids@.len(),
                self.groups@ == old(self).groups@,
                ids@ == ids_for(self.groups@, group),
                self.screens@.len() == s0.len(),
                forall|i: int|
                    0 <= i < s0.len() ==> group_configured(
                        s0[i],
                        #[trigger] self.screens@[i],
                        ids@.subrange(0, k as int).contains(s0[i].id),
                        config,
                        decoded,
                        now_ms,
                    ),
            decreases ids@.len() - k,
        {
            let ghost before = self.screens@;
            let id = ids[k];
            let c = config.duplicate();
            self.set_config(id, c, decoded, now_ms);
            proof {
                let sub = ids@.subrange(0, k as int);
                let sub1 = ids@.subrange(0, k + 1);
                assert(sub1 =~= sub.push(id));
                assert forall|i: int| 0 <= i < s0.len() implies group_configured(
                    s0[i],
                    #[trigger] self.screens@[i],
                    sub1.contains(s0[i].id),
                    config,
                    decoded,
                    now_ms,
                ) by {
                    assert(before[i].id == s0[i].id);
                    assert(sub1.contains(s0[i].id) == (sub.contains(s0[i].id) || s0[i].id == id)) by {
                        if sub1.contains(s0[i].id) {
                            let j = choose|j: int| 0 <= j < sub1.len() && sub1[j] == s0[i].id;
                            if j < sub.len() {
                                assert(sub[j] == sub1[j]);
                            }
                        }
                        if sub.contains(s0[i].id) {
                            let j = choose|j: int| 0 <= j < sub.len() && sub[j] == s0[i].id;
                            assert(sub1[j] == sub[j]);
                        }
                        if s0[i].id == id {
                            assert(sub1[k as int] == id);
                        }
                    }
                    if s0[i].id == id {
                        lemma_position(before, id, i);
                        assert(same_config(c, config));
                        assert(self.screens@[i] == configured(before[i], c, decoded, now_ms));
                        assert(configured(before[i], c, decoded, now_ms) == configured(s0[i], c, decoded, now_ms));
                    } else {
                        match position_of(before, id) {
                            Some(p) => {
                                assert(before[p].id == id);
                                assert(p != i);
                            },
                            None => {},
                        }
                        assert(self.screens@[i] == before[i]);
                    }
                }
            }
            k = k + 1;
        }
        proof {
            assert(ids@.subrange(0, ids@.len() as int) =~= ids@);
        }
    }

    /// Loads the frames of a preset into screen `device_id`: `frame_count`
    /// frames were read from the preset's directory. Nothing changes when
    /// none were read or the screen is unknown.
    pub fn load_preset(&mut self, device_id: DeviceId, preset: &LcdPreset, frame_count: usize)
        requires
            old(self).wf(),
        ensures
            final(self).wf(),
            final(self).group_pairs() == old(self).group_pairs(),
            final(self).screens() == match position_of(old(self).screens(), device_id) {
                Some(i) => if frame_count == 0 {
                    old(self).screens()
                } else {
                    old(self).screens().update(
                        i,
                        LcdScreen {
                            animation: Some(preset_animation(preset.fps, frame_count)),
                            ..old(self).screens()[i]
                        },
                    )
                },
                None => old(self).screens(),
            },
    {
        if frame_count == 0 {
            return ;
        }
        match self.find(device_id) {
            None => {},
            Some(i) => {
                let ghost before = self.screens@;
                let mut s = self.screens.remove(i);
                let fps: u8 = if preset.fps == 0 {
                    24
                } else {
                    preset.fps
                };
                s.animation = Some(Animation { frame_count, fps, index: 0 });
                self.screens.insert(i, s);
                proof {
                    assert(self.screens@ =~= before.update(i as int, self.screens@[i as int]));
                    self.lemma_replaced(before, i as int);
                }
            },
        }
    }

    /// One tick at time `now_ms`: for each screen in registration order,
    /// its pending brightness and rotation, then what its content needs
    /// (see [`screen_work`]); each screen moves on as [`screen_ticked`] says.
    pub fn tick(&mut self, now_ms: u64) -> (work: Vec<LcdWork>)
        requires
            old(self).wf(),
            now_ms <= u64::MAX - CLOCK_RESYNC_MS,
        ensures
            final(self).wf(),
            final(self).group_pairs() == old(self).group_pairs(),
            final(self).screens() == old(self).screens().map_values(
                |s: LcdScreen| screen_ticked(s, now_ms),
            ),
            work@ == works_of(old(self).screens(), now_ms),
    {
        let mut rest: Vec<LcdScreen> = Vec::new();
        std::mem::swap(&mut rest, &mut self.screens);
        let ghost orig = rest@;
        let mut done: Vec<LcdScreen> = Vec::new();
        let mut work: Vec<LcdWork> = Vec::new();
        proof {
            assert(orig.subrange(0, 0) =~= Seq::<LcdScreen>::empty());
            assert(rest@ =~= orig.subrange(0, orig.len() as int));
            assert(done@ =~= orig.subrange(0, 0).map_values(|s: LcdScreen| screen_ticked(s, now_ms)));
        }
        while rest.len() > 0
            invariant
                done@.len() + rest@.len() == orig.len(),
                rest@ == orig.subrange(done@.len() as int, orig.len() as int),
                done@ == orig.subrange(0, done@.len() as int).map_values(
                    |s: LcdScreen| screen_ticked(s, now_ms),
                ),
                work@ == works_of(orig.subrange(0, done@.len() as int), now_ms),
                forall|j: int| 0 <= j < orig.len() ==> screen_wf(#[trigger] orig[j]),
                now_ms <= u64::MAX - CLOCK_RESYNC_MS,
            decreases rest@.len(),
        {
            let ghost k = done@.len() as int;
            let mut s = rest.remove(0);
            proof {
                assert(s == orig[k]);
            }
            tick_screen(&mut s, now_ms, &mut work);
            done.push(s);
            proof {
                assert(orig.subrange(0, k + 1).drop_last() =~= orig.subrange(0, k));
                assert(orig.subrange(0, k + 1).last() == orig[k]);
                assert(rest@ =~= orig.subrange(k + 1, orig.len() as int));
                assert(done@ =~= orig.subrange(0, k + 1).map_values(
                    |s: LcdScreen| screen_ticked(s, now_ms),
                ));
            }
        }
        proof {
            assert(orig.subrange(0, orig.len() as int) =~= orig);
            assert forall|a: int, b: int|
                0 <= a < b < done@.len() implies (#[trigger] done@[a]).id != (
                #[trigger] done@[b]).id by {
                lemma_ticked_wf(orig[a], now_ms);
                lemma_ticked_wf(orig[b], now_ms);
                assert(orig[a].id != orig[b].id);
            }
            assert forall|a: int| 0 <= a < done@.len() implies screen_wf(#[trigger] done@[a]) by {
                lemma_ticked_wf(orig[a], now_ms);
            }
        }
        self.screens = done;
        work
    }

    /// Hands back the frame rendered and encoded for screen `device_id` at
    /// time `now_ms`. It is to be sent when its hash differs from the last
    /// frame's; either way it becomes the last frame and the next refresh
    /// is one refresh interval on.
    pub fn frame_rendered(&mut self, device_id: DeviceId, now_ms: u64, jpeg: Vec<u8>) -> (a: Option<LcdAction>)
        requires
            old(self).wf(),
            now_ms <= u64::MAX - CLOCK_RESYNC_MS,
        ensures
            final(self).wf(),
            final(self).group_pairs() == old(self).group_pairs(),
            match position_of(old(self).screens(), device_id) {
                Some(i) => {
                    &&& final(self).screens() == old(self).screens().update(
                        i,
                        rendered(old(self).screens()[i], now_ms, jpeg@),
                    )
                    &&& a == if frame_hash(jpeg@) != old(self).screens()[i].last_frame_hash {
                        Some(LcdAction::SendFrame { device_id, jpeg })
                    } else {
                        None
                    }
                },
                None => a is None && final(self).screens() == old(self).screens(),
            },
    {
        match self.find(device_id) {
            None => None,
            Some(i) => {
                let ghost before = self.screens@;
                let mut s = self.screens.remove(i);
                let fresh = frame_is_new(&mut s.last_frame_hash, jpeg.as_slice());
                let fps: Option<u8> = match s.animation {
                    Some(an) => Some(an.fps),
                    None => None,
                };
                let interval: Option<u64> = match &s.config {
                    Some(c) => Some(refresh_interval_ms(&c.content, fps)),
                    None => None,
                };
                match interval {
                    Some(ms) => {
                        proof {
                            lemma_refresh_at_most_a_minute(s.config.unwrap().content, fps);
                        }
                        s.next_refresh_ms = now_ms + ms;
                    },
                    None => {},
                }
                self.screens.insert(i, s);
                proof {
                    assert(self.screens@ =~= before.update(i as int, self.screens@[i as int]));
                    self.lemma_replaced(before, i as int);
                }
                if fresh {
                    Some(LcdAction::SendFrame { device_id, jpeg })
                } else {
                    None
                }
            },
        }
    }

    /// Hands back a frame taken from screen `device_id`'s capture at time
    /// `now_ms`, with the capture's frame interval. It is to be sent when
    /// its hash differs from the last frame's; the next refresh is one
    /// frame interval on.
    pub fn frame_captured(
        &mut self,
        device_id: DeviceId,
        now_ms: u64,
        jpeg: Vec<u8>,
        interval_ms: u64,
    ) -> (a: Option<LcdAction>)
        requires
            old(self).wf(),
            now_ms + interval_ms <= u64::MAX,
        ensures
            final(self).wf(),
            final(self).group_pairs() == old(self).group_pairs(),
            match position_of(old(self).screens(), device_id) {
                Some(i) => {
                    &&& final(self).screens() == old(self).screens().update(
                        i,
                        captured(old(self).screens()[i], now_ms, jpeg@, interval_ms),
                    )
                    &&& a == if frame_hash(jpeg@) != old(self).screens()[i].last_frame_hash {
                        Some(LcdAction::SendFrame { device_id, jpeg })
                    } else {
                        None
                    }
                },
                None => a is None && final(self).screens() == old(self).screens(),
            },
    {
        match self.find(device_id) {
            None => None,
            Some(i) => {
                let ghost before = self.screens@;
                let mut s = self.screens.remove(i);
                let fresh = frame_is_new(&mut s.last_frame_hash, jpeg.as_slice());
                s.next_refresh_ms = now_ms + interval_ms;
                self.screens.insert(i, s);
                proof {
                    assert(self.screens@ =~= before.update(i as int, self.screens@[i as int]));
                    self.lemma_replaced(before, i as int);
                }
                if fresh {
                    Some(LcdAction::SendFrame { device_id, jpeg })
                } else {
                    None
                }
            },
        }
    }

    /// Brings the registered screens in line with the screens found on the
    /// USB bus, when their number differs from the registered count: each
    /// found screen `(id, width, height)` is registered, and the `k`-th
    /// group with screens is mapped to the `k`-th found screen.
    pub fn sync_devices(&mut self, devs: &[(DeviceId, u32, u32)], lcd_groups: &[GroupId], now_ms: u64)
        requires
            old(self).wf(),
        ensures
            final(self).wf(),
            devs@.len() == old(self).screens().len() ==> final(self).screens() == old(self).screens()
                && final(self).group_pairs() == old(self).group_pairs(),
            devs@.len() != old(self).screens().len() ==> final(self).screens() == registered_all(
                old(self).screens(),
                devs@,
                now_ms,
            ) && final(self).group_pairs() == mapped_all(old(self).group_pairs(), lcd_groups@, devs@),
    {
        if devs.len() == self.screens.len() {
            return ;
        }
        let ghost s0 = self.screens@;
        let ghost p0 = self.groups@;
        let mut i: usize = 0;
        while i < devs.len()
            invariant
                self.wf(),
                i <= devs@.len(),
                self.screens@ == registered_all(s0, devs@.subrange(0, i as int), now_ms),
                self.groups@ == p0,
            decreases devs@.len() - i,
        {
            let (id, w, h) = devs[i];
            self.register_device(id, w, h, now_ms);
            proof {
                assert(devs@.subrange(0, i + 1).drop_last() =~= devs@.subrange(0, i as int));
            }
            i = i + 1;
        }
        proof {
            assert(devs@.subrange(0, devs@.len() as int) =~= devs@);
        }
        let mut k: usize = 0;
        while k < lcd_groups.len()
            invariant
                self.wf(),
                k <= lcd_groups@.len(),
                self.screens@ == registered_all(s0, devs@, now_ms),
                self.groups@ == mapped_all(p0, lcd_groups@.subrange(0, k as int), devs@),
            decreases lcd_groups@.len() - k,
        {
            proof {
                assert(lcd_groups@.subrange(0, k + 1).drop_last() =~= lcd_groups@.subrange(0, k as int));
            }
            if k < devs.len() {
                self.map_group(lcd_groups[k], devs[k].0);
            }
            k = k + 1;
        }
        proof {
            assert(lcd_groups@.subrange(0, lcd_groups@.len() as int) =~= lcd_groups@);
        }
    }

    /// Lists the presets found in the categories' directories: category by
    /// category in the given order, each category's directories by name (see
    /// [`listing`]).
    pub fn list_presets(&self, groups: Vec<(LcdPresetCategory, Vec<PresetDir>)>) -> (r: Vec<LcdPreset>)
        ensures
            r@ == listing(groups@),
    {
        let ghost all = groups@;
        let mut rest = groups;
        let total = rest.len();
        let mut out: Vec<LcdPreset> = Vec::new();
        let mut index: u8 = 0;
        let mut g: usize = 0;
        proof {
            assert(all.subrange(0, 0) =~= Seq::<(LcdPresetCategory, Vec<PresetDir>)>::empty());
            assert(out@ =~= listing(all.subrange(0, 0)));
        }
        while rest.len() > 0
            invariant
                g + rest@.len() == all.len(),
                all.len() == total,
                rest@ == all.subrange(g as int, all.len() as int),
                out@ == listing(all.subrange(0, g as int)),
                index == listed_index(out@.len() as int),
            decreases rest@.len(),
        {
            let (cat, dirs) = rest.remove(0);
            proof {
                assert((cat, dirs) == all[g as int]);
            }
            let ghost e0 = listing_entries(all.subrange(0, g as int));
            let mut ds = sort_by_name(dirs);
            let ghost sorted = ds@;
            let count = ds.len();
            let ghost base = out@.len();
            let mut j: usize = 0;
            proof {
                assert(e0.len() == base);
            }
            while ds.len() > 0
                invariant
                    j + ds@.len() == sorted.len(),
                    sorted.len() == count,
                    ds@ == sorted.subrange(j as int, sorted.len() as int),
                    out@.len() == base + j,
                    index == listed_index(out@.len() as int),
                    forall|k: int|
                        0 <= k < base ==> #[trigger] out@[k] == preset_of(e0[k].0, listed_index(k), e0[k].1),
                    forall|k: int|
                        base <= k < base + j ==> #[trigger] out@[k] == preset_of(cat, listed_index(k), sorted[k - base]),
                decreases ds@.len(),
            {
                let d = ds.remove(0);
                proof {
                    assert(d == sorted[j as int]);
                }
                out.push(preset_from(cat, index, d));
                index = if index < 255 {
                    index + 1
                } else {
                    255
                };
                proof {
                    assert(ds@ =~= sorted.subrange(j + 1, sorted.len() as int));
                }
                j = j + 1;
            }
            proof {
                let pre = all.subrange(0, g + 1);
                assert(pre.drop_last() =~= all.subrange(0, g as int));
                assert(pre.last() == (cat, dirs));
                let e1 = listing_entries(pre);
                assert(e1 =~= e0 + sorted.map_values(|d: PresetDir| (cat, d)));
                assert(out@ =~= listing(pre));
                assert(rest@ =~= all.subrange(g + 1, all.len() as int));
            }
            g = g + 1;
        }
        proof {
            assert(all.subrange(0, all.len() as int) =~= all);
        }
        out
    }

    /// Whether any screen is registered.
    pub fn has_devices(&self) -> (r: bool)
        ensures
            r == (self.screens().len() > 0),
    {
        self.screens.len() > 0
    }
}

/// A command that sets a screen's brightness or rotation.
pub open spec fn is_setting(w: LcdWork) -> bool {
    ||| w matches LcdWork::Action(LcdAction::SetBrightness { .. })
    ||| w matches LcdWork::Action(LcdAction::SetRotation { .. })
}

/// After a new configuration, the screen's next work begins with the new
/// brightness and then the new rotation, whenever the tick comes.
pub proof fn law_configuration_announced(
    s: LcdScreen,
    c: LcdConfig,
    d: DecodedFrames,
    at: u64,
    now: u64,
)
    ensures
        screen_work(configured(s, c, d, at), now).len() >= 2,
        screen_work(configured(s, c, d, at), now)[0] == LcdWork::Action(
            LcdAction::SetBrightness { device_id: s.id, brightness: c.brightness },
        ),
        screen_work(configured(s, c, d, at), now)[1] == LcdWork::Action(
            LcdAction::SetRotation { device_id: s.id, rotation: c.rotation },
        ),
{
    let t = configured(s, c, d, at);
    assert(pending_work(t) =~= seq![
        LcdWork::Action(LcdAction::SetBrightness { device_id: s.id, brightness: c.brightness }),
        LcdWork::Action(LcdAction::SetRotation { device_id: s.id, rotation: c.rotation }),
    ]);
}

/// Brightness and rotation are sent once: after a tick, no later tick sends
/// either of them again (until the next configuration).
pub proof fn law_settings_sent_once(s: LcdScreen, t1: u64, t2: u64)
    ensures
        forall|k: int|
            0 <= k < screen_work(screen_ticked(s, t1), t2).len() ==> !is_setting(
                #[trigger] screen_work(screen_ticked(s, t1), t2)[k],
            ),
{
    let t = screen_ticked(s, t1);
    assert(pending_work(t) =~= Seq::<LcdWork>::empty());
    assert(screen_work(t, t2) =~= match t.config {
        Some(c) => content_work(t, content_kind(c.content), t2),
        None => Seq::empty(),
    });
}

/// Before its refresh time, a screen with no pending brightness or
/// rotation is sent nothing and asked for no frame.
pub proof fn law_nothing_before_refresh(s: LcdScreen, now: u64)
    requires
        s.pending_brightness is None,
        s.pending_rotation is None,
        now < s.next_refresh_ms,
    ensures
        screen_work(s, now) == Seq::<LcdWork>::empty(),
{
    assert(pending_work(s) =~= Seq::<LcdWork>::empty());
    assert(screen_work(s, now) =~= Seq::<LcdWork>::empty());
}

/// Once a frame is handed back at `t`, the screen is asked for no other
/// frame before one refresh interval has passed.
pub proof fn law_refresh_interval_respected(s: LcdScreen, t: u64, jpeg: Seq<u8>, now: u64)
    requires
        s.config is Some,
        s.pending_brightness is None,
        s.pending_rotation is None,
        t <= u64::MAX - CLOCK_RESYNC_MS,
        now < t + refresh_ms(s.config->0.content, loaded_fps(s)),
    ensures
        screen_work(rendered(s, t, jpeg), now) == Seq::<LcdWork>::empty(),
{
    lemma_refresh_at_most_a_minute(s.config->0.content, loaded_fps(s));
    law_nothing_before_refresh(rendered(s, t, jpeg), now);
}

/// The same frame handed back twice in a row is sent at most once: after
/// the first, its hash is the last frame's.
pub proof fn law_identical_frame_not_resent(s: LcdScreen, t1: u64, jpeg: Seq<u8>, interval: u64)
    ensures
        frame_hash(jpeg) == rendered(s, t1, jpeg).last_frame_hash,
        frame_hash(jpeg) == captured(s, t1, jpeg, interval).last_frame_hash,
{
}


} // verus!
