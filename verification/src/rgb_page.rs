//! Per-ring RGB edit state of the RGB page.
//!
//! Inner and outer rings are tracked independently per group. When the
//! user selects Inner or Outer they edit that ring alone; with Both
//! selected, edits go to both rings. Applying always sends a Composed mode
//! with explicit inner and outer zone sources.

use vstd::prelude::*;

use crate::effects::{
    direction_from_index, direction_of_index, direction_to_index, display_name_spec,
    effect_by_name, effect_by_name_spec, effect_display_name, effect_table, index_of_direction,
    law_direction_index_roundtrip, law_display_name_roundtrip, Effect, EFFECT_TABLE_LEN,
};
use crate::model::{Rgb, Ring};
use crate::rgb::{EffectParams, EffectScope, FanZoneSpec, RgbMode, ZoneSource};
use crate::text::same_text;

verus! {

/// Edit settings of one ring, as the UI holds them.
#[derive(Clone, Debug)]
pub struct RingSettings {
    pub mode: String,
    pub r: i32,
    pub g: i32,
    pub b: i32,
    pub effect: String,
    pub speed: i32,
    pub direction: i32,
    pub brightness: i32,
}

/// Saved edit state of a group: the selected ring (0 = Inner, 1 = Outer,
/// 2 = Both) and the settings of each ring.
#[derive(Clone, Debug)]
pub struct SavedRgbState {
    pub ring: i32,
    pub inner: RingSettings,
    pub outer: RingSettings,
}

/// The ring settings hold exactly these values.
pub open spec fn ring_is(
    s: RingSettings,
    mode: Seq<char>,
    r: int,
    g: int,
    b: int,
    effect: Seq<char>,
    speed: int,
    direction: int,
    brightness: int,
) -> bool {
    &&& s.mode@ == mode
    &&& s.r == r
    &&& s.g == g
    &&& s.b == b
    &&& s.effect@ == effect
    &&& s.speed == speed
    &&& s.direction == direction
    &&& s.brightness == brightness
}

/// Two ring settings hold the same values.
pub open spec fn same_ring(a: RingSettings, b: RingSettings) -> bool {
    ring_is(a, b.mode@, b.r as int, b.g as int, b.b as int, b.effect@, b.speed as int, b.direction as int, b.brightness as int)
}

/// Default settings of a ring showing `mode`: colour (255, 0, 128), no
/// effect, speed 3, direction 0, brightness 200.
pub open spec fn default_ring_with_mode(s: RingSettings, mode: Seq<char>) -> bool {
    ring_is(s, mode, 255, 0, 128, Seq::empty(), 3, 0, 200)
}

/// The default settings of a ring: off.
pub open spec fn default_ring(s: RingSettings) -> bool {
    default_ring_with_mode(s, "off"@)
}

/// Settings showing a static colour.
pub open spec fn static_ring(s: RingSettings, color: Rgb, brightness: u8) -> bool {
    ring_is(s, "static"@, color.r as int, color.g as int, color.b as int, Seq::empty(), 3, 0, brightness as int)
}

/// Settings showing an effect; without a colour, (255, 0, 128).
pub open spec fn effect_ring(s: RingSettings, effect: Effect, p: EffectParams) -> bool {
    let (r, g, b) = match p.color {
        Some(c) => (c.r as int, c.g as int, c.b as int),
        None => (255, 0, 128),
    };
    ring_is(s, "effect"@, r, g, b, display_name_spec(effect)@, p.speed as int, index_of_direction(p.direction) as int, p.brightness as int)
}

/// Settings that show a zone source.
pub open spec fn zone_ring(s: RingSettings, z: ZoneSource) -> bool {
    match z {
        ZoneSource::Color { color, brightness } => static_ring(s, color, brightness),
        ZoneSource::Effect { effect, params } => effect_ring(s, effect, params),
        ZoneSource::Off => default_ring(s),
    }
}

/// Saved state for ring settings `ok` on the given ring, defaults elsewhere.
pub open spec fn state_on_ring(st: SavedRgbState, ring: Ring, ok: spec_fn(RingSettings) -> bool) -> bool {
    match ring {
        Ring::Inner => st.ring == 0 && ok(st.inner) && default_ring(st.outer),
        Ring::Outer => st.ring == 1 && default_ring(st.inner) && ok(st.outer),
        Ring::Both => st.ring == 2 && ok(st.inner) && ok(st.outer),
    }
}

/// Saved state marking both rings with `mode` (edited in another tab).
pub open spec fn named_mode_state(st: SavedRgbState, mode: Seq<char>) -> bool {
    st.ring == 2 && default_ring_with_mode(st.inner, mode) && default_ring_with_mode(st.outer, mode)
}

/// The saved edit state that shows a device's RGB mode.
pub open spec fn state_shows_mode(st: SavedRgbState, mode: RgbMode) -> bool {
    match mode {
        RgbMode::Off => st.ring == 2 && default_ring(st.inner) && default_ring(st.outer),
        RgbMode::Static { ring, color, brightness } => state_on_ring(
            st,
            ring,
            |s: RingSettings| static_ring(s, color, brightness),
        ),
        RgbMode::Effect { effect, params, ring } => state_on_ring(
            st,
            ring,
            |s: RingSettings| effect_ring(s, effect, params),
        ),
        RgbMode::Composed(specs) => if specs@.len() > 0 {
            st.ring == 2 && zone_ring(st.inner, specs@[0].inner) && zone_ring(st.outer, specs@[0].outer)
        } else {
            st.ring == 2 && default_ring(st.inner) && default_ring(st.outer)
        },
        RgbMode::PerFan(_) => named_mode_state(st, "per-fan"@),
        RgbMode::PerLed(_) => named_mode_state(st, "per-led"@),
        RgbMode::TempRgb(_) => named_mode_state(st, "temp-rgb"@),
        RgbMode::SubZones => named_mode_state(st, "sub-zones"@),
    }
}

/// `v` clamped to `lo..=hi`.
pub open spec fn clamp_spec(v: int, lo: int, hi: int) -> int {
    if v < lo {
        lo
    } else if v > hi {
        hi
    } else {
        v
    }
}

/// The colour of ring settings, each channel clamped to 0..=255.
pub open spec fn settings_color(s: RingSettings) -> Rgb {
    Rgb {
        r: clamp_spec(s.r as int, 0, 255) as u8,
        g: clamp_spec(s.g as int, 0, 255) as u8,
        b: clamp_spec(s.b as int, 0, 255) as u8,
    }
}

/// The zone source ring settings stand for: a static colour, a known
/// effect, or off.
pub open spec fn zone_of_settings(s: RingSettings) -> ZoneSource {
    if s.mode@ == "static"@ {
        ZoneSource::Color {
            color: settings_color(s),
            brightness: clamp_spec(s.brightness as int, 0, 255) as u8,
        }
    } else if s.mode@ == "effect"@ {
        match effect_by_name_spec(s.effect@) {
            Some(effect) => ZoneSource::Effect {
                effect,
                params: EffectParams {
                    speed: clamp_spec(s.speed as int, 1, 5) as u8,
                    direction: direction_of_index(s.direction),
                    brightness: clamp_spec(s.brightness as int, 0, 255) as u8,
                    color: Some(settings_color(s)),
                    scope: EffectScope::All,
                },
            },
            None => ZoneSource::Off,
        }
    } else {
        ZoneSource::Off
    }
}

/// Ring of an index: 0 = Inner, 1 = Outer, others Both.
pub open spec fn ring_of_index(idx: i32) -> Ring {
    if idx == 0 {
        Ring::Inner
    } else if idx == 1 {
        Ring::Outer
    } else {
        Ring::Both
    }
}

/// `v` clamped to `lo..=hi`.
pub fn clamp_i32(v: i32, lo: i32, hi: i32) -> (r: i32)
    requires
        lo <= hi,
    ensures
        r == clamp_spec(v as int, lo as int, hi as int),
{
    if v < lo {
        lo
    } else if v > hi {
        hi
    } else {
        v
    }
}

fn channel(v: i32) -> (c: u8)
    ensures
        c == clamp_spec(v as int, 0, 255) as u8,
{
    clamp_i32(v, 0, 255) as u8
}

fn owned(s: &str) -> (r: String)
    ensures
        r@ == s@,
{
    s.to_owned()
}

impl RingSettings {
    /// The default settings: off, colour (255, 0, 128), no effect, speed 3,
    /// direction 0, brightness 200.
    pub fn new() -> (s: RingSettings)
        ensures
            default_ring(s),
    {
        Self::with_mode("off")
    }

    fn with_mode(mode: &str) -> (s: RingSettings)
        ensures
            default_ring_with_mode(s, mode@),
    {
        RingSettings {
            mode: owned(mode),
            r: 255,
            g: 0,
            b: 128,
            effect: String::new(),
            speed: 3,
            direction: 0,
            brightness: 200,
        }
    }

    /// A copy of the settings.
    pub fn duplicate(&self) -> (s: RingSettings)
        ensures
            same_ring(s, *self),
    {
        RingSettings {
            mode: self.mode.clone(),
            r: self.r,
            g: self.g,
            b: self.b,
            effect: self.effect.clone(),
            speed: self.speed,
            direction: self.direction,
            brightness: self.brightness,
        }
    }
}

impl SavedRgbState {
    /// Both rings selected, both at their defaults.
    pub fn new() -> (st: SavedRgbState)
        ensures
            st.ring == 2,
            default_ring(st.inner),
            default_ring(st.outer),
    {
        SavedRgbState { ring: 2, inner: RingSettings::new(), outer: RingSettings::new() }
    }

    fn with_mode(mode: &str) -> (st: SavedRgbState)
        ensures
            named_mode_state(st, mode@),
    {
        SavedRgbState {
            ring: 2,
            inner: RingSettings::with_mode(mode),
            outer: RingSettings::with_mode(mode),
        }
    }
}

fn static_settings(color: Rgb, brightness: u8) -> (s: RingSettings)
    ensures
        static_ring(s, color, brightness),
{
    RingSettings {
        mode: owned("static"),
        r: color.r as i32,
        g: color.g as i32,
        b: color.b as i32,
        effect: String::new(),
        speed: 3,
        direction: 0,
        brightness: brightness as i32,
    }
}

fn effect_settings(effect: Effect, params: EffectParams) -> (s: RingSettings)
    ensures
        effect_ring(s, effect, params),
{
    let (r, g, b) = match params.color {
        Some(c) => (c.r as i32, c.g as i32, c.b as i32),
        None => (255, 0, 128),
    };
    RingSettings {
        mode: owned("effect"),
        r,
        g,
        b,
        effect: owned(effect_display_name(effect)),
        speed: params.speed as i32,
        direction: direction_to_index(params.direction),
        brightness: params.brightness as i32,
    }
}

/// Ring settings that show a zone source (the inverse of `zone_source`).
pub fn ring_settings_from_zone(zone: &ZoneSource) -> (s: RingSettings)
    ensures
        zone_ring(s, *zone),
{
    match zone {
        ZoneSource::Color { color, brightness } => static_settings(*color, *brightness),
        ZoneSource::Effect { effect, params } => effect_settings(*effect, *params),
        ZoneSource::Off => RingSettings::new(),
    }
}

fn on_ring(
    ring: Ring,
    first: RingSettings,
    second: RingSettings,
    Ghost(ok): Ghost<spec_fn(RingSettings) -> bool>,
) -> (st: SavedRgbState)
    requires
        ok(first),
        ok(second),
    ensures
        state_on_ring(st, ring, ok),
{
    match ring {
        Ring::Inner => SavedRgbState { ring: 0, inner: first, outer: RingSettings::new() },
        Ring::Outer => SavedRgbState { ring: 1, inner: RingSettings::new(), outer: first },
        Ring::Both => SavedRgbState { ring: 2, inner: first, outer: second },
    }
}

/// The saved edit state that shows a device's RGB mode. A composed mode
/// shows its first fan's zones (all fans look the same in the GUI);
/// per-fan, per-LED, temperature and sub-zone modes are only named.
pub fn state_from_rgb_mode(mode: &RgbMode) -> (st: SavedRgbState)
    ensures
        state_shows_mode(st, *mode),
{
    match mode {
        RgbMode::Off => SavedRgbState::new(),
        RgbMode::Static { ring, color, brightness } => {
            let c = *color;
            let b = *brightness;
            on_ring(
                *ring,
                static_settings(c, b),
                static_settings(c, b),
                Ghost(|s: RingSettings| static_ring(s, c, b)),
            )
        },
        RgbMode::Effect { effect, params, ring } => {
            let e = *effect;
            let p = *params;
            on_ring(
                *ring,
                effect_settings(e, p),
                effect_settings(e, p),
                Ghost(|s: RingSettings| effect_ring(s, e, p)),
            )
        },
        RgbMode::Composed(specs) => {
            if specs.len() > 0 {
                let spec = specs[0];
                SavedRgbState {
                    ring: 2,
                    inner: ring_settings_from_zone(&spec.inner),
                    outer: ring_settings_from_zone(&spec.outer),
                }
            } else {
                SavedRgbState::new()
            }
        },
        RgbMode::PerFan(_) => SavedRgbState::with_mode("per-fan"),
        RgbMode::PerLed(_) => SavedRgbState::with_mode("per-led"),
        RgbMode::TempRgb(_) => SavedRgbState::with_mode("temp-rgb"),
        RgbMode::SubZones => SavedRgbState::with_mode("sub-zones"),
    }
}

/// Save edited settings into the active ring(s) of a group state.
pub fn save_to_active_rings(state: &mut SavedRgbState, ui: &RingSettings)
    ensures
        final(state).ring == old(state).ring,
        old(state).ring == 0 ==> same_ring(final(state).inner, *ui) && final(state).outer
            == old(state).outer,
        old(state).ring == 1 ==> final(state).inner == old(state).inner && same_ring(
            final(state).outer,
            *ui,
        ),
        old(state).ring != 0 && old(state).ring != 1 ==> same_ring(final(state).inner, *ui)
            && same_ring(final(state).outer, *ui),
{
    if state.ring == 0 {
        state.inner = ui.duplicate();
    } else if state.ring == 1 {
        state.outer = ui.duplicate();
    } else {
        state.inner = ui.duplicate();
        state.outer = ui.duplicate();
    }
}

/// The zone source that ring settings stand for.
pub fn zone_source(s: &RingSettings) -> (z: ZoneSource)
    ensures
        z == zone_of_settings(*s),
{
    proof {
        reveal_strlit("static");
        reveal_strlit("effect");
    }
    if same_text(s.mode.as_str(), "static") {
        ZoneSource::Color {
            color: Rgb { r: channel(s.r), g: channel(s.g), b: channel(s.b) },
            brightness: channel(s.brightness),
        }
    } else if same_text(s.mode.as_str(), "effect") {
        match effect_by_name(s.effect.as_str()) {
            Some(effect) => ZoneSource::Effect {
                effect,
                params: EffectParams {
                    speed: clamp_i32(s.speed, 1, 5) as u8,
                    direction: direction_from_index(s.direction),
                    brightness: channel(s.brightness),
                    color: Some(Rgb { r: channel(s.r), g: channel(s.g), b: channel(s.b) }),
                    scope: EffectScope::All,
                },
            },
            None => ZoneSource::Off,
        }
    } else {
        ZoneSource::Off
    }
}

/// The mode to send for a group state: off when both rings are off,
/// otherwise one composed fan spec with both rings.
pub fn build_mode(state: &SavedRgbState) -> (m: RgbMode)
    ensures
        zone_of_settings(state.inner) == ZoneSource::Off && zone_of_settings(state.outer)
            == ZoneSource::Off ==> m is Off,
        !(zone_of_settings(state.inner) == ZoneSource::Off && zone_of_settings(state.outer)
            == ZoneSource::Off) ==> (m matches RgbMode::Composed(v) && v@ == seq![
            FanZoneSpec {
                inner: zone_of_settings(state.inner),
                outer: zone_of_settings(state.outer),
            },
        ]),
{
    let inner = zone_source(&state.inner);
    let outer = zone_source(&state.outer);
    if inner == ZoneSource::Off && outer == ZoneSource::Off {
        RgbMode::Off
    } else {
        let v = vec![FanZoneSpec { inner, outer }];
        RgbMode::Composed(v)
    }
}

/// Map a ring index to a ring: 0 = Inner, 1 = Outer, others Both.
pub fn ring_from_index(idx: i32) -> (r: Ring)
    ensures
        r == ring_of_index(idx),
{
    match idx {
        0 => Ring::Inner,
        1 => Ring::Outer,
        _ => Ring::Both,
    }
}

/// The mode that UI values stand for: "off", "static" or a known effect;
/// nothing for "per-fan", an unknown effect or any other mode.
pub open spec fn rgb_mode_of(
    mode: Seq<char>,
    effect_name: Seq<char>,
    r: i32,
    g: i32,
    b: i32,
    ring_idx: i32,
    direction_idx: i32,
    speed: i32,
    brightness: i32,
) -> Option<RgbMode> {
    let ring = ring_of_index(ring_idx);
    let color = Rgb {
        r: clamp_spec(r as int, 0, 255) as u8,
        g: clamp_spec(g as int, 0, 255) as u8,
        b: clamp_spec(b as int, 0, 255) as u8,
    };
    let bright = clamp_spec(brightness as int, 0, 255) as u8;
    if mode == "off"@ {
        Some(RgbMode::Off)
    } else if mode == "static"@ {
        Some(RgbMode::Static { ring, color, brightness: bright })
    } else if mode == "effect"@ {
        match effect_by_name_spec(effect_name) {
            Some(effect) => Some(
                RgbMode::Effect {
                    effect,
                    params: EffectParams {
                        speed: clamp_spec(speed as int, 1, 5) as u8,
                        direction: direction_of_index(direction_idx),
                        brightness: bright,
                        color: Some(color),
                        scope: EffectScope::All,
                    },
                    ring,
                },
            ),
            None => None,
        }
    } else {
        None
    }
}

/// Construct a mode from UI state values.
pub fn build_rgb_mode(
    mode: &str,
    effect_name: &str,
    r: i32,
    g: i32,
    b: i32,
    ring_idx: i32,
    direction_idx: i32,
    speed: i32,
    brightness: i32,
) -> (m: Option<RgbMode>)
    ensures
        m == rgb_mode_of(mode@, effect_name@, r, g, b, ring_idx, direction_idx, speed, brightness),
{
    let ring = ring_from_index(ring_idx);
    let color = Rgb { r: channel(r), g: channel(g), b: channel(b) };
    let bright = channel(brightness);
    if same_text(mode, "off") {
        Some(RgbMode::Off)
    } else if same_text(mode, "static") {
        Some(RgbMode::Static { ring, color, brightness: bright })
    } else if same_text(mode, "effect") {
        match effect_by_name(effect_name) {
            Some(effect) => Some(
                RgbMode::Effect {
                    effect,
                    params: EffectParams {
                        speed: clamp_i32(speed, 1, 5) as u8,
                        direction: direction_from_index(direction_idx),
                        brightness: bright,
                        color: Some(color),
                        scope: EffectScope::All,
                    },
                    ring,
                },
            ),
            None => None,
        }
    } else {
        None
    }
}

/// Settings made to show a static colour or nothing stand for that same
/// zone source again (`zone_source` inverts `ring_settings_from_zone` there).
pub proof fn law_zone_settings_roundtrip(z: ZoneSource, s: RingSettings)
    requires
        !(z is Effect),
        zone_ring(s, z),
    ensures
        zone_of_settings(s) == z,
{
    reveal_strlit("off");
    reveal_strlit("static");
    reveal_strlit("effect");
    assert("off"@ != "static"@) by {
        assert("off"@[0] != "static"@[0]);
    }
    assert("off"@ != "effect"@) by {
        assert("off"@[0] != "effect"@[0]);
    }
}

/// Settings made to show an effect of the display table, with a colour and
/// a speed from 1 to 5, stand for that same effect zone again.
pub proof fn law_effect_settings_roundtrip(z: ZoneSource, s: RingSettings, i: int)
    requires
        0 <= i < EFFECT_TABLE_LEN,
        z matches ZoneSource::Effect { effect, params } && effect == effect_table()[i].0
            && params.color is Some && 1 <= params.speed <= 5,
        zone_ring(s, z),
    ensures
        zone_of_settings(s) == z,
{
    reveal_strlit("static");
    reveal_strlit("effect");
    assert("effect"@ != "static"@) by {
        assert("effect"@[0] != "static"@[0]);
    }
    law_display_name_roundtrip(i);
    match z {
        ZoneSource::Effect { effect, params } => {
            law_direction_index_roundtrip(params.direction);
            match params.scope {
                EffectScope::All => {},
            }
        },
        _ => {},
    }
}


/// Zone sources that ring settings can show and give back: a colour, off,
/// or an effect of the display table with a colour and a speed from 1 to 5.
pub open spec fn settings_can_show(z: ZoneSource) -> bool {
    match z {
        ZoneSource::Effect { effect, params } => exists|i: int|
            0 <= i < EFFECT_TABLE_LEN && effect == (#[trigger] effect_table()[i]).0 && params.color is Some && 1
                <= params.speed <= 5,
        _ => true,
    }
}

proof fn lemma_zone_roundtrip(z: ZoneSource, s: RingSettings)
    requires
        settings_can_show(z),
        zone_ring(s, z),
    ensures
        zone_of_settings(s) == z,
{
    match z {
        ZoneSource::Effect { effect, params } => {
            let i = choose|i: int|
                0 <= i < EFFECT_TABLE_LEN && effect == (#[trigger] effect_table()[i]).0 && params.color is Some
                    && 1 <= params.speed <= 5;
            law_effect_settings_roundtrip(z, s, i);
        },
        _ => law_zone_settings_roundtrip(z, s),
    }
}

/// A composed mode of one fan, not dark on both rings, whose zones the
/// settings can show, comes back unchanged through the editor: the state
/// that shows it stands for the same zones again, so `build_mode` of that
/// state is the same composed mode.
pub proof fn law_composed_mode_roundtrip(spec: FanZoneSpec, v: Vec<FanZoneSpec>, st: SavedRgbState)
    requires
        v@ == seq![spec],
        settings_can_show(spec.inner),
        settings_can_show(spec.outer),
        !(spec.inner == ZoneSource::Off && spec.outer == ZoneSource::Off),
        state_shows_mode(st, RgbMode::Composed(v)),
    ensures
        zone_of_settings(st.inner) == spec.inner,
        zone_of_settings(st.outer) == spec.outer,
        !(zone_of_settings(st.inner) == ZoneSource::Off && zone_of_settings(st.outer) == ZoneSource::Off),
        seq![FanZoneSpec { inner: zone_of_settings(st.inner), outer: zone_of_settings(st.outer) }] == v@,
{
    assert(v@[0] == spec);
    lemma_zone_roundtrip(spec.inner, st.inner);
    lemma_zone_roundtrip(spec.outer, st.outer);
}
} // verus!
