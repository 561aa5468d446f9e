//! RGB lighting modes of a device group.

use vstd::prelude::*;

use crate::effects::{Effect, EffectDirection};
use crate::model::{Rgb, Ring};
use crate::model::Sensor;
use crate::temp_rgb::{TempColorPoint, TempRgbConfig};

verus! {

/// Which LEDs an effect covers.
#[derive(Clone, Copy, Debug, PartialEq, Eq, Structural)]
pub enum EffectScope {
    All,
}

/// Parameters of a running effect.
#[derive(Clone, Copy, Debug, PartialEq, Eq, Structural)]
pub struct EffectParams {
    /// 1 (slowest) to 5 (fastest).
    pub speed: u8,
    pub direction: EffectDirection,
    pub brightness: u8,
    pub color: Option<Rgb>,
    pub scope: EffectScope,
}

/// What one ring of a fan shows.
#[derive(Clone, Copy, Debug, PartialEq, Eq, Structural)]
pub enum ZoneSource {
    Color { color: Rgb, brightness: u8 },
    Effect { effect: Effect, params: EffectParams },
    Off,
}

/// Inner and outer ring sources of one fan.
#[derive(Clone, Copy, Debug, PartialEq, Eq, Structural)]
pub struct FanZoneSpec {
    pub inner: ZoneSource,
    pub outer: ZoneSource,
}

/// Colour of each ring of one fan; a ring without one stays dark.
#[derive(Clone, Copy, Debug, PartialEq, Eq, Structural)]
pub struct FanColorAssignment {
    pub inner: Option<Rgb>,
    pub outer: Option<Rgb>,
}

/// Colours of each LED of one fan: inner ring, then outer ring.
#[derive(Clone, Debug)]
pub struct FanLedAssignment {
    pub inner: Vec<Rgb>,
    pub outer: Vec<Rgb>,
}

/// Lighting mode of a device group. Sub-zone modes are edited elsewhere;
/// here only their kind matters.
#[derive(Clone, Debug)]
pub enum RgbMode {
    Off,
    Static { ring: Ring, color: Rgb, brightness: u8 },
    PerFan(Vec<FanColorAssignment>),
    PerLed(Vec<FanLedAssignment>),
    Effect { effect: Effect, params: EffectParams, ring: Ring },
    TempRgb(TempRgbConfig),
    Composed(Vec<FanZoneSpec>),
    SubZones,
}

/// A zone source with its brightness set to `level` (off stays off).
pub open spec fn zone_at_brightness(zone: ZoneSource, level: u8) -> ZoneSource {
    match zone {
        ZoneSource::Color { color, .. } => ZoneSource::Color { color, brightness: level },
        ZoneSource::Effect { effect, params } => ZoneSource::Effect {
            effect,
            params: EffectParams { brightness: level, ..params },
        },
        ZoneSource::Off => ZoneSource::Off,
    }
}

/// A fan spec with both rings at brightness `level`.
pub open spec fn spec_at_brightness(s: FanZoneSpec, level: u8) -> FanZoneSpec {
    FanZoneSpec { inner: zone_at_brightness(s.inner, level), outer: zone_at_brightness(s.outer, level) }
}

/// A zone source with its brightness set to `level`.
pub fn zone_with_brightness(zone: ZoneSource, level: u8) -> (z: ZoneSource)
    ensures
        z == zone_at_brightness(zone, level),
{
    match zone {
        ZoneSource::Color { color, .. } => ZoneSource::Color { color, brightness: level },
        ZoneSource::Effect { effect, params } => {
            let mut params = params;
            params.brightness = level;
            ZoneSource::Effect { effect, params }
        },
        ZoneSource::Off => ZoneSource::Off,
    }
}

/// The mode with every brightness it holds set to `level`; modes without
/// a brightness (off, per-fan, per-LED, temperature, sub-zones) pass
/// through unchanged.
pub fn with_brightness(mode: RgbMode, level: u8) -> (m: RgbMode)
    ensures
        match mode {
            RgbMode::Static { ring, color, .. } => m == RgbMode::Static { ring, color, brightness: level },
            RgbMode::Effect { effect, params, ring } => m == RgbMode::Effect {
                effect,
                params: EffectParams { brightness: level, ..params },
                ring,
            },
            RgbMode::Composed(specs) => m matches RgbMode::Composed(v) && v@ == specs@.map_values(
                |s: FanZoneSpec| spec_at_brightness(s, level),
            ),
            _ => m == mode,
        },
{
    match mode {
        RgbMode::Static { ring, color, .. } => RgbMode::Static { ring, color, brightness: level },
        RgbMode::Effect { effect, params, ring } => {
            let mut params = params;
            params.brightness = level;
            RgbMode::Effect { effect, params, ring }
        },
        RgbMode::Composed(specs) => {
            let mut updated: Vec<FanZoneSpec> = Vec::new();
            let mut i: usize = 0;
            while i < specs.len()
                invariant
                    i <= specs@.len(),
                    updated@ == specs@.subrange(0, i as int).map_values(
                        |s: FanZoneSpec| spec_at_brightness(s, level),
                    ),
                decreases specs@.len() - i,
            {
                let s = specs[i];
                updated.push(
                    FanZoneSpec {
                        inner: zone_with_brightness(s.inner, level),
                        outer: zone_with_brightness(s.outer, level),
                    },
                );
                proof {
                    assert(specs@.subrange(0, i + 1).map_values(
                        |s: FanZoneSpec| spec_at_brightness(s, level),
                    ) =~= specs@.subrange(0, i as int).map_values(
                        |s: FanZoneSpec| spec_at_brightness(s, level),
                    ).push(spec_at_brightness(specs@[i as int], level)));
                }
                i = i + 1;
            }
            assert(specs@.subrange(0, i as int) =~= specs@);
            RgbMode::Composed(updated)
        },
        other => other,
    }
}

/// The colours of each fan, as values.
pub open spec fn led_views(s: Seq<FanLedAssignment>) -> Seq<(Seq<Rgb>, Seq<Rgb>)> {
    s.map_values(|a: FanLedAssignment| (a.inner@, a.outer@))
}

/// A lighting mode as values: its lists as sequences.
pub ghost enum ModeView {
    Off,
    Static { ring: Ring, color: Rgb, brightness: u8 },
    PerFan(Seq<FanColorAssignment>),
    PerLed(Seq<(Seq<Rgb>, Seq<Rgb>)>),
    Effect { effect: Effect, params: EffectParams, ring: Ring },
    TempRgb { sensor: Sensor, gradient: Seq<TempColorPoint>, ring: Ring },
    Composed(Seq<FanZoneSpec>),
    SubZones,
}

impl RgbMode {
    /// The mode as values.
    pub open spec fn view(&self) -> ModeView {
        match self {
            RgbMode::Off => ModeView::Off,
            RgbMode::Static { ring, color, brightness } => ModeView::Static {
                ring: *ring,
                color: *color,
                brightness: *brightness,
            },
            RgbMode::PerFan(v) => ModeView::PerFan(v@),
            RgbMode::PerLed(v) => ModeView::PerLed(led_views(v@)),
            RgbMode::Effect { effect, params, ring } => ModeView::Effect {
                effect: *effect,
                params: *params,
                ring: *ring,
            },
            RgbMode::TempRgb(c) => ModeView::TempRgb { sensor: c.sensor, gradient: c.gradient@, ring: c.ring },
            RgbMode::Composed(v) => ModeView::Composed(v@),
            RgbMode::SubZones => ModeView::SubZones,
        }
    }
}

fn copy_list<T: Copy>(v: &Vec<T>) -> (r: Vec<T>)
    ensures
        r@ == v@,
{
    let mut r: Vec<T> = Vec::new();
    let mut i: usize = 0;
    while i < v.len()
        invariant
            i <= v@.len(),
            r@ == v@.subrange(0, i as int),
        decreases v@.len() - i,
    {
        r.push(v[i]);
        proof {
            assert(v@.subrange(0, i + 1) =~= v@.subrange(0, i as int).push(v@[i as int]));
        }
        i = i + 1;
    }
    proof {
        assert(v@.subrange(0, i as int) =~= v@);
    }
    r
}

/// A copy of a lighting mode, holding the same values.
pub fn copy_mode(m: &RgbMode) -> (r: RgbMode)
    ensures
        r@ == m@,
{
    match m {
        RgbMode::Off => RgbMode::Off,
        RgbMode::Static { ring, color, brightness } => RgbMode::Static {
            ring: *ring,
            color: *color,
            brightness: *brightness,
        },
        RgbMode::PerFan(v) => RgbMode::PerFan(copy_list(v)),
        RgbMode::PerLed(v) => {
            let mut r: Vec<FanLedAssignment> = Vec::new();
            let mut i: usize = 0;
            while i < v.len()
                invariant
                    i <= v@.len(),
                    led_views(r@) == led_views(v@.subrange(0, i as int)),
                decreases v@.len() - i,
            {
                let a = FanLedAssignment { inner: copy_list(&v[i].inner), outer: copy_list(&v[i].outer) };
                let ghost before = r@;
                r.push(a);
                proof {
                    assert(r@ =~= before.push(a));
                    assert(led_views(r@) =~= led_views(before).push((a.inner@, a.outer@)));
                    assert(v@.subrange(0, i + 1) =~= v@.subrange(0, i as int).push(v@[i as int]));
                    assert(led_views(v@.subrange(0, i + 1)) =~= led_views(v@.subrange(0, i as int)).push(
                        (v@[i as int].inner@, v@[i as int].outer@),
                    ));
                }
                i = i + 1;
            }
            proof {
                assert(v@.subrange(0, i as int) =~= v@);
            }
            RgbMode::PerLed(r)
        },
        RgbMode::Effect { effect, params, ring } => RgbMode::Effect { effect: *effect, params: *params, ring: *ring },
        RgbMode::TempRgb(c) => RgbMode::TempRgb(
            TempRgbConfig { sensor: c.sensor, gradient: copy_list(&c.gradient), ring: c.ring },
        ),
        RgbMode::Composed(v) => RgbMode::Composed(copy_list(v)),
        RgbMode::SubZones => RgbMode::SubZones,
    }
}

/// The mode with every brightness it holds set to `level`, as values.
pub open spec fn mode_at_brightness(m: ModeView, level: u8) -> ModeView {
    match m {
        ModeView::Static { ring, color, .. } => ModeView::Static { ring, color, brightness: level },
        ModeView::Effect { effect, params, ring } => ModeView::Effect {
            effect,
            params: EffectParams { brightness: level, ..params },
            ring,
        },
        ModeView::Composed(specs) => ModeView::Composed(
            specs.map_values(|s: FanZoneSpec| spec_at_brightness(s, level)),
        ),
        _ => m,
    }
}

/// `with_brightness` as values.
pub proof fn lemma_with_brightness_view(mode: RgbMode, m: RgbMode, level: u8)
    requires
        match mode {
            RgbMode::Static { ring, color, .. } => m == RgbMode::Static { ring, color, brightness: level },
            RgbMode::Effect { effect, params, ring } => m == RgbMode::Effect {
                effect,
                params: EffectParams { brightness: level, ..params },
                ring,
            },
            RgbMode::Composed(specs) => m matches RgbMode::Composed(v) && v@ == specs@.map_values(
                |s: FanZoneSpec| spec_at_brightness(s, level),
            ),
            _ => m == mode,
        },
    ensures
        m@ == mode_at_brightness(mode@, level),
{
}

} // verus!
