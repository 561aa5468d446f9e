//! Temperature-reactive RGB runner — maps sensor temperature to gradient colors.
//!
//! Evaluates per-group gradient configurations against sensor readings and
//! yields interpolated static colours. Readings are in milli-degrees Celsius.

use vstd::prelude::*;

use crate::assoc::{
    assoc_map, find_group, keys_of, keys_unique, lemma_assoc_absent, lemma_assoc_push,
    lemma_assoc_remove, lemma_assoc_update,
};
use crate::model::{GroupId, Rgb, Ring, Sensor, SensorReadings};
use crate::rgb::RgbMode;

verus! {

/// A gradient point: at `temp` whole degrees Celsius the colour is `color`.
#[derive(Clone, Copy, Debug, PartialEq, Eq, Structural)]
pub struct TempColorPoint {
    pub temp: i32,
    pub color: Rgb,
}

/// Temperature-reactive RGB configuration of a group.
#[derive(Clone, Debug)]
pub struct TempRgbConfig {
    pub sensor: Sensor,
    pub gradient: Vec<TempColorPoint>,
    pub ring: Ring,
}

/// Per-group configuration and last applied colour.
#[derive(Clone, Debug)]
pub struct TempRgbState {
    pub config: TempRgbConfig,
    pub last_color: Option<Rgb>,
}

/// Manages per-group temperature-reactive RGB state.
#[derive(Debug)]
pub struct TempRgbRunner {
    pub configs: Vec<(GroupId, TempRgbState)>,
    pub sensors: SensorReadings,
    pub sensors_dirty: bool,
}

/// A gradient point's temperature in milli-degrees.
pub open spec fn point_milli(p: TempColorPoint) -> int {
    p.temp as int * 1000
}

/// Channel `a` moved towards `b` by `n/d`, rounded to nearest (halves up).
pub open spec fn lerp_channel(a: u8, b: u8, n: int, d: int) -> int {
    (2 * a * d + 2 * ((b - a) * n) + d) / (2 * d)
}

/// Colour between `lo` and `hi` at `temp` (milli-degrees); black for a
/// segment of zero width.
pub open spec fn lerp_spec(lo: TempColorPoint, hi: TempColorPoint, temp: int) -> Rgb {
    let d = point_milli(hi) - point_milli(lo);
    let n = temp - point_milli(lo);
    if d == 0 {
        Rgb { r: 0, g: 0, b: 0 }
    } else {
        Rgb {
            r: lerp_channel(lo.color.r, hi.color.r, n, d) as u8,
            g: lerp_channel(lo.color.g, hi.color.g, n, d) as u8,
            b: lerp_channel(lo.color.b, hi.color.b, n, d) as u8,
        }
    }
}

/// First segment from `i` on that contains `temp`, interpolated; the last
/// colour when none does.
pub open spec fn segment_color(g: Seq<TempColorPoint>, temp: int, i: int) -> Rgb
    decreases g.len() - i,
{
    if i + 1 >= g.len() {
        g.last().color
    } else if point_milli(g[i]) <= temp <= point_milli(g[i + 1]) {
        lerp_spec(g[i], g[i + 1], temp)
    } else {
        segment_color(g, temp, i + 1)
    }
}

/// Colour of a temperature gradient: black when empty, clamped to the end
/// colours outside the range, linearly interpolated between points.
pub open spec fn gradient_color(g: Seq<TempColorPoint>, temp: int) -> Rgb {
    if g.len() == 0 {
        Rgb { r: 0, g: 0, b: 0 }
    } else if g.len() == 1 || temp <= point_milli(g[0]) {
        g[0].color
    } else if temp >= point_milli(g.last()) {
        g.last().color
    } else {
        segment_color(g, temp, 0)
    }
}

pub(crate) proof fn lemma_lerp_bounds(a: u8, b: u8, n: int, d: int)
    requires
        0 <= n <= d,
        d > 0,
    ensures
        0 <= lerp_channel(a, b, n, d) <= 255,
{
    let num = 2 * a * d + 2 * ((b - a) * n) + d;
    assert(num >= 0 && num < 2 * d * 256) by (nonlinear_arith)
        requires
            0 <= n <= d,
            d > 0,
            0 <= a <= 255,
            0 <= b <= 255,
            num == 2 * a * d + 2 * ((b - a) * n) + d,
    ;
    assert(0 <= num / (2 * d) < 256) by (nonlinear_arith)
        requires
            num >= 0,
            num < 2 * d * 256,
            d > 0,
    ;
}

pub(crate) fn lerp_u8(a: u8, b: u8, n: i64, d: i64) -> (c: u8)
    requires
        0 <= n <= d,
        0 < d <= 8000000000000,
    ensures
        c == lerp_channel(a, b, n as int, d as int),
{
    proof {
        lemma_lerp_bounds(a, b, n as int, d as int);
    }
    let ai = a as i64;
    let bi = b as i64;
    assert(-255 * d <= (bi - ai) * n <= 255 * d) by (nonlinear_arith)
        requires
            0 <= n <= d,
            -255 <= bi - ai <= 255,
    ;
    assert(0 <= 2 * ai * d <= 510 * d) by (nonlinear_arith)
        requires
            0 <= ai <= 255,
            d > 0,
    ;
    let num = 2 * ai * d + 2 * ((bi - ai) * n) + d;
    assert(0 <= 2 * ai * d + 2 * ((bi - ai) * n)) by (nonlinear_arith)
        requires
            0 <= ai <= 255,
            0 <= bi <= 255,
            0 <= n <= d,
    ;
    let q = num / (2 * d);
    assert(q as int == lerp_channel(a, b, n as int, d as int));
    q as u8
}

/// Interpolate a colour from a temperature gradient.
///
/// The gradient is a sorted list of (temp, color) points. Values below
/// the first point clamp to its colour; values above the last clamp similarly.
/// Between points, colours are linearly interpolated per channel.
pub fn interpolate_gradient(gradient: &[TempColorPoint], temp_milli: i32) -> (c: Rgb)
    ensures
        c == gradient_color(gradient@, temp_milli as int),
{
    let len = gradient.len();
    if len == 0 {
        return Rgb { r: 0, g: 0, b: 0 };
    }
    let t = temp_milli as i64;
    if len == 1 || t <= gradient[0].temp as i64 * 1000 {
        return gradient[0].color;
    }
    if t >= gradient[len - 1].temp as i64 * 1000 {
        return gradient[len - 1].color;
    }
    let mut i: usize = 0;
    while i + 1 < len
        invariant
            len == gradient@.len(),
            len >= 2,
            i + 1 <= len,
            t == temp_milli as i64,
            gradient_color(gradient@, temp_milli as int) == segment_color(
                gradient@,
                temp_milli as int,
                i as int,
            ),
            point_milli(gradient@[0]) < t < point_milli(gradient@.last()),
        decreases len - i,
    {
        let lo = gradient[i];
        let hi = gradient[i + 1];
        let lo_t = lo.temp as i64 * 1000;
        let hi_t = hi.temp as i64 * 1000;
        if lo_t <= t && t <= hi_t {
            let d = hi_t - lo_t;
            assert(lo == gradient@[i as int] && hi == gradient@[i + 1]);
            assert(point_milli(lo) == lo_t && point_milli(hi) == hi_t);
            assert(segment_color(gradient@, temp_milli as int, i as int) == lerp_spec(
                lo,
                hi,
                temp_milli as int,
            ));
            if d == 0 {
                return Rgb { r: 0, g: 0, b: 0 };
            }
            let n = t - lo_t;
            return Rgb {
                r: lerp_u8(lo.color.r, hi.color.r, n, d),
                g: lerp_u8(lo.color.g, hi.color.g, n, d),
                b: lerp_u8(lo.color.b, hi.color.b, n, d),
            };
        }
        i = i + 1;
    }
    gradient[len - 1].color
}

/// Evaluation of the groups in order: new states, commands and events.
pub open spec fn temp_rgb_spec(cs: Seq<(GroupId, TempRgbState)>, sensors: Map<Sensor, i32>) -> (
    Seq<(GroupId, TempRgbState)>,
    Seq<(GroupId, RgbMode)>,
)
    decreases cs.len(),
{
    if cs.len() == 0 {
        (Seq::empty(), Seq::empty())
    } else {
        let (st, cmds) = temp_rgb_spec(cs.drop_last(), sensors);
        let (g, s) = cs.last();
        if !sensors.contains_key(s.config.sensor) {
            (st.push((g, s)), cmds)
        } else {
            let color = gradient_color(s.config.gradient@, sensors[s.config.sensor] as int);
            if s.last_color == Some(color) {
                (st.push((g, s)), cmds)
            } else {
                (
                    st.push((g, TempRgbState { config: s.config, last_color: Some(color) })),
                    cmds.push((g, RgbMode::Static { ring: s.config.ring, color, brightness: 255 })),
                )
            }
        }
    }
}

/// Colours follow the readings only: evaluating the states that an
/// evaluation left behind against the same readings yields no command.
pub proof fn law_same_readings_no_commands(cs: Seq<(GroupId, TempRgbState)>, sensors: Map<Sensor, i32>)
    ensures
        temp_rgb_spec(temp_rgb_spec(cs, sensors).0, sensors).1.len() == 0,
    decreases cs.len(),
{
    if cs.len() > 0 {
        law_same_readings_no_commands(cs.drop_last(), sensors);
        let st = temp_rgb_spec(cs.drop_last(), sensors).0;
        let s1 = temp_rgb_spec(cs, sensors).0;
        assert(s1.drop_last() =~= st);
    }
}

impl TempRgbRunner {
    /// Configuration and last colour of each active group.
    pub open spec fn view(&self) -> Map<GroupId, TempRgbState> {
        assoc_map(self.configs@)
    }

    pub open spec fn wf(&self) -> bool {
        &&& keys_unique(self.configs@)
        &&& self.sensors.wf()
    }

    pub fn new() -> (r: TempRgbRunner)
        ensures
            r.wf(),
            r.configs@.len() == 0,
            r.view() == Map::<GroupId, TempRgbState>::empty(),
            r.sensors.view() == Map::<Sensor, i32>::empty(),
            !r.sensors_dirty,
    {
        TempRgbRunner { configs: Vec::new(), sensors: SensorReadings::new(), sensors_dirty: false }
    }

    /// Activate temperature-reactive RGB for a group (replacing its previous configuration).
    pub fn set(&mut self, group: GroupId, config: TempRgbConfig)
        requires
            old(self).wf(),
        ensures
            final(self).wf(),
            final(self).view() == old(self).view().insert(
                group,
                TempRgbState { config, last_color: None },
            ),
            final(self).sensors == old(self).sensors,
            final(self).sensors_dirty == old(self).sensors_dirty,
    {
        let ghost c0 = self.configs@;
        let e = (group, TempRgbState { config, last_color: None });
        match find_group(&self.configs, group) {
            Some(i) => {
                self.configs.set(i, e);
                proof {
                    assert(self.configs@ == c0.update(i as int, (c0[i as int].0, e.1)));
                    lemma_assoc_update(c0, i as int, e.1);
                }
            },
            None => {
                self.configs.push(e);
                proof {
                    lemma_assoc_push(c0, group, e.1);
                }
            },
        }
    }

    /// Deactivate temperature-reactive RGB for a group.
    pub fn remove(&mut self, group: GroupId)
        requires
            old(self).wf(),
        ensures
            final(self).wf(),
            final(self).view() == old(self).view().remove(group),
            final(self).sensors == old(self).sensors,
            final(self).sensors_dirty == old(self).sensors_dirty,
    {
        let ghost c0 = self.configs@;
        match find_group(&self.configs, group) {
            Some(i) => {
                self.configs.remove(i);
                proof {
                    lemma_assoc_remove(c0, i as int);
                }
            },
            None => {
                proof {
                    lemma_assoc_absent(c0, group);
                    assert(assoc_map(c0).remove(group) =~= assoc_map(c0));
                }
            },
        }
    }

    /// Update a cached sensor reading and mark the readings changed.
    pub fn ingest(&mut self, sensor: Sensor, value_milli: i32)
        requires
            old(self).wf(),
        ensures
            final(self).wf(),
            final(self).sensors.view() == old(self).sensors.view().insert(sensor, value_milli),
            final(self).sensors_dirty,
            final(self).configs@ == old(self).configs@,
    {
        self.sensors.insert(sensor, value_milli);
        self.sensors_dirty = true;
    }

    /// Evaluate all active configs and return RGB commands to apply.
    /// Returns (group, static mode) pairs for groups whose colour changed, and the
    /// matching change events; nothing when no reading changed since the last call.
    pub fn evaluate(&mut self) -> (r: (Vec<(GroupId, RgbMode)>, Vec<(GroupId, RgbMode)>))
        requires
            old(self).wf(),
        ensures
            final(self).wf(),
            !final(self).sensors_dirty,
            final(self).sensors == old(self).sensors,
            !old(self).sensors_dirty ==> r.0@.len() == 0 && r.1@.len() == 0 && final(self).configs@
                == old(self).configs@,
            old(self).sensors_dirty ==> (final(self).configs@, r.0@) == temp_rgb_spec(
                old(self).configs@,
                old(self).sensors.view(),
            ) && r.1@ == r.0@,
    {
        let mut commands: Vec<(GroupId, RgbMode)> = Vec::new();
        let mut events: Vec<(GroupId, RgbMode)> = Vec::new();
        if !self.sensors_dirty {
            return (commands, events);
        }
        self.sensors_dirty = false;
        let ghost c0 = self.configs@;
        let ghost sv = self.sensors.view();
        let mut rest: Vec<(GroupId, TempRgbState)> = Vec::new();
        std::mem::swap(&mut rest, &mut self.configs);
        let mut next: Vec<(GroupId, TempRgbState)> = Vec::new();
        let mut i: usize = 0;
        assert(c0.subrange(0, 0) =~= Seq::<(GroupId, TempRgbState)>::empty());
        assert(rest@ =~= c0.subrange(0, c0.len() as int));
        let total = rest.len();
        while rest.len() > 0
            invariant
                total == c0.len(),
                i <= c0.len(),
                rest@ == c0.subrange(i as int, c0.len() as int),
                self.sensors == old(self).sensors,
                sv == self.sensors.view(),
                !self.sensors_dirty,
                keys_unique(c0),
                self.sensors.wf(),
                (next@, commands@) == temp_rgb_spec(c0.subrange(0, i as int), sv),
                events@ == commands@,
                keys_of(next@) == keys_of(c0.subrange(0, i as int)),
            decreases rest@.len(),
        {
            let ghost n0 = next@;
            let entry = rest.remove(0);
            proof {
                assert(entry == c0[i as int]);
                assert(rest@ =~= c0.subrange(i + 1, c0.len() as int));
                assert(c0.subrange(0, i + 1).drop_last() =~= c0.subrange(0, i as int));
                assert(c0.subrange(0, i + 1).last() == c0[i as int]);
            }
            let g = entry.0;
            let mut state = entry.1;
            match self.sensors.get(state.config.sensor) {
                None => {
                    next.push((g, state));
                },
                Some(t) => {
                    let color = interpolate_gradient(state.config.gradient.as_slice(), t);
                    let same = match state.last_color {
                        Some(c) => c == color,
                        None => false,
                    };
                    if same {
                        next.push((g, state));
                    } else {
                        let ring = state.config.ring;
                        state.last_color = Some(color);
                        commands.push((g, RgbMode::Static { ring, color, brightness: 255 }));
                        events.push((g, RgbMode::Static { ring, color, brightness: 255 }));
                        next.push((g, state));
                    }
                },
            }
            proof {
                assert(next@.len() == n0.len() + 1);
                assert(next@.last().0 == g);
                assert(keys_of(next@) =~= keys_of(n0).push(g));
                assert(keys_of(c0.subrange(0, i + 1)) =~= keys_of(
                    c0.subrange(0, i as int),
                ).push(g));
            }
            i = i + 1;
        }
        proof {
            assert(c0.subrange(0, i as int) =~= c0);
            assert forall|x: int, y: int| 0 <= x < y < next@.len() implies (
            #[trigger] next@[x]).0 != (#[trigger] next@[y]).0 by {
                assert(keys_of(next@)[x] == next@[x].0);
                assert(keys_of(c0)[x] == c0[x].0);
                assert(keys_of(next@)[y] == next@[y].0);
                assert(keys_of(c0)[y] == c0[y].0);
            }
        }
        self.configs = next;
        (commands, events)
    }

    /// Whether any temperature-reactive RGB configs are active.
    pub fn is_active(&self) -> (r: bool)
        ensures
            r == (self.configs@.len() > 0),
    {
        self.configs.len() > 0
    }
}

} // verus!
