//! Fan-curve runner: evaluates each group's fan curve against the cached
//! sensor readings and yields the speeds to apply, limited by the curve's
//! ramp rate. Readings are in milli-degrees Celsius, elapsed time in
//! milliseconds.

use vstd::prelude::*;

use crate::assoc::{
    assoc_map, find_group, keys_of, keys_unique, lemma_assoc_absent, lemma_assoc_push, lemma_assoc_remove,
    lemma_assoc_update,
};
use crate::model::{GroupId, Sensor, SensorReadings};
use crate::temp_rgb::{lerp_channel, lerp_u8};

verus! {

/// A curve point: at `temp` whole degrees Celsius the fans run at `speed` percent.
#[derive(Clone, Copy, Debug, PartialEq, Eq, Structural)]
pub struct CurvePoint {
    pub temp: i32,
    pub speed: u8,
}

/// A fan curve: points sorted by temperature, the sensor it follows, the
/// lowest speed it ever asks for, and the largest change in percent per
/// second, if limited.
#[derive(Clone, Debug)]
pub struct FanCurve {
    pub points: Vec<CurvePoint>,
    pub sensor: Sensor,
    pub min_speed: u8,
    pub ramp_rate: Option<u8>,
}

/// A group's curve and the speed last applied by it.
#[derive(Clone, Debug)]
pub struct CurveState {
    pub curve: FanCurve,
    pub last_speed: Option<u8>,
}

/// A speed that a curve applied, and the temperature (whole degrees) it read.
#[derive(Clone, Copy, Debug, PartialEq, Eq, Structural)]
pub struct CurveApplied {
    pub group: GroupId,
    pub speed: u8,
    pub temp: i32,
}

/// Manages curve evaluation and ramp-rate limiting per group.
#[derive(Debug)]
pub struct CurveRunner {
    pub curves: Vec<(GroupId, CurveState)>,
    pub sensors: SensorReadings,
    /// Set when a reading changed; cleared by an evaluation.
    pub sensors_dirty: bool,
}

/// Speed between two points at `t` degrees, rounded to nearest; the lower
/// point's speed for a segment of zero width.
pub open spec fn lerp_speed(lo: CurvePoint, hi: CurvePoint, t: int) -> u8 {
    let d = hi.temp - lo.temp;
    if d == 0 {
        lo.speed
    } else {
        lerp_channel(lo.speed, hi.speed, t - lo.temp, d) as u8
    }
}

/// First segment from `i` on that contains `t`, interpolated; the last
/// speed when none does.
pub open spec fn segment_speed(ps: Seq<CurvePoint>, t: int, i: int) -> u8
    decreases ps.len() - i,
{
    if i + 1 >= ps.len() {
        ps.last().speed
    } else if ps[i].temp <= t <= ps[i + 1].temp {
        lerp_speed(ps[i], ps[i + 1], t)
    } else {
        segment_speed(ps, t, i + 1)
    }
}

/// Speed of the points at `t` degrees: zero without points, the end speeds
/// outside their range, linearly interpolated between them.
pub open spec fn points_speed(ps: Seq<CurvePoint>, t: int) -> u8 {
    if ps.len() == 0 {
        0
    } else if ps.len() == 1 || t <= ps[0].temp {
        ps[0].speed
    } else if t >= ps.last().temp {
        ps.last().speed
    } else {
        segment_speed(ps, t, 0)
    }
}

/// The curve's speed at `t` degrees, never below its minimum.
pub open spec fn curve_speed(c: FanCurve, t: int) -> u8 {
    let s = points_speed(c.points@, t);
    if s < c.min_speed {
        c.min_speed
    } else {
        s
    }
}

/// Whole degrees of a reading in milli-degrees, truncated towards zero.
pub open spec fn degrees(milli: i32) -> int {
    if milli >= 0 {
        milli / 1000
    } else {
        -((-milli) / 1000)
    }
}

/// Largest change allowed after `elapsed_ms` at `ramp` percent per second:
/// rounded to nearest, at least 1 and at most 255.
pub open spec fn max_step(ramp: u8, elapsed_ms: u64) -> int {
    let r = (ramp * elapsed_ms + 500) / 1000;
    if r < 1 {
        1
    } else if r > 255 {
        255
    } else {
        r
    }
}

/// The speed applied for `target`: with a ramp rate and an earlier speed, a
/// change larger than the allowed step moves by that step only.
pub open spec fn ramped(target: u8, last: Option<u8>, ramp: Option<u8>, elapsed_ms: u64) -> u8 {
    match (ramp, last) {
        (Some(r), Some(l)) => {
            let m = max_step(r, elapsed_ms);
            if target > l && target - l > m {
                (l + m) as u8
            } else if target < l && l - target > m {
                (l - m) as u8
            } else {
                target
            }
        },
        _ => target,
    }
}

/// The speed a curve state applies with the reading `milli`.
pub open spec fn applied_speed(s: CurveState, milli: i32, elapsed_ms: u64) -> u8 {
    ramped(curve_speed(s.curve, degrees(milli)), s.last_speed, s.curve.ramp_rate, elapsed_ms)
}

/// Evaluation of the groups in order: the new states and the speeds applied.
/// A group whose sensor has no reading, or whose speed would not change, is
/// left as it is.
pub open spec fn curves_spec(cs: Seq<(GroupId, CurveState)>, sensors: Map<Sensor, i32>, elapsed_ms: u64) -> (
    Seq<(GroupId, CurveState)>,
    Seq<CurveApplied>,
)
    decreases cs.len(),
{
    if cs.len() == 0 {
        (Seq::empty(), Seq::empty())
    } else {
        let (st, evs) = curves_spec(cs.drop_last(), sensors, elapsed_ms);
        let (g, s) = cs.last();
        if !sensors.contains_key(s.curve.sensor) {
            (st.push((g, s)), evs)
        } else {
            let milli = sensors[s.curve.sensor];
            let actual = applied_speed(s, milli, elapsed_ms);
            if s.last_speed == Some(actual) {
                (st.push((g, s)), evs)
            } else {
                (
                    st.push((g, CurveState { curve: s.curve, last_speed: Some(actual) })),
                    evs.push(CurveApplied { group: g, speed: actual, temp: degrees(milli) as i32 }),
                )
            }
        }
    }
}

/// Whether a reading differs from the cached one by more than half a degree
/// (or there is none).
pub open spec fn reading_changed(m: Map<Sensor, i32>, s: Sensor, v: i32) -> bool {
    !m.contains_key(s) || m[s] - v > 500 || v - m[s] > 500
}

/// The readings cached after taking `rs` in order, and those that changed.
pub open spec fn ingest_spec(m: Map<Sensor, i32>, rs: Seq<(Sensor, i32)>) -> (Map<Sensor, i32>, Seq<(Sensor, i32)>)
    decreases rs.len(),
{
    if rs.len() == 0 {
        (m, Seq::empty())
    } else {
        let (m1, evs) = ingest_spec(m, rs.drop_last());
        let (s, v) = rs.last();
        if reading_changed(m1, s, v) {
            (m1.insert(s, v), evs.push((s, v)))
        } else {
            (m1, evs)
        }
    }
}

/// The ramp limit holds: with a ramp rate and an earlier speed, the applied
/// speed is never further from the earlier one than the allowed step, and
/// lies between the earlier speed and the target.
pub proof fn law_ramp_bounded(target: u8, last: u8, ramp: u8, elapsed_ms: u64)
    ensures
        ({
            let a = ramped(target, Some(last), Some(ramp), elapsed_ms);
            &&& a - last <= max_step(ramp, elapsed_ms)
            &&& last - a <= max_step(ramp, elapsed_ms)
            &&& (last <= a <= target || target <= a <= last)
        }),
{
}

/// Without a ramp rate a curve lands on its target at once.
pub proof fn law_unlimited_reaches_target(s: CurveState, milli: i32, elapsed_ms: u64)
    requires
        s.curve.ramp_rate is None,
    ensures
        applied_speed(s, milli, elapsed_ms) == curve_speed(s.curve, degrees(milli)),
{
}

/// Speeds follow the readings only: evaluating the states that an evaluation
/// left behind against the same readings, with no ramp rate, applies nothing.
pub proof fn law_same_readings_settle(cs: Seq<(GroupId, CurveState)>, sensors: Map<Sensor, i32>, elapsed_ms: u64)
    requires
        forall|i: int| 0 <= i < cs.len() ==> (#[trigger] cs[i]).1.curve.ramp_rate is None,
    ensures
        curves_spec(curves_spec(cs, sensors, elapsed_ms).0, sensors, elapsed_ms).1.len() == 0,
    decreases cs.len(),
{
    if cs.len() > 0 {
        assert forall|i: int| 0 <= i < cs.drop_last().len() implies (#[trigger] cs.drop_last()[i]).1.curve.ramp_rate is None by {
            assert(cs.drop_last()[i] == cs[i]);
        }
        law_same_readings_settle(cs.drop_last(), sensors, elapsed_ms);
        let st = curves_spec(cs.drop_last(), sensors, elapsed_ms).0;
        let s1 = curves_spec(cs, sensors, elapsed_ms).0;
        assert(s1.drop_last() =~= st);
        assert(cs[cs.len() - 1] == cs.last());
    }
}

fn lerp_speed_exec(lo: CurvePoint, hi: CurvePoint, t: i64) -> (s: u8)
    requires
        lo.temp <= t <= hi.temp,
    ensures
        s == lerp_speed(lo, hi, t as int),
{
    let d = hi.temp as i64 - lo.temp as i64;
    if d == 0 {
        lo.speed
    } else {
        lerp_u8(lo.speed, hi.speed, t - lo.temp as i64, d)
    }
}

/// Speed of the curve's points at `t` whole degrees.
pub fn points_speed_at(points: &[CurvePoint], t: i32) -> (s: u8)
    ensures
        s == points_speed(points@, t as int),
{
    let len = points.len();
    if len == 0 {
        return 0;
    }
    if len == 1 || t <= points[0].temp {
        return points[0].speed;
    }
    if t >= points[len - 1].temp {
        return points[len - 1].speed;
    }
    let mut i: usize = 0;
    while i + 1 < len
        invariant
            len == points@.len(),
            len >= 2,
            i + 1 <= len,
            points_speed(points@, t as int) == segment_speed(points@, t as int, i as int),
            points@[0].temp < t < points@.last().temp,
        decreases len - i,
    {
        let lo = points[i];
        let hi = points[i + 1];
        if lo.temp <= t && t <= hi.temp {
            assert(lo == points@[i as int] && hi == points@[i + 1]);
            return lerp_speed_exec(lo, hi, t as i64);
        }
        i = i + 1;
    }
    points[len - 1].speed
}

/// The curve's speed at `t` whole degrees.
pub fn speed_at_temp(curve: &FanCurve, t: i32) -> (s: u8)
    ensures
        s == curve_speed(*curve, t as int),
{
    let s = points_speed_at(curve.points.as_slice(), t);
    if s < curve.min_speed {
        curve.min_speed
    } else {
        s
    }
}

/// Whole degrees of a reading in milli-degrees.
pub fn whole_degrees(milli: i32) -> (t: i32)
    ensures
        t == degrees(milli),
{
    let m = milli as i64;
    let t = if m >= 0 {
        m / 1000
    } else {
        -((-m) / 1000)
    };
    t as i32
}

/// The speed applied for `target` after `elapsed_ms`.
pub fn ramp_limit(target: u8, last: Option<u8>, ramp: Option<u8>, elapsed_ms: u64) -> (a: u8)
    ensures
        a == ramped(target, last, ramp, elapsed_ms),
{
    match (ramp, last) {
        (Some(r), Some(l)) => {
            let r128: u128 = r as u128;
            let e128: u128 = elapsed_ms as u128;
            assert(r128 * e128 <= 255 * 18446744073709551615) by (nonlinear_arith)
                requires
                    r128 <= 255,
                    e128 <= 18446744073709551615,
            ;
            let prod: u128 = r128 * e128;
            let q: u128 = (prod + 500) / 1000;
            let m: u8 = if q < 1 {
                1
            } else if q > 255 {
                255
            } else {
                q as u8
            };
            assert(m == max_step(r, elapsed_ms));
            if target > l && target - l > m {
                l + m
            } else if target < l && l - target > m {
                l - m
            } else {
                target
            }
        },
        _ => target,
    }
}

impl CurveRunner {
    /// Curve state of each active group.
    pub open spec fn view(&self) -> Map<GroupId, CurveState> {
        assoc_map(self.curves@)
    }

    pub open spec fn wf(&self) -> bool {
        &&& keys_unique(self.curves@)
        &&& self.sensors.wf()
    }

    pub fn new() -> (r: CurveRunner)
        ensures
            r.wf(),
            r.curves@.len() == 0,
            r.view() == Map::<GroupId, CurveState>::empty(),
            r.sensors.view() == Map::<Sensor, i32>::empty(),
            !r.sensors_dirty,
    {
        CurveRunner { curves: Vec::new(), sensors: SensorReadings::new(), sensors_dirty: false }
    }

    /// Sets the curve of a group, replacing any earlier one; no speed has
    /// been applied by it yet.
    pub fn set_curve(&mut self, group: GroupId, curve: FanCurve)
        requires
            old(self).wf(),
        ensures
            final(self).wf(),
            final(self).view() == old(self).view().insert(group, CurveState { curve, last_speed: None }),
            final(self).sensors == old(self).sensors,
            final(self).sensors_dirty == old(self).sensors_dirty,
    {
        let ghost c0 = self.curves@;
        let e = (group, CurveState { curve, last_speed: None });
        match find_group(&self.curves, group) {
            Some(i) => {
                self.curves.set(i, e);
                proof {
                    assert(self.curves@ == c0.update(i as int, (c0[i as int].0, e.1)));
                    lemma_assoc_update(c0, i as int, e.1);
                }
            },
            None => {
                self.curves.push(e);
                proof {
                    lemma_assoc_push(c0, group, e.1);
                }
            },
        }
    }

    /// Removes the curve of a group (when it switches to a fixed speed).
    pub fn remove_curve(&mut self, group: GroupId)
        requires
            old(self).wf(),
        ensures
            final(self).wf(),
            final(self).view() == old(self).view().remove(group),
            final(self).sensors == old(self).sensors,
            final(self).sensors_dirty == old(self).sensors_dirty,
    {
        let ghost c0 = self.curves@;
        match find_group(&self.curves, group) {
            Some(i) => {
                self.curves.remove(i);
                proof {
                    lemma_assoc_remove(c0, i as int);
                }
            },
            None => {
                proof {
                    lemma_assoc_absent(c0, group);
                    assert(assoc_map(c0).remove(group) =~= assoc_map(c0));
                }
            },
        }
    }

    /// Whether any curves are active.
    pub fn is_active(&self) -> (r: bool)
        ensures
            r == (self.curves@.len() > 0),
    {
        self.curves.len() > 0
    }

    /// Takes readings in milli-degrees in order; a reading that moved by
    /// more than half a degree (or is the sensor's first) is cached, marks
    /// the readings changed, and is returned.
    pub fn ingest_readings(&mut self, readings: &[(Sensor, i32)]) -> (changed: Vec<(Sensor, i32)>)
        requires
            old(self).wf(),
        ensures
            final(self).wf(),
            (final(self).sensors.view(), changed@) == ingest_spec(old(self).sensors.view(), readings@),
            final(self).sensors_dirty == (old(self).sensors_dirty || changed@.len() > 0),
            final(self).curves@ == old(self).curves@,
    {
        let mut changed: Vec<(Sensor, i32)> = Vec::new();
        let mut i: usize = 0;
        let ghost m0 = self.sensors.view();
        while i < readings.len()
            invariant
                i <= readings@.len(),
                self.wf(),
                self.curves@ == old(self).curves@,
                m0 == old(self).sensors.view(),
                (self.sensors.view(), changed@) == ingest_spec(m0, readings@.subrange(0, i as int)),
                self.sensors_dirty == (old(self).sensors_dirty || changed@.len() > 0),
            decreases readings@.len() - i,
        {
            let (s, v) = readings[i];
            proof {
                assert(readings@.subrange(0, i + 1).drop_last() =~= readings@.subrange(0, i as int));
                assert(readings@.subrange(0, i + 1).last() == readings@[i as int]);
            }
            let differs = match self.sensors.get(s) {
                None => true,
                Some(prev) => (prev as i64 - v as i64) > 500 || (v as i64 - prev as i64) > 500,
            };
            if differs {
                self.sensors.insert(s, v);
                self.sensors_dirty = true;
                changed.push((s, v));
            }
            i = i + 1;
        }
        proof {
            assert(readings@.subrange(0, i as int) =~= readings@);
        }
        changed
    }

    /// Evaluates every active curve against the cached readings, `elapsed_ms`
    /// after the last evaluation. Returns the speed commands and the
    /// matching applied events, for the groups whose speed changes; nothing
    /// when no reading changed since the last call.
    pub fn evaluate(&mut self, elapsed_ms: u64) -> (r: (Vec<(GroupId, u8)>, Vec<CurveApplied>))
        requires
            old(self).wf(),
        ensures
            final(self).wf(),
            !final(self).sensors_dirty,
            final(self).sensors == old(self).sensors,
            !old(self).sensors_dirty ==> r.0@.len() == 0 && r.1@.len() == 0 && final(self).curves@
                == old(self).curves@,
            old(self).sensors_dirty ==> (final(self).curves@, r.1@) == curves_spec(
                old(self).curves@,
                old(self).sensors.view(),
                elapsed_ms,
            ),
            r.0@ == r.1@.map_values(|e: CurveApplied| (e.group, e.speed)),
    {
        let mut commands: Vec<(GroupId, u8)> = Vec::new();
        let mut events: Vec<CurveApplied> = Vec::new();
        if !self.sensors_dirty {
            proof {
                assert(commands@ =~= events@.map_values(|e: CurveApplied| (e.group, e.speed)));
            }
            return (commands, events);
        }
        self.sensors_dirty = false;
        let ghost c0 = self.curves@;
        let ghost sv = self.sensors.view();
        let mut rest: Vec<(GroupId, CurveState)> = Vec::new();
        std::mem::swap(&mut rest, &mut self.curves);
        let mut next: Vec<(GroupId, CurveState)> = Vec::new();
        let mut i: usize = 0;
        assert(c0.subrange(0, 0) =~= Seq::<(GroupId, CurveState)>::empty());
        assert(rest@ =~= c0.subrange(0, c0.len() as int));
        let total = rest.len();
        while rest.len() > 0
            invariant
                total == c0.len(),
                i <= c0.len(),
                rest@ == c0.subrange(i as int, c0.len() as int),
                self.sensors == old(self).sensors,
                sv == self.sensors.view(),
                !self.sensors_dirty,
                keys_unique(c0),
                self.sensors.wf(),
                (next@, events@) == curves_spec(c0.subrange(0, i as int), sv, elapsed_ms),
                commands@ == events@.map_values(|e: CurveApplied| (e.group, e.speed)),
                keys_of(next@) == keys_of(c0.subrange(0, i as int)),
            decreases rest@.len(),
        {
            let ghost n0 = next@;
            let ghost e0 = events@;
            let ghost k0 = commands@;
            let entry = rest.remove(0);
            proof {
                assert(entry == c0[i as int]);
                assert(rest@ =~= c0.subrange(i + 1, c0.len() as int));
                assert(c0.subrange(0, i + 1).drop_last() =~= c0.subrange(0, i as int));
                assert(c0.subrange(0, i + 1).last() == c0[i as int]);
            }
            let g = entry.0;
            let mut state = entry.1;
            match self.sensors.get(state.curve.sensor) {
                None => {
                    next.push((g, state));
                },
                Some(milli) => {
                    let t = whole_degrees(milli);
                    let target = speed_at_temp(&state.curve, t);
                    let actual = ramp_limit(target, state.last_speed, state.curve.ramp_rate, elapsed_ms);
                    let same = match state.last_speed {
                        Some(l) => l == actual,
                        None => false,
                    };
                    if same {
                        next.push((g, state));
                    } else {
                        state.last_speed = Some(actual);
                        let ev = CurveApplied { group: g, speed: actual, temp: t };
                        commands.push((g, actual));
                        events.push(ev);
                        next.push((g, state));
                        proof {
                            assert(events@ =~= e0.push(ev));
                            assert(commands@ =~= k0.push((g, actual)));
                            assert(events@.map_values(|e: CurveApplied| (e.group, e.speed)) =~= e0.map_values(
                                |e: CurveApplied| (e.group, e.speed),
                            ).push((g, actual)));
                        }
                    }
                },
            }
            proof {
                assert(next@.len() == n0.len() + 1);
                assert(next@.last().0 == g);
                assert(keys_of(next@) =~= keys_of(n0).push(g));
                assert(keys_of(c0.subrange(0, i + 1)) =~= keys_of(c0.subrange(0, i as int)).push(g));
            }
            i = i + 1;
        }
        proof {
            assert(c0.subrange(0, i as int) =~= c0);
            assert forall|x: int, y: int| 0 <= x < y < next@.len() implies (#[trigger] next@[x]).0 != (
            #[trigger] next@[y]).0 by {
                assert(keys_of(next@)[x] == next@[x].0);
                assert(keys_of(c0)[x] == c0[x].0);
                assert(keys_of(next@)[y] == next@[y].0);
                assert(keys_of(c0)[y] == c0[y].0);
            }
        }
        self.curves = next;
        (commands, events)
    }
}


/// A curve that reaches full speed well above the hottest reading seen: the
/// group, the sensor, the peak reading (milli-degrees) and the temperature
/// of the curve's last point (whole degrees).
#[derive(Clone, Copy, Debug, PartialEq, Eq, Structural)]
pub struct CurveSuggestion {
    pub group: GroupId,
    pub sensor: Sensor,
    pub observed_max_milli: i32,
    pub curve_max_temp: i32,
}

/// The peak of each sensor after the readings `rs` in order: the largest
/// reading seen, and never below zero.
pub open spec fn peaks_spec(m: Map<Sensor, i32>, rs: Seq<(Sensor, i32)>) -> Map<Sensor, i32>
    decreases rs.len(),
{
    if rs.len() == 0 {
        m
    } else {
        let m1 = peaks_spec(m, rs.drop_last());
        let (s, v) = rs.last();
        let old_peak = if m1.contains_key(s) {
            m1[s]
        } else {
            0
        };
        m1.insert(s, if v > old_peak { v } else { old_peak })
    }
}

/// Records the readings in the peaks.
pub fn record_peaks(peaks: &mut SensorReadings, readings: &[(Sensor, i32)])
    requires
        old(peaks).wf(),
    ensures
        final(peaks).wf(),
        final(peaks).view() == peaks_spec(old(peaks).view(), readings@),
{
    let mut i: usize = 0;
    let ghost m0 = peaks.view();
    while i < readings.len()
        invariant
            i <= readings@.len(),
            peaks.wf(),
            m0 == old(peaks).view(),
            peaks.view() == peaks_spec(m0, readings@.subrange(0, i as int)),
        decreases readings@.len() - i,
    {
        let (s, v) = readings[i];
        proof {
            assert(readings@.subrange(0, i + 1).drop_last() =~= readings@.subrange(0, i as int));
            assert(readings@.subrange(0, i + 1).last() == readings@[i as int]);
        }
        let old_peak = match peaks.get(s) {
            Some(p) => p,
            None => 0,
        };
        peaks.insert(s, if v > old_peak { v } else { old_peak });
        i = i + 1;
    }
    proof {
        assert(readings@.subrange(0, i as int) =~= readings@);
    }
}

/// The suggestions for the curves in order: a curve with points whose
/// sensor has a peak more than 10 degrees below its last point's
/// temperature.
pub open spec fn suggestions_spec(cs: Seq<(GroupId, CurveState)>, peaks: Map<Sensor, i32>) -> Seq<CurveSuggestion>
    decreases cs.len(),
{
    if cs.len() == 0 {
        Seq::empty()
    } else {
        let rest = suggestions_spec(cs.drop_last(), peaks);
        let (g, st) = cs.last();
        let c = st.curve;
        if peaks.contains_key(c.sensor) && c.points@.len() > 0 && c.points@.last().temp * 1000 - peaks[c.sensor]
            > 10000 {
            rest.push(
                CurveSuggestion {
                    group: g,
                    sensor: c.sensor,
                    observed_max_milli: peaks[c.sensor],
                    curve_max_temp: c.points@.last().temp,
                },
            )
        } else {
            rest
        }
    }
}

impl CurveRunner {
    /// The active curves that reach full speed more than 10 degrees above
    /// the peak reading of their sensor, in order.
    pub fn curve_suggestions(&self, peaks: &SensorReadings) -> (r: Vec<CurveSuggestion>)
        requires
            peaks.wf(),
        ensures
            r@ == suggestions_spec(self.curves@, peaks.view()),
    {
        let mut r: Vec<CurveSuggestion> = Vec::new();
        let mut i: usize = 0;
        while i < self.curves.len()
            invariant
                i <= self.curves@.len(),
                peaks.wf(),
                r@ == suggestions_spec(self.curves@.subrange(0, i as int), peaks.view()),
            decreases self.curves@.len() - i,
        {
            proof {
                assert(self.curves@.subrange(0, i + 1).drop_last() =~= self.curves@.subrange(0, i as int));
                assert(self.curves@.subrange(0, i + 1).last() == self.curves@[i as int]);
            }
            let c = &self.curves[i].1.curve;
            let n = c.points.len();
            match peaks.get(c.sensor) {
                Some(peak) => if n > 0 {
                    let top = c.points[n - 1].temp;
                    if top as i64 * 1000 - peak as i64 > 10000 {
                        r.push(
                            CurveSuggestion {
                                group: self.curves[i].0,
                                sensor: c.sensor,
                                observed_max_milli: peak,
                                curve_max_temp: top,
                            },
                        );
                    }
                },
                None => {},
            }
            i = i + 1;
        }
        proof {
            assert(self.curves@.subrange(0, i as int) =~= self.curves@);
        }
        r
    }
}

/// The distance between two readings.
pub open spec fn reading_gap(a: i32, b: i32) -> int {
    if a >= b {
        a - b
    } else {
        b - a
    }
}

/// A reading is taken whenever it moves more than half a degree from the
/// cached one, up or down, or is the sensor's first: it is cached and
/// reported. A reading within half a degree of the cached one changes
/// nothing and is not reported.
pub proof fn law_reading_taken_both_ways(m: Map<Sensor, i32>, s: Sensor, v: i32)
    ensures
        (!m.contains_key(s) || reading_gap(v, m[s]) > 500) ==> ingest_spec(m, seq![(s, v)]) == (
            m.insert(s, v),
            seq![(s, v)],
        ),
        (m.contains_key(s) && reading_gap(v, m[s]) <= 500) ==> ingest_spec(m, seq![(s, v)]) == (
            m,
            Seq::<(Sensor, i32)>::empty(),
        ),
{
    let rs = seq![(s, v)];
    let e = Seq::<(Sensor, i32)>::empty();
    assert(rs.drop_last() =~= e);
    assert(rs.last() == (s, v));
    assert(ingest_spec(m, e) == (m, e));
    assert(e.push((s, v)) =~= rs);
    if m.contains_key(s) {
        assert(reading_changed(m, s, v) == (reading_gap(v, m[s]) > 500));
    }
}

/// Readings of different sensors do not disturb each other: after a run of
/// readings, a sensor's cached value is its last reading that was taken,
/// and taking a reading of one sensor leaves the others' cached values as
/// they were.
pub proof fn law_reading_keeps_other_sensors(m: Map<Sensor, i32>, rs: Seq<(Sensor, i32)>, s: Sensor, other: Sensor, v: i32)
    requires
        other != s,
    ensures
        ingest_spec(m, rs.push((s, v))).0.contains_key(other) == ingest_spec(m, rs).0.contains_key(other),
        ingest_spec(m, rs).0.contains_key(other) ==> ingest_spec(m, rs.push((s, v))).0[other] == ingest_spec(
            m,
            rs,
        ).0[other],
{
    assert(rs.push((s, v)).drop_last() =~= rs);
}
} // verus!
