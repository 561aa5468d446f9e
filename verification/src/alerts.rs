//! Alert runner — evaluates temperature thresholds and emits alert events.
//!
//! Monitors sensor readings and triggers an alert event when a configured
//! threshold is crossed. Uses 2°C hysteresis to prevent flapping at
//! boundary temperatures. Readings are in milli-degrees Celsius.

use vstd::prelude::*;

use crate::model::{Sensor, SensorReadings};

verus! {

/// Hysteresis: sensor must drop this many milli-degrees below threshold to clear.
pub const HYSTERESIS_MILLI: i32 = 2000;

/// What to do when an alert fires.
#[derive(Debug, Clone, PartialEq, Eq)]
pub enum AlertAction {
    Notify,
    /// Set all fan-capable groups to this speed percentage.
    SetSpeed(u8),
    SwitchProfile(String),
}

/// A temperature threshold on one sensor.
#[derive(Debug, Clone)]
pub struct TempAlert {
    pub sensor: Sensor,
    /// Threshold in whole degrees Celsius.
    pub threshold: u8,
    pub action: AlertAction,
}

/// Alert configuration.
#[derive(Debug, Clone)]
pub struct AlertConfig {
    pub temp_alerts: Vec<TempAlert>,
    pub fan_stall_detect: bool,
    pub device_disconnect: bool,
}

/// A fired alert.
#[derive(Debug, Clone, Copy, PartialEq, Eq, Structural)]
pub struct AlertEvent {
    pub sensor: Sensor,
    pub value_milli: i32,
    pub threshold: u8,
}

/// Evaluates temperature alerts against cached sensor readings.
#[derive(Debug)]
pub struct AlertRunner {
    pub config: Option<AlertConfig>,
    /// Per-alert firing state (indexed as `config.temp_alerts`).
    pub states: Vec<bool>,
    /// Cached sensor readings (populated by `ingest`).
    pub sensors: SensorReadings,
}

/// Threshold in milli-degrees.
pub open spec fn threshold_milli(t: u8) -> int {
    t as int * 1000
}

/// Firing states and fired alerts after evaluating the alerts in order.
pub open spec fn evaluate_spec(alerts: Seq<TempAlert>, states: Seq<bool>, sensors: Map<Sensor, i32>) -> (
    Seq<bool>,
    Seq<AlertEvent>,
)
    decreases alerts.len(),
{
    if alerts.len() == 0 {
        (states, Seq::empty())
    } else {
        let n = alerts.len() - 1;
        let (st, evs) = evaluate_spec(alerts.drop_last(), states, sensors);
        let a = alerts.last();
        if !sensors.contains_key(a.sensor) {
            (st, evs)
        } else {
            let v = sensors[a.sensor];
            if !st[n] && v >= threshold_milli(a.threshold) {
                (
                    st.update(n, true),
                    evs.push(AlertEvent { sensor: a.sensor, value_milli: v, threshold: a.threshold }),
                )
            } else if st[n] && v < threshold_milli(a.threshold) - HYSTERESIS_MILLI {
                (st.update(n, false), evs)
            } else {
                (st, evs)
            }
        }
    }
}

/// Actions of the alerts on the fired alert's sensor and threshold, in order.
pub open spec fn actions_matching(alerts: Seq<TempAlert>, ev: AlertEvent) -> Seq<AlertAction>
    decreases alerts.len(),
{
    if alerts.len() == 0 {
        Seq::empty()
    } else {
        let rest = actions_matching(alerts.drop_last(), ev);
        let a = alerts.last();
        if a.sensor == ev.sensor && a.threshold == ev.threshold {
            rest.push(a.action)
        } else {
            rest
        }
    }
}

/// A copy of an alert action.
pub fn copy_action(a: &AlertAction) -> (r: AlertAction)
    ensures
        r == *a,
{
    match a {
        AlertAction::Notify => AlertAction::Notify,
        AlertAction::SetSpeed(p) => AlertAction::SetSpeed(*p),
        AlertAction::SwitchProfile(name) => AlertAction::SwitchProfile(name.clone()),
    }
}

impl AlertRunner {
    /// One firing state per configured alert.
    pub open spec fn wf(&self) -> bool {
        &&& self.sensors.wf()
        &&& match self.config {
            Some(c) => self.states@.len() == c.temp_alerts@.len(),
            None => self.states@.len() == 0,
        }
    }

    pub fn new() -> (r: AlertRunner)
        ensures
            r.wf(),
            r.config is None,
            r.sensors.view() == Map::<Sensor, i32>::empty(),
    {
        AlertRunner { config: None, states: Vec::new(), sensors: SensorReadings::new() }
    }

    /// Load or replace alert configuration; every alert starts inactive.
    pub fn set_config(&mut self, config: AlertConfig)
        requires
            old(self).wf(),
        ensures
            final(self).wf(),
            final(self).config == Some(config),
            final(self).states@ == Seq::new(config.temp_alerts@.len(), |i: int| false),
            final(self).sensors == old(self).sensors,
    {
        let mut states: Vec<bool> = Vec::new();
        let n = config.temp_alerts.len();
        let mut i: usize = 0;
        while i < n
            invariant
                i <= n,
                states@ == Seq::new(i as nat, |k: int| false),
            decreases n - i,
        {
            states.push(false);
            assert(states@ =~= Seq::new((i + 1) as nat, |k: int| false));
            i = i + 1;
        }
        self.states = states;
        self.config = Some(config);
    }

    /// Clear alert configuration (disables all monitoring).
    pub fn clear(&mut self)
        requires
            old(self).wf(),
        ensures
            final(self).wf(),
            final(self).config is None,
            final(self).states@.len() == 0,
            final(self).sensors == old(self).sensors,
    {
        self.config = None;
        self.states.clear();
    }

    /// Update the cached reading of a sensor.
    pub fn ingest(&mut self, sensor: Sensor, value_milli: i32)
        requires
            old(self).wf(),
        ensures
            final(self).wf(),
            final(self).sensors.view() == old(self).sensors.view().insert(sensor, value_milli),
            final(self).config == old(self).config,
            final(self).states@ == old(self).states@,
    {
        self.sensors.insert(sensor, value_milli);
    }

    /// Evaluate all configured alerts against current sensor readings.
    /// Returns events for newly triggered alerts.
    pub fn evaluate(&mut self) -> (events: Vec<AlertEvent>)
        requires
            old(self).wf(),
        ensures
            final(self).wf(),
            final(self).config == old(self).config,
            final(self).sensors == old(self).sensors,
            old(self).config is None ==> events@.len() == 0 && final(self).states@ == old(
                self,
            ).states@,
            old(self).config matches Some(c) ==> (final(self).states@, events@) == evaluate_spec(
                c.temp_alerts@,
                old(self).states@,
                old(self).sensors.view(),
            ),
    {
        let mut events: Vec<AlertEvent> = Vec::new();
        match &self.config {
            None => {
                return events;
            },
            Some(c) => {
                let ghost alerts = c.temp_alerts@;
                let ghost s0 = self.states@;
                let mut i: usize = 0;
                assert(alerts.subrange(0, 0) =~= Seq::<TempAlert>::empty());
                while i < c.temp_alerts.len()
                    invariant
                        i <= alerts.len(),
                        alerts == c.temp_alerts@,
                        self.config == old(self).config,
                        self.sensors == old(self).sensors,
                        self.states@.len() == alerts.len(),
                        s0.len() == alerts.len(),
                        self.sensors.wf(),
                        (self.states@, events@) == evaluate_spec(
                            alerts.subrange(0, i as int),
                            s0,
                            self.sensors.view(),
                        ),
                    decreases alerts.len() - i,
                {
                    assert(alerts.subrange(0, i + 1).drop_last() =~= alerts.subrange(0, i as int));
                    assert(alerts.subrange(0, i + 1).last() == alerts[i as int]);
                    let alert = &c.temp_alerts[i];
                    match self.sensors.get(alert.sensor) {
                        None => {},
                        Some(v) => {
                            let th: i32 = alert.threshold as i32 * 1000;
                            let active = self.states[i];
                            if !active && v >= th {
                                self.states.set(i, true);
                                events.push(
                                    AlertEvent {
                                        sensor: alert.sensor,
                                        value_milli: v,
                                        threshold: alert.threshold,
                                    },
                                );
                            } else if active && (v as i64) < (th as i64) - 2000 {
                                self.states.set(i, false);
                            }
                        },
                    }
                    i = i + 1;
                }
                assert(alerts.subrange(0, i as int) =~= alerts);
            },
        }
        events
    }

    /// Alerts that are currently active, in configuration order.
    /// Call after `evaluate()` to get actions that need executing.
    pub fn pending_actions(&self) -> (r: Vec<&TempAlert>)
        requires
            self.wf(),
        ensures
            self.config is None ==> r@.len() == 0,
            self.config matches Some(c) ==> r@.map_values(|a: &TempAlert| *a) == active_alerts(
                c.temp_alerts@,
                self.states@,
            ),
    {
        let mut out: Vec<&TempAlert> = Vec::new();
        match &self.config {
            None => out,
            Some(c) => {
                let ghost alerts = c.temp_alerts@;
                let mut i: usize = 0;
                assert(alerts.subrange(0, 0) =~= Seq::<TempAlert>::empty());
                while i < c.temp_alerts.len()
                    invariant
                        i <= alerts.len(),
                        alerts == c.temp_alerts@,
                        self.states@.len() == alerts.len(),
                        out@.map_values(|a: &TempAlert| *a) == active_alerts(
                            alerts.subrange(0, i as int),
                            self.states@.subrange(0, i as int),
                        ),
                    decreases alerts.len() - i,
                {
                    assert(alerts.subrange(0, i + 1).drop_last() =~= alerts.subrange(0, i as int));
                    assert(self.states@.subrange(0, i + 1).drop_last() =~= self.states@.subrange(
                        0,
                        i as int,
                    ));
                    let ghost before = out@;
                    if self.states[i] {
                        out.push(&c.temp_alerts[i]);
                        assert(out@.map_values(|a: &TempAlert| *a) =~= before.map_values(
                            |a: &TempAlert| *a,
                        ).push(alerts[i as int]));
                    }
                    i = i + 1;
                }
                assert(alerts.subrange(0, i as int) =~= alerts);
                assert(self.states@.subrange(0, i as int) =~= self.states@);
                out
            },
        }
    }

    /// Actions to carry out for a fired alert: those of the active alerts on
    /// the same sensor and threshold, in configuration order.
    pub fn actions_for(&self, alert: &AlertEvent) -> (r: Vec<AlertAction>)
        requires
            self.wf(),
        ensures
            self.config is None ==> r@.len() == 0,
            self.config matches Some(c) ==> r@ == actions_matching(
                active_alerts(c.temp_alerts@, self.states@),
                *alert,
            ),
    {
        let pending = self.pending_actions();
        let ghost alerts = pending@.map_values(|a: &TempAlert| *a);
        let mut out: Vec<AlertAction> = Vec::new();
        let mut i: usize = 0;
        assert(alerts.subrange(0, 0) =~= Seq::<TempAlert>::empty());
        while i < pending.len()
            invariant
                i <= pending@.len(),
                alerts == pending@.map_values(|a: &TempAlert| *a),
                out@ == actions_matching(alerts.subrange(0, i as int), *alert),
            decreases pending@.len() - i,
        {
            let a = pending[i];
            assert(alerts.subrange(0, i + 1).drop_last() =~= alerts.subrange(0, i as int));
            assert(alerts.subrange(0, i + 1).last() == *a);
            if a.sensor == alert.sensor && a.threshold == alert.threshold {
                out.push(copy_action(&a.action));
            }
            i = i + 1;
        }
        assert(alerts.subrange(0, i as int) =~= alerts);
        out
    }

    /// Whether alert monitoring is configured.
    pub fn is_active(&self) -> (r: bool)
        ensures
            r == (self.config matches Some(c) && c.temp_alerts@.len() > 0),
    {
        match &self.config {
            Some(c) => c.temp_alerts.len() > 0,
            None => false,
        }
    }
}

/// The alerts whose state is active, in order.
pub open spec fn active_alerts(alerts: Seq<TempAlert>, states: Seq<bool>) -> Seq<TempAlert>
    decreases alerts.len(),
{
    if alerts.len() == 0 || states.len() == 0 {
        Seq::empty()
    } else if states.last() {
        active_alerts(alerts.drop_last(), states.drop_last()).push(alerts.last())
    } else {
        active_alerts(alerts.drop_last(), states.drop_last())
    }
}

/// An alert fires once when its threshold is crossed and not again until
/// the reading has dropped more than 2°C below the threshold.
pub proof fn law_alert_hysteresis(a: TempAlert, active: bool, v: i32)
    ensures
        ({
            let (st, evs) = evaluate_spec(seq![a], seq![active], map![a.sensor => v]);
            &&& (!active && v >= threshold_milli(a.threshold)) ==> st == seq![true] && evs.len() == 1
            &&& active ==> evs.len() == 0
            &&& (active && v >= threshold_milli(a.threshold) - HYSTERESIS_MILLI) ==> st == seq![true]
            &&& (active && v < threshold_milli(a.threshold) - HYSTERESIS_MILLI) ==> st == seq![false]
            &&& (!active && v < threshold_milli(a.threshold)) ==> st == seq![false] && evs.len() == 0
        }),
{
    let s = seq![a];
    assert(s.drop_last() =~= Seq::<TempAlert>::empty());
    assert(s.last() == a);
    let m = map![a.sensor => v];
    assert(m.contains_key(a.sensor) && m[a.sensor] == v);
    assert(evaluate_spec(s.drop_last(), seq![active], m) == (seq![active], Seq::<AlertEvent>::empty()));
    assert(seq![active][0] == active);
    let (st, evs) = evaluate_spec(s, seq![active], m);
    if !active && v >= threshold_milli(a.threshold) {
        assert(st =~= seq![true]);
    }
    if active && v >= threshold_milli(a.threshold) - HYSTERESIS_MILLI {
        assert(st =~= seq![true]);
    }
    if active && v < threshold_milli(a.threshold) - HYSTERESIS_MILLI {
        assert(st =~= seq![false]);
    }
}

/// Without a reading for its sensor an alert keeps its state and stays silent.
pub proof fn law_missing_sensor_silent(a: TempAlert, active: bool, m: Map<Sensor, i32>)
    requires
        !m.contains_key(a.sensor),
    ensures
        evaluate_spec(seq![a], seq![active], m) == (seq![active], Seq::<AlertEvent>::empty()),
{
    let s = seq![a];
    assert(s.drop_last() =~= Seq::<TempAlert>::empty());
    assert(s.last() == a);
    assert(evaluate_spec(s.drop_last(), seq![active], m) == (seq![active], Seq::<AlertEvent>::empty()));
}

/// An alert's next firing state: it fires once its reading reaches the
/// threshold and clears once the reading is more than 2 °C below it; without
/// a reading it keeps its state.
pub open spec fn alert_next(a: TempAlert, active: bool, m: Map<Sensor, i32>) -> bool {
    if !m.contains_key(a.sensor) {
        active
    } else if !active && m[a.sensor] >= threshold_milli(a.threshold) {
        true
    } else if active && m[a.sensor] < threshold_milli(a.threshold) - HYSTERESIS_MILLI {
        false
    } else {
        active
    }
}

/// The event an alert fires, if it fires.
pub open spec fn alert_fired(a: TempAlert, active: bool, m: Map<Sensor, i32>) -> Seq<AlertEvent> {
    if m.contains_key(a.sensor) && !active && m[a.sensor] >= threshold_milli(a.threshold) {
        seq![AlertEvent { sensor: a.sensor, value_milli: m[a.sensor], threshold: a.threshold }]
    } else {
        Seq::empty()
    }
}

/// The events of all alerts, in alert order.
pub open spec fn alerts_fired(alerts: Seq<TempAlert>, states: Seq<bool>, m: Map<Sensor, i32>) -> Seq<AlertEvent>
    decreases alerts.len(),
{
    if alerts.len() == 0 {
        Seq::empty()
    } else {
        alerts_fired(alerts.drop_last(), states, m) + alert_fired(
            alerts.last(),
            states[alerts.len() - 1],
            m,
        )
    }
}

/// Hysteresis over all alerts: each alert moves on by itself, whatever the
/// others do, and the events are those of the alerts that fire, in order.
pub proof fn law_alerts_independent(alerts: Seq<TempAlert>, states: Seq<bool>, m: Map<Sensor, i32>)
    requires
        alerts.len() <= states.len(),
    ensures
        evaluate_spec(alerts, states, m).0.len() == states.len(),
        forall|i: int|
            0 <= i < alerts.len() ==> #[trigger] evaluate_spec(alerts, states, m).0[i] == alert_next(
                alerts[i],
                states[i],
                m,
            ),
        forall|i: int|
            alerts.len() <= i < states.len() ==> #[trigger] evaluate_spec(alerts, states, m).0[i]
                == states[i],
        evaluate_spec(alerts, states, m).1 == alerts_fired(alerts, states, m),
    decreases alerts.len(),
{
    if alerts.len() > 0 {
        let p = alerts.drop_last();
        law_alerts_independent(p, states, m);
        let n = alerts.len() - 1;
        let (st, evs) = evaluate_spec(p, states, m);
        assert(st[n] == states[n]);
        assert forall|i: int| 0 <= i < alerts.len() implies #[trigger] evaluate_spec(alerts, states, m).0[i]
            == alert_next(alerts[i], states[i], m) by {
            if i < n {
                assert(alerts[i] == p[i]);
            }
        }
        let a = alerts.last();
        if m.contains_key(a.sensor) && !states[n] && m[a.sensor] >= threshold_milli(a.threshold) {
            assert(evaluate_spec(alerts, states, m).1 =~= alerts_fired(alerts, states, m));
        } else {
            assert(evaluate_spec(alerts, states, m).1 =~= alerts_fired(alerts, states, m));
        }
    }
}

} // verus!
