//! Engine bookkeeping of the periodic poll: RPM change detection, RPM
//! history and anomaly detection, and per-group wear counters.

use vstd::prelude::*;

use crate::convert::{append_dec_u64, dec_chars};
use crate::model::GroupId;
use vstd::string::StringExecFns;

verus! {

/// Length of the per-group RPM history (~2 minutes at 2s poll).
pub const RPM_HISTORY_LEN: usize = 60;

/// Least number of samples before the anomaly check judges a group.
pub const ANOMALY_MIN_SAMPLES: usize = 10;

/// Events of the periodic poll.
#[derive(Debug, Clone, Copy, PartialEq, Eq)]
pub enum EngineEvent {
    DeviceConnected { group: GroupId },
    DeviceDisconnected { group: GroupId },
    RpmUpdate { group: GroupId, rpms: [u16; 4] },
    /// Average RPM fell by `drop_pct` percent between the halves of the history.
    RpmAnomaly { group: GroupId, drop_pct: u64, first_avg: u64, second_avg: u64 },
}

/// Persisted cumulative running time of a group.
#[derive(Debug, Clone, Copy, PartialEq, Eq, Structural)]
pub struct WearEntry {
    pub group_id: GroupId,
    pub running_seconds: u64,
}

/// Periodic-poll state of the engine.
#[derive(Debug)]
pub struct Engine {
    /// How often to re-discover devices and poll sensors (ms).
    pub poll_interval_ms: u64,
    /// RPMs seen at the last discovery.
    pub last_rpms: Vec<(GroupId, [u16; 4])>,
    /// Per-group history of average RPM readings, oldest first.
    pub rpm_history: Vec<(GroupId, Vec<u16>)>,
    /// Groups whose RPM anomaly has been reported and not yet resolved.
    pub rpm_anomaly_alerted: Vec<GroupId>,
    /// Cumulative running seconds per group.
    pub wear_counters: Vec<(GroupId, u64)>,
    /// Whether the daemon is actively scanning for unbound devices.
    pub bind_scanning: bool,
}

// ---------------------------------------------------------------------------
// Specifications
// ---------------------------------------------------------------------------

/// The RPMs last recorded for `g` (the last entry for it wins).
pub open spec fn lookup_rpms(s: Seq<(GroupId, [u16; 4])>, g: GroupId) -> Option<[u16; 4]>
    decreases s.len(),
{
    if s.len() == 0 {
        None
    } else if s.last().0 == g {
        Some(s.last().1)
    } else {
        lookup_rpms(s.drop_last(), g)
    }
}

/// Whether `g` occurs in the list.
pub open spec fn has_rpm_group(s: Seq<(GroupId, [u16; 4])>, g: GroupId) -> bool {
    exists|i: int| 0 <= i < s.len() && (#[trigger] s[i]).0 == g
}

/// Events for the current readings against the previous ones, in order.
pub open spec fn change_events(
    old: Seq<(GroupId, [u16; 4])>,
    cur: Seq<(GroupId, [u16; 4])>,
) -> Seq<EngineEvent>
    decreases cur.len(),
{
    if cur.len() == 0 {
        Seq::empty()
    } else {
        let (g, r) = cur.last();
        let prev = change_events(old, cur.drop_last());
        match lookup_rpms(old, g) {
            Some(o) => if o != r {
                prev.push(EngineEvent::RpmUpdate { group: g, rpms: r })
            } else {
                prev
            },
            None => prev.push(EngineEvent::DeviceConnected { group: g }).push(
                EngineEvent::RpmUpdate { group: g, rpms: r },
            ),
        }
    }
}

/// Disconnection events for groups of `old` missing from `cur`, in order.
pub open spec fn gone_events(
    old: Seq<(GroupId, [u16; 4])>,
    cur: Seq<(GroupId, [u16; 4])>,
) -> Seq<EngineEvent>
    decreases old.len(),
{
    if old.len() == 0 {
        Seq::empty()
    } else {
        let prev = gone_events(old.drop_last(), cur);
        if has_rpm_group(cur, old.last().0) {
            prev
        } else {
            prev.push(EngineEvent::DeviceDisconnected { group: old.last().0 })
        }
    }
}

/// Sum of the non-zero readings.
pub open spec fn nonzero_sum(r: [u16; 4]) -> nat {
    (if r[0] > 0 { r[0] as nat } else { 0 }) + (if r[1] > 0 { r[1] as nat } else { 0 }) + (if r[2]
        > 0 {
        r[2] as nat
    } else {
        0
    }) + (if r[3] > 0 { r[3] as nat } else { 0 })
}

/// Number of non-zero readings.
pub open spec fn nonzero_count(r: [u16; 4]) -> nat {
    (if r[0] > 0 { 1nat } else { 0 }) + (if r[1] > 0 { 1nat } else { 0 }) + (if r[2] > 0 { 1nat } else { 0 })
        + (if r[3] > 0 { 1nat } else { 0 })
}

/// Average of the non-zero readings, 0 when all are zero.
pub open spec fn avg_rpm(r: [u16; 4]) -> u16 {
    if nonzero_count(r) == 0 {
        0
    } else {
        (nonzero_sum(r) / nonzero_count(r)) as u16
    }
}

/// Histories as plain sequences.
pub open spec fn history_view(h: Seq<(GroupId, Vec<u16>)>) -> Seq<(GroupId, Seq<u16>)> {
    h.map_values(|e: (GroupId, Vec<u16>)| (e.0, e.1@))
}

/// Whether a history exists for `g`.
pub open spec fn has_history(h: Seq<(GroupId, Seq<u16>)>, g: GroupId) -> bool {
    exists|i: int| 0 <= i < h.len() && (#[trigger] h[i]).0 == g
}

/// Position of the history of `g`.
pub open spec fn history_pos(h: Seq<(GroupId, Seq<u16>)>, g: GroupId) -> int {
    choose|i: int| 0 <= i < h.len() && (#[trigger] h[i]).0 == g
}

/// Appends a sample, dropping the oldest beyond [`RPM_HISTORY_LEN`].
pub open spec fn bounded_push(s: Seq<u16>, v: u16) -> Seq<u16> {
    if s.push(v).len() > RPM_HISTORY_LEN {
        s.push(v).drop_first()
    } else {
        s.push(v)
    }
}

/// Records one average sample for `g`.
pub open spec fn record_sample(h: Seq<(GroupId, Seq<u16>)>, g: GroupId, v: u16) -> Seq<
    (GroupId, Seq<u16>),
> {
    if has_history(h, g) {
        h.update(history_pos(h, g), (g, bounded_push(h[history_pos(h, g)].1, v)))
    } else {
        h.push((g, seq![v]))
    }
}

/// Records the average of every reading of `cur`, in order.
pub open spec fn record_all(h: Seq<(GroupId, Seq<u16>)>, cur: Seq<(GroupId, [u16; 4])>) -> Seq<
    (GroupId, Seq<u16>),
>
    decreases cur.len(),
{
    if cur.len() == 0 {
        h
    } else {
        record_sample(record_all(h, cur.drop_last()), cur.last().0, avg_rpm(cur.last().1))
    }
}

/// One history per group, each holding 1 to [`RPM_HISTORY_LEN`] samples.
pub open spec fn history_wf(h: Seq<(GroupId, Seq<u16>)>) -> bool {
    &&& forall|i: int, j: int| 0 <= i < j < h.len() ==> (#[trigger] h[i]).0 != (#[trigger] h[j]).0
    &&& forall|i: int| 0 <= i < h.len() ==> 0 < (#[trigger] h[i]).1.len() <= RPM_HISTORY_LEN
}

/// Sum of the samples.
pub open spec fn sum_u16(s: Seq<u16>) -> nat
    decreases s.len(),
{
    if s.len() == 0 {
        0
    } else {
        sum_u16(s.drop_last()) + s.last() as nat
    }
}

/// Judgement of one history: `None` for too few samples, `Some(None)` when
/// no anomaly shows, `Some(Some((first_avg, second_avg, drop_pct)))` when the
/// average of the newer half fell more than 20% below that of the older half.
pub open spec fn anomaly_judgement(s: Seq<u16>) -> Option<Option<(u64, u64, u64)>> {
    if s.len() < ANOMALY_MIN_SAMPLES {
        None
    } else {
        let mid: int = s.len() as int / 2;
        let first: int = sum_u16(s.take(mid)) as int / mid;
        let second: int = sum_u16(s.skip(mid)) as int / (s.len() - mid);
        if first > 100 && second > 0 && second < first && ((first - second) * 100) / first > 20 {
            Some(Some((first as u64, second as u64, (((first - second) * 100) / first) as u64)))
        } else {
            Some(None)
        }
    }
}

/// Alerted set and events after judging the histories in order.
pub open spec fn anomaly_spec(h: Seq<(GroupId, Seq<u16>)>, alerted: Set<GroupId>) -> (
    Set<GroupId>,
    Seq<EngineEvent>,
)
    decreases h.len(),
{
    if h.len() == 0 {
        (alerted, Seq::empty())
    } else {
        let (al, evs) = anomaly_spec(h.drop_last(), alerted);
        let (g, s) = h.last();
        match anomaly_judgement(s) {
            None => (al, evs),
            Some(None) => (al.remove(g), evs),
            Some(Some((first, second, drop))) => if al.contains(g) {
                (al, evs)
            } else {
                (
                    al.insert(g),
                    evs.push(
                        EngineEvent::RpmAnomaly {
                            group: g,
                            drop_pct: drop,
                            first_avg: first,
                            second_avg: second,
                        },
                    ),
                )
            },
        }
    }
}

/// Groups that have a history.
pub open spec fn history_groups(h: Seq<(GroupId, Seq<u16>)>) -> Set<GroupId> {
    Set::new(|g: GroupId| has_history(h, g))
}

/// Number of readings of `g` in which some fan runs.
pub open spec fn running_count(s: Seq<(GroupId, [u16; 4])>, g: GroupId) -> nat
    decreases s.len(),
{
    if s.len() == 0 {
        0
    } else {
        running_count(s.drop_last(), g) + if s.last().0 == g && nonzero_count(s.last().1) > 0 {
            1nat
        } else {
            0
        }
    }
}

/// Wear counters as a map.
pub open spec fn wear_map(w: Seq<(GroupId, u64)>) -> Map<GroupId, u64>
    decreases w.len(),
{
    if w.len() == 0 {
        Map::empty()
    } else {
        wear_map(w.drop_last()).insert(w.last().0, w.last().1)
    }
}

/// Current wear of `g`, 0 when never counted.
pub open spec fn wear_of(m: Map<GroupId, u64>, g: GroupId) -> nat {
    if m.contains_key(g) {
        m[g] as nat
    } else {
        0
    }
}

/// One group per wear counter.
pub open spec fn wear_wf(w: Seq<(GroupId, u64)>) -> bool {
    forall|i: int, j: int| 0 <= i < j < w.len() ==> (#[trigger] w[i]).0 != (#[trigger] w[j]).0
}

/// The anomaly set holds each group once.
pub open spec fn alerted_wf(a: Seq<GroupId>) -> bool {
    a.no_duplicates()
}

/// Groups in a list.
pub open spec fn set_of(s: Seq<GroupId>) -> Set<GroupId> {
    Set::new(|g: GroupId| s.contains(g))
}

/// Wear after counting `poll` seconds for each reading with a running fan.
pub open spec fn accumulate_spec(m: Map<GroupId, u64>, s: Seq<(GroupId, [u16; 4])>, poll: u64) -> Map<
    GroupId,
    u64,
>
    decreases s.len(),
{
    if s.len() == 0 {
        m
    } else {
        let prev = accumulate_spec(m, s.drop_last(), poll);
        let (g, r) = s.last();
        if nonzero_count(r) > 0 {
            prev.insert(g, (wear_of(prev, g) + poll) as u64)
        } else {
            prev
        }
    }
}

/// Wear after restoring persisted entries (a later entry for a group wins).
pub open spec fn load_spec(m: Map<GroupId, u64>, entries: Seq<WearEntry>) -> Map<GroupId, u64>
    decreases entries.len(),
{
    if entries.len() == 0 {
        m
    } else {
        load_spec(m, entries.drop_last()).insert(
            entries.last().group_id,
            entries.last().running_seconds,
        )
    }
}

/// The counter of `g` sits at position `i`.
pub proof fn lemma_wear_map_get(w: Seq<(GroupId, u64)>, i: int)
    requires
        wear_wf(w),
        0 <= i < w.len(),
    ensures
        wear_map(w).contains_key(w[i].0),
        wear_map(w)[w[i].0] == w[i].1,
    decreases w.len(),
{
    if i < w.len() - 1 {
        assert(w.drop_last()[i] == w[i]);
        lemma_wear_map_get(w.drop_last(), i);
        assert(w[i].0 != w.last().0);
    }
}

/// A group without a counter is absent from the map.
pub proof fn lemma_wear_map_absent(w: Seq<(GroupId, u64)>, g: GroupId)
    requires
        forall|i: int| 0 <= i < w.len() ==> (#[trigger] w[i]).0 != g,
    ensures
        !wear_map(w).contains_key(g),
    decreases w.len(),
{
    if w.len() > 0 {
        assert forall|i: int| 0 <= i < w.drop_last().len() implies (#[trigger] w.drop_last()[i]).0
            != g by {
            assert(w.drop_last()[i] == w[i]);
        }
        lemma_wear_map_absent(w.drop_last(), g);
        assert(w.last() == w[w.len() - 1]);
    }
}

/// Overwriting the counter at position `i` updates the map there.
pub proof fn lemma_wear_map_update(w: Seq<(GroupId, u64)>, i: int, v: u64)
    requires
        wear_wf(w),
        0 <= i < w.len(),
    ensures
        wear_map(w.update(i, (w[i].0, v))) == wear_map(w).insert(w[i].0, v),
    decreases w.len(),
{
    let u = w.update(i, (w[i].0, v));
    if i == w.len() - 1 {
        assert(u.drop_last() =~= w.drop_last());
        assert(wear_map(u) =~= wear_map(w).insert(w[i].0, v));
    } else {
        assert(u.drop_last() =~= w.drop_last().update(i, (w[i].0, v)));
        assert(w.drop_last()[i] == w[i]);
        lemma_wear_map_update(w.drop_last(), i, v);
        assert(w[i].0 != w.last().0);
        assert(wear_map(u) =~= wear_map(w).insert(w[i].0, v));
    }
}

impl Engine {
    /// The engine's invariant.
    pub open spec fn wf(&self) -> bool {
        &&& history_wf(history_view(self.rpm_history@))
        &&& alerted_wf(self.rpm_anomaly_alerted@)
        &&& wear_wf(self.wear_counters@)
    }

    pub fn new(poll_interval_ms: u32) -> (e: Engine)
        ensures
            e.wf(),
            e.poll_interval_ms == poll_interval_ms,
            e.last_rpms@.len() == 0,
            e.rpm_history@.len() == 0,
            e.rpm_anomaly_alerted@.len() == 0,
            e.wear_counters@.len() == 0,
            !e.bind_scanning,
    {
        Engine {
            poll_interval_ms: poll_interval_ms as u64,
            last_rpms: Vec::new(),
            rpm_history: Vec::new(),
            rpm_anomaly_alerted: Vec::new(),
            wear_counters: Vec::new(),
            bind_scanning: false,
        }
    }
}

// ---------------------------------------------------------------------------
// Operations
// ---------------------------------------------------------------------------

fn rpms_eq(a: [u16; 4], b: [u16; 4]) -> (r: bool)
    ensures
        r == (a == b),
{
    let r = a[0] == b[0] && a[1] == b[1] && a[2] == b[2] && a[3] == b[3];
    if r {
        assert(a =~= b);
    }
    r
}

fn lookup_exec(s: &Vec<(GroupId, [u16; 4])>, g: GroupId) -> (r: Option<[u16; 4]>)
    ensures
        r == lookup_rpms(s@, g),
{
    let mut i: usize = s.len();
    assert(s@.subrange(0, i as int) =~= s@);
    while i > 0
        invariant
            i <= s@.len(),
            lookup_rpms(s@, g) == lookup_rpms(s@.subrange(0, i as int), g),
        decreases i,
    {
        assert(s@.subrange(0, i as int).drop_last() =~= s@.subrange(0, i - 1));
        if s[i - 1].0 == g {
            return Some(s[i - 1].1);
        }
        i = i - 1;
    }
    assert(s@.subrange(0, 0) =~= Seq::<(GroupId, [u16; 4])>::empty());
    None
}

fn has_group_exec(s: &Vec<(GroupId, [u16; 4])>, g: GroupId) -> (r: bool)
    ensures
        r == has_rpm_group(s@, g),
{
    let mut i: usize = 0;
    while i < s.len()
        invariant
            i <= s@.len(),
            forall|j: int| 0 <= j < i ==> (#[trigger] s@[j]).0 != g,
        decreases s@.len() - i,
    {
        if s[i].0 == g {
            assert(s@[i as int].0 == g);
            return true;
        }
        i = i + 1;
    }
    false
}

/// Average of the non-zero readings of a group, 0 when all are zero.
pub fn average_rpm(r: [u16; 4]) -> (avg: u16)
    ensures
        avg == avg_rpm(r),
{
    let mut sum: u32 = 0;
    let mut count: u32 = 0;
    if r[0] > 0 {
        sum = sum + r[0] as u32;
        count = count + 1;
    }
    if r[1] > 0 {
        sum = sum + r[1] as u32;
        count = count + 1;
    }
    if r[2] > 0 {
        sum = sum + r[2] as u32;
        count = count + 1;
    }
    if r[3] > 0 {
        sum = sum + r[3] as u32;
        count = count + 1;
    }
    if count == 0 {
        0
    } else {
        assert(sum / count <= sum) by (nonlinear_arith)
            requires
                count >= 1,
        ;
        assert(sum / count <= 65535) by (nonlinear_arith)
            requires
                count >= 1,
                sum <= 65535 * count,
        ;
        (sum / count) as u16
    }
}

fn find_history(h: &Vec<(GroupId, Vec<u16>)>, g: GroupId) -> (r: Option<usize>)
    requires
        history_wf(history_view(h@)),
    ensures
        match r {
            Some(i) => has_history(history_view(h@), g) && i == history_pos(history_view(h@), g)
                && i < h@.len(),
            None => !has_history(history_view(h@), g),
        },
{
    let ghost hv = history_view(h@);
    let mut i: usize = 0;
    while i < h.len()
        invariant
            i <= h@.len(),
            hv == history_view(h@),
            history_wf(hv),
            forall|j: int| 0 <= j < i ==> (#[trigger] hv[j]).0 != g,
        decreases h@.len() - i,
    {
        if h[i].0 == g {
            proof {
                assert(hv[i as int].0 == g);
                let k = history_pos(hv, g);
                assert(0 <= k < hv.len() && hv[k].0 == g);
                if k != i {
                    if k < i {
                        assert(hv[k].0 != hv[i as int].0);
                    } else {
                        assert(hv[i as int].0 != hv[k].0);
                    }
                }
            }
            return Some(i);
        }
        i = i + 1;
    }
    None
}

impl Engine {
    fn record(&mut self, g: GroupId, v: u16)
        requires
            old(self).wf(),
        ensures
            final(self).wf(),
            history_view(final(self).rpm_history@) == record_sample(
                history_view(old(self).rpm_history@),
                g,
                v,
            ),
            final(self).last_rpms@ == old(self).last_rpms@,
            final(self).rpm_anomaly_alerted@ == old(self).rpm_anomaly_alerted@,
            final(self).wear_counters@ == old(self).wear_counters@,
            final(self).poll_interval_ms == old(self).poll_interval_ms,
            final(self).bind_scanning == old(self).bind_scanning,
    {
        let ghost hv = history_view(self.rpm_history@);
        match find_history(&self.rpm_history, g) {
            Some(i) => {
                let mut samples = self.rpm_history[i].1.clone();
                assert(samples@ == hv[i as int].1);
                samples.push(v);
                if samples.len() > RPM_HISTORY_LEN {
                    samples.remove(0);
                }
                assert(samples@ =~= bounded_push(hv[i as int].1, v));
                self.rpm_history.set(i, (g, samples));
                assert(history_view(self.rpm_history@) =~= hv.update(
                    i as int,
                    (g, bounded_push(hv[i as int].1, v)),
                ));
            },
            None => {
                let mut samples: Vec<u16> = Vec::new();
                samples.push(v);
                self.rpm_history.push((g, samples));
                assert(history_view(self.rpm_history@) =~= hv.push((g, seq![v])));
            },
        }
    }

    /// Compares the readings of a fresh discovery with the previous ones:
    /// returns connection, RPM-change and disconnection events, keeps the
    /// readings, and appends each group's average RPM to its history.
    pub fn detect_rpm_changes(&mut self, current: Vec<(GroupId, [u16; 4])>) -> (events: Vec<
        EngineEvent,
    >)
        requires
            old(self).wf(),
        ensures
            final(self).wf(),
            events@ == change_events(old(self).last_rpms@, current@) + gone_events(
                old(self).last_rpms@,
                current@,
            ),
            final(self).last_rpms@ == current@,
            history_view(final(self).rpm_history@) == record_all(
                history_view(old(self).rpm_history@),
                current@,
            ),
            final(self).rpm_anomaly_alerted@ == old(self).rpm_anomaly_alerted@,
            final(self).wear_counters@ == old(self).wear_counters@,
            final(self).poll_interval_ms == old(self).poll_interval_ms,
            final(self).bind_scanning == old(self).bind_scanning,
    {
        let mut events: Vec<EngineEvent> = Vec::new();
        let ghost old_rpms = self.last_rpms@;
        let mut i: usize = 0;
        assert(current@.subrange(0, 0) =~= Seq::<(GroupId, [u16; 4])>::empty());
        while i < current.len()
            invariant
                i <= current@.len(),
                self.last_rpms@ == old_rpms,
                events@ == change_events(old_rpms, current@.subrange(0, i as int)),
            decreases current@.len() - i,
        {
            let (g, r) = current[i];
            assert(current@.subrange(0, i + 1).drop_last() =~= current@.subrange(0, i as int));
            assert(current@.subrange(0, i + 1).last() == current@[i as int]);
            match lookup_exec(&self.last_rpms, g) {
                Some(o) => {
                    if !rpms_eq(o, r) {
                        events.push(EngineEvent::RpmUpdate { group: g, rpms: r });
                    }
                },
                None => {
                    events.push(EngineEvent::DeviceConnected { group: g });
                    events.push(EngineEvent::RpmUpdate { group: g, rpms: r });
                },
            }
            i = i + 1;
        }
        assert(current@.subrange(0, i as int) =~= current@);
        let ghost changes = events@;
        let mut j: usize = 0;
        assert(old_rpms.subrange(0, 0) =~= Seq::<(GroupId, [u16; 4])>::empty());
        while j < self.last_rpms.len()
            invariant
                j <= old_rpms.len(),
                self.last_rpms@ == old_rpms,
                events@ == changes + gone_events(old_rpms.subrange(0, j as int), current@),
            decreases old_rpms.len() - j,
        {
            let g = self.last_rpms[j].0;
            assert(old_rpms.subrange(0, j + 1).drop_last() =~= old_rpms.subrange(0, j as int));
            assert(old_rpms.subrange(0, j + 1).last() == old_rpms[j as int]);
            if !has_group_exec(&current, g) {
                events.push(EngineEvent::DeviceDisconnected { group: g });
            }
            assert(events@ =~= changes + gone_events(old_rpms.subrange(0, j + 1), current@));
            j = j + 1;
        }
        assert(old_rpms.subrange(0, j as int) =~= old_rpms);
        let ghost h0 = history_view(self.rpm_history@);
        let mut k: usize = 0;
        while k < current.len()
            invariant
                k <= current@.len(),
                self.wf(),
                self.last_rpms@ == old_rpms,
                history_view(self.rpm_history@) == record_all(h0, current@.subrange(0, k as int)),
                self.rpm_anomaly_alerted@ == old(self).rpm_anomaly_alerted@,
                self.wear_counters@ == old(self).wear_counters@,
                self.poll_interval_ms == old(self).poll_interval_ms,
                self.bind_scanning == old(self).bind_scanning,
            decreases current@.len() - k,
        {
            assert(current@.subrange(0, k + 1).drop_last() =~= current@.subrange(0, k as int));
            assert(current@.subrange(0, k + 1).last() == current@[k as int]);
            let (g, r) = current[k];
            self.record(g, average_rpm(r));
            k = k + 1;
        }
        assert(current@.subrange(0, k as int) =~= current@);
        self.last_rpms = current;
        events
    }

    /// A failed discovery forgets the previous readings.
    pub fn discovery_failed(&mut self)
        ensures
            final(self).last_rpms@.len() == 0,
            final(self).rpm_history@ == old(self).rpm_history@,
            final(self).rpm_anomaly_alerted@ == old(self).rpm_anomaly_alerted@,
            final(self).wear_counters@ == old(self).wear_counters@,
            final(self).poll_interval_ms == old(self).poll_interval_ms,
            final(self).bind_scanning == old(self).bind_scanning,
    {
        self.last_rpms.clear();
    }
}

fn find_wear(w: &Vec<(GroupId, u64)>, g: GroupId) -> (r: Option<usize>)
    ensures
        match r {
            Some(i) => i < w@.len() && w@[i as int].0 == g,
            None => forall|j: int| 0 <= j < w@.len() ==> (#[trigger] w@[j]).0 != g,
        },
{
    let mut i: usize = 0;
    while i < w.len()
        invariant
            i <= w@.len(),
            forall|j: int| 0 <= j < i ==> (#[trigger] w@[j]).0 != g,
        decreases w@.len() - i,
    {
        if w[i].0 == g {
            return Some(i);
        }
        i = i + 1;
    }
    None
}

fn sum_range(s: &Vec<u16>, lo: usize, hi: usize) -> (r: u64)
    requires
        lo <= hi <= s@.len(),
        s@.len() <= RPM_HISTORY_LEN,
    ensures
        r == sum_u16(s@.subrange(lo as int, hi as int)),
        r <= 65535 * (hi - lo),
{
    let mut sum: u64 = 0;
    let mut k: usize = lo;
    assert(s@.subrange(lo as int, lo as int) =~= Seq::<u16>::empty());
    while k < hi
        invariant
            lo <= k <= hi <= s@.len(),
            s@.len() <= RPM_HISTORY_LEN,
            sum == sum_u16(s@.subrange(lo as int, k as int)),
            sum <= 65535 * (k - lo),
        decreases hi - k,
    {
        assert(s@.subrange(lo as int, k + 1).drop_last() =~= s@.subrange(lo as int, k as int));
        sum = sum + s[k] as u64;
        k = k + 1;
    }
    sum
}

fn judge(s: &Vec<u16>) -> (r: Option<Option<(u64, u64, u64)>>)
    requires
        s@.len() <= RPM_HISTORY_LEN,
    ensures
        r == anomaly_judgement(s@),
{
    let len = s.len();
    if len < ANOMALY_MIN_SAMPLES {
        return None;
    }
    let mid = len / 2;
    assert(s@.take(mid as int) =~= s@.subrange(0, mid as int));
    assert(s@.skip(mid as int) =~= s@.subrange(mid as int, len as int));
    let first_sum = sum_range(s, 0, mid);
    let second_sum = sum_range(s, mid, len);
    let first = first_sum / (mid as u64);
    let second = second_sum / ((len - mid) as u64);
    assert(first <= 65535) by (nonlinear_arith)
        requires
            first == first_sum / (mid as u64),
            first_sum <= 65535 * mid,
            mid >= 1,
    ;
    if first > 100 && second > 0 && second < first {
        let drop = ((first - second) * 100) / first;
        if drop > 20 {
            return Some(Some((first, second, drop)));
        }
    }
    Some(None)
}

fn alerted_pos(a: &Vec<GroupId>, g: GroupId) -> (r: Option<usize>)
    ensures
        match r {
            Some(i) => i < a@.len() && a@[i as int] == g,
            None => !a@.contains(g),
        },
{
    let mut i: usize = 0;
    while i < a.len()
        invariant
            i <= a@.len(),
            forall|j: int| 0 <= j < i ==> a@[j] != g,
        decreases a@.len() - i,
    {
        if a[i] == g {
            return Some(i);
        }
        i = i + 1;
    }
    None
}

fn history_has(h: &Vec<(GroupId, Vec<u16>)>, g: GroupId) -> (r: bool)
    ensures
        r == has_history(history_view(h@), g),
{
    let ghost hv = history_view(h@);
    let mut i: usize = 0;
    while i < h.len()
        invariant
            i <= h@.len(),
            hv == history_view(h@),
            forall|j: int| 0 <= j < i ==> (#[trigger] hv[j]).0 != g,
        decreases h@.len() - i,
    {
        if h[i].0 == g {
            assert(hv[i as int].0 == g);
            return true;
        }
        i = i + 1;
    }
    false
}

impl Engine {
    /// Judges every group's RPM history: reports a drop of more than 20%
    /// between the older and newer half once per degradation episode, clears
    /// the report when the condition resolves, and leaves groups with fewer
    /// than ten samples as they are.
    pub fn check_rpm_anomalies(&mut self) -> (events: Vec<EngineEvent>)
        requires
            old(self).wf(),
        ensures
            final(self).wf(),
            ({
                let (al, evs) = anomaly_spec(
                    history_view(old(self).rpm_history@),
                    set_of(old(self).rpm_anomaly_alerted@),
                );
                &&& events@ == evs
                &&& set_of(final(self).rpm_anomaly_alerted@) == al.intersect(
                    history_groups(history_view(old(self).rpm_history@)),
                )
            }),
            final(self).rpm_history@ == old(self).rpm_history@,
            final(self).last_rpms@ == old(self).last_rpms@,
            final(self).wear_counters@ == old(self).wear_counters@,
            final(self).poll_interval_ms == old(self).poll_interval_ms,
            final(self).bind_scanning == old(self).bind_scanning,
    {
        let ghost hv = history_view(self.rpm_history@);
        let ghost a0 = set_of(self.rpm_anomaly_alerted@);
        let mut events: Vec<EngineEvent> = Vec::new();
        let mut i: usize = 0;
        assert(hv.subrange(0, 0) =~= Seq::<(GroupId, Seq<u16>)>::empty());
        while i < self.rpm_history.len()
            invariant
                i <= hv.len(),
                hv == history_view(self.rpm_history@),
                history_wf(hv),
                alerted_wf(self.rpm_anomaly_alerted@),
                self.rpm_history@ == old(self).rpm_history@,
                self.last_rpms@ == old(self).last_rpms@,
                self.wear_counters@ == old(self).wear_counters@,
                self.poll_interval_ms == old(self).poll_interval_ms,
                self.bind_scanning == old(self).bind_scanning,
                wear_wf(self.wear_counters@),
                (set_of(self.rpm_anomaly_alerted@), events@) == anomaly_spec(
                    hv.subrange(0, i as int),
                    a0,
                ),
            decreases hv.len() - i,
        {
            assert(hv.subrange(0, i + 1).drop_last() =~= hv.subrange(0, i as int));
            assert(hv.subrange(0, i + 1).last() == hv[i as int]);
            let g = self.rpm_history[i].0;
            assert(0 < hv[i as int].1.len() <= RPM_HISTORY_LEN);
            let verdict = judge(&self.rpm_history[i].1);
            let ghost before = self.rpm_anomaly_alerted@;
            match verdict {
                None => {},
                Some(None) => {
                    match alerted_pos(&self.rpm_anomaly_alerted, g) {
                        Some(p) => {
                            self.rpm_anomaly_alerted.remove(p);
                            assert(set_of(self.rpm_anomaly_alerted@) =~= set_of(before).remove(g)) by {
                                assert forall|x: GroupId| self.rpm_anomaly_alerted@.contains(x) <==> (
                                before.contains(x) && x != g) by {
                                    if self.rpm_anomaly_alerted@.contains(x) {
                                        let q = choose|q: int|
                                            0 <= q < self.rpm_anomaly_alerted@.len()
                                                && self.rpm_anomaly_alerted@[q] == x;
                                        let q0 = if q < p { q } else { q + 1 };
                                        assert(before[q0] == x);
                                        assert(q0 != p);
                                    }
                                    if before.contains(x) && x != g {
                                        let q = choose|q: int| 0 <= q < before.len() && before[q] == x;
                                        assert(q != p);
                                        let q1 = if q < p { q } else { q - 1 };
                                        assert(self.rpm_anomaly_alerted@[q1] == x);
                                    }
                                }
                            }
                        },
                        None => {
                            assert(set_of(before) =~= set_of(before).remove(g));
                        },
                    }
                },
                Some(Some((first, second, drop))) => {
                    match alerted_pos(&self.rpm_anomaly_alerted, g) {
                        Some(p) => {
                            assert(set_of(before).contains(g));
                        },
                        None => {
                            self.rpm_anomaly_alerted.push(g);
                            proof {
                                lemma_set_of_push(before, g);
                            }
                            events.push(
                                EngineEvent::RpmAnomaly {
                                    group: g,
                                    drop_pct: drop,
                                    first_avg: first,
                                    second_avg: second,
                                },
                            );
                        },
                    }
                },
            }
            i = i + 1;
        }
        assert(hv.subrange(0, i as int) =~= hv);
        let ghost al = set_of(self.rpm_anomaly_alerted@);
        let ghost a1 = self.rpm_anomaly_alerted@;
        let mut kept: Vec<GroupId> = Vec::new();
        let mut j: usize = 0;
        assert(set_of(a1.subrange(0, 0)) =~= Set::<GroupId>::empty());
        assert(set_of(kept@) =~= Set::<GroupId>::empty());
        while j < self.rpm_anomaly_alerted.len()
            invariant
                j <= a1.len(),
                self.rpm_anomaly_alerted@ == a1,
                hv == history_view(self.rpm_history@),
                al == set_of(a1),
                alerted_wf(a1),
                history_wf(hv),
                self.rpm_history@ == old(self).rpm_history@,
                self.last_rpms@ == old(self).last_rpms@,
                self.wear_counters@ == old(self).wear_counters@,
                self.poll_interval_ms == old(self).poll_interval_ms,
                self.bind_scanning == old(self).bind_scanning,
                wear_wf(self.wear_counters@),
                events@ == anomaly_spec(hv, a0).1,
                al == anomaly_spec(hv, a0).0,
                kept@.no_duplicates(),
                set_of(kept@) == set_of(a1.subrange(0, j as int)).intersect(history_groups(hv)),
            decreases a1.len() - j,
        {
            let g = self.rpm_anomaly_alerted[j];
            proof {
                assert(a1.subrange(0, j + 1) =~= a1.subrange(0, j as int).push(g));
                lemma_set_of_push(a1.subrange(0, j as int), g);
                assert(!a1.subrange(0, j as int).contains(g)) by {
                    if a1.subrange(0, j as int).contains(g) {
                        let q = choose|q: int| 0 <= q < j && a1.subrange(0, j as int)[q] == g;
                        assert(a1.subrange(0, j as int)[q] == a1[q]);
                        assert(q != j);
                        assert(a1[q] != a1[j as int]);
                    }
                }
                assert(!set_of(a1.subrange(0, j as int)).contains(g));
            }
            if history_has(&self.rpm_history, g) {
                proof {
                    assert(!set_of(kept@).contains(g));
                    assert(!kept@.contains(g));
                    lemma_set_of_push(kept@, g);
                }
                kept.push(g);
                assert(set_of(kept@) =~= set_of(a1.subrange(0, j + 1)).intersect(history_groups(hv)));
            } else {
                assert(set_of(kept@) =~= set_of(a1.subrange(0, j + 1)).intersect(history_groups(hv)));
            }
            j = j + 1;
        }
        assert(a1.subrange(0, j as int) =~= a1);
        self.rpm_anomaly_alerted = kept;
        events
    }

    fn add_wear(&mut self, g: GroupId, secs: u64)
        requires
            old(self).wf(),
            wear_of(wear_map(old(self).wear_counters@), g) + secs <= u64::MAX,
        ensures
            final(self).wf(),
            wear_map(final(self).wear_counters@) == wear_map(old(self).wear_counters@).insert(
                g,
                (wear_of(wear_map(old(self).wear_counters@), g) + secs) as u64,
            ),
            final(self).rpm_history@ == old(self).rpm_history@,
            final(self).rpm_anomaly_alerted@ == old(self).rpm_anomaly_alerted@,
            final(self).last_rpms@ == old(self).last_rpms@,
            final(self).poll_interval_ms == old(self).poll_interval_ms,
            final(self).bind_scanning == old(self).bind_scanning,
    {
        let ghost w = self.wear_counters@;
        match find_wear(&self.wear_counters, g) {
            Some(i) => {
                proof {
                    lemma_wear_map_get(w, i as int);
                    lemma_wear_map_update(w, i as int, (w[i as int].1 + secs) as u64);
                }
                let v = self.wear_counters[i].1 + secs;
                self.wear_counters.set(i, (g, v));
                proof {
                    assert forall|x: int, y: int| 0 <= x < y < self.wear_counters@.len() implies (
                    #[trigger] self.wear_counters@[x]).0 != (#[trigger] self.wear_counters@[y]).0 by {
                        assert(w[x].0 != w[y].0);
                    }
                }
            },
            None => {
                proof {
                    lemma_wear_map_absent(w, g);
                }
                self.wear_counters.push((g, secs));
                assert(self.wear_counters@.drop_last() =~= w);
            },
        }
    }

    fn set_wear(&mut self, g: GroupId, secs: u64)
        requires
            old(self).wf(),
        ensures
            final(self).wf(),
            wear_map(final(self).wear_counters@) == wear_map(old(self).wear_counters@).insert(g, secs),
            final(self).rpm_history@ == old(self).rpm_history@,
            final(self).rpm_anomaly_alerted@ == old(self).rpm_anomaly_alerted@,
            final(self).last_rpms@ == old(self).last_rpms@,
            final(self).poll_interval_ms == old(self).poll_interval_ms,
            final(self).bind_scanning == old(self).bind_scanning,
    {
        let ghost w = self.wear_counters@;
        match find_wear(&self.wear_counters, g) {
            Some(i) => {
                proof {
                    lemma_wear_map_update(w, i as int, secs);
                }
                self.wear_counters.set(i, (g, secs));
                proof {
                    assert forall|x: int, y: int| 0 <= x < y < self.wear_counters@.len() implies (
                    #[trigger] self.wear_counters@[x]).0 != (#[trigger] self.wear_counters@[y]).0 by {
                        assert(w[x].0 != w[y].0);
                    }
                }
            },
            None => {
                self.wear_counters.push((g, secs));
                assert(self.wear_counters@.drop_last() =~= w);
            },
        }
    }

    /// Wear counter: accumulate `poll_secs` of running time for each group of
    /// the last discovery with any fan turning.
    pub fn accumulate_wear(&mut self, poll_secs: u64)
        requires
            old(self).wf(),
            forall|g: GroupId|
                wear_of(wear_map(old(self).wear_counters@), g) + poll_secs * running_count(
                    old(self).last_rpms@,
                    g,
                ) <= u64::MAX,
        ensures
            final(self).wf(),
            wear_map(final(self).wear_counters@) == accumulate_spec(
                wear_map(old(self).wear_counters@),
                old(self).last_rpms@,
                poll_secs,
            ),
            final(self).rpm_history@ == old(self).rpm_history@,
            final(self).rpm_anomaly_alerted@ == old(self).rpm_anomaly_alerted@,
            final(self).last_rpms@ == old(self).last_rpms@,
            final(self).poll_interval_ms == old(self).poll_interval_ms,
            final(self).bind_scanning == old(self).bind_scanning,
    {
        let ghost m0 = wear_map(self.wear_counters@);
        let ghost last = self.last_rpms@;
        let mut i: usize = 0;
        while i < self.last_rpms.len()
            invariant
                i <= last.len(),
                self.last_rpms@ == last,
                self.wf(),
                forall|g: GroupId| wear_of(m0, g) + poll_secs * running_count(last, g) <= u64::MAX,
                wear_map(self.wear_counters@) == accumulate_spec(m0, last.subrange(0, i as int), poll_secs),
                self.rpm_history@ == old(self).rpm_history@,
                self.rpm_anomaly_alerted@ == old(self).rpm_anomaly_alerted@,
                self.poll_interval_ms == old(self).poll_interval_ms,
                self.bind_scanning == old(self).bind_scanning,
            decreases last.len() - i,
        {
            let (g, r) = self.last_rpms[i];
            assert(last.subrange(0, i + 1).drop_last() =~= last.subrange(0, i as int));
            assert(last.subrange(0, i + 1).last() == last[i as int]);
            if r[0] > 0 || r[1] > 0 || r[2] > 0 || r[3] > 0 {
                proof {
                    lemma_accumulate_bound(m0, last, poll_secs, g, i as int + 1);
                }
                self.add_wear(g, poll_secs);
            }
            i = i + 1;
        }
        assert(last.subrange(0, i as int) =~= last);
    }

    /// Load wear stats from persisted entries (a later entry for a group wins).
    pub fn load_wear_stats(&mut self, entries: &[WearEntry])
        requires
            old(self).wf(),
        ensures
            final(self).wf(),
            wear_map(final(self).wear_counters@) == load_spec(
                wear_map(old(self).wear_counters@),
                entries@,
            ),
            final(self).rpm_history@ == old(self).rpm_history@,
            final(self).rpm_anomaly_alerted@ == old(self).rpm_anomaly_alerted@,
            final(self).last_rpms@ == old(self).last_rpms@,
            final(self).poll_interval_ms == old(self).poll_interval_ms,
            final(self).bind_scanning == old(self).bind_scanning,
    {
        let ghost m0 = wear_map(self.wear_counters@);
        let mut i: usize = 0;
        while i < entries.len()
            invariant
                i <= entries@.len(),
                self.wf(),
                wear_map(self.wear_counters@) == load_spec(m0, entries@.subrange(0, i as int)),
                self.rpm_history@ == old(self).rpm_history@,
                self.rpm_anomaly_alerted@ == old(self).rpm_anomaly_alerted@,
                self.last_rpms@ == old(self).last_rpms@,
                self.poll_interval_ms == old(self).poll_interval_ms,
                self.bind_scanning == old(self).bind_scanning,
            decreases entries@.len() - i,
        {
            assert(entries@.subrange(0, i + 1).drop_last() =~= entries@.subrange(0, i as int));
            assert(entries@.subrange(0, i + 1).last() == entries@[i as int]);
            self.set_wear(entries[i].group_id, entries[i].running_seconds);
            i = i + 1;
        }
        assert(entries@.subrange(0, i as int) =~= entries@);
    }

    /// Current wear counters (group, cumulative running seconds).
    pub fn wear_stats(&self) -> (r: &Vec<(GroupId, u64)>)
        ensures
            r@ == self.wear_counters@,
    {
        &self.wear_counters
    }

    /// Export wear counters for persistence.
    pub fn wear_entries(&self) -> (r: Vec<WearEntry>)
        ensures
            r@ == entries_of(self.wear_counters@),
    {
        let mut out: Vec<WearEntry> = Vec::new();
        let mut i: usize = 0;
        while i < self.wear_counters.len()
            invariant
                i <= self.wear_counters@.len(),
                out@.len() == i,
                forall|j: int|
                    0 <= j < i ==> (#[trigger] out@[j]).group_id == self.wear_counters@[j].0
                        && out@[j].running_seconds == self.wear_counters@[j].1,
            decreases self.wear_counters@.len() - i,
        {
            out.push(WearEntry { group_id: self.wear_counters[i].0, running_seconds: self.wear_counters[i].1 });
            i = i + 1;
        }
        proof {
            assert(out@ =~= entries_of(self.wear_counters@));
        }
        out
    }
}

/// Adding an element to a list adds it to its set.
pub proof fn lemma_set_of_push(s: Seq<GroupId>, g: GroupId)
    ensures
        set_of(s.push(g)) == set_of(s).insert(g),
{
    assert forall|x: GroupId| s.push(g).contains(x) <==> (s.contains(x) || x == g) by {
        if s.push(g).contains(x) {
            let q = choose|q: int| 0 <= q < s.push(g).len() && s.push(g)[q] == x;
            if q < s.len() {
                assert(s[q] == x);
            }
        }
        if s.contains(x) {
            let q = choose|q: int| 0 <= q < s.len() && s[q] == x;
            assert(s.push(g)[q] == x);
        }
        if x == g {
            assert(s.push(g)[s.len() as int] == g);
        }
    }
    assert forall|x: GroupId| #[trigger] set_of(s.push(g)).contains(x) == set_of(s).insert(g).contains(x) by {
        assert(s.push(g).contains(x) <==> (s.contains(x) || x == g));
    }
    assert(set_of(s.push(g)) =~= set_of(s).insert(g));
}

proof fn lemma_running_prefix(s: Seq<(GroupId, [u16; 4])>, g: GroupId, k: int)
    requires
        0 <= k <= s.len(),
    ensures
        running_count(s.subrange(0, k), g) <= running_count(s, g),
    decreases s.len() - k,
{
    if k < s.len() {
        lemma_running_prefix(s, g, k + 1);
        assert(s.subrange(0, k + 1).drop_last() =~= s.subrange(0, k));
    } else {
        assert(s.subrange(0, k) =~= s);
    }
}

/// Accumulating wear adds `poll` seconds to a group for each reading in
/// which one of its fans runs, and leaves other groups as they were.
pub proof fn law_accumulate_wear(m: Map<GroupId, u64>, s: Seq<(GroupId, [u16; 4])>, poll: u64, g: GroupId)
    requires
        forall|x: GroupId| wear_of(m, x) + poll * running_count(s, x) <= u64::MAX,
    ensures
        wear_of(accumulate_spec(m, s, poll), g) == wear_of(m, g) + poll * running_count(s, g),
    decreases s.len(),
{
    if s.len() == 0 {
        assert(poll * running_count(s, g) == 0) by (nonlinear_arith)
            requires
                running_count(s, g) == 0,
        ;
    } else {
        let d = s.drop_last();
        assert forall|x: GroupId| wear_of(m, x) + poll * running_count(d, x) <= u64::MAX by {
            assert(running_count(d, x) <= running_count(s, x));
            assert(poll * running_count(d, x) <= poll * running_count(s, x)) by (nonlinear_arith)
                requires
                    running_count(d, x) <= running_count(s, x),
            ;
        }
        law_accumulate_wear(m, d, poll, g);
        let prev = accumulate_spec(m, d, poll);
        let h = s.last().0;
        let r = s.last().1;
        if nonzero_count(r) > 0 && h == g {
            assert(running_count(s, g) == running_count(d, g) + 1);
            assert(poll * running_count(s, g) == poll * running_count(d, g) + poll) by (nonlinear_arith)
                requires
                    running_count(s, g) == running_count(d, g) + 1,
            ;
            assert(wear_of(prev, g) + poll <= u64::MAX);
            assert(accumulate_spec(m, s, poll) == prev.insert(g, (wear_of(prev, g) + poll) as u64));
        } else if nonzero_count(r) > 0 {
            assert(running_count(s, g) == running_count(d, g));
            assert(accumulate_spec(m, s, poll) == prev.insert(h, (wear_of(prev, h) + poll) as u64));
            assert(wear_of(accumulate_spec(m, s, poll), g) == wear_of(prev, g));
        } else {
            assert(running_count(s, g) == running_count(d, g));
            assert(accumulate_spec(m, s, poll) == prev);
        }
    }
}

proof fn lemma_accumulate_bound(
    m: Map<GroupId, u64>,
    s: Seq<(GroupId, [u16; 4])>,
    poll: u64,
    g: GroupId,
    k: int,
)
    requires
        1 <= k <= s.len(),
        s[k - 1].0 == g,
        nonzero_count(s[k - 1].1) > 0,
        forall|x: GroupId| wear_of(m, x) + poll * running_count(s, x) <= u64::MAX,
    ensures
        wear_of(accumulate_spec(m, s.subrange(0, k - 1), poll), g) + poll <= u64::MAX,
{
    let p = s.subrange(0, k - 1);
    let q = s.subrange(0, k);
    assert(q.drop_last() =~= p);
    lemma_running_prefix(s, g, k);
    assert forall|x: GroupId| wear_of(m, x) + poll * running_count(p, x) <= u64::MAX by {
        lemma_running_prefix(s, x, k - 1);
        assert(poll * running_count(p, x) <= poll * running_count(s, x)) by (nonlinear_arith)
            requires
                running_count(p, x) <= running_count(s, x),
        ;
    }
    law_accumulate_wear(m, p, poll, g);
    assert(running_count(q, g) == running_count(p, g) + 1);
    assert(poll * running_count(q, g) <= poll * running_count(s, g)) by (nonlinear_arith)
        requires
            running_count(q, g) <= running_count(s, g),
    ;
    assert(poll * running_count(q, g) == poll * running_count(p, g) + poll) by (nonlinear_arith)
        requires
            running_count(q, g) == running_count(p, g) + 1,
    ;
}

/// Groups of the readings are distinct.
pub open spec fn unique_groups(s: Seq<(GroupId, [u16; 4])>) -> bool {
    forall|i: int, j: int| 0 <= i < j < s.len() ==> (#[trigger] s[i]).0 != (#[trigger] s[j]).0
}

proof fn lemma_lookup_unique(s: Seq<(GroupId, [u16; 4])>, i: int)
    requires
        unique_groups(s),
        0 <= i < s.len(),
    ensures
        lookup_rpms(s, s[i].0) == Some(s[i].1),
    decreases s.len(),
{
    if i < s.len() - 1 {
        assert(s[i].0 != s[s.len() - 1].0);
        assert(s.drop_last()[i] == s[i]);
        lemma_lookup_unique(s.drop_last(), i);
    }
}

proof fn lemma_no_changes(old: Seq<(GroupId, [u16; 4])>, k: int)
    requires
        unique_groups(old),
        0 <= k <= old.len(),
    ensures
        change_events(old, old.subrange(0, k)) == Seq::<EngineEvent>::empty(),
    decreases k,
{
    if k > 0 {
        assert(old.subrange(0, k).drop_last() =~= old.subrange(0, k - 1));
        lemma_no_changes(old, k - 1);
        lemma_lookup_unique(old, k - 1);
    }
}

proof fn lemma_none_gone(old: Seq<(GroupId, [u16; 4])>, cur: Seq<(GroupId, [u16; 4])>)
    requires
        forall|i: int| 0 <= i < old.len() ==> has_rpm_group(cur, (#[trigger] old[i]).0),
    ensures
        gone_events(old, cur) == Seq::<EngineEvent>::empty(),
    decreases old.len(),
{
    if old.len() > 0 {
        assert forall|i: int| 0 <= i < old.drop_last().len() implies has_rpm_group(
            cur,
            (#[trigger] old.drop_last()[i]).0,
        ) by {
            assert(old.drop_last()[i] == old[i]);
        }
        lemma_none_gone(old.drop_last(), cur);
        assert(has_rpm_group(cur, old[old.len() - 1].0));
    }
}

/// The entries that export the counters `w`, in order.
pub open spec fn entries_of(w: Seq<(GroupId, u64)>) -> Seq<WearEntry> {
    w.map_values(|p: (GroupId, u64)| WearEntry { group_id: p.0, running_seconds: p.1 })
}

/// Exported wear counters load back as they were: loading the entries of
/// `w` over counters `m` gives `m` with every counter of `w` put in.
pub proof fn law_wear_persistence_roundtrip(m: Map<GroupId, u64>, w: Seq<(GroupId, u64)>)
    ensures
        load_spec(m, entries_of(w)) == m.union_prefer_right(wear_map(w)),
    decreases w.len(),
{
    if w.len() == 0 {
        assert(entries_of(w) =~= Seq::<WearEntry>::empty());
        assert(m.union_prefer_right(wear_map(w)) =~= m);
    } else {
        law_wear_persistence_roundtrip(m, w.drop_last());
        assert(entries_of(w).drop_last() =~= entries_of(w.drop_last()));
        assert(load_spec(m, entries_of(w)) =~= m.union_prefer_right(wear_map(w)));
    }
}

/// Re-reading the same RPMs reports nothing: no connection, change or
/// disconnection, when each group appears once.
pub proof fn law_same_readings_no_events(cur: Seq<(GroupId, [u16; 4])>)
    requires
        unique_groups(cur),
    ensures
        change_events(cur, cur) + gone_events(cur, cur) == Seq::<EngineEvent>::empty(),
{
    lemma_no_changes(cur, cur.len() as int);
    assert(cur.subrange(0, cur.len() as int) =~= cur);
    assert forall|i: int| 0 <= i < cur.len() implies has_rpm_group(cur, (#[trigger] cur[i]).0) by {
        assert(cur[i].0 == cur[i].0);
    }
    lemma_none_gone(cur, cur);
    assert(Seq::<EngineEvent>::empty() + Seq::<EngineEvent>::empty() =~= Seq::<EngineEvent>::empty());
}

/// A group seen for the first time is reported connected, then with its RPMs.
pub proof fn law_new_group_connected(old: Seq<(GroupId, [u16; 4])>, g: GroupId, r: [u16; 4])
    requires
        lookup_rpms(old, g) is None,
    ensures
        change_events(old, seq![(g, r)]) == seq![
            EngineEvent::DeviceConnected { group: g },
            EngineEvent::RpmUpdate { group: g, rpms: r },
        ],
{
    let s = seq![(g, r)];
    assert(s.drop_last() =~= Seq::<(GroupId, [u16; 4])>::empty());
    assert(s.last() == (g, r));
    assert(change_events(old, s.drop_last()) == Seq::<EngineEvent>::empty());
    assert(change_events(old, seq![(g, r)]) =~= seq![
        EngineEvent::DeviceConnected { group: g },
        EngineEvent::RpmUpdate { group: g, rpms: r },
    ]);
}

proof fn lemma_anomaly_keeps_flag(h: Seq<(GroupId, Seq<u16>)>, a: Set<GroupId>, g: GroupId)
    requires
        a.contains(g),
        forall|i: int| 0 <= i < h.len() ==> (#[trigger] h[i]).0 == g ==> anomaly_judgement(
            h[i].1,
        ) is None || anomaly_judgement(h[i].1) matches Some(Some(_)),
    ensures
        anomaly_spec(h, a).0.contains(g),
        forall|i: int|
            0 <= i < anomaly_spec(h, a).1.len() ==> !(#[trigger] anomaly_spec(h, a).1[i] matches EngineEvent::RpmAnomaly { group, .. } && group == g),
    decreases h.len(),
{
    if h.len() > 0 {
        assert forall|i: int| 0 <= i < h.drop_last().len() && (#[trigger] h.drop_last()[i]).0 == g implies anomaly_judgement(h.drop_last()[i].1) is None || anomaly_judgement(
            h.drop_last()[i].1,
        ) matches Some(Some(_)) by {
            assert(h.drop_last()[i] == h[i]);
        }
        lemma_anomaly_keeps_flag(h.drop_last(), a, g);
        assert(h.last() == h[h.len() - 1]);
    }
}

/// An RPM anomaly is reported once per degradation episode: a group already
/// reported gets no new report while its history stays degraded or too short.
pub proof fn law_anomaly_reported_once(h: Seq<(GroupId, Seq<u16>)>, a: Set<GroupId>, g: GroupId)
    requires
        a.contains(g),
        forall|i: int| 0 <= i < h.len() ==> (#[trigger] h[i]).0 == g ==> anomaly_judgement(
            h[i].1,
        ) is None || anomaly_judgement(h[i].1) matches Some(Some(_)),
    ensures
        anomaly_spec(h, a).0.contains(g),
        forall|i: int|
            0 <= i < anomaly_spec(h, a).1.len() ==> !(#[trigger] anomaly_spec(h, a).1[i] matches EngineEvent::RpmAnomaly { group, .. } && group == g),
{
    lemma_anomaly_keeps_flag(h, a, g);
}

/// After its history recovers a group is no longer marked, so its next
/// degradation is reported again.
pub proof fn law_anomaly_refires_after_recovery(
    g: GroupId,
    healthy: Seq<u16>,
    degraded: Seq<u16>,
    a: Set<GroupId>,
)
    requires
        anomaly_judgement(healthy) == Some(None::<(u64, u64, u64)>),
        anomaly_judgement(degraded) matches Some(Some(_)),
    ensures
        ({
            let (a1, e1) = anomaly_spec(seq![(g, healthy)], a);
            let (a2, e2) = anomaly_spec(seq![(g, degraded)], a1);
            &&& e1.len() == 0
            &&& e2.len() == 1
            &&& e2[0] matches EngineEvent::RpmAnomaly { group, .. } && group == g
        }),
{
    let e = Seq::<(GroupId, Seq<u16>)>::empty();
    assert(seq![(g, healthy)].drop_last() =~= e);
    assert(seq![(g, degraded)].drop_last() =~= e);
    assert(anomaly_spec(e, a) == (a, Seq::<EngineEvent>::empty()));
    let a1 = anomaly_spec(seq![(g, healthy)], a).0;
    assert(a1 == a.remove(g));
    assert(anomaly_spec(e, a1) == (a1, Seq::<EngineEvent>::empty()));
    assert(!a1.contains(g));
}

/// Group an anomaly report is about.
pub open spec fn reported_group(e: EngineEvent) -> Option<GroupId> {
    match e {
        EngineEvent::RpmAnomaly { group, .. } => Some(group),
        _ => None,
    }
}

/// Some event reports an anomaly of group `g`.
pub open spec fn reports(evs: Seq<EngineEvent>, g: GroupId) -> bool {
    exists|k: int| 0 <= k < evs.len() && #[trigger] reported_group(evs[k]) == Some(g)
}

/// Whether a group is marked after its history `s` is judged: a degraded
/// history marks it, a healthy one clears it, a short one keeps the mark.
pub open spec fn marked_after(s: Seq<u16>, was: bool) -> bool {
    match anomaly_judgement(s) {
        None => was,
        Some(None) => false,
        Some(Some(_)) => true,
    }
}

proof fn lemma_reports_push(evs: Seq<EngineEvent>, e: EngineEvent, x: GroupId)
    ensures
        reports(evs.push(e), x) <==> (reports(evs, x) || reported_group(e) == Some(x)),
{
    let n = evs.push(e);
    if reports(n, x) {
        let k = choose|k: int| 0 <= k < n.len() && #[trigger] reported_group(n[k]) == Some(x);
        if k < evs.len() {
            assert(reported_group(evs[k]) == Some(x));
        }
    }
    if reports(evs, x) {
        let k = choose|k: int| 0 <= k < evs.len() && #[trigger] reported_group(evs[k]) == Some(x);
        assert(reported_group(n[k]) == Some(x));
    }
    if reported_group(e) == Some(x) {
        assert(reported_group(n[evs.len() as int]) == Some(x));
    }
}

/// Anomaly checking over all groups, each on its own: a group is reported
/// exactly when its history is degraded and it was not marked; it is marked
/// afterwards when degraded, unmarked when healthy, and keeps its mark when
/// its history is too short; groups without a history keep their mark.
pub proof fn law_anomalies_per_group(h: Seq<(GroupId, Seq<u16>)>, a: Set<GroupId>)
    requires
        forall|i: int, j: int| 0 <= i < j < h.len() ==> (#[trigger] h[i]).0 != (#[trigger] h[j]).0,
    ensures
        forall|i: int|
            0 <= i < h.len() ==> (anomaly_spec(h, a).0.contains((#[trigger] h[i]).0) == marked_after(
                h[i].1,
                a.contains(h[i].0),
            ) && (reports(anomaly_spec(h, a).1, h[i].0) <==> (anomaly_judgement(h[i].1) matches Some(
                Some(_),
            ) && !a.contains(h[i].0)))),
        forall|g: GroupId|
            (forall|i: int| 0 <= i < h.len() ==> (#[trigger] h[i]).0 != g) ==> (anomaly_spec(
                h,
                a,
            ).0.contains(g) == a.contains(g) && !reports(anomaly_spec(h, a).1, g)),
    decreases h.len(),
{
    if h.len() > 0 {
        let p = h.drop_last();
        assert forall|i: int, j: int| 0 <= i < j < p.len() implies (#[trigger] p[i]).0 != (
        #[trigger] p[j]).0 by {
            assert(p[i] == h[i] && p[j] == h[j]);
        }
        law_anomalies_per_group(p, a);
        let (al, evs) = anomaly_spec(p, a);
        let n = h.len() - 1;
        let (g, s) = h.last();
        assert(h[n] == (g, s));
        assert forall|i: int| 0 <= i < p.len() implies (#[trigger] p[i]).0 != g by {
            assert(p[i] == h[i]);
        }
        match anomaly_judgement(s) {
            Some(Some((first, second, drop))) => {
                let e = EngineEvent::RpmAnomaly { group: g, drop_pct: drop, first_avg: first, second_avg: second };
                assert forall|x: GroupId| true implies (reports(evs.push(e), x) <==> (reports(evs, x)
                    || reported_group(e) == Some(x))) by {
                    lemma_reports_push(evs, e, x);
                }
            },
            _ => {},
        }
        assert forall|i: int| 0 <= i < h.len() implies (anomaly_spec(h, a).0.contains((#[trigger] h[i]).0)
            == marked_after(h[i].1, a.contains(h[i].0)) && (reports(anomaly_spec(h, a).1, h[i].0) <==> (
        anomaly_judgement(h[i].1) matches Some(Some(_)) && !a.contains(h[i].0)))) by {
            if i < n {
                assert(h[i] == p[i]);
                assert(h[i].0 != g);
            }
        }
        assert forall|x: GroupId| (forall|i: int| 0 <= i < h.len() ==> (#[trigger] h[i]).0 != x) implies (
        anomaly_spec(h, a).0.contains(x) == a.contains(x) && !reports(anomaly_spec(h, a).1, x)) by {
            assert forall|i: int| 0 <= i < p.len() implies (#[trigger] p[i]).0 != x by {
                assert(p[i] == h[i]);
            }
            assert(h[n].0 != x);
            assert(al.contains(x) == a.contains(x) && !reports(evs, x));
            match anomaly_judgement(s) {
                Some(Some((first, second, drop))) => {
                    let e = EngineEvent::RpmAnomaly {
                        group: g,
                        drop_pct: drop,
                        first_avg: first,
                        second_avg: second,
                    };
                    lemma_reports_push(evs, e, x);
                },
                _ => {},
            }
        }
    }
}

/// Text of an RPM anomaly: "RPM dropped D% (avg F → S)".
pub open spec fn anomaly_text(drop_pct: u64, first_avg: u64, second_avg: u64) -> Seq<char> {
    "RPM dropped "@ + dec_chars(drop_pct as nat) + "% (avg "@ + dec_chars(first_avg as nat) + " \u{2192} "@
        + dec_chars(second_avg as nat) + ")"@
}

/// The message reported with an RPM anomaly.
pub fn anomaly_message(drop_pct: u64, first_avg: u64, second_avg: u64) -> (m: String)
    ensures
        m@ == anomaly_text(drop_pct, first_avg, second_avg),
{
    let mut m = "RPM dropped ".to_owned();
    append_dec_u64(&mut m, drop_pct);
    m.append("% (avg ");
    append_dec_u64(&mut m, first_avg);
    m.append(" \u{2192} ");
    append_dec_u64(&mut m, second_avg);
    m.append(")");
    m
}


/// A fall of more than 20% between the average of the older half of a
/// history and that of the newer half is an anomaly whenever the older
/// average is above 100 RPM and the newer one is positive: the judgement
/// carries both averages and the drop in percent, and a group not yet
/// marked is reported with them (and marked).
pub proof fn law_rpm_drop_is_anomaly(g: GroupId, s: Seq<u16>, alerted: Set<GroupId>)
    requires
        s.len() >= ANOMALY_MIN_SAMPLES,
        ({
            let mid = s.len() / 2;
            let first = sum_u16(s.take(mid as int)) / mid;
            let second = sum_u16(s.skip(mid as int)) / (s.len() - mid) as nat;
            &&& first > 100
            &&& 0 < second < first
            &&& (first - second) * 100 / first as int > 20
        }),
    ensures
        ({
            let mid = s.len() / 2;
            let first = sum_u16(s.take(mid as int)) / mid;
            let second = sum_u16(s.skip(mid as int)) / (s.len() - mid) as nat;
            let drop = (first - second) * 100 / first as int;
            &&& anomaly_judgement(s) == Some(Some((first as u64, second as u64, drop as u64)))
            &&& !alerted.contains(g) ==> anomaly_spec(seq![(g, s)], alerted) == (
                alerted.insert(g),
                seq![EngineEvent::RpmAnomaly { group: g, drop_pct: drop as u64, first_avg: first as u64, second_avg: second as u64 }],
            )
        }),
{
    let e = Seq::<(GroupId, Seq<u16>)>::empty();
    assert(seq![(g, s)].drop_last() =~= e);
    assert(anomaly_spec(e, alerted) == (alerted, Seq::<EngineEvent>::empty()));
}

/// Only such a fall is an anomaly: a history of fewer than ten samples is
/// not judged, and one whose averages do not fall by more than 20% from
/// above 100 RPM to a positive value is judged healthy.
pub proof fn law_no_anomaly_otherwise(s: Seq<u16>)
    ensures
        s.len() < ANOMALY_MIN_SAMPLES ==> anomaly_judgement(s) is None,
        s.len() >= ANOMALY_MIN_SAMPLES ==> ({
            let mid = s.len() / 2;
            let first = sum_u16(s.take(mid as int)) / mid;
            let second = sum_u16(s.skip(mid as int)) / (s.len() - mid) as nat;
            !(first > 100 && 0 < second < first && (first - second) * 100 / first as int > 20) ==> anomaly_judgement(s)
                == Some(None::<(u64, u64, u64)>)
        }),
{
}
} // verus!
