//! LED editor: the per-LED colours a group's lighting mode shows, fan by
//! fan, to seed the editor from the daemon's state.

use vstd::prelude::*;

use crate::assoc::{assoc_map, keys_unique, lemma_assoc_absent, lemma_assoc_get, lemma_assoc_push, lemma_assoc_update};
use crate::model::{GroupId, Rgb};
use crate::rgb::{FanColorAssignment, FanLedAssignment, FanZoneSpec, RgbMode, ZoneSource};

verus! {

/// The colour of a switched-off LED.
pub open spec fn black() -> Rgb {
    Rgb { r: 0, g: 0, b: 0 }
}

/// `n` LEDs of colour `c`.
pub open spec fn filled(c: Rgb, n: nat) -> Seq<Rgb> {
    Seq::new(n, |i: int| c)
}

/// `v` cut or padded with dark LEDs to `n` LEDs.
pub open spec fn resized(v: Seq<Rgb>, n: nat) -> Seq<Rgb> {
    Seq::new(n, |i: int| if i < v.len() { v[i] } else { black() })
}

/// Entry `i`, or the last one for fans beyond the list, or none for an empty list.
pub open spec fn entry_for<T>(s: Seq<T>, i: int) -> Option<T> {
    if i < s.len() {
        Some(s[i])
    } else if s.len() > 0 {
        Some(s.last())
    } else {
        None
    }
}

/// Colour a zone shows in the editor: its static colour, else dark.
pub open spec fn zone_color(z: ZoneSource) -> Rgb {
    match z {
        ZoneSource::Color { color, .. } => color,
        _ => black(),
    }
}

/// (inner, outer) LED colours of fan `f` under `mode`, or `None` for modes
/// whose LED colours the editor cannot show (effects, temperature colours,
/// sub-zones).
pub open spec fn fan_colors_spec(mode: RgbMode, f: int, inner_n: nat, outer_n: nat) -> Option<(Seq<Rgb>, Seq<Rgb>)> {
    match mode {
        RgbMode::Off => Some((filled(black(), inner_n), filled(black(), outer_n))),
        RgbMode::Static { color, .. } => Some((filled(color, inner_n), filled(color, outer_n))),
        RgbMode::Composed(specs) => match entry_for(specs@, f) {
            Some(s) => Some((filled(zone_color(s.inner), inner_n), filled(zone_color(s.outer), outer_n))),
            None => Some((filled(black(), inner_n), filled(black(), outer_n))),
        },
        RgbMode::PerFan(assignments) => match entry_for(assignments@, f) {
            Some(a) => Some(
                (
                    filled(
                        match a.inner {
                            Some(c) => c,
                            None => black(),
                        },
                        inner_n,
                    ),
                    filled(
                        match a.outer {
                            Some(c) => c,
                            None => black(),
                        },
                        outer_n,
                    ),
                ),
            ),
            None => Some((filled(black(), inner_n), filled(black(), outer_n))),
        },
        RgbMode::PerLed(assignments) => match entry_for(assignments@, f) {
            Some(a) => Some((resized(a.inner@, inner_n), resized(a.outer@, outer_n))),
            None => Some((filled(black(), inner_n), filled(black(), outer_n))),
        },
        _ => None,
    }
}

fn filled_vec(c: Rgb, n: usize) -> (v: Vec<Rgb>)
    ensures
        v@ == filled(c, n as nat),
{
    let mut v: Vec<Rgb> = Vec::new();
    let mut i: usize = 0;
    while i < n
        invariant
            i <= n,
            v@ == filled(c, i as nat),
        decreases n - i,
    {
        v.push(c);
        assert(v@ =~= filled(c, (i + 1) as nat));
        i = i + 1;
    }
    v
}

fn resized_vec(src: &Vec<Rgb>, n: usize) -> (v: Vec<Rgb>)
    ensures
        v@ == resized(src@, n as nat),
{
    let mut v: Vec<Rgb> = Vec::new();
    let mut i: usize = 0;
    while i < n
        invariant
            i <= n,
            v@ == resized(src@, i as nat),
        decreases n - i,
    {
        if i < src.len() {
            v.push(src[i]);
        } else {
            v.push(Rgb { r: 0, g: 0, b: 0 });
        }
        assert(v@ =~= resized(src@, (i + 1) as nat));
        i = i + 1;
    }
    v
}

fn zone_color_exec(z: ZoneSource) -> (c: Rgb)
    ensures
        c == zone_color(z),
{
    match z {
        ZoneSource::Color { color, .. } => color,
        _ => Rgb { r: 0, g: 0, b: 0 },
    }
}

fn pick_index(len: usize, f: usize) -> (r: Option<usize>)
    ensures
        match r {
            Some(i) => i < len && (if f < len { i == f } else { i == len - 1 }),
            None => len == 0,
        },
{
    if f < len {
        Some(f)
    } else if len > 0 {
        Some(len - 1)
    } else {
        None
    }
}

/// (inner, outer) LED colours of fan `f` under `mode`.
pub fn fan_led_colors(mode: &RgbMode, f: usize, inner_n: usize, outer_n: usize) -> (r: Option<FanLedAssignment>)
    ensures
        match fan_colors_spec(*mode, f as int, inner_n as nat, outer_n as nat) {
            Some((i, o)) => r matches Some(a) && a.inner@ == i && a.outer@ == o,
            None => r is None,
        },
{
    match mode {
        RgbMode::Off => Some(
            FanLedAssignment {
                inner: filled_vec(Rgb { r: 0, g: 0, b: 0 }, inner_n),
                outer: filled_vec(Rgb { r: 0, g: 0, b: 0 }, outer_n),
            },
        ),
        RgbMode::Static { color, .. } => Some(
            FanLedAssignment { inner: filled_vec(*color, inner_n), outer: filled_vec(*color, outer_n) },
        ),
        RgbMode::Composed(specs) => {
            let (ic, oc) = match pick_index(specs.len(), f) {
                Some(i) => {
                    let s: FanZoneSpec = specs[i];
                    (zone_color_exec(s.inner), zone_color_exec(s.outer))
                },
                None => (Rgb { r: 0, g: 0, b: 0 }, Rgb { r: 0, g: 0, b: 0 }),
            };
            Some(FanLedAssignment { inner: filled_vec(ic, inner_n), outer: filled_vec(oc, outer_n) })
        },
        RgbMode::PerFan(assignments) => {
            let (ic, oc) = match pick_index(assignments.len(), f) {
                Some(i) => {
                    let a: FanColorAssignment = assignments[i];
                    (
                        match a.inner {
                            Some(c) => c,
                            None => Rgb { r: 0, g: 0, b: 0 },
                        },
                        match a.outer {
                            Some(c) => c,
                            None => Rgb { r: 0, g: 0, b: 0 },
                        },
                    )
                },
                None => (Rgb { r: 0, g: 0, b: 0 }, Rgb { r: 0, g: 0, b: 0 }),
            };
            Some(FanLedAssignment { inner: filled_vec(ic, inner_n), outer: filled_vec(oc, outer_n) })
        },
        RgbMode::PerLed(assignments) => match pick_index(assignments.len(), f) {
            Some(i) => Some(
                FanLedAssignment {
                    inner: resized_vec(&assignments[i].inner, inner_n),
                    outer: resized_vec(&assignments[i].outer, outer_n),
                },
            ),
            None => Some(
                FanLedAssignment {
                    inner: filled_vec(Rgb { r: 0, g: 0, b: 0 }, inner_n),
                    outer: filled_vec(Rgb { r: 0, g: 0, b: 0 }, outer_n),
                },
            ),
        },
        _ => None,
    }
}

/// LED colours of each of the group's `fan_count` fans under `mode`, or
/// `None` when the editor cannot show the mode's colours.
pub fn group_led_colors(mode: &RgbMode, fan_count: i32, inner_n: usize, outer_n: usize) -> (r: Option<Vec<FanLedAssignment>>)
    ensures
        fan_colors_spec(*mode, 0, inner_n as nat, outer_n as nat) is None ==> r is None,
        fan_colors_spec(*mode, 0, inner_n as nat, outer_n as nat) is Some ==> (r matches Some(v) && v@.len()
            == (if fan_count > 0 { fan_count as int } else { 0 }) && forall|f: int|
            0 <= f < v@.len() ==> (fan_colors_spec(*mode, f, inner_n as nat, outer_n as nat) matches Some(
                (i, o),
            ) && (#[trigger] v@[f]).inner@ == i && v@[f].outer@ == o)),
{
    match fan_led_colors(mode, 0, inner_n, outer_n) {
        None => None,
        Some(first) => {
            let n: usize = if fan_count > 0 {
                fan_count as usize
            } else {
                0
            };
            let mut out: Vec<FanLedAssignment> = Vec::new();
            let mut f: usize = 0;
            while f < n
                invariant
                    f <= n,
                    n == (if fan_count > 0 { fan_count as int } else { 0 }),
                    fan_colors_spec(*mode, 0, inner_n as nat, outer_n as nat) is Some,
                    out@.len() == f,
                    forall|g: int|
                        0 <= g < f ==> (fan_colors_spec(*mode, g, inner_n as nat, outer_n as nat) matches Some(
                            (i, o),
                        ) && (#[trigger] out@[g]).inner@ == i && out@[g].outer@ == o),
                decreases n - f,
            {
                match fan_led_colors(mode, f, inner_n, outer_n) {
                    Some(a) => out.push(a),
                    None => {
                        assert(false);
                    },
                }
                f = f + 1;
            }
            Some(out)
        },
    }
}

// ---------------------------------------------------------------------------
// The editor's colours and LED presets
// ---------------------------------------------------------------------------

/// The colours the editor holds for each `(group, fan index)`, each key once.
#[derive(Debug)]
pub struct EditorColors {
    pub entries: Vec<((GroupId, i32), FanLedAssignment)>,
}

/// The (inner, outer) colours of an assignment.
pub open spec fn fan_view(a: FanLedAssignment) -> (Seq<Rgb>, Seq<Rgb>) {
    (a.inner@, a.outer@)
}

/// The entries with their colours as values.
pub open spec fn entries_view(s: Seq<((GroupId, i32), FanLedAssignment)>) -> Seq<((GroupId, i32), (Seq<Rgb>, Seq<Rgb>))> {
    s.map_values(|e: ((GroupId, i32), FanLedAssignment)| (e.0, fan_view(e.1)))
}

/// The colours of fan `fan` of `group` in a preset assembled from the
/// editor: what the editor holds for it, or no colours at all.
pub open spec fn preset_fan(m: Map<(GroupId, i32), (Seq<Rgb>, Seq<Rgb>)>, group: GroupId, fan: int) -> (Seq<Rgb>, Seq<Rgb>) {
    if m.contains_key((group, fan as i32)) {
        m[(group, fan as i32)]
    } else {
        (Seq::empty(), Seq::empty())
    }
}

/// The editor after loading a preset's assignments into `group`: fan `i`
/// takes assignment `i`; every other fan keeps its colours.
pub open spec fn loaded(m: Map<(GroupId, i32), (Seq<Rgb>, Seq<Rgb>)>, group: GroupId, a: Seq<FanLedAssignment>) -> Map<
    (GroupId, i32),
    (Seq<Rgb>, Seq<Rgb>),
>
    decreases a.len(),
{
    if a.len() == 0 {
        m
    } else {
        loaded(m, group, a.drop_last()).insert((group, (a.len() - 1) as i32), fan_view(a.last()))
    }
}

fn copy_colors(v: &Vec<Rgb>) -> (r: Vec<Rgb>)
    ensures
        r@ == v@,
{
    let mut r: Vec<Rgb> = Vec::new();
    let mut i: usize = 0;
    while i < v.len()
        invariant
            i <= v@.len(),
            r@ == v@.subrange(0, i as int),
        decreases v@.len() - i,
    {
        r.push(v[i]);
        proof {
            assert(v@.subrange(0, i + 1) =~= v@.subrange(0, i as int).push(v@[i as int]));
        }
        i = i + 1;
    }
    proof {
        assert(v@.subrange(0, i as int) =~= v@);
    }
    r
}

fn copy_assignment(a: &FanLedAssignment) -> (r: FanLedAssignment)
    ensures
        fan_view(r) == fan_view(*a),
{
    FanLedAssignment { inner: copy_colors(&a.inner), outer: copy_colors(&a.outer) }
}

proof fn lemma_view_keys(s: Seq<((GroupId, i32), FanLedAssignment)>)
    ensures
        entries_view(s).len() == s.len(),
        forall|i: int| 0 <= i < s.len() ==> (#[trigger] entries_view(s)[i]) == (s[i].0, fan_view(s[i].1)),
        keys_unique(s) ==> keys_unique(entries_view(s)),
{
    let v = entries_view(s);
    if keys_unique(s) {
        assert forall|i: int, j: int| 0 <= i < j < v.len() implies (#[trigger] v[i]).0 != (#[trigger] v[j]).0 by {
            assert(s[i].0 != s[j].0);
        }
    }
}

/// The colours held for fan `i` of `group` are those of `a`.
pub open spec fn holds_fan(m: Map<(GroupId, i32), (Seq<Rgb>, Seq<Rgb>)>, group: GroupId, i: int, a: FanLedAssignment) -> bool {
    m.contains_key((group, i as i32)) && m[(group, i as i32)] == fan_view(a)
}

/// Loading a preset sets fan `i` of the group to assignment `i` for every
/// assignment, and leaves every other fan as it was; so a preset saved from
/// the editor and loaded back gives each of its fans the colours it was
/// saved with.
pub proof fn law_load_sets_each_fan(
    m: Map<(GroupId, i32), (Seq<Rgb>, Seq<Rgb>)>,
    group: GroupId,
    a: Seq<FanLedAssignment>,
)
    requires
        a.len() <= i32::MAX,
    ensures
        forall|i: int| 0 <= i < a.len() ==> #[trigger] holds_fan(loaded(m, group, a), group, i, a[i]),
        forall|k: (GroupId, i32)| !(k.0 == group && 0 <= k.1 < a.len()) ==> (#[trigger] loaded(m, group, a).contains_key(k)
            == m.contains_key(k) && (m.contains_key(k) ==> loaded(m, group, a)[k] == m[k])),
    decreases a.len(),
{
    if a.len() > 0 {
        let p = a.drop_last();
        law_load_sets_each_fan(m, group, p);
        assert forall|i: int| 0 <= i < a.len() implies #[trigger] holds_fan(loaded(m, group, a), group, i, a[i]) by {
            let q = loaded(m, group, p);
            let last = (group, (a.len() - 1) as i32);
            assert(loaded(m, group, a) == q.insert(last, fan_view(a.last())));
            if i < a.len() - 1 {
                assert(p[i] == a[i]);
                assert(holds_fan(q, group, i, p[i]));
                assert((i as i32) as int == i);
                assert(((a.len() - 1) as i32) as int == a.len() - 1);
                assert((group, i as i32) != last);
            } else {
                assert(a.last() == a[i]);
            }
        }
        assert forall|k: (GroupId, i32)| !(k.0 == group && 0 <= k.1 < a.len()) implies (
        #[trigger] loaded(m, group, a).contains_key(k) == m.contains_key(k) && (m.contains_key(k) ==> loaded(
            m,
            group,
            a,
        )[k] == m[k])) by {
            let q = loaded(m, group, p);
            let last = (group, (a.len() - 1) as i32);
            assert(loaded(m, group, a) == q.insert(last, fan_view(a.last())));
            assert(((a.len() - 1) as i32) as int == a.len() - 1);
            assert(k != last);
            assert(!(k.0 == group && 0 <= k.1 < p.len()));
            assert(q.contains_key(k) == m.contains_key(k));
        }
    }
}

impl EditorColors {
    /// Each key once.
    pub open spec fn wf(&self) -> bool {
        keys_unique(self.entries@)
    }

    /// The colours per `(group, fan index)`.
    pub open spec fn view(&self) -> Map<(GroupId, i32), (Seq<Rgb>, Seq<Rgb>)> {
        assoc_map(entries_view(self.entries@))
    }

    /// No colours yet.
    pub fn new() -> (c: EditorColors)
        ensures
            c.wf(),
            c@ == Map::<(GroupId, i32), (Seq<Rgb>, Seq<Rgb>)>::empty(),
    {
        let c = EditorColors { entries: Vec::new() };
        proof {
            assert(entries_view(c.entries@) =~= Seq::empty());
        }
        c
    }

    fn find(&self, key: (GroupId, i32)) -> (r: Option<usize>)
        ensures
            match r {
                Some(i) => i < self.entries@.len() && self.entries@[i as int].0 == key,
                None => forall|i: int| 0 <= i < self.entries@.len() ==> (#[trigger] self.entries@[i]).0 != key,
            },
    {
        let mut i: usize = 0;
        while i < self.entries.len()
            invariant
                i <= self.entries@.len(),
                forall|j: int| 0 <= j < i ==> (#[trigger] self.entries@[j]).0 != key,
            decreases self.entries@.len() - i,
        {
            let k = self.entries[i].0;
            if k.0 == key.0 && k.1 == key.1 {
                return Some(i);
            }
            i = i + 1;
        }
        None
    }

    /// Sets the colours of one fan.
    pub fn set(&mut self, key: (GroupId, i32), colors: FanLedAssignment)
        requires
            old(self).wf(),
        ensures
            final(self).wf(),
            final(self)@ == old(self)@.insert(key, fan_view(colors)),
    {
        proof {
            lemma_view_keys(self.entries@);
        }
        match self.find(key) {
            Some(i) => {
                proof {
                    lemma_assoc_update(entries_view(self.entries@), i as int, fan_view(colors));
                }
                let ghost before = self.entries@;
                self.entries.set(i, (key, colors));
                proof {
                    assert(entries_view(self.entries@) =~= entries_view(before).update(
                        i as int,
                        (entries_view(before)[i as int].0, fan_view(colors)),
                    ));
                    assert forall|x: int, y: int| 0 <= x < y < self.entries@.len() implies (
                    #[trigger] self.entries@[x]).0 != (#[trigger] self.entries@[y]).0 by {
                        assert(before[x].0 != before[y].0);
                    }
                }
            },
            None => {
                proof {
                    assert forall|i: int| 0 <= i < entries_view(self.entries@).len() implies (
                    #[trigger] entries_view(self.entries@)[i]).0 != key by {
                        assert(self.entries@[i].0 != key);
                    }
                    lemma_assoc_push(entries_view(self.entries@), key, fan_view(colors));
                }
                let ghost before = self.entries@;
                self.entries.push((key, colors));
                proof {
                    assert(entries_view(self.entries@) =~= entries_view(before).push((key, fan_view(colors))));
                    assert forall|x: int, y: int| 0 <= x < y < self.entries@.len() implies (
                    #[trigger] self.entries@[x]).0 != (#[trigger] self.entries@[y]).0 by {
                        if y < before.len() {
                            assert(before[x].0 != before[y].0);
                        } else {
                            assert(self.entries@[x] == before[x]);
                        }
                    }
                }
            },
        }
    }

    /// The assignments of a preset saved from the editor for `group` with
    /// `fan_count` fans: each fan's colours, or none where the editor holds
    /// nothing for it.
    pub fn preset_assignments(&self, group: GroupId, fan_count: u8) -> (r: Vec<FanLedAssignment>)
        requires
            self.wf(),
        ensures
            r@.len() == fan_count,
            forall|i: int| 0 <= i < fan_count ==> fan_view(#[trigger] r@[i]) == preset_fan(self@, group, i),
    {
        proof {
            lemma_view_keys(self.entries@);
        }
        let mut r: Vec<FanLedAssignment> = Vec::new();
        let mut f: u8 = 0;
        while f < fan_count
            invariant
                f <= fan_count,
                self.wf(),
                keys_unique(entries_view(self.entries@)),
                r@.len() == f,
                forall|i: int| 0 <= i < f ==> fan_view(#[trigger] r@[i]) == preset_fan(self@, group, i),
            decreases fan_count - f,
        {
            let key = (group, f as i32);
            match self.find(key) {
                Some(k) => {
                    proof {
                        lemma_view_keys(self.entries@);
                        lemma_assoc_get(entries_view(self.entries@), k as int);
                    }
                    r.push(copy_assignment(&self.entries[k].1));
                },
                None => {
                    proof {
                        lemma_view_keys(self.entries@);
                        assert forall|i: int| 0 <= i < entries_view(self.entries@).len() implies (
                        #[trigger] entries_view(self.entries@)[i]).0 != key by {
                            assert(self.entries@[i].0 != key);
                        }
                        lemma_assoc_absent(entries_view(self.entries@), key);
                    }
                    r.push(FanLedAssignment { inner: Vec::new(), outer: Vec::new() });
                    proof {
                        assert(fan_view(r@[f as int]) =~= (Seq::<Rgb>::empty(), Seq::<Rgb>::empty()));
                    }
                },
            }
            f = f + 1;
        }
        r
    }

    /// Loads a preset's assignments into `group`: fan `i` takes assignment
    /// `i`, every other fan keeps its colours.
    pub fn load_preset(&mut self, group: GroupId, assignments: &Vec<FanLedAssignment>)
        requires
            old(self).wf(),
            assignments@.len() <= i32::MAX,
        ensures
            final(self).wf(),
            final(self)@ == loaded(old(self)@, group, assignments@),
    {
        let mut i: usize = 0;
        while i < assignments.len()
            invariant
                i <= assignments@.len(),
                assignments@.len() <= i32::MAX,
                self.wf(),
                self@ == loaded(old(self)@, group, assignments@.subrange(0, i as int)),
            decreases assignments@.len() - i,
        {
            proof {
                let p = assignments@.subrange(0, i + 1);
                assert(p.drop_last() =~= assignments@.subrange(0, i as int));
                assert(p.last() == assignments@[i as int]);
            }
            self.set((group, i as i32), copy_assignment(&assignments[i]));
            i = i + 1;
        }
        proof {
            assert(assignments@.subrange(0, i as int) =~= assignments@);
        }
    }
}

} // verus!
