//! Show runner — daemon-driven effect cycling and custom sequences.
//!
//! Per-group playback state machine. Each tick advances timers; step
//! transitions produce step actions that the engine applies to the devices.
//! Time is counted in nanoseconds.

use std::sync::Arc;

use vstd::prelude::*;

use crate::model::GroupId;
use crate::text::same_text;

verus! {

/// Calls `Arc::clone`: the result points to the same value as `a`
/// (std documents that it makes another pointer to the same allocation).
#[verifier::external_body]
fn share<T>(a: &Arc<T>) -> (res: Arc<T>)
    ensures
        res == *a,
{
    Arc::clone(a)
}

/// Name reported for effect-cycle playback.
pub const EFFECT_CYCLE_NAME: &'static str = "effect_cycle";

/// How a show proceeds after its last step.
#[derive(Debug, Clone, Copy, PartialEq, Eq, Structural)]
pub enum Playback {
    /// Play once and end.
    Once,
    /// Start over from the first step.
    Loop,
    /// Reverse direction at either end.
    PingPong,
    /// Play the given number of times in all.
    Count(u16),
}

/// One step of a show: what to display and for how long.
#[derive(Debug, Clone)]
pub struct Step<S> {
    pub duration_ms: u32,
    pub scene: S,
}

/// A named list of steps.
#[derive(Debug, Clone)]
pub struct Sequence<S> {
    pub name: String,
    pub steps: Vec<Step<S>>,
    pub playback: Playback,
}

/// An effect cycle: an unnamed list of steps.
#[derive(Debug, Clone)]
pub struct EffectCycle<S> {
    pub steps: Vec<Step<S>>,
    pub playback: Playback,
}

/// Step progression state, independent of what kind of content is playing.
#[derive(Debug, Clone, Copy, PartialEq, Eq, Structural)]
pub struct PlaybackState {
    pub step_index: usize,
    pub step_elapsed_ns: u64,
    /// Moving towards higher indices (false only while a ping-pong runs backwards).
    pub forward: bool,
    pub loops_remaining: Option<u16>,
    pub first_step: bool,
}

/// Outcome of advancing one playback.
#[derive(Debug, Clone, Copy, PartialEq, Eq, Structural)]
pub enum StepResult {
    Hold,
    NewStep(usize),
    Ended,
}

/// Playback of one show on one group.
#[derive(Debug)]
pub struct ActiveEntry<S> {
    pub group: GroupId,
    pub show: Arc<Sequence<S>>,
    pub state: PlaybackState,
}

/// Action the engine should take after a tick: show step `step_index` of `show` on `group`.
#[derive(Debug)]
pub struct StepAction<S> {
    pub group: GroupId,
    pub show: Arc<Sequence<S>>,
    pub step_index: usize,
}

/// Events of playback.
#[derive(Debug, Clone, PartialEq, Eq)]
pub enum ShowEvent {
    SequenceStep { group: GroupId, step_index: usize },
    SequenceEnded { name: String },
}

/// Manages active sequence/cycle playback per group.
#[derive(Debug)]
pub struct ShowRunner<S> {
    /// Active playbacks, at most one per group.
    pub active: Vec<ActiveEntry<S>>,
    /// Named sequences cached from configuration.
    pub sequences: Vec<Arc<Sequence<S>>>,
}

// ---------------------------------------------------------------------------
// State machine
// ---------------------------------------------------------------------------

/// Nanoseconds in a step of `ms` milliseconds.
pub open spec fn ms_to_ns(ms: u32) -> nat {
    (ms as nat) * 1000000
}

/// A fresh playback: at step 0, moving forward, with the loop budget of `Count`.
pub open spec fn fresh_state(playback: Playback) -> PlaybackState {
    PlaybackState {
        step_index: 0,
        step_elapsed_ns: 0,
        forward: true,
        loops_remaining: match playback {
            Playback::Count(n) => Some(n),
            _ => None,
        },
        first_step: true,
    }
}

/// Consumes one loop of a `Count` playback; `None` when the budget is spent.
pub open spec fn take_loop(s: PlaybackState) -> Option<PlaybackState> {
    match s.loops_remaining {
        Some(n) => if n <= 1 {
            None
        } else {
            Some(PlaybackState { loops_remaining: Some((n - 1) as u16), ..s })
        },
        None => Some(s),
    }
}

/// The step after the current one, or `None` when the show ends.
pub open spec fn advance_index_spec(s: PlaybackState, len: nat, playback: Playback) -> (
    PlaybackState,
    Option<usize>,
) {
    if len <= 1 {
        match playback {
            Playback::Once => (s, None),
            Playback::Loop | Playback::PingPong => (s, Some(0usize)),
            Playback::Count(_) => match take_loop(s) {
                Some(t) => (t, Some(0usize)),
                None => (s, None),
            },
        }
    } else {
        let next: int = if s.forward {
            s.step_index + 1
        } else {
            s.step_index - 1
        };
        if 0 <= next < len {
            (s, Some(next as usize))
        } else {
            let wrap: usize = if s.forward {
                0usize
            } else {
                (len - 1) as usize
            };
            match playback {
                Playback::Once => (s, None),
                Playback::Loop => (s, Some(wrap)),
                Playback::PingPong => {
                    let t = PlaybackState { forward: !s.forward, ..s };
                    let bounced: int = if t.forward {
                        s.step_index + 1
                    } else {
                        s.step_index - 1
                    };
                    (t, Some(if 0 <= bounced < len { bounced as usize } else { s.step_index }))
                },
                Playback::Count(_) => match take_loop(s) {
                    Some(t) => (t, Some(wrap)),
                    None => (s, None),
                },
            }
        }
    }
}

/// One advance of the state machine by `elapsed` nanoseconds, with the
/// current step lasting `dur` nanoseconds.
pub open spec fn advance_spec(
    s: PlaybackState,
    elapsed: u64,
    len: nat,
    dur: nat,
    playback: Playback,
) -> (PlaybackState, StepResult) {
    if s.first_step {
        (PlaybackState { first_step: false, ..s }, StepResult::NewStep(s.step_index))
    } else if s.step_elapsed_ns + elapsed < dur {
        (PlaybackState { step_elapsed_ns: (s.step_elapsed_ns + elapsed) as u64, ..s }, StepResult::Hold)
    } else {
        let t = PlaybackState { step_elapsed_ns: (s.step_elapsed_ns + elapsed - dur) as u64, ..s };
        let (u, next) = advance_index_spec(t, len, playback);
        match next {
            Some(i) => (PlaybackState { step_index: i, ..u }, StepResult::NewStep(i)),
            None => (u, StepResult::Ended),
        }
    }
}

/// The state is consistent with a show of `len` steps played as `playback`.
pub open spec fn state_wf(s: PlaybackState, len: nat, playback: Playback) -> bool {
    &&& s.step_index < len
    &&& (playback is Count <==> s.loops_remaining is Some)
}

impl PlaybackState {
    /// A fresh playback for the given mode.
    pub fn new(playback: Playback) -> (s: PlaybackState)
        ensures
            s == fresh_state(playback),
    {
        PlaybackState {
            step_index: 0,
            step_elapsed_ns: 0,
            forward: true,
            loops_remaining: match playback {
                Playback::Count(n) => Some(n),
                _ => None,
            },
            first_step: true,
        }
    }

    fn take_loop(&mut self) -> (ok: bool)
        ensures
            ok == (take_loop(*old(self)) is Some),
            ok ==> *final(self) == take_loop(*old(self))->Some_0,
            !ok ==> *final(self) == *old(self),
    {
        match self.loops_remaining {
            Some(n) => {
                if n <= 1 {
                    false
                } else {
                    self.loops_remaining = Some(n - 1);
                    true
                }
            },
            None => true,
        }
    }

    /// Chooses the next step index, or `None` when the show ends.
    pub fn advance_index(&mut self, len: usize, playback: Playback) -> (r: Option<usize>)
        requires
            old(self).step_index < len || len <= 1,
        ensures
            (*final(self), r) == advance_index_spec(*old(self), len as nat, playback),
    {
        if len <= 1 {
            return match playback {
                Playback::Once => None,
                Playback::Loop | Playback::PingPong => Some(0),
                Playback::Count(_) => {
                    if self.take_loop() {
                        Some(0)
                    } else {
                        None
                    }
                },
            };
        }
        if self.forward {
            if self.step_index + 1 < len {
                return Some(self.step_index + 1);
            }
        } else {
            if self.step_index >= 1 {
                return Some(self.step_index - 1);
            }
        }
        let wrap: usize = if self.forward {
            0
        } else {
            len - 1
        };
        match playback {
            Playback::Once => None,
            Playback::Loop => Some(wrap),
            Playback::PingPong => {
                self.forward = !self.forward;
                if self.forward {
                    if self.step_index + 1 < len {
                        Some(self.step_index + 1)
                    } else {
                        Some(self.step_index)
                    }
                } else {
                    if self.step_index >= 1 {
                        Some(self.step_index - 1)
                    } else {
                        Some(self.step_index)
                    }
                }
            },
            Playback::Count(_) => {
                if self.take_loop() {
                    Some(wrap)
                } else {
                    None
                }
            },
        }
    }

    /// Advances the state machine by `elapsed_ns`; the current step lasts `step_ns`.
    pub fn advance(&mut self, elapsed_ns: u64, step_count: usize, step_ns: u64, playback: Playback) -> (r:
        StepResult)
        requires
            old(self).step_index < step_count,
            old(self).step_elapsed_ns + elapsed_ns <= u64::MAX,
        ensures
            (*final(self), r) == advance_spec(
                *old(self),
                elapsed_ns,
                step_count as nat,
                step_ns as nat,
                playback,
            ),
    {
        if self.first_step {
            self.first_step = false;
            return StepResult::NewStep(self.step_index);
        }
        self.step_elapsed_ns = self.step_elapsed_ns + elapsed_ns;
        if self.step_elapsed_ns < step_ns {
            return StepResult::Hold;
        }
        self.step_elapsed_ns = self.step_elapsed_ns - step_ns;
        match self.advance_index(step_count, playback) {
            Some(i) => {
                self.step_index = i;
                StepResult::NewStep(i)
            },
            None => StepResult::Ended,
        }
    }
}

/// Advancing keeps the state consistent with its show, and every step it
/// announces exists.
pub proof fn law_advance_stays_in_range(
    s: PlaybackState,
    elapsed: u64,
    len: nat,
    dur: nat,
    playback: Playback,
)
    requires
        state_wf(s, len, playback),
    ensures
        state_wf(advance_spec(s, elapsed, len, dur, playback).0, len, playback),
        advance_spec(s, elapsed, len, dur, playback).1 matches StepResult::NewStep(i) ==> i < len,
{
}

/// Looping and ping-pong shows never end.
pub proof fn law_loop_never_ends(s: PlaybackState, elapsed: u64, len: nat, dur: nat, playback: Playback)
    requires
        state_wf(s, len, playback),
        playback == Playback::Loop || playback == Playback::PingPong,
    ensures
        advance_spec(s, elapsed, len, dur, playback).1 != StepResult::Ended,
{
}

/// A step is held while its time has not run out, and the first advance
/// always shows the current step.
pub proof fn law_hold_until_duration(
    s: PlaybackState,
    elapsed: u64,
    len: nat,
    dur: nat,
    playback: Playback,
)
    ensures
        s.first_step ==> advance_spec(s, elapsed, len, dur, playback).1 == StepResult::NewStep(
            s.step_index,
        ),
        !s.first_step ==> ((advance_spec(s, elapsed, len, dur, playback).1 == StepResult::Hold) <==> (
        s.step_elapsed_ns + elapsed < dur)),
{
}

/// A counted show spends one loop of its budget at each wrap-around and ends
/// when the budget is spent; the budget never grows.
pub proof fn law_count_budget(s: PlaybackState, elapsed: u64, len: nat, dur: nat, n: u16)
    requires
        state_wf(s, len, Playback::Count(n)),
    ensures
        ({
            let t = advance_spec(s, elapsed, len, dur, Playback::Count(n)).0;
            t.loops_remaining->Some_0 <= s.loops_remaining->Some_0
        }),
        s.loops_remaining == Some(1u16) && len <= 1 && !s.first_step && s.step_elapsed_ns + elapsed
            >= dur ==> advance_spec(s, elapsed, len, dur, Playback::Count(n)).1 == StepResult::Ended,
{
}

// ---------------------------------------------------------------------------
// Runner
// ---------------------------------------------------------------------------

/// A show is playable: it has steps and its state is consistent with it.
pub open spec fn entry_wf<S>(e: ActiveEntry<S>) -> bool {
    &&& e.show.steps@.len() > 0
    &&& state_wf(e.state, e.show.steps@.len(), e.show.playback)
}

/// At most one playback per group, each consistent with its show.
pub open spec fn active_wf<S>(a: Seq<ActiveEntry<S>>) -> bool {
    &&& forall|i: int, j: int| 0 <= i < j < a.len() ==> (#[trigger] a[i]).group != (#[trigger] a[j]).group
    &&& forall|i: int| 0 <= i < a.len() ==> entry_wf(#[trigger] a[i])
}

/// Whether a playback runs on `g`.
pub open spec fn has_group<S>(a: Seq<ActiveEntry<S>>, g: GroupId) -> bool {
    exists|i: int| 0 <= i < a.len() && (#[trigger] a[i]).group == g
}

/// The position of the playback of `g` (meaningful when there is one).
pub open spec fn pos_of<S>(a: Seq<ActiveEntry<S>>, g: GroupId) -> int {
    choose|i: int| 0 <= i < a.len() && (#[trigger] a[i]).group == g
}

/// Starts (or restarts) playback of `show` on the group of `e`.
pub open spec fn insert_entry<S>(a: Seq<ActiveEntry<S>>, e: ActiveEntry<S>) -> Seq<ActiveEntry<S>> {
    if has_group(a, e.group) {
        a.update(pos_of(a, e.group), e)
    } else {
        a.push(e)
    }
}

/// A fresh playback of `show` on `g`.
pub open spec fn fresh_entry<S>(g: GroupId, show: Arc<Sequence<S>>) -> ActiveEntry<S> {
    ActiveEntry { group: g, show, state: fresh_state(show.playback) }
}

/// Starts `show` on each of `groups` in turn.
pub open spec fn start_spec<S>(
    a: Seq<ActiveEntry<S>>,
    groups: Seq<GroupId>,
    show: Arc<Sequence<S>>,
) -> Seq<ActiveEntry<S>>
    decreases groups.len(),
{
    if groups.len() == 0 {
        a
    } else {
        insert_entry(start_spec(a, groups.drop_last(), show), fresh_entry(groups.last(), show))
    }
}

/// Event of playback, with names as character sequences.
pub ghost enum ShowEventView {
    Step { group: GroupId, step_index: usize },
    Ended { name: Seq<char> },
}

/// The view of an event.
pub open spec fn event_view(e: ShowEventView) -> ShowEventView {
    e
}

impl ShowEvent {
    /// The event with its name as characters.
    pub open spec fn view(self) -> ShowEventView {
        match self {
            ShowEvent::SequenceStep { group, step_index } => ShowEventView::Step { group, step_index },
            ShowEvent::SequenceEnded { name } => ShowEventView::Ended { name: name@ },
        }
    }
}

/// Views of a list of events.
pub open spec fn events_view(evs: Seq<ShowEvent>) -> Seq<ShowEventView> {
    evs.map_values(|e: ShowEvent| e.view())
}

/// Stops the playbacks of `groups`, in order; ends are reported for groups that were playing.
pub open spec fn stop_spec<S>(a: Seq<ActiveEntry<S>>, groups: Seq<GroupId>) -> (
    Seq<ActiveEntry<S>>,
    Seq<ShowEventView>,
)
    decreases groups.len(),
{
    if groups.len() == 0 {
        (a, Seq::empty())
    } else {
        let (b, evs) = stop_spec(a, groups.drop_last());
        let g = groups.last();
        if has_group(b, g) {
            (
                b.remove(pos_of(b, g)),
                evs.push(ShowEventView::Ended { name: b[pos_of(b, g)].show.name@ }),
            )
        } else {
            (b, evs)
        }
    }
}

/// End events for every playback, in order.
pub open spec fn end_all_spec<S>(a: Seq<ActiveEntry<S>>) -> Seq<ShowEventView> {
    a.map_values(|e: ActiveEntry<S>| ShowEventView::Ended { name: e.show.name@ })
}

/// Duration of the current step of a playback, in nanoseconds.
pub open spec fn current_step_ns<S>(e: ActiveEntry<S>) -> nat {
    ms_to_ns(e.show.steps@[e.state.step_index as int].duration_ms)
}

/// A step action, as group, show and step index.
pub ghost struct ActionView<S> {
    pub group: GroupId,
    pub show: Arc<Sequence<S>>,
    pub step_index: usize,
}

/// Views of a list of step actions.
pub open spec fn actions_view<S>(acts: Seq<StepAction<S>>) -> Seq<ActionView<S>> {
    acts.map_values(|x: StepAction<S>| ActionView { group: x.group, show: x.show, step_index: x.step_index })
}

/// One tick over the playbacks, in order: the playbacks that go on, the
/// step actions, and the events.
pub open spec fn tick_spec<S>(a: Seq<ActiveEntry<S>>, elapsed: u64) -> (
    Seq<ActiveEntry<S>>,
    Seq<ActionView<S>>,
    Seq<ShowEventView>,
)
    decreases a.len(),
{
    if a.len() == 0 {
        (Seq::empty(), Seq::empty(), Seq::empty())
    } else {
        let (kept, acts, evs) = tick_spec(a.drop_last(), elapsed);
        let e = a.last();
        let (st, r) = advance_spec(
            e.state,
            elapsed,
            e.show.steps@.len(),
            current_step_ns(e),
            e.show.playback,
        );
        let moved = ActiveEntry { group: e.group, show: e.show, state: st };
        match r {
            StepResult::Hold => (kept.push(moved), acts, evs),
            StepResult::NewStep(i) => (
                kept.push(moved),
                acts.push(ActionView { group: e.group, show: e.show, step_index: i }),
                evs.push(ShowEventView::Step { group: e.group, step_index: i }),
            ),
            StepResult::Ended => (kept, acts, evs.push(ShowEventView::Ended { name: e.show.name@ })),
        }
    }
}

/// Every playback can absorb `elapsed` more nanoseconds without overflow.
pub open spec fn can_advance<S>(a: Seq<ActiveEntry<S>>, elapsed: u64) -> bool {
    forall|i: int| 0 <= i < a.len() ==> (#[trigger] a[i]).state.step_elapsed_ns + elapsed <= u64::MAX
}

/// Replaces the cached sequence of the same name, or adds it.
pub open spec fn upsert_seq<S>(c: Seq<Sequence<S>>, s: Sequence<S>) -> Seq<Sequence<S>> {
    if exists|i: int| 0 <= i < c.len() && (#[trigger] c[i]).name@ == s.name@ {
        c.update(choose|i: int| 0 <= i < c.len() && (#[trigger] c[i]).name@ == s.name@, s)
    } else {
        c.push(s)
    }
}

/// Adds the sequence unless one of the same name is cached.
pub open spec fn add_absent_seq<S>(c: Seq<Sequence<S>>, s: Sequence<S>) -> Seq<Sequence<S>> {
    if exists|i: int| 0 <= i < c.len() && (#[trigger] c[i]).name@ == s.name@ {
        c
    } else {
        c.push(s)
    }
}

/// Cache built from global sequences (later ones win) then profile sequences
/// (only names not yet cached).
pub open spec fn cache_spec<S>(globals: Seq<Sequence<S>>, extra: Seq<Sequence<S>>) -> Seq<Sequence<S>>
    decreases extra.len(), globals.len(),
{
    if extra.len() > 0 {
        add_absent_seq(cache_spec(globals, extra.drop_last()), extra.last())
    } else if globals.len() > 0 {
        upsert_seq(cache_spec(globals.drop_last(), extra), globals.last())
    } else {
        Seq::empty()
    }
}

/// The cached sequences.
pub open spec fn cache_view<S>(c: Seq<Arc<Sequence<S>>>) -> Seq<Sequence<S>> {
    c.map_values(|a: Arc<Sequence<S>>| *a)
}

/// Names in the cache are distinct.
pub open spec fn cache_wf<S>(c: Seq<Arc<Sequence<S>>>) -> bool {
    forall|i: int, j: int| 0 <= i < j < c.len() ==> (#[trigger] c[i]).name@ != (#[trigger] c[j]).name@
}

/// The show an effect cycle plays as: its steps and playback under the
/// name [`EFFECT_CYCLE_NAME`].
pub fn cycle_show<S>(cycle: EffectCycle<S>) -> (r: Arc<Sequence<S>>)
    ensures
        r.name@ == EFFECT_CYCLE_NAME@,
        r.steps == cycle.steps,
        r.playback == cycle.playback,
{
    Arc::new(Sequence { name: EFFECT_CYCLE_NAME.to_owned(), steps: cycle.steps, playback: cycle.playback })
}

impl<S> ShowRunner<S> {
    /// The runner's invariant.
    pub open spec fn wf(&self) -> bool {
        &&& active_wf(self.active@)
        &&& cache_wf(self.sequences@)
    }

    pub fn new() -> (r: ShowRunner<S>)
        ensures
            r.wf(),
            r.active@.len() == 0,
            r.sequences@.len() == 0,
    {
        ShowRunner { active: Vec::new(), sequences: Vec::new() }
    }

    fn find_sequence(&self, name: &str) -> (r: Option<usize>)
        ensures
            match r {
                Some(i) => i < self.sequences@.len() && self.sequences@[i as int].name@ == name@,
                None => forall|i: int|
                    0 <= i < self.sequences@.len() ==> (#[trigger] self.sequences@[i]).name@ != name@,
            },
    {
        let mut i: usize = 0;
        while i < self.sequences.len()
            invariant
                i <= self.sequences@.len(),
                forall|j: int| 0 <= j < i ==> (#[trigger] self.sequences@[j]).name@ != name@,
            decreases self.sequences@.len() - i,
        {
            if same_text(self.sequences[i].name.as_str(), name) {
                return Some(i);
            }
            i = i + 1;
        }
        None
    }

    fn upsert(&mut self, seq: Arc<Sequence<S>>)
        requires
            cache_wf(old(self).sequences@),
        ensures
            cache_wf(final(self).sequences@),
            cache_view(final(self).sequences@) == upsert_seq(cache_view(old(self).sequences@), *seq),
            final(self).active@ == old(self).active@,
    {
        let ghost c = cache_view(self.sequences@);
        match self.find_sequence(seq.name.as_str()) {
            Some(i) => {
                proof {
                    assert(c[i as int].name@ == seq.name@);
                    let k = choose|k: int| 0 <= k < c.len() && (#[trigger] c[k]).name@ == seq.name@;
                    assert(self.sequences@[k].name@ == seq.name@);
                    if k != i as int {
                        if k < i {
                            assert(self.sequences@[k].name@ != self.sequences@[i as int].name@);
                        } else {
                            assert(self.sequences@[i as int].name@ != self.sequences@[k].name@);
                        }
                    }
                }
                self.sequences.set(i, seq);
                assert(cache_view(self.sequences@) =~= c.update(i as int, *seq));
            },
            None => {
                self.sequences.push(seq);
                assert(cache_view(self.sequences@) =~= c.push(*seq));
            },
        }
    }

    fn add_absent(&mut self, seq: Arc<Sequence<S>>)
        requires
            cache_wf(old(self).sequences@),
        ensures
            cache_wf(final(self).sequences@),
            cache_view(final(self).sequences@) == add_absent_seq(cache_view(old(self).sequences@), *seq),
            final(self).active@ == old(self).active@,
    {
        let ghost c = cache_view(self.sequences@);
        match self.find_sequence(seq.name.as_str()) {
            Some(i) => {
                assert(c[i as int].name@ == seq.name@);
            },
            None => {
                self.sequences.push(seq);
                assert(cache_view(self.sequences@) =~= c.push(*seq));
            },
        }
    }

    /// Caches sequences: the global ones (a later one replaces an earlier one of
    /// the same name), then those of profiles whose names are not yet cached.
    pub fn load_sequences(&mut self, globals: Vec<Sequence<S>>, profile_sequences: Vec<Sequence<S>>)
        requires
            old(self).wf(),
        ensures
            final(self).wf(),
            cache_view(final(self).sequences@) == cache_spec(globals@, profile_sequences@),
            final(self).active@ == old(self).active@,
    {
        self.sequences = Vec::new();
        let mut globals = globals;
        let mut profile_sequences = profile_sequences;
        let ghost g0 = globals@;
        let ghost p0 = profile_sequences@;
        assert(cache_view(self.sequences@) =~= Seq::<Sequence<S>>::empty());
        assert(g0.subrange(0, 0) =~= Seq::<Sequence<S>>::empty());
        let glen = globals.len();
        let plen = profile_sequences.len();
        assert(g0.len() == glen && p0.len() == plen);
        let mut n: usize = 0;
        while globals.len() > 0
            invariant
                n <= g0.len(),
                g0.len() <= usize::MAX,
                globals@ == g0.subrange(n as int, g0.len() as int),
                self.wf(),
                self.active@ == old(self).active@,
                cache_view(self.sequences@) == cache_spec(
                    g0.subrange(0, n as int),
                    Seq::<Sequence<S>>::empty(),
                ),
            decreases globals@.len(),
        {
            let x = globals.remove(0);
            assert(x == g0[n as int]);
            assert(g0.subrange(0, n + 1).drop_last() =~= g0.subrange(0, n as int));
            self.upsert(Arc::new(x));
            n = n + 1;
            assert(globals@ =~= g0.subrange(n as int, g0.len() as int));
        }
        assert(g0.subrange(0, n as int) =~= g0);
        assert(p0.subrange(0, 0) =~= Seq::<Sequence<S>>::empty());
        let mut m: usize = 0;
        while profile_sequences.len() > 0
            invariant
                m <= p0.len(),
                p0.len() <= usize::MAX,
                n == g0.len(),
                profile_sequences@ == p0.subrange(m as int, p0.len() as int),
                self.wf(),
                self.active@ == old(self).active@,
                cache_view(self.sequences@) == cache_spec(g0, p0.subrange(0, m as int)),
            decreases profile_sequences@.len(),
        {
            let x = profile_sequences.remove(0);
            assert(x == p0[m as int]);
            assert(p0.subrange(0, m + 1).drop_last() =~= p0.subrange(0, m as int));
            self.add_absent(Arc::new(x));
            m = m + 1;
            assert(profile_sequences@ =~= p0.subrange(m as int, p0.len() as int));
        }
        assert(p0.subrange(0, m as int) =~= p0);
    }

    /// Looks up a cached sequence by name.
    pub fn get_sequence(&self, name: &str) -> (r: Option<Arc<Sequence<S>>>)
        ensures
            match r {
                Some(s) => exists|i: int|
                    0 <= i < self.sequences@.len() && self.sequences@[i] == s && s.name@ == name@,
                None => forall|i: int|
                    0 <= i < self.sequences@.len() ==> (#[trigger] self.sequences@[i]).name@ != name@,
            },
    {
        match self.find_sequence(name) {
            Some(i) => Some(share(&self.sequences[i])),
            None => None,
        }
    }

    fn find_group(&self, g: GroupId) -> (r: Option<usize>)
        requires
            active_wf(self.active@),
        ensures
            match r {
                Some(i) => has_group(self.active@, g) && i == pos_of(self.active@, g) && i
                    < self.active@.len(),
                None => !has_group(self.active@, g),
            },
    {
        let mut i: usize = 0;
        while i < self.active.len()
            invariant
                i <= self.active@.len(),
                active_wf(self.active@),
                forall|j: int| 0 <= j < i ==> (#[trigger] self.active@[j]).group != g,
            decreases self.active@.len() - i,
        {
            if self.active[i].group == g {
                proof {
                    let a = self.active@;
                    assert(a[i as int].group == g);
                    let k = pos_of(a, g);
                    assert(0 <= k < a.len() && a[k].group == g);
                    if k != i {
                        if k < i {
                            assert(a[k].group != a[i as int].group);
                        } else {
                            assert(a[i as int].group != a[k].group);
                        }
                    }
                }
                return Some(i);
            }
            i = i + 1;
        }
        None
    }

    fn put_entry(&mut self, e: ActiveEntry<S>)
        requires
            active_wf(old(self).active@),
            entry_wf(e),
        ensures
            active_wf(final(self).active@),
            final(self).active@ == insert_entry(old(self).active@, e),
            final(self).sequences@ == old(self).sequences@,
    {
        match self.find_group(e.group) {
            Some(i) => {
                self.active.set(i, e);
            },
            None => {
                self.active.push(e);
            },
        }
    }

    fn start_show(&mut self, groups: &[GroupId], show: Arc<Sequence<S>>)
        requires
            old(self).wf(),
            show.steps@.len() > 0,
        ensures
            final(self).wf(),
            final(self).active@ == start_spec(old(self).active@, groups@, show),
            final(self).sequences@ == old(self).sequences@,
    {
        let ghost a0 = self.active@;
        let mut k: usize = 0;
        while k < groups.len()
            invariant
                k <= groups@.len(),
                show.steps@.len() > 0,
                self.wf(),
                self.active@ == start_spec(a0, groups@.subrange(0, k as int), show),
                self.sequences@ == old(self).sequences@,
            decreases groups@.len() - k,
        {
            let e = ActiveEntry { group: groups[k], show: share(&show), state: PlaybackState::new(show.playback) };
            assert(groups@.subrange(0, k + 1).drop_last() =~= groups@.subrange(0, k as int));
            self.put_entry(e);
            k = k + 1;
        }
        assert(groups@.subrange(0, k as int) =~= groups@);
    }

    /// Start a sequence on the given groups (shared via Arc); an empty sequence is ignored.
    pub fn start_sequence(&mut self, groups: &[GroupId], sequence: Arc<Sequence<S>>)
        requires
            old(self).wf(),
        ensures
            final(self).wf(),
            sequence.steps@.len() == 0 ==> final(self).active@ == old(self).active@,
            sequence.steps@.len() > 0 ==> final(self).active@ == start_spec(
                old(self).active@,
                groups@,
                sequence,
            ),
            final(self).sequences@ == old(self).sequences@,
    {
        if sequence.steps.len() == 0 {
            return;
        }
        self.start_show(groups, sequence);
    }

    /// Start an effect cycle on the given groups; an empty cycle is ignored.
    /// The cycle plays as a sequence named [`EFFECT_CYCLE_NAME`].
    pub fn start_cycle(&mut self, groups: &[GroupId], cycle: EffectCycle<S>)
        requires
            old(self).wf(),
        ensures
            final(self).wf(),
            cycle.steps@.len() == 0 ==> final(self).active@ == old(self).active@,
            cycle.steps@.len() > 0 ==> exists|show: Arc<Sequence<S>>|
                show.name@ == EFFECT_CYCLE_NAME@ && show.steps == cycle.steps && show.playback
                    == cycle.playback && final(self).active@ == start_spec(
                    old(self).active@,
                    groups@,
                    show,
                ),
            final(self).sequences@ == old(self).sequences@,
    {
        if cycle.steps.len() == 0 {
            return;
        }
        let name = EFFECT_CYCLE_NAME.to_owned();
        let show = Arc::new(Sequence { name, steps: cycle.steps, playback: cycle.playback });
        self.start_show(groups, show);
    }

    fn remove_group(&mut self, g: GroupId) -> (r: Option<ShowEvent>)
        requires
            old(self).wf(),
        ensures
            final(self).wf(),
            final(self).sequences@ == old(self).sequences@,
            has_group(old(self).active@, g) ==> final(self).active@ == old(self).active@.remove(
                pos_of(old(self).active@, g),
            ),
            has_group(old(self).active@, g) ==> (r matches Some(ev) && ev.view() == (
            ShowEventView::Ended { name: old(self).active@[pos_of(old(self).active@, g)].show.name@ })),
            !has_group(old(self).active@, g) ==> final(self).active@ == old(self).active@,
            !has_group(old(self).active@, g) ==> (r is None),
    {
        match self.find_group(g) {
            Some(i) => {
                let e = self.active.remove(i);
                let ghost a = self.active@;
                assert forall|x: int, y: int| 0 <= x < y < a.len() implies (#[trigger] a[x]).group
                    != (#[trigger] a[y]).group by {
                    let a0 = old(self).active@;
                    let x0 = if x < i { x } else { x + 1 };
                    let y0 = if y < i { y } else { y + 1 };
                    assert(a[x] == a0[x0] && a[y] == a0[y0]);
                }
                assert forall|x: int| 0 <= x < a.len() implies entry_wf(#[trigger] a[x]) by {
                    let a0 = old(self).active@;
                    let x0 = if x < i { x } else { x + 1 };
                    assert(a[x] == a0[x0]);
                }
                Some(ShowEvent::SequenceEnded { name: e.show.name.clone() })
            },
            None => None,
        }
    }

    /// Stop playback for the given groups. If empty, stops all.
    pub fn stop(&mut self, groups: &[GroupId]) -> (events: Vec<ShowEvent>)
        requires
            old(self).wf(),
        ensures
            final(self).wf(),
            final(self).sequences@ == old(self).sequences@,
            groups@.len() == 0 ==> final(self).active@.len() == 0 && events_view(events@)
                == end_all_spec(old(self).active@),
            groups@.len() > 0 ==> (final(self).active@, events_view(events@)) == stop_spec(
                old(self).active@,
                groups@,
            ),
    {
        let mut events: Vec<ShowEvent> = Vec::new();
        if groups.len() == 0 {
            let mut i: usize = 0;
            while i < self.active.len()
                invariant
                    i <= self.active@.len(),
                    events@.len() == i,
                    events_view(events@) == end_all_spec(self.active@.subrange(0, i as int)),
                decreases self.active@.len() - i,
            {
                let ghost before = events@;
                events.push(ShowEvent::SequenceEnded { name: self.active[i].show.name.clone() });
                assert(self.active@.subrange(0, i + 1) =~= self.active@.subrange(0, i as int).push(
                    self.active@[i as int],
                ));
                assert(events@ =~= before.push(events@[i as int]));
                assert(events@[i as int].view() == (ShowEventView::Ended {
                    name: self.active@[i as int].show.name@,
                }));
                assert(events_view(events@) =~= events_view(before).push(events@[i as int].view()));
                assert(end_all_spec(self.active@.subrange(0, i + 1)) =~= end_all_spec(
                    self.active@.subrange(0, i as int),
                ).push(ShowEventView::Ended { name: self.active@[i as int].show.name@ }));
                i = i + 1;
            }
            assert(self.active@.subrange(0, i as int) =~= self.active@);
            self.active = Vec::new();
            return events;
        }
        let ghost a0 = self.active@;
        assert(events_view(events@) =~= Seq::<ShowEventView>::empty());
        let mut k: usize = 0;
        while k < groups.len()
            invariant
                k <= groups@.len(),
                self.wf(),
                self.sequences@ == old(self).sequences@,
                (self.active@, events_view(events@)) == stop_spec(a0, groups@.subrange(0, k as int)),
            decreases groups@.len() - k,
        {
            assert(groups@.subrange(0, k + 1).drop_last() =~= groups@.subrange(0, k as int));
            match self.remove_group(groups[k]) {
                Some(ev) => {
                    events.push(ev);
                    assert(events_view(events@) =~= stop_spec(a0, groups@.subrange(0, k + 1)).1);
                },
                None => {},
            }
            k = k + 1;
        }
        assert(groups@.subrange(0, k as int) =~= groups@);
        events
    }

    /// Advance all active playbacks by `elapsed_ns`. Returns actions for step transitions.
    pub fn tick(&mut self, elapsed_ns: u64) -> (r: (Vec<StepAction<S>>, Vec<ShowEvent>))
        requires
            old(self).wf(),
            can_advance(old(self).active@, elapsed_ns),
        ensures
            final(self).wf(),
            final(self).sequences@ == old(self).sequences@,
            (final(self).active@, actions_view(r.0@), events_view(r.1@)) == tick_spec(
                old(self).active@,
                elapsed_ns,
            ),
    {
        let mut kept: Vec<ActiveEntry<S>> = Vec::new();
        let mut actions: Vec<StepAction<S>> = Vec::new();
        let mut events: Vec<ShowEvent> = Vec::new();
        let ghost a0 = self.active@;
        let mut i: usize = 0;
        assert(actions_view(actions@) =~= Seq::<ActionView<S>>::empty());
        assert(events_view(events@) =~= Seq::<ShowEventView>::empty());
        while i < self.active.len()
            invariant
                i <= a0.len(),
                self.active@ == a0,
                active_wf(a0),
                can_advance(a0, elapsed_ns),
                (kept@, actions_view(actions@), events_view(events@)) == tick_spec(
                    a0.subrange(0, i as int),
                    elapsed_ns,
                ),
                forall|x: int| 0 <= x < kept@.len() ==> entry_wf(#[trigger] kept@[x]),
                forall|x: int|
                    0 <= x < kept@.len() ==> exists|y: int|
                        0 <= y < i && (#[trigger] kept@[x]).group == a0[y].group,
                forall|x: int, y: int|
                    0 <= x < y < kept@.len() ==> (#[trigger] kept@[x]).group != (
                    #[trigger] kept@[y]).group,
            decreases a0.len() - i,
        {
            let e = &self.active[i];
            assert(entry_wf(a0[i as int]));
            let len = e.show.steps.len();
            let dur: u64 = e.show.steps[e.state.step_index].duration_ms as u64 * 1000000;
            let mut st = e.state;
            let res = st.advance(elapsed_ns, len, dur, e.show.playback);
            proof {
                law_advance_stays_in_range(
                    e.state,
                    elapsed_ns,
                    len as nat,
                    dur as nat,
                    e.show.playback,
                );
                assert(a0.subrange(0, i + 1).drop_last() =~= a0.subrange(0, i as int));
                assert(a0.subrange(0, i + 1).last() == a0[i as int]);
            }
            match res {
                StepResult::Hold => {
                    kept.push(ActiveEntry { group: e.group, show: share(&e.show), state: st });
                },
                StepResult::NewStep(idx) => {
                    kept.push(ActiveEntry { group: e.group, show: share(&e.show), state: st });
                    actions.push(StepAction { group: e.group, show: share(&e.show), step_index: idx });
                    events.push(ShowEvent::SequenceStep { group: e.group, step_index: idx });
                    assert(actions_view(actions@) =~= tick_spec(a0.subrange(0, i + 1), elapsed_ns).1);
                },
                StepResult::Ended => {
                    events.push(ShowEvent::SequenceEnded { name: e.show.name.clone() });
                },
            }
            assert(events_view(events@) =~= tick_spec(a0.subrange(0, i + 1), elapsed_ns).2);
            assert(actions_view(actions@) =~= tick_spec(a0.subrange(0, i + 1), elapsed_ns).1);
            assert forall|x: int|
                0 <= x < kept@.len() implies exists|y: int|
                    0 <= y < i + 1 && (#[trigger] kept@[x]).group == a0[y].group by {
                if x == kept@.len() - 1 && !(res is Ended) {
                    assert(kept@[x].group == a0[i as int].group);
                }
            }
            assert forall|x: int, y: int|
                0 <= x < y < kept@.len() implies (#[trigger] kept@[x]).group != (
                #[trigger] kept@[y]).group by {
                if y == kept@.len() - 1 && !(res is Ended) {
                    let z = choose|z: int| 0 <= z < i && kept@[x].group == a0[z].group;
                    assert(a0[z].group != a0[i as int].group);
                }
            }
            i = i + 1;
        }
        assert(a0.subrange(0, i as int) =~= a0);
        self.active = kept;
        (actions, events)
    }

    pub fn is_active(&self) -> (r: bool)
        ensures
            r == (self.active@.len() > 0),
    {
        self.active.len() > 0
    }
}

impl<S> StepAction<S> {
    /// The scene to apply.
    pub fn scene(&self) -> (s: &S)
        requires
            self.step_index < self.show.steps@.len(),
        ensures
            *s == self.show.steps@[self.step_index as int].scene,
    {
        &self.show.steps[self.step_index].scene
    }
}


/// Whether the playback stands at the end of its pass: no further step in
/// its direction.
pub open spec fn at_boundary(s: PlaybackState, len: nat) -> bool {
    len <= 1 || !(0 <= (if s.forward {
        s.step_index + 1
    } else {
        s.step_index - 1
    }) < len)
}

/// A counted show spends one of its loops at each wrap-around: with more
/// than one loop left it starts over (from the first step going forward,
/// from the last going backward) with one loop fewer and nothing else
/// changed; with one or none left it ends.
pub proof fn law_count_wrap_spends_a_loop(s: PlaybackState, len: nat, c: u16, n: u16)
    requires
        s.loops_remaining == Some(n),
        at_boundary(s, len),
    ensures
        ({
            let (t, r) = advance_index_spec(s, len, Playback::Count(c));
            &&& n > 1 ==> t == (PlaybackState { loops_remaining: Some((n - 1) as u16), ..s }) && r == Some(
                if len <= 1 || s.forward {
                    0usize
                } else {
                    (len - 1) as usize
                },
            )
            &&& n <= 1 ==> r is None && t == s
        }),
{
}

/// The state and results after `m` advances, each by one whole step of
/// `dur` nanoseconds.
pub open spec fn step_through(s: PlaybackState, len: nat, dur: u64, playback: Playback, m: nat) -> (
    PlaybackState,
    Seq<StepResult>,
)
    decreases m,
{
    if m == 0 {
        (s, Seq::empty())
    } else {
        let (t, rs) = step_through(s, len, dur, playback, (m - 1) as nat);
        let (u, r) = advance_spec(t, dur, len, dur as nat, playback);
        (u, rs.push(r))
    }
}

proof fn lemma_count_run(n: u16, len: nat, dur: u64, m: nat)
    requires
        n >= 1,
        1 <= len <= usize::MAX,
        1 <= m <= n * len,
    ensures
        ({
            let (t, rs) = step_through(fresh_state(Playback::Count(n)), len, dur, Playback::Count(n), m);
            &&& rs.len() == m
            &&& forall|j: int| 0 <= j < m ==> #[trigger] rs[j] == StepResult::NewStep((j % (len as int)) as usize)
            &&& !t.first_step
            &&& t.forward
            &&& t.step_elapsed_ns == 0
            &&& t.step_index == ((m - 1) % (len as int)) as usize
            &&& t.loops_remaining == Some((n - (m - 1) / (len as int)) as u16)
        }),
    decreases m,
{
    let d = len as int;
    let p = Playback::Count(n);
    let f = fresh_state(p);
    if m == 1 {
        assert(step_through(f, len, dur, p, 0) == (f, Seq::<StepResult>::empty()));
        assert(0int % d == 0) by {
            vstd::arithmetic::div_mod::lemma_fundamental_div_mod_converse_mod(0, d, 0, 0);
        }
        assert(0int / d == 0) by {
            vstd::arithmetic::div_mod::lemma_fundamental_div_mod_converse_div(0, d, 0, 0);
        }
    } else {
        lemma_count_run(n, len, dur, (m - 1) as nat);
        let (t, rs) = step_through(f, len, dur, p, (m - 1) as nat);
        let x: int = m - 2;
        let q: int = x / d;
        let i: int = x % d;
        vstd::arithmetic::div_mod::lemma_fundamental_div_mod(x, d);
        vstd::arithmetic::div_mod::lemma_mod_pos_bound(x, d);
        assert(x == q * d + i) by (nonlinear_arith)
            requires
                x == d * q + i,
        ;
        assert(q >= 0) by (nonlinear_arith)
            requires
                x >= 0,
                d > 0,
                q == x / d,
        ;
        if i + 1 < d {
            vstd::arithmetic::div_mod::lemma_fundamental_div_mod_converse_mod(m - 1, d, q, i + 1);
            vstd::arithmetic::div_mod::lemma_fundamental_div_mod_converse_div(m - 1, d, q, i + 1);
        } else {
            assert(m - 1 == (q + 1) * d + 0) by (nonlinear_arith)
                requires
                    x == q * d + i,
                    i + 1 == d,
                    x == m - 2,
            ;
            vstd::arithmetic::div_mod::lemma_fundamental_div_mod_converse_mod(m - 1, d, q + 1, 0);
            vstd::arithmetic::div_mod::lemma_fundamental_div_mod_converse_div(m - 1, d, q + 1, 0);
            assert(q + 1 < n) by (nonlinear_arith)
                requires
                    m - 1 == (q + 1) * d,
                    m <= n * d,
                    d >= 1,
            ;
        }
        let (w, rs2) = step_through(f, len, dur, p, m);
        assert forall|j: int| 0 <= j < m implies #[trigger] rs2[j] == StepResult::NewStep((j % d) as usize) by {
            if j < m - 1 {
                assert(rs2[j] == rs[j]);
            }
        }
    }
}

/// A counted show plays all its steps the given number of times and then
/// ends: from a fresh `Count(n)` playback (`n` at least 1) of a show of
/// `len` steps, advancing one whole step at a time, the first `n * len`
/// results announce steps `0, 1, ..., len - 1` over and over, and the next
/// one ends the show.
pub proof fn law_count_plays_n_times(n: u16, len: nat, dur: u64)
    requires
        n >= 1,
        1 <= len <= usize::MAX,
    ensures
        ({
            let total = (n * len) as nat;
            let rs = step_through(fresh_state(Playback::Count(n)), len, dur, Playback::Count(n), total + 1).1;
            &&& rs.len() == total + 1
            &&& forall|j: int| 0 <= j < total ==> #[trigger] rs[j] == StepResult::NewStep((j % (len as int)) as usize)
            &&& rs[total as int] == StepResult::Ended
        }),
{
    let d = len as int;
    let total: nat = (n * len) as nat;
    assert(total >= 1) by (nonlinear_arith)
        requires
            total == n * len,
            n >= 1,
            len >= 1,
    ;
    lemma_count_run(n, len, dur, total);
    let x: int = total - 1;
    assert(x == (n - 1) * d + (d - 1)) by (nonlinear_arith)
        requires
            x == total - 1,
            total == n * len,
            d == len,
    ;
    vstd::arithmetic::div_mod::lemma_fundamental_div_mod_converse_mod(x, d, n - 1, d - 1);
    vstd::arithmetic::div_mod::lemma_fundamental_div_mod_converse_div(x, d, n - 1, d - 1);
    let p = Playback::Count(n);
    let (t, rs) = step_through(fresh_state(p), len, dur, p, total);
    let rs2 = step_through(fresh_state(p), len, dur, p, total + 1).1;
    assert forall|j: int| 0 <= j < total implies #[trigger] rs2[j] == StepResult::NewStep((j % d) as usize) by {
        assert(rs2[j] == rs[j]);
    }
}
} // verus!
