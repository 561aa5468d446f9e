//! Rate limiter for UI value updates (such as a slider being dragged).
//!
//! The first update is emitted at once; later updates within the interval
//! after the last emission are held back, only the latest being kept, until
//! a flush emits it. Time is a monotonic millisecond counter supplied by
//! the caller; the caller delivers what an update or flush emits.

use vstd::prelude::*;

verus! {

/// Debouncer state: when the last value went out, the interval and the
/// value held back.
#[derive(Debug)]
pub struct Debouncer<T> {
    /// Milliseconds of the last emission; `None` before the first.
    pub last_emitted_ms: Option<u64>,
    pub interval_ms: u64,
    pub pending: Option<T>,
}

/// An update at `now` may go out: nothing went out yet, or the interval
/// has passed since the last emission (a clock reading before it counts as
/// no time elapsed).
pub open spec fn may_emit(last: Option<u64>, interval: u64, now: u64) -> bool {
    match last {
        None => true,
        Some(t) => now >= t && now - t >= interval,
    }
}

impl<T> Debouncer<T> {
    /// A debouncer that emits the first update at once.
    pub fn new(interval_ms: u64) -> (d: Debouncer<T>)
        ensures
            d.last_emitted_ms is None,
            d.interval_ms == interval_ms,
            d.pending is None,
    {
        Debouncer { last_emitted_ms: None, interval_ms, pending: None }
    }

    /// Offer a value at time `now_ms`: returns it to emit now, or keeps it
    /// pending (replacing any older pending value) and returns nothing.
    pub fn update(&mut self, now_ms: u64, value: T) -> (r: Option<T>)
        ensures
            final(self).interval_ms == old(self).interval_ms,
            may_emit(old(self).last_emitted_ms, old(self).interval_ms, now_ms) ==> {
                &&& r == Some(value)
                &&& final(self).last_emitted_ms == Some(now_ms)
                &&& final(self).pending is None
            },
            !may_emit(old(self).last_emitted_ms, old(self).interval_ms, now_ms) ==> {
                &&& r is None
                &&& final(self).last_emitted_ms == old(self).last_emitted_ms
                &&& final(self).pending == Some(value)
            },
            offer_all(
                old(self).last_emitted_ms,
                old(self).pending,
                old(self).interval_ms,
                seq![(now_ms, value)],
            ) == (final(self).last_emitted_ms, final(self).pending, match r {
                Some(v) => seq![v],
                None => Seq::<T>::empty(),
            }),
    {
        proof {
            assert(seq![(now_ms, value)].drop_last() =~= Seq::<(u64, T)>::empty());
            assert(Seq::<T>::empty().push(value) =~= seq![value]);
            assert(offer_all(
                self.last_emitted_ms,
                self.pending,
                self.interval_ms,
                Seq::<(u64, T)>::empty(),
            ) == (self.last_emitted_ms, self.pending, Seq::<T>::empty()));
        }
        let emit = match self.last_emitted_ms {
            None => true,
            Some(t) => now_ms >= t && now_ms - t >= self.interval_ms,
        };
        if emit {
            self.last_emitted_ms = Some(now_ms);
            self.pending = None;
            Some(value)
        } else {
            self.pending = Some(value);
            None
        }
    }

    /// Emit the pending value, if any, at time `now_ms`.
    pub fn flush(&mut self, now_ms: u64) -> (r: Option<T>)
        ensures
            final(self).interval_ms == old(self).interval_ms,
            final(self).pending is None,
            r == old(self).pending,
            old(self).pending is Some ==> final(self).last_emitted_ms == Some(now_ms),
            old(self).pending is None ==> final(self).last_emitted_ms == old(self).last_emitted_ms,
    {
        match self.pending.take() {
            Some(v) => {
                self.last_emitted_ms = Some(now_ms);
                Some(v)
            },
            None => None,
        }
    }
}

/// State after offering each of `updates` (time, value) in turn, starting
/// from the last emission time `last` and pending value `pending`; and
/// the values emitted on the way.
pub open spec fn offer_all<T>(
    last: Option<u64>,
    pending: Option<T>,
    interval: u64,
    updates: Seq<(u64, T)>,
) -> (Option<u64>, Option<T>, Seq<T>)
    decreases updates.len(),
{
    if updates.len() == 0 {
        (last, pending, Seq::empty())
    } else {
        let (l, p, out) = offer_all(last, pending, interval, updates.drop_last());
        let (now, v) = updates.last();
        if may_emit(l, interval, now) {
            (Some(now), None, out.push(v))
        } else {
            (l, Some(v), out)
        }
    }
}

/// A burst of updates within the interval after an emission emits nothing
/// and leaves the last of them pending, for a flush to emit.
pub proof fn law_burst_collapses<T>(last: u64, pending: Option<T>, interval: u64, updates: Seq<(u64, T)>)
    requires
        updates.len() > 0,
        forall|i: int| 0 <= i < updates.len() ==> last <= (#[trigger] updates[i]).0 < last + interval,
    ensures
        offer_all(Some(last), pending, interval, updates) == (
            Some(last),
            Some(updates.last().1),
            Seq::<T>::empty(),
        ),
    decreases updates.len(),
{
    let u = updates.drop_last();
    assert(last <= updates.last().0 < last + interval) by {
        assert(updates.last() == updates[updates.len() - 1]);
    }
    if updates.len() > 1 {
        assert forall|i: int| 0 <= i < u.len() implies last <= (#[trigger] u[i]).0 < last + interval by {
            assert(u[i] == updates[i]);
        }
        law_burst_collapses(last, pending, interval, u);
    } else {
        assert(offer_all(Some(last), pending, interval, u) == (Some(last), pending, Seq::<T>::empty()));
    }
}

} // verus!
