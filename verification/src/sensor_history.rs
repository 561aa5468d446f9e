//! Fixed-capacity history of sensor readings: the latest 300 samples
//! (5 minutes at 1 sample/s), oldest first.

use vstd::prelude::*;

verus! {

/// Maximum number of data points stored per sensor.
pub const MAX_POINTS: usize = 300;

/// A ring buffer of readings: once full, each new reading overwrites the
/// oldest one.
#[derive(Clone, Debug)]
pub struct SensorTimeSeries<T> {
    buf: Vec<T>,
    /// Index where the next write goes.
    head: usize,
}

/// The newest `MAX_POINTS` of `s`.
pub open spec fn keep_latest<T>(s: Seq<T>) -> Seq<T> {
    if s.len() <= MAX_POINTS {
        s
    } else {
        s.subrange(s.len() - MAX_POINTS, s.len() as int)
    }
}

impl<T: Copy> SensorTimeSeries<T> {
    /// The stored readings in chronological order (oldest first).
    pub closed spec fn view(&self) -> Seq<T> {
        if self.buf@.len() < MAX_POINTS {
            self.buf@
        } else {
            self.buf@.subrange(self.head as int, MAX_POINTS as int) + self.buf@.subrange(
                0,
                self.head as int,
            )
        }
    }

    pub closed spec fn wf(&self) -> bool {
        &&& self.buf@.len() <= MAX_POINTS
        &&& self.head < MAX_POINTS
        &&& self.buf@.len() < MAX_POINTS ==> self.head == self.buf@.len()
    }

    pub fn new() -> (s: SensorTimeSeries<T>)
        ensures
            s.wf(),
            s.view() == Seq::<T>::empty(),
    {
        SensorTimeSeries { buf: Vec::new(), head: 0 }
    }

    /// Append a new reading, overwriting the oldest entry once capacity is reached.
    pub fn push(&mut self, value: T)
        requires
            old(self).wf(),
        ensures
            final(self).wf(),
            final(self).view() == keep_latest(old(self).view().push(value)),
    {
        let ghost v0 = self.view();
        if self.buf.len() < MAX_POINTS {
            self.buf.push(value);
            self.head = (self.head + 1) % MAX_POINTS;
            proof {
                if self.buf@.len() == MAX_POINTS {
                    assert(self.buf@.subrange(0, MAX_POINTS as int) =~= self.buf@);
                    assert(self.buf@.subrange(0, 0) =~= Seq::<T>::empty());
                    assert(self.view() =~= self.buf@);
                }
                assert(self.view() =~= v0.push(value));
            }
        } else {
            let ghost b0 = self.buf@;
            let ghost h = self.head as int;
            self.buf.set(self.head, value);
            self.head = (self.head + 1) % MAX_POINTS;
            proof {
                let w = v0.push(value);
                assert(v0 =~= b0.subrange(h, MAX_POINTS as int) + b0.subrange(0, h));
                if h + 1 == MAX_POINTS {
                    assert(self.head == 0);
                    assert(self.view() =~= self.buf@.subrange(0, MAX_POINTS as int) + self.buf@.subrange(0, 0));
                    assert(self.view() =~= w.subrange(w.len() - MAX_POINTS, w.len() as int));
                } else {
                    assert(self.view() =~= w.subrange(w.len() - MAX_POINTS, w.len() as int));
                }
            }
        }
    }

    /// All stored readings in chronological order (oldest first).
    pub fn readings(&self) -> (r: Vec<T>)
        requires
            self.wf(),
        ensures
            r@ == self.view(),
    {
        let mut out: Vec<T> = Vec::new();
        let n = self.buf.len();
        if n < MAX_POINTS {
            let mut i: usize = 0;
            while i < n
                invariant
                    n == self.buf@.len(),
                    i <= n,
                    out@ == self.buf@.subrange(0, i as int),
                decreases n - i,
            {
                out.push(self.buf[i]);
                i = i + 1;
            }
            assert(self.buf@.subrange(0, i as int) =~= self.buf@);
        } else {
            let mut i: usize = self.head;
            while i < n
                invariant
                    n == self.buf@.len() == MAX_POINTS,
                    self.head <= i <= n,
                    out@ == self.buf@.subrange(self.head as int, i as int),
                decreases n - i,
            {
                out.push(self.buf[i]);
                i = i + 1;
            }
            let mut j: usize = 0;
            while j < self.head
                invariant
                    n == self.buf@.len() == MAX_POINTS,
                    self.head < MAX_POINTS,
                    j <= self.head,
                    out@ == self.buf@.subrange(self.head as int, MAX_POINTS as int) + self.buf@.subrange(
                        0,
                        j as int,
                    ),
                decreases self.head - j,
            {
                out.push(self.buf[j]);
                proof {
                    assert(self.buf@.subrange(0, j + 1) =~= self.buf@.subrange(0, j as int).push(
                        self.buf@[j as int],
                    ));
                }
                j = j + 1;
            }
        }
        out
    }

    /// Most recent reading, or `None` if none has been recorded.
    pub fn current(&self) -> (r: Option<T>)
        requires
            self.wf(),
        ensures
            r == (if self.view().len() == 0 {
                None
            } else {
                Some(self.view().last())
            }),
    {
        if self.buf.len() == 0 {
            return None;
        }
        let last = (self.head + MAX_POINTS - 1) % MAX_POINTS;
        proof {
            if self.buf@.len() == MAX_POINTS {
                let v = self.view();
                if self.head == 0 {
                    assert(v[v.len() - 1] == self.buf@[MAX_POINTS - 1]);
                } else {
                    assert(v[v.len() - 1] == self.buf@[self.head - 1]);
                }
            }
        }
        Some(self.buf[last])
    }

    /// Number of stored readings.
    pub fn len(&self) -> (n: usize)
        requires
            self.wf(),
        ensures
            n == self.view().len(),
    {
        self.buf.len()
    }

    pub fn is_empty(&self) -> (b: bool)
        requires
            self.wf(),
        ensures
            b == (self.view().len() == 0),
    {
        self.buf.len() == 0
    }
}

/// The readings kept after pushing `vs` one by one onto `start`.
pub open spec fn after_pushes<T>(start: Seq<T>, vs: Seq<T>) -> Seq<T>
    decreases vs.len(),
{
    if vs.len() == 0 {
        start
    } else {
        keep_latest(after_pushes(start, vs.drop_last()).push(vs.last()))
    }
}

proof fn lemma_keep_latest_push<T>(s: Seq<T>, v: T)
    ensures
        keep_latest(keep_latest(s).push(v)) == keep_latest(s.push(v)),
{
    assert(keep_latest(keep_latest(s).push(v)) =~= keep_latest(s.push(v)));
}

/// A run of pushes onto a new series keeps the newest 300 readings, oldest
/// first: after pushing `v_0, ..., v_{n-1}` the readings are
/// `v[max(n - 300, 0)..n]`, so there are `min(n, 300)` of them and the
/// current one is the last pushed.
pub proof fn law_pushes_keep_newest<T>(vs: Seq<T>)
    ensures
        after_pushes(Seq::<T>::empty(), vs) == keep_latest(vs),
        after_pushes(Seq::<T>::empty(), vs).len() == if vs.len() < MAX_POINTS {
            vs.len() as int
        } else {
            MAX_POINTS as int
        },
        vs.len() > 0 ==> after_pushes(Seq::<T>::empty(), vs).last() == vs.last(),
    decreases vs.len(),
{
    if vs.len() > 0 {
        law_pushes_keep_newest(vs.drop_last());
        lemma_keep_latest_push(vs.drop_last(), vs.last());
        assert(vs.drop_last().push(vs.last()) =~= vs);
    }
}

} // verus!
