//! The metric store: the samples of one model in time order, with lazy
//! eviction of what has grown too old.

use crate::config::{ModelId, MonitorError, SCALE};
use crate::health::{in_unit_interval, Sample};
use vstd::prelude::*;
use vstd::slice::slice_subrange;

verus! {

/// The samples taken at `t` or later.
pub open spec fn since(t: int) -> spec_fn(Sample) -> bool {
    |s: Sample| s.timestamp >= t
}

/// The samples taken at `t` or earlier.
pub open spec fn until(t: int) -> spec_fn(Sample) -> bool {
    |s: Sample| s.timestamp <= t
}

/// `s` is in time order, oldest sample first.
pub open spec fn ordered(s: Seq<Sample>) -> bool {
    forall|i: int, j: int| 0 <= i <= j < s.len() ==> s[i].timestamp <= s[j].timestamp
}

/// Every sample of `s` belongs to model `id`.
pub open spec fn owned_by(s: Seq<Sample>, id: ModelId) -> bool {
    forall|i: int| 0 <= i < s.len() ==> (#[trigger] s[i]).model_id == id
}

/// `s` with `x` put in its place in time: behind every sample that is not
/// younger, so that samples of one timestamp stay in the order of arrival.
pub open spec fn inserted(s: Seq<Sample>, x: Sample) -> Seq<Sample> {
    s.filter(until(x.timestamp as int)).push(x) + s.filter(since(x.timestamp + 1))
}

/// The timestamp of the newest sample of an ordered sequence.
pub open spec fn latest(s: Seq<Sample>) -> int {
    if s.len() == 0 {
        0
    } else {
        s.last().timestamp as int
    }
}

/// What is left of an ordered sequence once every sample that is more than
/// `horizon` seconds older than the newest has been dropped.
pub open spec fn retained(s: Seq<Sample>, horizon: u64) -> Seq<Sample> {
    s.filter(since(latest(s) - horizon))
}

/// The store's contents after `x` has been written to it.
pub open spec fn recorded(s: Seq<Sample>, x: Sample, horizon: u64) -> Seq<Sample> {
    retained(inserted(s, x), horizon)
}

/// The samples of `s` that are no older than `window` seconds at `now`.
pub open spec fn recent_of(s: Seq<Sample>, now: u64, window: u64) -> Seq<Sample> {
    s.filter(since(now - window))
}

/// Where a sequence falls into an older part below `t` and a younger part
/// from `t` on, filtering by time cuts it at that place.
pub proof fn lemma_filter_split(s: Seq<Sample>, k: int, t: int)
    requires
        0 <= k <= s.len(),
        forall|i: int| 0 <= i < k ==> (#[trigger] s[i]).timestamp < t,
        forall|i: int| k <= i < s.len() ==> (#[trigger] s[i]).timestamp >= t,
    ensures
        s.filter(since(t)) == s.subrange(k, s.len() as int),
        s.filter(until(t - 1)) == s.subrange(0, k),
    decreases s.len(),
{
    reveal(Seq::filter);
    if s.len() == 0 {
        assert(s.filter(since(t)) =~= s.subrange(k, s.len() as int));
        assert(s.filter(until(t - 1)) =~= s.subrange(0, k));
    } else {
        let init = s.drop_last();
        if k == s.len() {
            lemma_filter_split(init, k - 1, t);
            assert(!since(t)(s.last()));
            assert(until(t - 1)(s.last()));
            assert(s.filter(since(t)) =~= s.subrange(k, s.len() as int));
            assert(s.filter(until(t - 1)) =~= s.subrange(0, k));
        } else {
            lemma_filter_split(init, k, t);
            assert(since(t)(s.last()));
            assert(!until(t - 1)(s.last()));
            assert(s.filter(since(t)) =~= s.subrange(k, s.len() as int));
            assert(s.filter(until(t - 1)) =~= s.subrange(0, k));
        }
    }
}

/// The samples of one model.
///
/// Evicted samples are first only stepped over, and are released together
/// once they outnumber the live ones, so that a write costs no more than what
/// it evicts, averaged over the writes. Reading never changes the store.
pub struct MetricStore {
    owner: ModelId,
    /// The evicted samples that have not been released yet, then the live
    /// ones; both in time order.
    samples: Vec<Sample>,
    /// Where the live samples begin.
    head: usize,
}

impl View for MetricStore {
    type V = Seq<Sample>;

    /// The stored samples, oldest first.
    closed spec fn view(&self) -> Seq<Sample> {
        self.samples@.subrange(self.head as int, self.samples@.len() as int)
    }
}

/// `s` is in time order from place `head` on.
spec fn ordered_from(s: Seq<Sample>, head: int) -> bool {
    forall|i: int, j: int| head <= i <= j < s.len() ==> s[i].timestamp <= s[j].timestamp
}

impl MetricStore {
    /// The model whose samples the store holds.
    pub closed spec fn owner(&self) -> ModelId {
        self.owner
    }

    /// The store's bookkeeping is sound.
    pub closed spec fn sound(&self) -> bool {
        self.head <= self.samples@.len()
    }

    /// The store's invariant: its samples are in time order, lie in the unit
    /// interval and belong to its model.
    pub open spec fn wf(&self) -> bool {
        &&& self.sound()
        &&& ordered(self@)
        &&& in_unit_interval(self@)
        &&& owned_by(self@, self.owner())
    }

    proof fn lemma_ordered_from(&self)
        requires
            self.sound(),
            ordered(self@),
        ensures
            ordered_from(self.samples@, self.head as int),
    {
        let v = self@;
        assert forall|i: int, j: int| self.head <= i <= j < self.samples@.len() implies self.samples@[i].timestamp
            <= self.samples@[j].timestamp by {
            assert(v[i - self.head] == self.samples@[i]);
            assert(v[j - self.head] == self.samples@[j]);
        }
    }

    /// An empty store for model `owner`.
    pub fn new(owner: ModelId) -> (r: Self)
        ensures
            r@ == Seq::<Sample>::empty(),
            r.owner() == owner,
            r.wf(),
    {
        let r = MetricStore { owner, samples: Vec::new(), head: 0 };
        assert(r@ =~= Seq::<Sample>::empty());
        r
    }

    /// The model whose samples the store holds.
    pub fn model_id(&self) -> (r: ModelId)
        ensures
            r == self.owner(),
    {
        self.owner
    }

    /// Number of stored samples.
    pub fn len(&self) -> (r: usize)
        requires
            self.wf(),
        ensures
            r == self@.len(),
    {
        self.samples.len() - self.head
    }

    /// All stored samples, oldest first.
    pub fn samples(&self) -> (r: &[Sample])
        requires
            self.wf(),
        ensures
            r@ == self@,
    {
        slice_subrange(self.samples.as_slice(), self.head, self.samples.len())
    }

    /// Puts `x` in its place in time.
    fn insert_ordered(&mut self, x: Sample)
        requires
            old(self).sound(),
            ordered(old(self)@),
        ensures
            final(self).sound(),
            final(self)@ == inserted(old(self)@, x),
            final(self)@ == old(self)@.insert(old(self)@.filter(until(x.timestamp as int)).len() as int, x),
            final(self).owner() == old(self).owner(),
            ordered(final(self)@),
    {
        proof {
            self.lemma_ordered_from();
        }
        let mut k: usize = self.samples.len();
        while k > self.head && self.samples[k - 1].timestamp > x.timestamp
            invariant
                self.head <= k <= self.samples.len(),
                forall|i: int| k <= i < self.samples.len() ==> (#[trigger] self.samples@[i]).timestamp > x.timestamp,
            decreases k,
        {
            k -= 1;
        }
        let ghost v = self@;
        let ghost p = k - self.head;
        proof {
            assert forall|i: int| 0 <= i < p implies (#[trigger] v[i]).timestamp < x.timestamp + 1 by {
                assert(self.samples@[self.head + i].timestamp <= self.samples@[k - 1].timestamp);
            }
            assert forall|i: int| p <= i < v.len() implies (#[trigger] v[i]).timestamp >= x.timestamp + 1 by {
                assert(v[i] == self.samples@[self.head + i]);
            }
            lemma_filter_split(v, p, x.timestamp + 1);
            assert(v.insert(p, x) =~= inserted(v, x));
            assert(v.subrange(0, p).len() == p);
        }
        self.samples.insert(k, x);
        assert(self@ =~= v.insert(p, x));
    }

    /// Drops what is more than `horizon` seconds older than the newest
    /// sample.
    fn evict(&mut self, horizon: u64)
        requires
            old(self).sound(),
            ordered(old(self)@),
        ensures
            final(self).sound(),
            final(self)@ == retained(old(self)@, horizon),
            final(self).owner() == old(self).owner(),
            exists|e: int|
                0 <= e <= old(self)@.len() && final(self)@ == old(self)@.subrange(
                    e,
                    old(self)@.len() as int,
                ),
    {
        let n: usize = self.samples.len();
        let ghost v = self@;
        if n == self.head {
            proof {
                reveal(Seq::filter);
                assert(v =~= v.subrange(0, 0));
            }
            return ;
        }
        proof {
            self.lemma_ordered_from();
        }
        let newest: u64 = self.samples[n - 1].timestamp;
        let mut e: usize = self.head;
        while e < n && newest - self.samples[e].timestamp > horizon
            invariant
                self.head <= e <= n,
                n == self.samples.len(),
                newest == self.samples@[n - 1].timestamp,
                ordered_from(self.samples@, self.head as int),
                forall|i: int| self.head <= i < e ==> (#[trigger] self.samples@[i]).timestamp < newest - horizon,
            decreases n - e,
        {
            e += 1;
        }
        let ghost q = e - self.head;
        proof {
            assert(newest == latest(v));
            assert forall|i: int| 0 <= i < q implies (#[trigger] v[i]).timestamp < newest - horizon by {
                assert(v[i] == self.samples@[self.head + i]);
            }
            assert forall|i: int| q <= i < v.len() implies (#[trigger] v[i]).timestamp >= newest - horizon by {
                assert(self.samples@[e as int].timestamp <= self.samples@[self.head + i].timestamp);
            }
            lemma_filter_split(v, q, newest - horizon);
        }
        self.head = e;
        assert(self@ =~= v.subrange(q, v.len() as int));
        if self.head > n - self.head {
            let kept = self.samples.split_off(self.head);
            self.samples = kept;
            self.head = 0;
            assert(self@ =~= v.subrange(q, v.len() as int));
        }
    }

    /// Writes a sample to the store.
    ///
    /// The sample is refused with `UnknownModel` where it belongs to another
    /// model, and with `InvalidSample` where its value is above 1. Otherwise
    /// it takes its place in time order, and every sample that is then more
    /// than `horizon` seconds older than the newest one is dropped.
    pub fn record(&mut self, sample: Sample, horizon: u64) -> (r: Result<(), MonitorError>)
        requires
            old(self).wf(),
        ensures
            final(self).wf(),
            final(self).owner() == old(self).owner(),
            r == (if sample.model_id != old(self).owner() {
                Err::<(), MonitorError>(MonitorError::UnknownModel)
            } else if sample.value > SCALE {
                Err::<(), MonitorError>(MonitorError::InvalidSample)
            } else {
                Ok::<(), MonitorError>(())
            }),
            r is Ok ==> final(self)@ == recorded(old(self)@, sample, horizon),
            r is Err ==> final(self)@ == old(self)@,
    {
        if sample.model_id != self.owner {
            return Err(MonitorError::UnknownModel);
        }
        if sample.value > SCALE {
            return Err(MonitorError::InvalidSample);
        }
        let ghost before = self@;
        let ghost k = before.filter(until(sample.timestamp as int)).len() as int;
        self.insert_ordered(sample);
        let ghost mid = self@;
        proof {
            before.lemma_filter_len(until(sample.timestamp as int));
            assert forall|i: int| 0 <= i < mid.len() implies (#[trigger] mid[i]).value <= SCALE
                && mid[i].model_id == self.owner() by {
                if i < k {
                    assert(mid[i] == before[i]);
                } else if i > k {
                    assert(mid[i] == before[i - 1]);
                }
            }
        }
        self.evict(horizon);
        Ok(())
    }

    /// The stored samples that are no older than `window` seconds at `now`,
    /// oldest first. The slice borrows from the store: nothing is copied, and
    /// it can be walked as often as needed.
    pub fn recent(&self, now: u64, window: u64) -> (r: &[Sample])
        requires
            self.wf(),
        ensures
            r@ == recent_of(self@, now, window),
    {
        proof {
            self.lemma_ordered_from();
        }
        let n: usize = self.samples.len();
        let mut k: usize = n;
        while k > self.head && (self.samples[k - 1].timestamp >= now || now - self.samples[k
            - 1].timestamp <= window)
            invariant
                self.head <= k <= n,
                n == self.samples.len(),
                forall|i: int| k <= i < n ==> (#[trigger] self.samples@[i]).timestamp >= now - window,
            decreases k,
        {
            k -= 1;
        }
        let ghost v = self@;
        let ghost p = k - self.head;
        proof {
            assert forall|i: int| 0 <= i < p implies (#[trigger] v[i]).timestamp < now - window by {
                assert(self.samples@[self.head + i].timestamp <= self.samples@[k - 1].timestamp);
            }
            assert forall|i: int| p <= i < v.len() implies (#[trigger] v[i]).timestamp >= now - window by {
                assert(v[i] == self.samples@[self.head + i]);
            }
            lemma_filter_split(v, p, now - window);
            assert(self.samples@.subrange(k as int, n as int) =~= v.subrange(p, v.len() as int));
        }
        slice_subrange(self.samples.as_slice(), k, n)
    }
}

} // verus!
