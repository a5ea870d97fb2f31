use vstd::prelude::*;

verus! {

/// RTT of the seed value: worse than any real measurement.
pub const SEED_RTT_MS: u32 = 9999;

/// The best address known so far and its RTT in milliseconds.
#[derive(Clone, Copy, Debug, PartialEq, Eq, Structural)]
pub struct FastIpCell {
    pub ip: u32,
    pub rtt_ms: u32,
}

/// `best` after a result `(ip, rtt)` has been seen: a strictly lower RTT
/// replaces it, anything else leaves it.
pub open spec fn improve(best: FastIpCell, ip: u32, rtt: u32) -> FastIpCell {
    if rtt < best.rtt_ms {
        FastIpCell { ip, rtt_ms: rtt }
    } else {
        best
    }
}

impl FastIpCell {
    /// The seed `(0, 9999)`.
    pub fn seed() -> (r: FastIpCell)
        ensures
            r == (FastIpCell { ip: 0, rtt_ms: SEED_RTT_MS }),
    {
        FastIpCell { ip: 0, rtt_ms: SEED_RTT_MS }
    }

    /// The pair `(ip, rtt_ms)`.
    pub fn read(&self) -> (r: (u32, u32))
        ensures
            r == (self.ip, self.rtt_ms),
    {
        (self.ip, self.rtt_ms)
    }

    /// Replaces both fields.
    pub fn publish(&mut self, ip: u32, rtt_ms: u32)
        ensures
            *final(self) == (FastIpCell { ip, rtt_ms }),
    {
        self.ip = ip;
        self.rtt_ms = rtt_ms;
    }

    /// Takes `(ip, rtt_ms)` when its RTT is strictly below the current one;
    /// says whether it did.
    pub fn try_improve(&mut self, ip: u32, rtt_ms: u32) -> (r: bool)
        ensures
            r == (rtt_ms < old(self).rtt_ms),
            *final(self) == improve(*old(self), ip, rtt_ms),
    {
        if rtt_ms < self.rtt_ms {
            self.ip = ip;
            self.rtt_ms = rtt_ms;
            true
        } else {
            false
        }
    }
}

/// The collector's local best after the results of a sweep, from the seed.
pub open spec fn sweep_best(results: Seq<(u32, u32)>) -> FastIpCell
    decreases results.len(),
{
    if results.len() == 0 {
        FastIpCell { ip: 0, rtt_ms: SEED_RTT_MS }
    } else {
        improve(sweep_best(results.drop_last()), results.last().0, results.last().1)
    }
}

/// The values the collector publishes during a sweep, in order.
pub open spec fn sweep_writes(results: Seq<(u32, u32)>) -> Seq<FastIpCell>
    decreases results.len(),
{
    if results.len() == 0 {
        Seq::empty()
    } else {
        let w = sweep_writes(results.drop_last());
        if results.last().1 < sweep_best(results.drop_last()).rtt_ms {
            w.push(FastIpCell { ip: results.last().0, rtt_ms: results.last().1 })
        } else {
            w
        }
    }
}

/// The collector of one sweep: it keeps its own best, seeded anew, and
/// (as ghost state) the results it has seen.
pub struct Collector {
    pub best: FastIpCell,
    pub seen: Ghost<Seq<(u32, u32)>>,
}

impl Collector {
    pub open spec fn wf(&self) -> bool {
        self.best == sweep_best(self.seen@)
    }

    pub fn new() -> (r: Collector)
        ensures
            r.wf(),
            r.seen@ == Seq::<(u32, u32)>::empty(),
    {
        Collector { best: FastIpCell::seed(), seen: Ghost(Seq::empty()) }
    }

    /// Takes one probe result; returns the value to publish, if it improves
    /// on the sweep's best so far.
    pub fn observe(&mut self, ip: u32, rtt_ms: u32) -> (r: Option<FastIpCell>)
        requires
            old(self).wf(),
        ensures
            final(self).wf(),
            final(self).seen@ == old(self).seen@.push((ip, rtt_ms)),
            final(self).best == improve(old(self).best, ip, rtt_ms),
            rtt_ms < old(self).best.rtt_ms ==> r == Some(FastIpCell { ip, rtt_ms }),
            rtt_ms >= old(self).best.rtt_ms ==> r is None,
            r is None ==> sweep_writes(final(self).seen@) == sweep_writes(old(self).seen@),
            r matches Some(w) ==> sweep_writes(final(self).seen@) == sweep_writes(old(self).seen@).push(w),
    {
        let ghost before = self.seen@;
        let improved = self.best.try_improve(ip, rtt_ms);
        self.seen = Ghost(before.push((ip, rtt_ms)));
        proof {
            assert(self.seen@.drop_last() =~= before);
        }
        if improved {
            Some(self.best)
        } else {
            None
        }
    }
}

/// The collector's best never rises above the seed, and never above any
/// RTT seen in the sweep.
pub proof fn lemma_sweep_best_bounded(results: Seq<(u32, u32)>)
    ensures
        sweep_best(results).rtt_ms <= SEED_RTT_MS,
        forall|i: int| 0 <= i < results.len() ==> sweep_best(results).rtt_ms <= (#[trigger] results[i]).1,
    decreases results.len(),
{
    if results.len() > 0 {
        let pre = results.drop_last();
        lemma_sweep_best_bounded(pre);
        assert forall|i: int| 0 <= i < results.len() implies sweep_best(results).rtt_ms <= (#[trigger] results[i]).1 by {
            if i < results.len() - 1 {
                assert(results[i] == pre[i]);
            }
        }
    }
}

/// A sweep that sees an RTT below the seed leaves a best RTT below the seed.
pub proof fn lemma_sweep_beats_seed(results: Seq<(u32, u32)>, i: int)
    requires
        0 <= i < results.len(),
        results[i].1 < SEED_RTT_MS,
    ensures
        sweep_best(results).rtt_ms < SEED_RTT_MS,
{
    lemma_sweep_best_bounded(results);
}

proof fn lemma_writes_track_best(results: Seq<(u32, u32)>)
    ensures
        sweep_writes(results).len() > 0 ==> sweep_writes(results).last() == sweep_best(results),
        forall|j: int| 0 <= j < sweep_writes(results).len()
            ==> sweep_best(results).rtt_ms <= (#[trigger] sweep_writes(results)[j]).rtt_ms,
    decreases results.len(),
{
    if results.len() > 0 {
        lemma_writes_track_best(results.drop_last());
    }
}

/// The values published during a sweep fall strictly in RTT.
pub proof fn lemma_sweep_writes_decrease(results: Seq<(u32, u32)>)
    ensures
        forall|i: int, j: int| 0 <= i < j < sweep_writes(results).len()
            ==> (#[trigger] sweep_writes(results)[j]).rtt_ms < (#[trigger] sweep_writes(results)[i]).rtt_ms,
    decreases results.len(),
{
    if results.len() > 0 {
        let pre = results.drop_last();
        lemma_sweep_writes_decrease(pre);
        lemma_writes_track_best(pre);
        let w = sweep_writes(pre);
        assert forall|i: int, j: int| 0 <= i < j < sweep_writes(results).len()
            implies (#[trigger] sweep_writes(results)[j]).rtt_ms < (#[trigger] sweep_writes(results)[i]).rtt_ms by {
            if j < w.len() {
                assert(sweep_writes(results)[j] == w[j]);
                assert(sweep_writes(results)[i] == w[i]);
            } else {
                assert(sweep_writes(results)[i] == w[i]);
            }
        }
    }
}

} // verus!
