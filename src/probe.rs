use vstd::prelude::*;

verus! {

pub open spec fn sum_of(s: Seq<u32>) -> int
    decreases s.len(),
{
    if s.len() == 0 {
        0
    } else {
        sum_of(s.drop_last()) + s.last()
    }
}

/// Smallest sample of a non-empty sequence.
pub open spec fn min_of(s: Seq<u32>) -> int
    decreases s.len(),
{
    if s.len() <= 1 {
        s[0] as int
    } else if (s.last() as int) < min_of(s.drop_last()) {
        s.last() as int
    } else {
        min_of(s.drop_last())
    }
}

/// Largest sample of a non-empty sequence.
pub open spec fn max_of(s: Seq<u32>) -> int
    decreases s.len(),
{
    if s.len() <= 1 {
        s[0] as int
    } else if (s.last() as int) > max_of(s.drop_last()) {
        s.last() as int
    } else {
        max_of(s.drop_last())
    }
}

/// Average RTT of a probe series: with more than three samples the single
/// smallest and single largest are left out; integer division truncates.
pub open spec fn mean_rtt(s: Seq<u32>) -> int {
    if s.len() > 3 {
        (sum_of(s) - min_of(s) - max_of(s)) / (s.len() - 2)
    } else {
        sum_of(s) / s.len() as int
    }
}

/// What a probe worker does next for one address.
#[derive(Clone, Copy, Debug, PartialEq, Eq, Structural)]
pub enum ProbeStep {
    /// Probe the address once more.
    Probe,
    /// Drop the address: its first probe timed out or failed, or its
    /// average reaches the timeout.
    Discard,
    /// Report the address with this average RTT.
    Report(u32),
}

/// The number of samples a series is complete at (at least one).
pub open spec fn series_len(times: u16) -> int {
    if times == 0 { 1 } else { times as int }
}

pub open spec fn probe_step_spec(samples: Seq<u32>, times: u16, timeout_ms: u64) -> ProbeStep {
    if samples.len() == 0 {
        ProbeStep::Probe
    } else if samples[0] as int >= timeout_ms as int {
        ProbeStep::Discard
    } else if samples.len() < series_len(times) {
        ProbeStep::Probe
    } else if mean_rtt(samples) >= timeout_ms as int {
        ProbeStep::Discard
    } else {
        ProbeStep::Report(mean_rtt(samples) as u32)
    }
}

/// Average RTT of a series of samples, trimmed when it holds more than three.
pub fn average_rtt(samples: &Vec<u32>) -> (r: u32)
    requires
        1 <= samples@.len() <= 0xffff,
    ensures
        r == mean_rtt(samples@),
{
    let n = samples.len();
    let mut sum: u64 = 0;
    let mut lo: u32 = samples[0];
    let mut hi: u32 = samples[0];
    let mut i: usize = 0;
    while i < n
        invariant
            n == samples@.len(),
            1 <= n <= 0xffff,
            i <= n,
            sum == sum_of(samples@.subrange(0, i as int)),
            i >= 1 ==> lo == min_of(samples@.subrange(0, i as int)),
            i >= 1 ==> hi == max_of(samples@.subrange(0, i as int)),
            i == 0 ==> lo == samples@[0] && hi == samples@[0],
            lo <= hi,
            i >= 1 ==> sum >= hi,
            i >= 2 ==> sum >= lo as int + hi as int,
            i >= 1 ==> sum <= lo as int + (i - 1) * hi as int,
            sum <= i * 0xffff_ffff,
        decreases n - i,
    {
        let x = samples[i];
        proof {
            let pre = samples@.subrange(0, i as int);
            let next = samples@.subrange(0, i as int + 1);
            assert(next.drop_last() =~= pre);
            assert(next.last() == x);
            if i >= 1 {
                assert(lo as int + (i - 1) * hi as int + x <= (if x < lo { x } else { lo }) as int
                    + i * (if x > hi { x } else { hi }) as int) by (nonlinear_arith)
                    requires lo <= hi, i >= 1;
            }
            assert(sum + x <= (i + 1) * 0xffff_ffff) by (nonlinear_arith)
                requires sum <= i * 0xffff_ffff, x <= 0xffff_ffff;
        }
        sum = sum + x as u64;
        if i == 0 {
            lo = x;
            hi = x;
        } else {
            if x < lo {
                lo = x;
            }
            if x > hi {
                hi = x;
            }
        }
        i = i + 1;
    }
    proof {
        assert(samples@.subrange(0, n as int) =~= samples@);
    }
    if n > 3 {
        let d: u64 = (n - 2) as u64;
        let t: u64 = sum - lo as u64 - hi as u64;
        proof {
            assert(t <= d * hi as int) by (nonlinear_arith)
                requires t == sum - lo - hi, sum <= lo + (n - 1) * hi as int, d == n - 2;
            assert(t / d <= hi as int) by (nonlinear_arith)
                requires t <= d * hi as int, d >= 1, t >= 0;
        }
        (t / d) as u32
    } else {
        let d: u64 = n as u64;
        proof {
            assert(sum <= d * hi as int) by (nonlinear_arith)
                requires sum <= lo + (n - 1) * hi as int, lo <= hi, d == n;
            assert(sum / d <= hi as int) by (nonlinear_arith)
                requires sum <= d * hi as int, d >= 1;
        }
        (sum / d) as u32
    }
}

/// Decision of a probe worker, given the samples taken so far for one address
/// and the configured series length and timeout.
pub fn next_probe_step(samples: &Vec<u32>, times: u16, timeout_ms: u64) -> (r: ProbeStep)
    requires
        samples@.len() <= series_len(times),
    ensures
        r == probe_step_spec(samples@, times, timeout_ms),
        r matches ProbeStep::Report(a) ==> (a as int) < timeout_ms as int,
{
    if samples.len() == 0 {
        ProbeStep::Probe
    } else if samples[0] as u64 >= timeout_ms {
        ProbeStep::Discard
    } else if times > 0 && samples.len() < times as usize {
        ProbeStep::Probe
    } else {
        let avg = average_rtt(samples);
        if avg as u64 >= timeout_ms {
            ProbeStep::Discard
        } else {
            ProbeStep::Report(avg)
        }
    }
}

/// An address whose first probe reaches the timeout is never reported,
/// whatever samples follow.
pub proof fn lemma_slow_first_probe_never_reported(samples: Seq<u32>, times: u16, timeout_ms: u64)
    requires
        samples.len() >= 1,
        samples[0] as int >= timeout_ms as int,
    ensures
        probe_step_spec(samples, times, timeout_ms) == ProbeStep::Discard,
{
}

/// A series of one sample averages to that sample.
pub proof fn lemma_single_sample_mean(s: Seq<u32>)
    requires
        s.len() == 1,
    ensures
        mean_rtt(s) == s[0],
{
    assert(s.drop_last().len() == 0);
    assert(sum_of(s.drop_last()) == 0);
    assert(sum_of(s) == s[0]);
}

/// A series of four samples drops its smallest and its largest sample and
/// halves the sum of the other two.
pub proof fn lemma_four_sample_mean(s: Seq<u32>)
    requires
        s.len() == 4,
    ensures
        mean_rtt(s) == (sum_of(s) - min_of(s) - max_of(s)) / 2,
{
}

/// The sample recorded for one probe: the measured milliseconds, or the
/// timeout where the probe failed or timed out; capped at `u32::MAX`.
pub fn probe_sample(elapsed_ms: Option<u64>, timeout_ms: u64) -> (r: u32)
    ensures
        ({
            let v = match elapsed_ms { Some(e) => e, None => timeout_ms };
            r == if v > 0xffff_ffff { 0xffff_ffff } else { v }
        }),
{
    let v = match elapsed_ms {
        Some(e) => e,
        None => timeout_ms,
    };
    if v > 0xffff_ffff {
        0xffff_ffff
    } else {
        v as u32
    }
}

} // verus!
