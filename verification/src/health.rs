//! The health evaluator: from a window of samples to a status and a score.

use crate::config::{ModelId, PluginConfig, SCALE};
use vstd::prelude::*;

verus! {

/// Health of a model as the evaluator sees it.
#[derive(Debug, Clone, Copy, PartialEq, Eq, Structural)]
pub enum ModelStatus {
    Healthy,
    Degraded,
    Critical,
    Offline,
}

/// One performance observation of one model.
#[derive(Debug)]
pub struct Sample {
    pub model_id: ModelId,
    /// Seconds since the epoch.
    pub timestamp: u64,
    /// The observed performance in millionths; at most `SCALE` once stored.
    pub value: u32,
    pub metric_name: String,
}

/// Every value of `s` lies in the unit interval.
pub open spec fn in_unit_interval(s: Seq<Sample>) -> bool {
    forall|i: int| 0 <= i < s.len() ==> (#[trigger] s[i]).value <= SCALE
}

/// The last `n` samples of `s`, or all of `s` where it holds fewer.
pub open spec fn newest(s: Seq<Sample>, n: int) -> Seq<Sample> {
    if s.len() <= n {
        s
    } else {
        s.subrange(s.len() - n, s.len() as int)
    }
}

/// One step of the moving average: the new value weighs `decay`, what was
/// accumulated before weighs the rest, and the quotient is rounded down.
pub open spec fn blend(acc: int, value: int, decay: int) -> int {
    (decay * value + (SCALE - decay) * acc) / (SCALE as int)
}

/// The exponentially-weighted moving average of `s`, oldest sample first: the
/// first value starts it, and each later value is blended in.
pub open spec fn ewma(s: Seq<Sample>, decay: int) -> int
    decreases s.len(),
{
    if s.len() == 0 {
        0
    } else if s.len() == 1 {
        s[0].value as int
    } else {
        blend(ewma(s.drop_last(), decay), s.last().value as int, decay)
    }
}

/// The score of a model with samples `s`: the moving average of its newest
/// `window_size` samples.
pub open spec fn score_of(s: Seq<Sample>, cfg: PluginConfig) -> int {
    ewma(newest(s, cfg.window_size as int), cfg.decay as int)
}

/// A sample taken at `timestamp` is no older than `age` seconds at `now`.
pub open spec fn within(timestamp: u64, now: u64, age: u64) -> bool {
    timestamp + age >= now
}

/// Some sample of `s` is no older than `offline_after_secs` at `now`.
pub open spec fn reachable(s: Seq<Sample>, now: u64, cfg: PluginConfig) -> bool {
    exists|i: int| 0 <= i < s.len() && within((#[trigger] s[i]).timestamp, now, cfg.offline_after_secs)
}

/// The status that a score alone gives.
pub open spec fn classify(score: int, cfg: PluginConfig) -> ModelStatus {
    if score >= cfg.performance_threshold {
        ModelStatus::Healthy
    } else if score >= cfg.degraded_threshold {
        ModelStatus::Degraded
    } else {
        ModelStatus::Critical
    }
}

/// Status and score of a model with samples `s` at `now`. Without a recent
/// sample the model is `Offline` whatever its score; without any sample its
/// score is 0.
pub open spec fn assess(s: Seq<Sample>, now: u64, cfg: PluginConfig) -> (ModelStatus, int) {
    let score = score_of(s, cfg);
    if reachable(s, now, cfg) {
        (classify(score, cfg), score)
    } else {
        (ModelStatus::Offline, score)
    }
}

/// A blend of two values below a bound stays below it.
pub proof fn lemma_blend_bounded(acc: int, value: int, decay: int, bound: int)
    requires
        0 <= acc <= bound,
        0 <= value <= bound,
        0 <= decay <= SCALE,
    ensures
        0 <= blend(acc, value, decay) <= bound,
{
    let rest = SCALE - decay;
    assert(0 <= decay * value <= decay * bound) by (nonlinear_arith)
        requires
            0 <= value <= bound,
            0 <= decay,
    ;
    assert(0 <= rest * acc <= rest * bound) by (nonlinear_arith)
        requires
            0 <= acc <= bound,
            0 <= rest,
    ;
    assert(decay * bound + rest * bound == SCALE * bound) by (nonlinear_arith)
        requires
            rest == SCALE - decay,
    ;
    let total = decay * value + rest * acc;
    assert(0 <= total / (SCALE as int) <= bound) by (nonlinear_arith)
        requires
            0 <= total <= SCALE * bound,
    ;
}

/// The moving average never leaves the range of its inputs: where every value
/// is at most `bound`, so is the average.
pub proof fn lemma_ewma_bounded(s: Seq<Sample>, decay: int, bound: int)
    requires
        0 <= decay <= SCALE,
        forall|i: int| 0 <= i < s.len() ==> (#[trigger] s[i]).value <= bound,
        0 <= bound,
    ensures
        0 <= ewma(s, decay) <= bound,
    decreases s.len(),
{
    if s.len() >= 2 {
        lemma_ewma_bounded(s.drop_last(), decay, bound);
        lemma_blend_bounded(ewma(s.drop_last(), decay), s.last().value as int, decay, bound);
    }
}

/// The health score stays in the unit interval whenever the sample values do.
pub proof fn lemma_score_in_unit_interval(s: Seq<Sample>, now: u64, cfg: PluginConfig)
    requires
        cfg.valid(),
        in_unit_interval(s),
    ensures
        0 <= assess(s, now, cfg).1 <= SCALE,
        0 <= score_of(s, cfg) <= SCALE,
{
    lemma_ewma_bounded(newest(s, cfg.window_size as int), cfg.decay as int, SCALE as int);
}

/// Without samples the evaluation is `Offline` with score 0, at any time and
/// under any configuration.
pub proof fn lemma_no_samples_is_offline(now: u64, cfg: PluginConfig)
    ensures
        assess(Seq::<Sample>::empty(), now, cfg) == (ModelStatus::Offline, 0int),
{
}

/// Whether some sample of `samples` is recent enough for the model to count
/// as reachable.
fn any_recent(samples: &[Sample], now: u64, cfg: &PluginConfig) -> (r: bool)
    ensures
        r == reachable(samples@, now, *cfg),
{
    let mut i: usize = 0;
    while i < samples.len()
        invariant
            i <= samples.len(),
            forall|j: int| 0 <= j < i ==> !within((#[trigger] samples@[j]).timestamp, now, cfg.offline_after_secs),
        decreases samples.len() - i,
    {
        let t: u64 = samples[i].timestamp;
        if t >= now || now - t <= cfg.offline_after_secs {
            return true;
        }
        i += 1;
    }
    false
}

/// Evaluates a window of samples, oldest first, at time `now`.
///
/// The score is the moving average of the newest `window_size` samples and
/// the status follows from it by the two thresholds, unless no sample is
/// younger than `offline_after_secs`: then the status is `Offline`. The
/// function reads nothing but its arguments.
pub fn evaluate_window(samples: &[Sample], now: u64, cfg: &PluginConfig) -> (r: (ModelStatus, u32))
    requires
        cfg.valid(),
    ensures
        r.0 == assess(samples@, now, *cfg).0,
        r.1 == assess(samples@, now, *cfg).1,
        samples@.len() == 0 ==> r == (ModelStatus::Offline, 0u32),
        in_unit_interval(samples@) ==> r.1 <= SCALE,
{
    let n: usize = samples.len();
    if n == 0 {
        return (ModelStatus::Offline, 0);
    }
    let start: usize = if n > cfg.window_size as usize {
        n - cfg.window_size as usize
    } else {
        0
    };
    let ghost w = newest(samples@, cfg.window_size as int);
    let ghost decay = cfg.decay as int;
    assert(w =~= samples@.subrange(start as int, n as int));
    let mut acc: u64 = samples[start].value as u64;
    let mut i: usize = start + 1;
    assert(w.subrange(0, 1).len() == 1);
    while i < n
        invariant
            start < i <= n,
            n == samples@.len(),
            w == samples@.subrange(start as int, n as int),
            decay == cfg.decay,
            0 < decay <= SCALE,
            acc == ewma(w.subrange(0, i - start), decay),
            acc <= u32::MAX,
        decreases n - i,
    {
        let v: u64 = samples[i].value as u64;
        let d: u64 = cfg.decay as u64;
        proof {
            let prefix = w.subrange(0, i - start + 1);
            assert(prefix.drop_last() =~= w.subrange(0, i - start));
            assert(prefix.last() == samples@[i as int]);
            lemma_blend_bounded(acc as int, v as int, decay, u32::MAX as int);
            assert(d * v <= SCALE * u32::MAX) by (nonlinear_arith)
                requires
                    0 <= d <= SCALE,
                    0 <= v <= u32::MAX,
            ;
            assert((SCALE - d) * acc <= SCALE * u32::MAX) by (nonlinear_arith)
                requires
                    0 <= d <= SCALE,
                    0 <= acc <= u32::MAX,
            ;
        }
        acc = (d * v + (SCALE as u64 - d) * acc) / (SCALE as u64);
        i += 1;
    }
    assert(w.subrange(0, n - start) =~= w);
    proof {
        if in_unit_interval(samples@) {
            lemma_ewma_bounded(w, decay, SCALE as int);
        }
    }
    let score: u32 = acc as u32;
    if !any_recent(samples, now, cfg) {
        (ModelStatus::Offline, score)
    } else if score >= cfg.performance_threshold {
        (ModelStatus::Healthy, score)
    } else if score >= cfg.degraded_threshold {
        (ModelStatus::Degraded, score)
    } else {
        (ModelStatus::Critical, score)
    }
}

} // verus!
