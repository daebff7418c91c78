//! What one generation reply measures, and the record of a series of trials.
//!
//! Rates are kept exact, as a token count over a duration in nanoseconds;
//! turning them into tokens per second is floating-point work left to the caller.

use vstd::prelude::*;

use crate::types::{OllamaResponse, WARMUP_PROMPT};

verus! {

/// `tokens` processed in `nanos` nanoseconds.
#[derive(Debug, Clone, Copy, PartialEq, Eq, Structural)]
pub struct Throughput {
    pub tokens: u32,
    pub nanos: u64,
}

/// What one trial measured: the prompt phase, unless the prompt came from the
/// KV cache, and the generation phase.
#[derive(Debug, Clone, Copy, PartialEq, Eq, Structural)]
pub struct TrialSample {
    pub prefill: Option<Throughput>,
    pub decode: Throughput,
}

/// Why a reply measures nothing.
#[derive(Debug, Clone, Copy, PartialEq, Eq, Structural)]
pub enum TrialError {
    /// The reply lacks `eval_count` or `eval_duration`, or the duration is zero.
    MissingEvalCounts,
}

impl TrialError {
    /// The message that reports the error.
    pub fn message(&self) -> (m: &'static str)
        ensures
            m@ == "Ollama response missing eval_count or eval_duration"@,
    {
        "Ollama response missing eval_count or eval_duration"
    }
}

/// A count and a duration make a throughput when both are there and the
/// duration is not zero.
pub open spec fn measured(count: Option<u32>, nanos: Option<u64>) -> Option<Throughput> {
    match (count, nanos) {
        (Some(c), Some(d)) => if d > 0 {
            Some(Throughput { tokens: c, nanos: d })
        } else {
            None
        },
        _ => None,
    }
}

/// What a reply measures: an error when the generation counters are missing,
/// else the generation throughput and, where measured, the prompt throughput.
pub open spec fn evaluation(res: OllamaResponse) -> Result<TrialSample, TrialError> {
    match measured(res.eval_count, res.eval_duration) {
        Some(d) => Ok(
            TrialSample {
                prefill: measured(res.prompt_eval_count, res.prompt_eval_duration),
                decode: d,
            },
        ),
        None => Err(TrialError::MissingEvalCounts),
    }
}

fn measure(count: Option<u32>, nanos: Option<u64>) -> (r: Option<Throughput>)
    ensures
        r == measured(count, nanos),
{
    match (count, nanos) {
        (Some(c), Some(d)) => if d > 0 {
            Some(Throughput { tokens: c, nanos: d })
        } else {
            None
        },
        _ => None,
    }
}

/// Turns the reply of one `/api/generate` call into a measurement.
pub fn evaluate_response(res: &OllamaResponse) -> (r: Result<TrialSample, TrialError>)
    ensures
        r == evaluation(*res),
        r is Err <==> !(res.eval_count is Some && res.eval_duration is Some
            && res.eval_duration->0 > 0),
        r matches Ok(s) ==> s.decode.tokens == res.eval_count->0 && s.decode.nanos
            == res.eval_duration->0,
        r matches Ok(s) ==> (s.prefill is Some <==> (res.prompt_eval_count is Some
            && res.prompt_eval_duration is Some && res.prompt_eval_duration->0 > 0)),
        r matches Ok(s) ==> (s.prefill matches Some(p) ==> p.tokens == res.prompt_eval_count->0
            && p.nanos == res.prompt_eval_duration->0),
        r matches Ok(s) ==> s.decode.nanos > 0,
        r matches Ok(s) ==> (s.prefill matches Some(p) ==> p.nanos > 0),
{
    proof {
        lemma_evaluation_reads_counters(*res);
    }
    match measure(res.eval_count, res.eval_duration) {
        Some(d) => Ok(
            TrialSample { prefill: measure(res.prompt_eval_count, res.prompt_eval_duration), decode: d },
        ),
        None => Err(TrialError::MissingEvalCounts),
    }
}

/// The prompt throughputs among `samples`, in order, skipping the trials
/// whose prompt came from the KV cache.
pub open spec fn prefills(samples: Seq<TrialSample>) -> Seq<Throughput>
    decreases samples.len(),
{
    if samples.len() == 0 {
        Seq::empty()
    } else {
        let earlier = prefills(samples.drop_last());
        match samples.last().prefill {
            Some(p) => earlier.push(p),
            None => earlier,
        }
    }
}

/// The generation throughputs of `samples`, in order.
pub open spec fn decodes(samples: Seq<TrialSample>) -> Seq<Throughput> {
    samples.map_values(|s: TrialSample| s.decode)
}

/// The measurements of a series of trials, in the order they were recorded.
pub struct TrialLog {
    samples: Ghost<Seq<TrialSample>>,
    prefill: Vec<Throughput>,
    decode: Vec<Throughput>,
}

impl TrialLog {
    #[verifier::type_invariant]
    spec fn inv(self) -> bool {
        &&& self.prefill@ == prefills(self.samples@)
        &&& self.decode@ == decodes(self.samples@)
    }

    /// The successful trials recorded so far.
    pub closed spec fn samples(self) -> Seq<TrialSample> {
        self.samples@
    }

    /// A log with no trial in it.
    pub fn new() -> (log: Self)
        ensures
            log.samples() == Seq::<TrialSample>::empty(),
    {
        let ghost none = Seq::<TrialSample>::empty();
        assert(decodes(none) =~= Seq::<Throughput>::empty());
        TrialLog { samples: Ghost(none), prefill: Vec::new(), decode: Vec::new() }
    }

    /// Records the measurement of one successful trial.
    pub fn record(&mut self, sample: TrialSample)
        ensures
            final(self).samples() == old(self).samples().push(sample),
    {
        let mut taken = TrialLog::new();
        std::mem::swap(self, &mut taken);
        proof {
            use_type_invariant(&taken);
            lemma_record_appends(taken.samples@, sample);
        }
        let TrialLog { samples, mut prefill, mut decode } = taken;
        if let Some(p) = sample.prefill {
            prefill.push(p);
        }
        decode.push(sample.decode);
        *self = TrialLog { samples: Ghost(samples@.push(sample)), prefill, decode };
    }

    /// The prompt throughputs recorded, one per trial that measured its prompt.
    pub fn prefill(&self) -> (r: &Vec<Throughput>)
        ensures
            r@ == prefills(self.samples()),
    {
        proof {
            use_type_invariant(self);
        }
        &self.prefill
    }

    /// The generation throughputs recorded, one per trial.
    pub fn decode(&self) -> (r: &Vec<Throughput>)
        ensures
            r@ == decodes(self.samples()),
    {
        proof {
            use_type_invariant(self);
        }
        &self.decode
    }

    /// Whether at least one trial succeeded; a model none of whose trials
    /// succeeded has no result.
    pub fn has_results(&self) -> (r: bool)
        ensures
            r == (self.samples().len() > 0),
    {
        proof {
            use_type_invariant(self);
        }
        self.decode.len() > 0
    }
}


// ───────────────────────── the trial schedule ─────────────────────────

/// The kind of a trial: the warmup run, whose result is discarded, or a
/// measured run.
#[derive(Debug, Clone, Copy, PartialEq, Eq, Structural)]
pub enum TrialKind {
    Warmup,
    Measured,
}

/// The kind of the trial numbered `k` (from 0) of a benchmark of
/// `iterations` measured runs: first one warmup run, then the measured runs,
/// then none.
pub open spec fn schedule(iterations: nat, k: nat) -> Option<TrialKind> {
    if k == 0 {
        Some(TrialKind::Warmup)
    } else if k <= iterations {
        Some(TrialKind::Measured)
    } else {
        None
    }
}

/// A benchmark of one model in progress: the trials run so far and what the
/// measured ones recorded.
pub struct BenchmarkRun {
    iterations: usize,
    warmed_up: bool,
    measured: usize,
    log: TrialLog,
}

impl BenchmarkRun {
    #[verifier::type_invariant]
    spec fn inv(self) -> bool {
        &&& self.measured <= self.iterations
        &&& self.measured > 0 ==> self.warmed_up
    }

    /// The number of measured runs the benchmark makes.
    pub closed spec fn iterations(self) -> nat {
        self.iterations as nat
    }

    /// The number of trials run so far, the warmup included.
    pub closed spec fn trials_done(self) -> nat {
        (if self.warmed_up {
            1nat
        } else {
            0nat
        }) + self.measured as nat
    }

    /// What the measured runs recorded so far.
    pub closed spec fn samples(self) -> Seq<TrialSample> {
        self.log.samples()
    }

    /// A benchmark of `iterations` measured runs, none run yet.
    pub fn new(iterations: usize) -> (r: Self)
        ensures
            r.iterations() == iterations,
            r.trials_done() == 0,
            r.samples() == Seq::<TrialSample>::empty(),
    {
        BenchmarkRun { iterations, warmed_up: false, measured: 0, log: TrialLog::new() }
    }

    /// The kind of the next trial to run, or `None` when the benchmark is complete.
    pub fn next_trial(&self) -> (r: Option<TrialKind>)
        ensures
            r == schedule(self.iterations(), self.trials_done()),
    {
        proof {
            use_type_invariant(self);
        }
        if !self.warmed_up {
            Some(TrialKind::Warmup)
        } else if self.measured < self.iterations {
            Some(TrialKind::Measured)
        } else {
            None
        }
    }

    /// Completes the next trial with its outcome (`None` for a failed trial).
    /// The warmup's outcome is discarded; a measured run's sample is recorded.
    /// When the benchmark is complete, nothing changes.
    pub fn complete_trial(&mut self, outcome: Option<TrialSample>)
        ensures
            final(self).iterations() == old(self).iterations(),
            ({
                let kind = schedule(old(self).iterations(), old(self).trials_done());
                &&& kind is Some ==> final(self).trials_done() == old(self).trials_done() + 1
                &&& kind is None ==> final(self).trials_done() == old(self).trials_done()
                &&& final(self).samples() == (match (kind, outcome) {
                    (Some(TrialKind::Measured), Some(s)) => old(self).samples().push(s),
                    _ => old(self).samples(),
                })
            }),
    {
        let mut taken = BenchmarkRun::new(0);
        std::mem::swap(self, &mut taken);
        proof {
            use_type_invariant(&taken);
        }
        let BenchmarkRun { iterations, warmed_up, measured, mut log } = taken;
        if !warmed_up {
            *self = BenchmarkRun { iterations, warmed_up: true, measured, log };
        } else if measured < iterations {
            if let Some(s) = outcome {
                log.record(s);
            }
            *self = BenchmarkRun { iterations, warmed_up, measured: measured + 1, log };
        } else {
            *self = BenchmarkRun { iterations, warmed_up, measured, log };
        }
    }

    /// What the measured runs recorded.
    pub fn log(&self) -> (r: &TrialLog)
        ensures
            r.samples() == self.samples(),
    {
        &self.log
    }
}

/// The prompt of a trial: the short warmup prompt for the warmup run, the
/// benchmark's prompt for a measured run.
pub fn trial_prompt<'a>(kind: TrialKind, prompt: &'a str) -> (r: &'a str)
    ensures
        kind == TrialKind::Warmup ==> r@ == WARMUP_PROMPT@,
        kind == TrialKind::Measured ==> r@ == prompt@,
{
    match kind {
        TrialKind::Warmup => WARMUP_PROMPT,
        TrialKind::Measured => prompt,
    }
}

/// A benchmark of `iterations` runs makes one warmup run first, then exactly
/// `iterations` measured runs, and no more.
pub proof fn lemma_warmup_then_iterations(iterations: nat)
    ensures
        schedule(iterations, 0) == Some(TrialKind::Warmup),
        forall|k: nat| 1 <= k <= iterations ==> schedule(iterations, k) == Some(TrialKind::Measured),
        forall|k: nat| k > iterations ==> schedule(iterations, k) is None,
{
}


/// What a reply measures is read from its counters directly: it is an error
/// exactly when the generation count or duration is missing or the duration
/// is zero; otherwise the generation throughput is the generation count over
/// the generation duration, whatever the prompt counters say, and the prompt
/// throughput is the prompt count over the prompt duration exactly when both
/// are present and the duration is not zero.
pub proof fn lemma_evaluation_reads_counters(res: OllamaResponse)
    ensures
        evaluation(res) is Err <==> !(res.eval_count is Some && res.eval_duration is Some
            && res.eval_duration->0 > 0),
        evaluation(res) is Err ==> evaluation(res) == Err::<TrialSample, TrialError>(
            TrialError::MissingEvalCounts,
        ),
        evaluation(res) matches Ok(s) ==> s.decode.tokens == res.eval_count->0
            && s.decode.nanos == res.eval_duration->0,
        evaluation(res) matches Ok(s) ==> (s.prefill is Some <==> (res.prompt_eval_count is Some
            && res.prompt_eval_duration is Some && res.prompt_eval_duration->0 > 0)),
        evaluation(res) matches Ok(s) ==> (s.prefill matches Some(p) ==> p.tokens
            == res.prompt_eval_count->0 && p.nanos == res.prompt_eval_duration->0),
{
}

/// Two replies with the same generation counters measure the same generation
/// throughput, whatever their prompt counters.
pub proof fn lemma_decode_ignores_prompt(a: OllamaResponse, b: OllamaResponse)
    requires
        a.eval_count == b.eval_count,
        a.eval_duration == b.eval_duration,
    ensures
        evaluation(a) is Ok <==> evaluation(b) is Ok,
        evaluation(a) matches Ok(sa) ==> (evaluation(b) matches Ok(sb) && sa.decode
            == sb.decode),
{
    lemma_evaluation_reads_counters(a);
    lemma_evaluation_reads_counters(b);
}

/// There are never more prompt measurements than trials, and exactly one
/// generation measurement per trial.
pub proof fn lemma_prefills_at_most_trials(samples: Seq<TrialSample>)
    ensures
        prefills(samples).len() <= decodes(samples).len(),
        decodes(samples).len() == samples.len(),
    decreases samples.len(),
{
    if samples.len() > 0 {
        lemma_prefills_at_most_trials(samples.drop_last());
    }
}

/// A trial is recorded in full: its generation throughput is the last one,
/// and its prompt throughput is the last one exactly when it measured one.
pub proof fn lemma_record_appends(samples: Seq<TrialSample>, s: TrialSample)
    ensures
        decodes(samples.push(s)) == decodes(samples).push(s.decode),
        prefills(samples.push(s)) == (match s.prefill {
            Some(p) => prefills(samples).push(p),
            None => prefills(samples),
        }),
{
    assert(samples.push(s).drop_last() =~= samples);
    assert(decodes(samples.push(s)) =~= decodes(samples).push(s.decode));
}

} // verus!
