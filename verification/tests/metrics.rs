use ollama_bench::metrics::{
    evaluate_response, trial_prompt, BenchmarkRun, Throughput, TrialError, TrialKind, TrialLog,
    TrialSample,
};
use ollama_bench::types::OllamaResponse;

fn response(pc: Option<u32>, pd: Option<u64>, ec: Option<u32>, ed: Option<u64>) -> OllamaResponse {
    OllamaResponse {
        prompt_eval_count: pc,
        prompt_eval_duration: pd,
        eval_count: ec,
        eval_duration: ed,
    }
}

#[test]
fn test_full_reply_measures_both_phases() {
    let s = evaluate_response(&response(Some(26), Some(52_000_000), Some(256), Some(6_400_000_000)))
        .unwrap();
    assert_eq!(s.prefill, Some(Throughput { tokens: 26, nanos: 52_000_000 }));
    assert_eq!(s.decode, Throughput { tokens: 256, nanos: 6_400_000_000 });
}

#[test]
fn test_kv_cache_hit_has_no_prefill() {
    let s = evaluate_response(&response(None, None, Some(10), Some(1_000))).unwrap();
    assert_eq!(s.prefill, None);
    let s = evaluate_response(&response(Some(5), Some(0), Some(10), Some(1_000))).unwrap();
    assert_eq!(s.prefill, None);
    let s = evaluate_response(&response(Some(5), None, Some(10), Some(1_000))).unwrap();
    assert_eq!(s.prefill, None);
}

#[test]
fn test_missing_eval_counts_is_an_error() {
    let e = TrialError::MissingEvalCounts;
    assert_eq!(evaluate_response(&response(Some(5), Some(9), None, Some(1))), Err(e));
    assert_eq!(evaluate_response(&response(Some(5), Some(9), Some(1), None)), Err(e));
    assert_eq!(evaluate_response(&response(Some(5), Some(9), Some(1), Some(0))), Err(e));
    assert_eq!(e.message(), "Ollama response missing eval_count or eval_duration");
}

#[test]
fn test_trial_log_records_in_order() {
    let mut log = TrialLog::new();
    assert!(!log.has_results());
    let a = TrialSample { prefill: Some(Throughput { tokens: 1, nanos: 2 }), decode: Throughput { tokens: 3, nanos: 4 } };
    let b = TrialSample { prefill: None, decode: Throughput { tokens: 5, nanos: 6 } };
    let c = TrialSample { prefill: Some(Throughput { tokens: 7, nanos: 8 }), decode: Throughput { tokens: 9, nanos: 10 } };
    log.record(a);
    log.record(b);
    log.record(c);
    assert!(log.has_results());
    assert_eq!(log.prefill(), &vec![Throughput { tokens: 1, nanos: 2 }, Throughput { tokens: 7, nanos: 8 }]);
    assert_eq!(
        log.decode(),
        &vec![Throughput { tokens: 3, nanos: 4 }, Throughput { tokens: 5, nanos: 6 }, Throughput { tokens: 9, nanos: 10 }]
    );
    assert!(log.prefill().len() <= log.decode().len());
}

#[test]
fn test_schedule_warmup_then_iterations() {
    let sample = |t: u32| TrialSample { prefill: None, decode: Throughput { tokens: t, nanos: 1 } };
    let mut run = BenchmarkRun::new(2);
    assert_eq!(run.next_trial(), Some(TrialKind::Warmup));
    run.complete_trial(Some(sample(99)));
    assert!(!run.log().has_results());
    assert_eq!(run.next_trial(), Some(TrialKind::Measured));
    run.complete_trial(Some(sample(1)));
    assert_eq!(run.next_trial(), Some(TrialKind::Measured));
    run.complete_trial(None);
    assert_eq!(run.next_trial(), None);
    run.complete_trial(Some(sample(3)));
    assert_eq!(run.log().decode(), &vec![Throughput { tokens: 1, nanos: 1 }]);
    assert_eq!(trial_prompt(TrialKind::Warmup, "long prompt"), "Hello, world!");
    assert_eq!(trial_prompt(TrialKind::Measured, "long prompt"), "long prompt");
    let mut none = BenchmarkRun::new(0);
    assert_eq!(none.next_trial(), Some(TrialKind::Warmup));
    none.complete_trial(None);
    assert_eq!(none.next_trial(), None);
}
