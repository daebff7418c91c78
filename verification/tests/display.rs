use ollama_bench::display::{
    comparison_foot_line, comparison_head_lines, comparison_header_line, comparison_row_start,
    detail_card_foot_line, detail_card_head_lines, model_card_lines, single_results_layout,
    system_info_lines, ResultLine,
};

#[test]
fn test_system_info_lines() {
    let l = system_info_lines("Linux", "Ryzen", "64 GiB", "NVIDIA: X", "GPU", 24576, 3);
    assert_eq!(l.len(), 16);
    assert_eq!(l[5], "║  OS:             Linux");
    assert_eq!(l[13], "║  Context Window:  24576 tokens");
    assert_eq!(l[14], "║  Iterations:      3 runs (+ 1 warmup)");
    assert!(l[15].ends_with("╝\n"));
}

#[test]
fn test_model_card_lines() {
    let l = model_card_lines("0.6.2", "m", "7B", "Q4", "llama", "4.1 GB", "N/A");
    assert_eq!(l.len(), 11);
    assert_eq!(l[3], "║  Ollama Version: 0.6.2");
    assert_eq!(l[9], "║  KV Cache Type:  N/A");
}

#[test]
fn test_comparison_lines() {
    assert_eq!(comparison_header_line(3), "🔍  Comparison mode: benchmarking 3 models\n");
    let head = comparison_head_lines();
    assert_eq!(head[0], format!("\n╔{:═^90}╗", ""));
    assert_eq!(
        head[3],
        format!(
            "║  {:<23}  {:>8}  {:>8}  {:>8}  {:>8}  {:>8}  {:>8} ║",
            "Model", "Params", "AvgPre", "StdPre", "AvgDec", "StdDec", "MinDec"
        )
    );
    assert_eq!(
        head[4],
        format!("╠{:─^26}╬{:─^10}╬{:─^10}╬{:─^10}╬{:─^10}╬{:─^10}╬{:─^10}╣", "", "", "", "", "", "", "")
    );
    assert_eq!(comparison_row_start("llama3.2", "3.2B"), format!("║  {:<23}  {:>8}  ", "llama3.2", "3.2B"));
    assert_eq!(comparison_foot_line(), format!("╚{:═^90}╝", ""));
    let card = detail_card_head_lines("m", "llama", "7B", "Q4", "1.0 GB");
    assert_eq!(card[1], format!("║  📋  {:<75} ║", "m"));
    assert_eq!(card[3], format!("║  Architecture:   {:<65} ║", "llama"));
    assert_eq!(detail_card_foot_line(), format!("╚{:═^86}╝", ""));
    let long = "x".repeat(30);
    assert_eq!(comparison_row_start(&long, "ü"), format!("║  {:<23}  {:>8}  ", long, "ü"));
}

#[test]
fn test_single_results_layout() {
    let text = |l: &ResultLine| match l {
        ResultLine::Text(t) => Some(t.clone()),
        _ => None,
    };
    let cached = single_results_layout(true);
    assert_eq!(cached.len(), 8);
    assert_eq!(
        text(&cached[4]).as_deref(),
        Some("║    (all runs were KV-cache hits — prefill not measured)     ║")
    );
    assert!(matches!(cached[6], ResultLine::DecodeRates));
    let measured = single_results_layout(false);
    assert!(matches!(measured[4], ResultLine::PrefillRates));
    assert_eq!(text(&measured[1]).as_deref(), Some("║  📊  Benchmark Results Summary                              ║"));
}
