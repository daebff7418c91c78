use ollama_bench::details::{details_for, find_model, size_string, ModelDetailsPlain};
use ollama_bench::types::{ModelDetails, ModelInfo, OllamaTags};

fn make_model_info(
    name: &str,
    size: u64,
    param_size: Option<&str>,
    quant: Option<&str>,
    family: Option<&str>,
    families: Option<Vec<String>>,
) -> ModelInfo {
    ModelInfo {
        name: name.to_string(),
        size,
        details: ModelDetails {
            format: None,
            family: family.map(|s| s.to_string()),
            families,
            parameter_size: param_size.map(|s| s.to_string()),
            quantization_level: quant.map(|s| s.to_string()),
        },
    }
}

#[test]
fn test_model_details_from_info() {
    let mi = make_model_info(
        "test:7b",
        8_000_000_000,
        Some("7B"),
        Some("Q4_K_M"),
        Some("llama"),
        None,
    );
    let d = ModelDetailsPlain::from_model_info(&mi);
    assert_eq!(d.params, "7B");
    assert_eq!(d.quant, "Q4_K_M");
    assert_eq!(d.family, "llama");
    assert_eq!(d.size, "7.5 GB");
}

#[test]
fn test_model_details_na() {
    let d = ModelDetailsPlain::na();
    assert_eq!(d.params, "N/A");
    assert_eq!(d.quant, "N/A");
    assert_eq!(d.family, "N/A");
    assert_eq!(d.size, "N/A");
}

#[test]
fn test_model_details_families_join() {
    let mi = make_model_info(
        "test:7b",
        4_000_000_000,
        None,
        None,
        None,
        Some(vec!["llama".into(), "moe".into()]),
    );
    let d = ModelDetailsPlain::from_model_info(&mi);
    assert_eq!(d.family, "llama, moe");
}

#[test]
fn test_model_details_empty_families_fallback() {
    let mi = make_model_info(
        "test:7b",
        4_000_000_000,
        None,
        None,
        Some("mistral".into()),
        Some(vec![]),
    );
    let d = ModelDetailsPlain::from_model_info(&mi);
    assert_eq!(d.family, "mistral");
}

#[test]
fn test_model_size_gb() {
    // 1 GB = 1_073_741_824 bytes
    let mi = make_model_info("x", 1_073_741_824, None, None, None, None);
    let d = ModelDetailsPlain::from_model_info(&mi);
    assert_eq!(d.size, "1.0 GB");

    let mi = make_model_info("x", 5_368_709_120, None, None, None, None);
    let d = ModelDetailsPlain::from_model_info(&mi);
    assert_eq!(d.size, "5.0 GB");
}

#[test]
fn test_missing_details_read_na() {
    let mi = make_model_info("x", 0, None, None, None, None);
    let d = ModelDetailsPlain::from_model_info(&mi);
    assert_eq!(d.params, "N/A");
    assert_eq!(d.quant, "N/A");
    assert_eq!(d.family, "N/A");
    assert_eq!(d.size, "0.0 GB");
}

#[test]
fn test_single_family_in_list() {
    let mi = make_model_info("x", 0, None, None, Some("other"), Some(vec!["qwen3".into()]));
    assert_eq!(ModelDetailsPlain::from_model_info(&mi).family, "qwen3");
}

fn float_size(n: u64) -> String {
    format!("{:.1} GB", n as f64 / 1_073_741_824.0)
}

#[test]
fn test_size_matches_float_formatting() {
    let gib: u64 = 1 << 30;
    let cases: Vec<u64> = vec![
        0,
        1,
        gib / 20,
        gib / 20 + 1,
        gib / 10 * 3 / 4,
        gib * 3 / 20,
        gib * 5 / 20,
        gib * 25 / 20,
        gib * 35 / 20,
        8_000_000_000,
        4_000_000_000,
        123_456_789_012,
        (1 << 53) - 1,
        1 << 53,
        (1 << 53) + 1,
        (1 << 60) + 12345,
        u64::MAX - 1,
        u64::MAX,
    ];
    for n in cases {
        assert_eq!(size_string(n), float_size(n), "size {}", n);
    }
    let mut x: u64 = 0x9E37_79B9_7F4A_7C15;
    for _ in 0..20_000 {
        x ^= x << 13;
        x ^= x >> 7;
        x ^= x << 17;
        let n = x >> (x % 40);
        assert_eq!(size_string(n), float_size(n), "size {}", n);
    }
}

#[test]
fn test_size_ties_round_to_even() {
    // 0.25 GiB and 0.75 GiB sit exactly between two tenths.
    assert_eq!(size_string(268_435_456), "0.2 GB");
    assert_eq!(size_string(805_306_368), "0.8 GB");
    assert_eq!(size_string(268_435_457), "0.3 GB");
}

#[test]
fn test_find_model_exact_and_latest() {
    let models = vec![
        make_model_info("mistral:7b", 1, None, None, None, None),
        make_model_info("llama3.2:latest", 2, None, None, None, None),
        make_model_info("llama3.2", 3, None, None, None, None),
    ];
    assert_eq!(find_model(&models, "mistral:7b"), Some(0));
    assert_eq!(find_model(&models, "llama3.2"), Some(1));
    assert_eq!(find_model(&models, "llama3.2:latest"), Some(1));
    assert_eq!(find_model(&models, "mistral"), None);
    assert_eq!(find_model(&models, "llama3"), None);
}

#[test]
fn test_details_for_lookup() {
    let tags = Some(OllamaTags {
        models: vec![make_model_info(
            "qwen3.5:9b-q4_K_M",
            1_073_741_824,
            Some("9B"),
            Some("Q4_K_M"),
            Some("qwen3"),
            None,
        )],
    });
    let d = details_for(&tags, "qwen3.5:9b-q4_K_M");
    assert_eq!(d.params, "9B");
    assert_eq!(d.size, "1.0 GB");
    let d = details_for(&tags, "other");
    assert_eq!(d.params, "N/A");
    assert_eq!(d.size, "N/A");
    let d = details_for(&None, "qwen3.5:9b-q4_K_M");
    assert_eq!(d.family, "N/A");
}
