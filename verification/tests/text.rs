use ollama_bench::text::{decimal_string, join_strings, trim_str};

#[test]
fn test_decimal() {
    for n in [0u64, 7, 10, 99, 100, 24576, u64::MAX] {
        assert_eq!(decimal_string(n), n.to_string());
    }
}

#[test]
fn test_trim_matches_std() {
    for s in ["", "  a b  ", "\u{3000}x\u{85}", "\t\r\n", "é ", " \u{200B}y"] {
        assert_eq!(trim_str(s), s.trim());
    }
}

#[test]
fn test_join() {
    let v: Vec<String> = vec!["a".into(), "b".into(), "c".into()];
    assert_eq!(join_strings(&v, ", "), "a, b, c");
    assert_eq!(join_strings(&Vec::new(), ", "), "");
}
