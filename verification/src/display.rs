//! The text of the report: the lines that the caller prints.
//!
//! Lines that hold measured rates are finished by the caller, which formats
//! the floating-point numbers; this module writes everything around them.

use vstd::prelude::*;

use crate::text::{decimal, decimal_string, views};

verus! {

// ───────────────────────── layout ─────────────────────────

/// `n` copies of `c`.
pub open spec fn repeat(c: char, n: nat) -> Seq<char> {
    Seq::new(n, |_i: int| c)
}

/// `s` followed by spaces up to `w` characters, as `{:<w}` writes it.
pub open spec fn pad_right(s: Seq<char>, w: nat) -> Seq<char> {
    if s.len() >= w {
        s
    } else {
        s + repeat(' ', (w - s.len()) as nat)
    }
}

/// `s` after spaces up to `w` characters, as `{:>w}` writes it.
pub open spec fn pad_left(s: Seq<char>, w: nat) -> Seq<char> {
    if s.len() >= w {
        s
    } else {
        repeat(' ', (w - s.len()) as nat) + s
    }
}

/// The width of the frame of the comparison table.
pub open spec fn compare_width() -> nat {
    90
}

/// The width of the frame of a model's detail card.
pub open spec fn single_width() -> nat {
    86
}

/// Appends `n` copies of the one character of `unit`.
fn push_repeat(s: &mut String, unit: &str, n: usize)
    requires
        unit@.len() == 1,
    ensures
        final(s)@ == old(s)@ + repeat(unit@[0], n as nat),
{
    let mut i: usize = 0;
    while i < n
        invariant
            unit@.len() == 1,
            i <= n,
            s@ == old(s)@ + repeat(unit@[0], i as nat),
        decreases n - i,
    {
        s.append(unit);
        i = i + 1;
        assert(s@ =~= old(s)@ + repeat(unit@[0], i as nat));
    }
}

/// Appends `text` padded on the right to `w` characters.
fn push_pad_right(s: &mut String, text: &str, w: usize)
    ensures
        final(s)@ == old(s)@ + pad_right(text@, w as nat),
{
    s.append(text);
    let n = text.unicode_len();
    if n < w {
        proof {
            reveal_strlit(" ");
        }
        push_repeat(s, " ", w - n);
    }
    assert(s@ =~= old(s)@ + pad_right(text@, w as nat));
}

/// Appends `text` padded on the left to `w` characters.
fn push_pad_left(s: &mut String, text: &str, w: usize)
    ensures
        final(s)@ == old(s)@ + pad_left(text@, w as nat),
{
    let n = text.unicode_len();
    if n < w {
        proof {
            reveal_strlit(" ");
        }
        push_repeat(s, " ", w - n);
    }
    s.append(text);
    assert(s@ =~= old(s)@ + pad_left(text@, w as nat));
}

/// `left`, then `n` copies of the one character of `fill`, then `right`.
fn rule(left: &str, fill: &str, n: usize, right: &str) -> (r: String)
    requires
        fill@.len() == 1,
    ensures
        r@ == left@ + repeat(fill@[0], n as nat) + right@,
{
    let mut r = String::from_str(left);
    push_repeat(&mut r, fill, n);
    r.append(right);
    r
}

/// `prefix` followed by `value`.
fn labelled(prefix: &str, value: &str) -> (r: String)
    ensures
        r@ == prefix@ + value@,
{
    String::from_str(prefix).concat(value)
}

// ───────────────────────── system information ─────────────────────────

/// The header that shows the machine and the benchmark settings.
pub open spec fn system_info_text(
    os: Seq<char>,
    cpu: Seq<char>,
    ram: Seq<char>,
    gpu: Seq<char>,
    device: Seq<char>,
    ctx: nat,
    iterations: nat,
) -> Seq<Seq<char>> {
    seq![
        "╔══════════════════════════════════════════════════════════════╗"@,
        "║  🚀  Ollama Rust Hardware Benchmark Suite                   ║"@,
        "╠══════════════════════════════════════════════════════════════╣"@,
        "║  System Info                                                ║"@,
        "╠══════════════════════════════════════════════════════════════╣"@,
        "║  OS:             "@ + os,
        "║  CPU:            "@ + cpu,
        "║  RAM:            "@ + ram,
        "║  GPU:            "@ + gpu,
        "║  Inference:      "@ + device,
        "╠══════════════════════════════════════════════════════════════╣"@,
        "║  Benchmark Config                                           ║"@,
        "╠══════════════════════════════════════════════════════════════╣"@,
        "║  Context Window:  "@ + decimal(ctx) + " tokens"@,
        "║  Iterations:      "@ + decimal(iterations) + " runs (+ 1 warmup)"@,
        "╚══════════════════════════════════════════════════════════════╝\n"@,
    ]
}

/// The lines of the header that shows the machine and the benchmark settings.
pub fn system_info_lines(
    os: &str,
    cpu: &str,
    ram: &str,
    gpu: &str,
    device: &str,
    ctx: u32,
    iterations: usize,
) -> (r: Vec<String>)
    ensures
        views(r@) == system_info_text(
            os@,
            cpu@,
            ram@,
            gpu@,
            device@,
            ctx as nat,
            iterations as nat,
        ),
        r@.len() == 16,
        r@[5]@ == "║  OS:             "@ + os@,
        r@[6]@ == "║  CPU:            "@ + cpu@,
        r@[7]@ == "║  RAM:            "@ + ram@,
        r@[8]@ == "║  GPU:            "@ + gpu@,
        r@[9]@ == "║  Inference:      "@ + device@,
        r@[13]@ == "║  Context Window:  "@ + decimal(ctx as nat) + " tokens"@,
        r@[14]@ == "║  Iterations:      "@ + decimal(iterations as nat) + " runs (+ 1 warmup)"@,
{
    let mut r: Vec<String> = Vec::new();
    r.push(String::from_str("╔══════════════════════════════════════════════════════════════╗"));
    r.push(String::from_str("║  🚀  Ollama Rust Hardware Benchmark Suite                   ║"));
    r.push(String::from_str("╠══════════════════════════════════════════════════════════════╣"));
    r.push(String::from_str("║  System Info                                                ║"));
    r.push(String::from_str("╠══════════════════════════════════════════════════════════════╣"));
    r.push(labelled("║  OS:             ", os));
    r.push(labelled("║  CPU:            ", cpu));
    r.push(labelled("║  RAM:            ", ram));
    r.push(labelled("║  GPU:            ", gpu));
    r.push(labelled("║  Inference:      ", device));
    r.push(String::from_str("╠══════════════════════════════════════════════════════════════╣"));
    r.push(String::from_str("║  Benchmark Config                                           ║"));
    r.push(String::from_str("╠══════════════════════════════════════════════════════════════╣"));
    let mut ctx_line = String::from_str("║  Context Window:  ");
    let ctx_text = decimal_string(ctx as u64);
    ctx_line.append(ctx_text.as_str());
    ctx_line.append(" tokens");
    r.push(ctx_line);
    let mut it_line = String::from_str("║  Iterations:      ");
    let it_text = decimal_string(iterations as u64);
    it_line.append(it_text.as_str());
    it_line.append(" runs (+ 1 warmup)");
    r.push(it_line);
    r.push(String::from_str("╚══════════════════════════════════════════════════════════════╝\n"));
    assert(views(r@) =~= system_info_text(
        os@,
        cpu@,
        ram@,
        gpu@,
        device@,
        ctx as nat,
        iterations as nat,
    ));
    r
}

// ───────────────────────── model card ─────────────────────────

/// The card that shows Ollama's version and the model benchmarked.
pub open spec fn model_card_text(
    ollama_version: Seq<char>,
    model_name: Seq<char>,
    params: Seq<char>,
    quant: Seq<char>,
    family: Seq<char>,
    size: Seq<char>,
    kv_cache: Seq<char>,
) -> Seq<Seq<char>> {
    seq![
        "╔══════════════════════════════════════════════════════════════╗"@,
        "║  Ollama & Model                                             ║"@,
        "╠══════════════════════════════════════════════════════════════╣"@,
        "║  Ollama Version: "@ + ollama_version,
        "║  Model:          "@ + model_name,
        "║  Parameters:     "@ + params,
        "║  Quantization:   "@ + quant,
        "║  Architecture:   "@ + family,
        "║  Model Size:     "@ + size,
        "║  KV Cache Type:  "@ + kv_cache,
        "╚══════════════════════════════════════════════════════════════╝\n"@,
    ]
}

/// The lines of the card that shows Ollama's version and the model benchmarked.
pub fn model_card_lines(
    ollama_version: &str,
    model_name: &str,
    params: &str,
    quant: &str,
    family: &str,
    size: &str,
    kv_cache: &str,
) -> (r: Vec<String>)
    ensures
        views(r@) == model_card_text(
            ollama_version@,
            model_name@,
            params@,
            quant@,
            family@,
            size@,
            kv_cache@,
        ),
        r@.len() == 11,
        r@[3]@ == "║  Ollama Version: "@ + ollama_version@,
        r@[4]@ == "║  Model:          "@ + model_name@,
        r@[5]@ == "║  Parameters:     "@ + params@,
        r@[6]@ == "║  Quantization:   "@ + quant@,
        r@[7]@ == "║  Architecture:   "@ + family@,
        r@[8]@ == "║  Model Size:     "@ + size@,
        r@[9]@ == "║  KV Cache Type:  "@ + kv_cache@,
{
    let mut r: Vec<String> = Vec::new();
    r.push(String::from_str("╔══════════════════════════════════════════════════════════════╗"));
    r.push(String::from_str("║  Ollama & Model                                             ║"));
    r.push(String::from_str("╠══════════════════════════════════════════════════════════════╣"));
    r.push(labelled("║  Ollama Version: ", ollama_version));
    r.push(labelled("║  Model:          ", model_name));
    r.push(labelled("║  Parameters:     ", params));
    r.push(labelled("║  Quantization:   ", quant));
    r.push(labelled("║  Architecture:   ", family));
    r.push(labelled("║  Model Size:     ", size));
    r.push(labelled("║  KV Cache Type:  ", kv_cache));
    r.push(String::from_str("╚══════════════════════════════════════════════════════════════╝\n"));
    assert(views(r@) =~= model_card_text(
        ollama_version@,
        model_name@,
        params@,
        quant@,
        family@,
        size@,
        kv_cache@,
    ));
    r
}


/// Each field of the system header stands in the line labelled with it: the
/// OS, CPU, RAM, GPU and device in theirs, the context window and the
/// iteration count in decimal in theirs.
pub proof fn lemma_system_info_fields(
    os: Seq<char>,
    cpu: Seq<char>,
    ram: Seq<char>,
    gpu: Seq<char>,
    device: Seq<char>,
    ctx: nat,
    iterations: nat,
)
    ensures
        ({
            let t = system_info_text(os, cpu, ram, gpu, device, ctx, iterations);
            &&& t.len() == 16
            &&& t[5] == "║  OS:             "@ + os
            &&& t[6] == "║  CPU:            "@ + cpu
            &&& t[7] == "║  RAM:            "@ + ram
            &&& t[8] == "║  GPU:            "@ + gpu
            &&& t[9] == "║  Inference:      "@ + device
            &&& t[13] == "║  Context Window:  "@ + decimal(ctx) + " tokens"@
            &&& t[14] == "║  Iterations:      "@ + decimal(iterations) + " runs (+ 1 warmup)"@
        }),
{
}

/// Each field of the model card stands in the line labelled with it.
pub proof fn lemma_model_card_fields(
    ollama_version: Seq<char>,
    model_name: Seq<char>,
    params: Seq<char>,
    quant: Seq<char>,
    family: Seq<char>,
    size: Seq<char>,
    kv_cache: Seq<char>,
)
    ensures
        ({
            let t = model_card_text(ollama_version, model_name, params, quant, family, size, kv_cache);
            &&& t.len() == 11
            &&& t[3] == "║  Ollama Version: "@ + ollama_version
            &&& t[4] == "║  Model:          "@ + model_name
            &&& t[5] == "║  Parameters:     "@ + params
            &&& t[6] == "║  Quantization:   "@ + quant
            &&& t[7] == "║  Architecture:   "@ + family
            &&& t[8] == "║  Model Size:     "@ + size
            &&& t[9] == "║  KV Cache Type:  "@ + kv_cache
        }),
{
}

// ───────────────────────── comparison mode ─────────────────────────

/// The line that announces a comparison of `count` models.
pub open spec fn comparison_header_text(count: nat) -> Seq<char> {
    "🔍  Comparison mode: benchmarking "@ + decimal(count) + " models\n"@
}

/// The line that announces a comparison of `count` models.
pub fn comparison_header_line(count: usize) -> (r: String)
    ensures
        r@ == comparison_header_text(count as nat),
{
    let mut r = String::from_str("🔍  Comparison mode: benchmarking ");
    let n = decimal_string(count as u64);
    r.append(n.as_str());
    r.append(" models\n");
    r
}

/// The column titles of the comparison table.
pub open spec fn comparison_columns_text() -> Seq<char> {
    "║  "@ + pad_right("Model"@, 23) + "  "@ + pad_left("Params"@, 8) + "  "@ + pad_left(
        "AvgPre"@,
        8,
    ) + "  "@ + pad_left("StdPre"@, 8) + "  "@ + pad_left("AvgDec"@, 8) + "  "@ + pad_left(
        "StdDec"@,
        8,
    ) + "  "@ + pad_left("MinDec"@, 8) + " ║"@
}

/// The rule under the column titles of the comparison table.
pub open spec fn comparison_separator_text() -> Seq<char> {
    let d = repeat('─', 10);
    "╠"@ + repeat('─', 26) + "╬"@ + d + "╬"@ + d + "╬"@ + d + "╬"@ + d + "╬"@ + d + "╬"@ + d
        + "╣"@
}

/// The lines that open the comparison table: its frame, title, column
/// titles and the rule under them.
pub open spec fn comparison_head_text() -> Seq<Seq<char>> {
    seq![
        "\n╔"@ + repeat('═', compare_width()) + "╗"@,
        "║  📊  Model Comparison Results                                  ║"@,
        "╠"@ + repeat('═', compare_width()) + "╣"@,
        comparison_columns_text(),
        comparison_separator_text(),
    ]
}

/// The lines that open the comparison table.
pub fn comparison_head_lines() -> (r: Vec<String>)
    ensures
        views(r@) == comparison_head_text(),
{
    proof {
        reveal_strlit("═");
        reveal_strlit("─");
    }
    let mut r: Vec<String> = Vec::new();
    r.push(rule("\n╔", "═", 90, "╗"));
    r.push(String::from_str("║  📊  Model Comparison Results                                  ║"));
    r.push(rule("╠", "═", 90, "╣"));
    let mut cols = String::from_str("║  ");
    push_pad_right(&mut cols, "Model", 23);
    cols.append("  ");
    push_pad_left(&mut cols, "Params", 8);
    cols.append("  ");
    push_pad_left(&mut cols, "AvgPre", 8);
    cols.append("  ");
    push_pad_left(&mut cols, "StdPre", 8);
    cols.append("  ");
    push_pad_left(&mut cols, "AvgDec", 8);
    cols.append("  ");
    push_pad_left(&mut cols, "StdDec", 8);
    cols.append("  ");
    push_pad_left(&mut cols, "MinDec", 8);
    cols.append(" ║");
    r.push(cols);
    let mut sep = rule("╠", "─", 26, "╬");
    push_repeat(&mut sep, "─", 10);
    sep.append("╬");
    push_repeat(&mut sep, "─", 10);
    sep.append("╬");
    push_repeat(&mut sep, "─", 10);
    sep.append("╬");
    push_repeat(&mut sep, "─", 10);
    sep.append("╬");
    push_repeat(&mut sep, "─", 10);
    sep.append("╬");
    push_repeat(&mut sep, "─", 10);
    sep.append("╣");
    r.push(sep);
    assert(views(r@) =~= comparison_head_text());
    r
}


/// The start of a model's row in the comparison table, up to its rates:
/// the name and the parameter count, aligned to their columns.
pub open spec fn comparison_row_start_text(model: Seq<char>, params: Seq<char>) -> Seq<char> {
    "║  "@ + pad_right(model, 23) + "  "@ + pad_left(params, 8) + "  "@
}

/// The start of a model's row in the comparison table, up to its rates.
pub fn comparison_row_start(model: &str, params: &str) -> (r: String)
    ensures
        r@ == comparison_row_start_text(model@, params@),
{
    let mut r = String::from_str("║  ");
    push_pad_right(&mut r, model, 23);
    r.append("  ");
    push_pad_left(&mut r, params, 8);
    r.append("  ");
    r
}

/// The line that closes the comparison table.
pub open spec fn comparison_foot_text() -> Seq<char> {
    "╚"@ + repeat('═', compare_width()) + "╝"@
}

/// The line that closes the comparison table.
pub fn comparison_foot_line() -> (r: String)
    ensures
        r@ == comparison_foot_text(),
{
    proof {
        reveal_strlit("═");
    }
    rule("╚", "═", 90, "╝")
}

/// The lines of a model's detail card above its rates: its name, then its
/// architecture, parameters, quantization and size, each padded to the frame.
pub open spec fn detail_card_head_text(
    model: Seq<char>,
    family: Seq<char>,
    params: Seq<char>,
    quant: Seq<char>,
    size: Seq<char>,
) -> Seq<Seq<char>> {
    seq![
        "\n╔"@ + repeat('═', single_width()) + "╗"@,
        "║  📋  "@ + pad_right(model, 75) + " ║"@,
        "╠"@ + repeat('═', single_width()) + "╣"@,
        "║  Architecture:   "@ + pad_right(family, 65) + " ║"@,
        "║  Parameters:     "@ + pad_right(params, 65) + " ║"@,
        "║  Quantization:   "@ + pad_right(quant, 65) + " ║"@,
        "║  Model Size:     "@ + pad_right(size, 65) + " ║"@,
        "╠"@ + repeat('═', single_width()) + "╣"@,
    ]
}

/// One padded line of a detail card.
fn card_line(label: &str, value: &str, w: usize) -> (r: String)
    ensures
        r@ == label@ + pad_right(value@, w as nat) + " ║"@,
{
    let mut r = String::from_str(label);
    push_pad_right(&mut r, value, w);
    r.append(" ║");
    r
}

/// The lines of a model's detail card above its rates.
pub fn detail_card_head_lines(
    model: &str,
    family: &str,
    params: &str,
    quant: &str,
    size: &str,
) -> (r: Vec<String>)
    ensures
        views(r@) == detail_card_head_text(model@, family@, params@, quant@, size@),
{
    proof {
        reveal_strlit("═");
    }
    let mut r: Vec<String> = Vec::new();
    r.push(rule("\n╔", "═", 86, "╗"));
    r.push(card_line("║  📋  ", model, 75));
    r.push(rule("╠", "═", 86, "╣"));
    r.push(card_line("║  Architecture:   ", family, 65));
    r.push(card_line("║  Parameters:     ", params, 65));
    r.push(card_line("║  Quantization:   ", quant, 65));
    r.push(card_line("║  Model Size:     ", size, 65));
    r.push(rule("╠", "═", 86, "╣"));
    assert(views(r@) =~= detail_card_head_text(model@, family@, params@, quant@, size@));
    r
}

/// The line that closes a model's detail card.
pub open spec fn detail_card_foot_text() -> Seq<char> {
    "╚"@ + repeat('═', single_width()) + "╝"@
}

/// The line that closes a model's detail card.
pub fn detail_card_foot_line() -> (r: String)
    ensures
        r@ == detail_card_foot_text(),
{
    proof {
        reveal_strlit("═");
    }
    rule("╚", "═", 86, "╝")
}


// ───────────────────────── single-model results ─────────────────────────

/// A line of the single-model results: fixed text, or the place of the
/// rates of a phase, which the caller formats.
#[derive(Debug)]
pub enum ResultLine {
    Text(String),
    PrefillRates,
    DecodeRates,
}

/// `l` is the fixed text `t`.
pub open spec fn is_text(l: ResultLine, t: Seq<char>) -> bool {
    l matches ResultLine::Text(s) && s@ == t
}

/// The notice shown in place of the prompt rates when every run was a KV-cache hit.
pub open spec fn kv_cache_notice() -> Seq<char> {
    "║    (all runs were KV-cache hits — prefill not measured)     ║"@
}

/// The layout of the single-model results: the title, the prompt rates
/// (or, when no run measured its prompt, a notice instead), the generation
/// rates, and the frame.
pub fn single_results_layout(prefill_empty: bool) -> (r: Vec<ResultLine>)
    ensures
        r@.len() == 8,
        is_text(r@[0], "╔══════════════════════════════════════════════════════════════╗"@),
        is_text(r@[1], "║  📊  Benchmark Results Summary                              ║"@),
        is_text(r@[2], "╠══════════════════════════════════════════════════════════════╣"@),
        is_text(r@[3], "║  Prompt Processing (Prefill)                                ║"@),
        prefill_empty ==> is_text(r@[4], kv_cache_notice()),
        !prefill_empty ==> r@[4] == ResultLine::PrefillRates,
        is_text(r@[5], "║  Token Generation (Decode)                                  ║"@),
        r@[6] == ResultLine::DecodeRates,
        is_text(r@[7], "╚══════════════════════════════════════════════════════════════╝"@),
{
    let mut r: Vec<ResultLine> = Vec::new();
    r.push(ResultLine::Text(String::from_str("╔══════════════════════════════════════════════════════════════╗")));
    r.push(ResultLine::Text(String::from_str("║  📊  Benchmark Results Summary                              ║")));
    r.push(ResultLine::Text(String::from_str("╠══════════════════════════════════════════════════════════════╣")));
    r.push(ResultLine::Text(String::from_str("║  Prompt Processing (Prefill)                                ║")));
    if prefill_empty {
        r.push(ResultLine::Text(String::from_str("║    (all runs were KV-cache hits — prefill not measured)     ║")));
    } else {
        r.push(ResultLine::PrefillRates);
    }
    r.push(ResultLine::Text(String::from_str("║  Token Generation (Decode)                                  ║")));
    r.push(ResultLine::DecodeRates);
    r.push(ResultLine::Text(String::from_str("╚══════════════════════════════════════════════════════════════╝")));
    r
}

} // verus!
