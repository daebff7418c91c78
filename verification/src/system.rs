//! What the report says of the machine: the GPU found by the probe commands,
//! the CPU model, and the record assembled from the replies of Ollama.
//!
//! The commands are run, and the replies fetched, by the caller; this module
//! decides what their output means.

use vstd::prelude::*;


use crate::details::{details_for, shown_details, ModelDetailsPlain};
use crate::text::{
    chars_of, contains, contains_exec, find_from, find_from_exec, first_where, join, join_strings,
    lemma_find_from, lines, lines_from, next_line, next_word, occurs_at, opt_view, starts_with,
    starts_with_exec, strip_cr, trim,
    trim_start_matches, trim_start_matches_at, trim_str, views, word_end, word_end_exec, words,
    words_from,
};
use crate::types::{ModelInfo, OllamaShow, OllamaTags, OllamaVersion, ProjectorInfo, SystemInfo};

verus! {

// ───────────────────────── Unicode lowercase ─────────────────────────

/// What `str::to_lowercase` returns for a string: the full Unicode lowercase
/// mapping of each character (with the rule for a final sigma).
pub uninterp spec fn unicode_lowercase(s: Seq<char>) -> Seq<char>;

/// Calls `str::to_lowercase`. The contract names the result
/// `unicode_lowercase` of the input and states nothing more of it: the
/// Unicode case tables are not written out here.
#[verifier::external_body]
fn to_lowercase(s: &str) -> (r: String)
    ensures
        r@ == unicode_lowercase(s@),
{
    s.to_lowercase()
}

// ───────────────────────── GPU: specifications ─────────────────────────

/// The GPU named by the output of `nvidia-smi --query-gpu=name --format=csv,noheader`:
/// the trimmed output, unless it is empty or reports `[FAILED]`.
pub open spec fn nvidia_label(out: Seq<char>) -> Option<Seq<char>> {
    let name = trim(out);
    if name.len() > 0 && !contains(name, "[FAILED]"@) {
        Some("NVIDIA: "@ + name)
    } else {
        None
    }
}

/// An `lspci` line that describes a display controller.
pub open spec fn is_display_line(line: Seq<char>) -> bool {
    names_display(unicode_lowercase(line))
}

/// The lowercase text of an `lspci` line names a display controller.
pub open spec fn names_display(lower: Seq<char>) -> bool {
    contains(lower, "vga"@) || contains(lower, "3d"@)
}

/// `is_display_line`, as a predicate.
pub open spec fn display_line() -> spec_fn(Seq<char>) -> bool {
    |l: Seq<char>| is_display_line(l)
}

/// The second `": "`-separated field of `line`, or all of it where there is
/// none, as `line.split(": ").nth(1).unwrap_or(line)` gives it.
pub open spec fn second_field(line: Seq<char>) -> Seq<char> {
    match find_from(line, ": "@, 0) {
        None => line,
        Some(i) => match find_from(line, ": "@, i + 2) {
            None => line.subrange(i + 2, line.len() as int),
            Some(j) => line.subrange(i + 2, j),
        },
    }
}

/// A bracketed PCI id such as `[10de:2684]` or `[0300]`: one word from `[` to `]`.
pub open spec fn is_bracket_tag(w: Seq<char>) -> bool {
    w.len() > 0 && w[0] == '[' && w.last() == ']'
}

/// The word that opens a revision tag such as `(rev a1)`.
pub open spec fn opens_revision(w: Seq<char>) -> bool {
    starts_with(w, "(rev"@)
}

/// A word that closes a parenthesised group.
pub open spec fn closes_group(w: Seq<char>) -> bool {
    w.len() > 0 && w.last() == ')'
}

/// `ws` without PCI metadata: bracketed ids, and revision tags `(rev X)`.
/// A revision tag is its opening word, and the word after it when that word
/// closes the tag; `in_rev` says that the word before `ws` opened a tag that
/// is still open.
pub open spec fn without_metadata(ws: Seq<Seq<char>>, in_rev: bool) -> Seq<Seq<char>>
    decreases ws.len(),
{
    if ws.len() == 0 {
        Seq::empty()
    } else {
        let w = ws[0];
        let rest = ws.drop_first();
        if in_rev && closes_group(w) {
            without_metadata(rest, false)
        } else if is_bracket_tag(w) {
            without_metadata(rest, false)
        } else if opens_revision(w) {
            without_metadata(rest, !closes_group(w))
        } else {
            seq![w].add(without_metadata(rest, false))
        }
    }
}

/// The device description of an `lspci` line: its second field, without PCI
/// metadata, its words joined with single spaces.
pub open spec fn pci_description(line: Seq<char>) -> Seq<char> {
    join(without_metadata(words(second_field(line)), false), " "@)
}

/// A company form that ends a vendor name, such as the `Inc.` of
/// `Advanced Micro Devices, Inc.`.
pub open spec fn is_company_form(w: Seq<char>) -> bool {
    w == "Inc."@ || w == "Ltd."@ || w == "Corp."@ || w == "Co."@
}

/// The device name that follows the vendor in `d`. Where `d` has a comma, the
/// vendor name runs to it, and on through the company form after it where
/// there is one; where it has none, `d` is kept whole.
pub open spec fn after_vendor(d: Seq<char>) -> Seq<char> {
    match find_from(d, ","@, 0) {
        Some(i) => {
            let r = trim(d.subrange(i + 1, d.len() as int));
            let k = word_end(r, 0);
            if is_company_form(r.subrange(0, k)) {
                trim(r.subrange(k, r.len() as int))
            } else {
                r
            }
        },
        None => d,
    }
}

/// The GPU label for the device description `d`, whose lowercase form is
/// `lower`: AMD and Radeon devices, and Intel devices, are labelled with the
/// vendor and named without it; other devices are named by `d`.
pub open spec fn vendor_label(d: Seq<char>, lower: Seq<char>) -> Seq<char> {
    if contains(lower, "amd"@) || contains(lower, "radeon"@) {
        "AMD: "@ + after_vendor(d)
    } else if contains(lower, "intel"@) {
        "Intel: "@ + after_vendor(d)
    } else {
        d
    }
}

/// The GPU named by a display-controller line of `lspci -nn`.
pub open spec fn lspci_line_label(line: Seq<char>) -> Seq<char> {
    let d = pci_description(line);
    vendor_label(d, unicode_lowercase(d))
}

/// The GPU named by the output of `lspci -nn`: its first display-controller line.
pub open spec fn lspci_label(out: Seq<char>) -> Option<Seq<char>> {
    match first_where(lines(out), display_line()) {
        Some(l) => Some(lspci_line_label(l)),
        None => None,
    }
}

/// A `system_profiler` line that names the GPU.
pub open spec fn is_model_line(line: Seq<char>) -> bool {
    contains(line, "Chipset Model"@) || contains(line, "GPU Model"@)
}

/// `is_model_line`, as a predicate.
pub open spec fn model_line() -> spec_fn(Seq<char>) -> bool {
    |l: Seq<char>| is_model_line(l)
}

/// The GPU named by a model line of `system_profiler`: the line without its label.
pub open spec fn profiler_line_label(line: Seq<char>) -> Seq<char> {
    trim(trim_start_matches(trim_start_matches(trim(line), "Chipset Model:"@), "GPU Model:"@))
}

/// The GPU named by the output of `system_profiler SPDisplaysDataType`: its
/// first model line.
pub open spec fn profiler_label(out: Seq<char>) -> Option<Seq<char>> {
    match first_where(lines(out), model_line()) {
        Some(l) => Some(profiler_line_label(l)),
        None => None,
    }
}

// ───────────────────────── GPU: parsing ─────────────────────────

/// The GPU that `nvidia-smi` reports, if it reports one.
pub fn nvidia_gpu(stdout: &str) -> (r: Option<String>)
    ensures
        opt_view(r) == nvidia_label(stdout@),
{
    let name = trim_str(stdout);
    let nv = chars_of(name.as_str());
    if nv.len() > 0 && !contains_exec(&nv, &chars_of("[FAILED]")) {
        let label = String::from_str("NVIDIA: ");
        Some(label.concat(name.as_str()))
    } else {
        None
    }
}

/// The second `": "`-separated field of `line`, or all of it.
fn second_field_exec(line: &str) -> (r: &str)
    ensures
        r@ == second_field(line@),
{
    let v = chars_of(line);
    let sep = chars_of(": ");
    proof {
        reveal_strlit(": ");
    }
    match find_from_exec(&v, &sep, 0) {
        None => line,
        Some(i) => match find_from_exec(&v, &sep, i + 2) {
            None => line.substring_char(i + 2, v.len()),
            Some(j) => line.substring_char(i + 2, j),
        },
    }
}

/// The device description of an `lspci` line: its second field without PCI
/// metadata (bracketed ids and revision tags).
pub fn pci_description_text(line: &str) -> (r: String)
    ensures
        r@ == pci_description(line@),
{
    let desc = second_field_exec(line);
    let v = chars_of(desc);
    let rev = chars_of("(rev");
    let mut kept: Vec<String> = Vec::new();
    let mut in_rev = false;
    let mut pos: usize = 0;
    assert(views(kept@) =~= Seq::<Seq<char>>::empty());
    loop
        invariant
            pos <= v.len(),
            v@ == desc@,
            rev@ == "(rev"@,
            without_metadata(words(v@), false) == views(kept@) + without_metadata(
                words_from(v@, pos as int),
                in_rev,
            ),
        ensures
            without_metadata(words(v@), false) == views(kept@),
        decreases v.len() - pos,
    {
        match next_word(&v, pos) {
            None => {
                assert(views(kept@) + Seq::<Seq<char>>::empty() =~= views(kept@));
                break ;
            },
            Some((a, b)) => {
                let w = desc.substring_char(a, b);
                let wv = chars_of(w);
                let ghost rest = words_from(v@, b as int);
                let ghost ws = seq![v@.subrange(a as int, b as int)].add(rest);
                assert(ws.drop_first() =~= rest);
                assert(ws[0] == w@);
                let n = wv.len();
                let closes = n > 0 && wv[n - 1] == ')';
                if in_rev && closes {
                    in_rev = false;
                } else if n > 0 && wv[0] == '[' && wv[n - 1] == ']' {
                    in_rev = false;
                } else if starts_with_exec(&wv, &rev) {
                    in_rev = !closes;
                } else {
                    in_rev = false;
                    let ghost before = views(kept@);
                    kept.push(String::from_str(w));
                    assert(views(kept@) =~= before.push(w@));
                    assert(before + without_metadata(ws, false) =~= views(kept@)
                        + without_metadata(rest, false));
                }
                pos = b;
            },
        }
    }
    join_strings(&kept, " ")
}

/// Whether `w` is a company form that ends a vendor name.
fn is_company_form_exec(w: &str) -> (r: bool)
    ensures
        r == is_company_form(w@),
{
    let w = String::from_str(w);
    w == String::from_str("Inc.") || w == String::from_str("Ltd.") || w == String::from_str(
        "Corp.",
    ) || w == String::from_str("Co.")
}

/// The device name that follows the vendor in the description `d`.
pub fn after_vendor_text(d: &str) -> (r: String)
    ensures
        r@ == after_vendor(d@),
{
    let dv = chars_of(d);
    proof {
        reveal_strlit(",");
    }
    match find_from_exec(&dv, &chars_of(","), 0) {
        Some(i) => {
            let r = trim_str(d.substring_char(i + 1, dv.len()));
            let rv = chars_of(r.as_str());
            let k = word_end_exec(&rv, 0);
            if is_company_form_exec(r.as_str().substring_char(0, k)) {
                trim_str(r.as_str().substring_char(k, rv.len()))
            } else {
                r
            }
        },
        None => String::from_str(d),
    }
}

/// The GPU label for the device description `d`, given its lowercase form `lower`.
pub fn vendor_label_text(d: &str, lower: &str) -> (r: String)
    ensures
        r@ == vendor_label(d@, lower@),
{
    let lv = chars_of(lower);
    if contains_exec(&lv, &chars_of("amd")) || contains_exec(&lv, &chars_of("radeon")) {
        String::from_str("AMD: ").concat(after_vendor_text(d).as_str())
    } else if contains_exec(&lv, &chars_of("intel")) {
        String::from_str("Intel: ").concat(after_vendor_text(d).as_str())
    } else {
        String::from_str(d)
    }
}

/// Whether the lowercase text of an `lspci` line names a display controller.
pub fn names_display_controller(lower: &str) -> (r: bool)
    ensures
        r == names_display(lower@),
{
    let lv = chars_of(lower);
    contains_exec(&lv, &chars_of("vga")) || contains_exec(&lv, &chars_of("3d"))
}

/// The GPU named by a display-controller line of `lspci -nn`.
fn lspci_line_label_exec(line: &str) -> (r: String)
    ensures
        r@ == lspci_line_label(line@),
{
    let d = pci_description_text(line);
    let lower = to_lowercase(d.as_str());
    vendor_label_text(d.as_str(), lower.as_str())
}

/// The first line satisfying `p` is the line at hand when it satisfies `p`,
/// else the first of the lines after it.
proof fn lemma_first_where_step(
    s: Seq<char>,
    pos: int,
    line: Seq<char>,
    next: int,
    p: spec_fn(Seq<char>) -> bool,
)
    requires
        lines_from(s, pos) == seq![line].add(lines_from(s, next)),
    ensures
        first_where(lines_from(s, pos), p) == if p(line) {
            Some(line)
        } else {
            first_where(lines_from(s, next), p)
        },
{
    assert(lines_from(s, pos).drop_first() =~= lines_from(s, next));
}

/// The GPU that `lspci -nn` reports, if it lists a display controller.
pub fn lspci_gpu(output: &str) -> (r: Option<String>)
    ensures
        opt_view(r) == lspci_label(output@),
{
    let v = chars_of(output);
    let mut pos: usize = 0;
    while pos < v.len()
        invariant
            pos <= v.len(),
            v@ == output@,
            first_where(lines(v@), display_line()) == first_where(
                lines_from(v@, pos as int),
                display_line(),
            ),
        decreases v.len() - pos,
    {
        let (end, next) = next_line(&v, pos);
        let line = output.substring_char(pos, end);
        proof {
            lemma_first_where_step(v@, pos as int, line@, next as int, display_line());
        }
        let lower = to_lowercase(line);
        if names_display_controller(lower.as_str()) {
            return Some(lspci_line_label_exec(line));
        }
        pos = next;
    }
    None
}

/// The GPU named by a model line of `system_profiler`.
fn profiler_line_label_exec(line: &str) -> (r: String)
    ensures
        r@ == profiler_line_label(line@),
{
    let t = trim_str(line);
    let tv = chars_of(t.as_str());
    let i = trim_start_matches_at(&tv, &chars_of("Chipset Model:"));
    let rest = t.as_str().substring_char(i, tv.len());
    assert(rest@ =~= tv@.skip(i as int));
    let rv = chars_of(rest);
    let j = trim_start_matches_at(&rv, &chars_of("GPU Model:"));
    let name = rest.substring_char(j, rv.len());
    assert(name@ =~= rv@.skip(j as int));
    trim_str(name)
}

/// The GPU that `system_profiler SPDisplaysDataType` reports, if it names one.
pub fn profiler_gpu(output: &str) -> (r: Option<String>)
    ensures
        opt_view(r) == profiler_label(output@),
{
    let v = chars_of(output);
    let chipset = chars_of("Chipset Model");
    let gpu_model = chars_of("GPU Model");
    let mut pos: usize = 0;
    while pos < v.len()
        invariant
            pos <= v.len(),
            v@ == output@,
            chipset@ == "Chipset Model"@,
            gpu_model@ == "GPU Model"@,
            first_where(lines(v@), model_line()) == first_where(
                lines_from(v@, pos as int),
                model_line(),
            ),
        decreases v.len() - pos,
    {
        let (end, next) = next_line(&v, pos);
        let line = output.substring_char(pos, end);
        proof {
            lemma_first_where_step(v@, pos as int, line@, next as int, model_line());
        }
        let lv = chars_of(line);
        if contains_exec(&lv, &chipset) || contains_exec(&lv, &gpu_model) {
            return Some(profiler_line_label_exec(line));
        }
        pos = next;
    }
    None
}


// ───────────────────────── GPU: the probe sequence ─────────────────────────

/// The commands that may name the GPU, in the order they are tried.
#[derive(Debug, Clone, Copy, PartialEq, Eq, Structural)]
pub enum GpuProbe {
    NvidiaSmi,
    Lspci,
    SystemProfiler,
}

/// What to do after a probe: report a result, or run the next probe.
#[derive(Debug)]
pub enum GpuStep {
    Detected { name: String, has_gpu: bool },
    Next(GpuProbe),
}

/// The GPU that the output of `probe` names, if any.
pub open spec fn probe_label(probe: GpuProbe, out: Seq<char>) -> Option<Seq<char>> {
    match probe {
        GpuProbe::NvidiaSmi => nvidia_label(out),
        GpuProbe::Lspci => lspci_label(out),
        GpuProbe::SystemProfiler => profiler_label(out),
    }
}

/// The probe tried after `probe`, if any.
pub open spec fn next_probe(probe: GpuProbe) -> Option<GpuProbe> {
    match probe {
        GpuProbe::NvidiaSmi => Some(GpuProbe::Lspci),
        GpuProbe::Lspci => Some(GpuProbe::SystemProfiler),
        GpuProbe::SystemProfiler => None,
    }
}

/// What a probe that ran (`Some` output) or could not run (`None`) found.
pub open spec fn found_by(probe: GpuProbe, output: Option<Seq<char>>) -> Option<Seq<char>> {
    match output {
        Some(o) => probe_label(probe, o),
        None => None,
    }
}

/// The GPU shown when no probe names one.
pub open spec fn no_gpu_label() -> Seq<char> {
    "CPU-only (no GPU detected)"@
}

/// `step` is what follows a run of `probe` with `output`.
pub open spec fn is_step(probe: GpuProbe, output: Option<Seq<char>>, step: GpuStep) -> bool {
    match found_by(probe, output) {
        Some(l) => step matches GpuStep::Detected { name, has_gpu } && name@ == l && has_gpu,
        None => match next_probe(probe) {
            Some(q) => step == GpuStep::Next(q),
            None => step matches GpuStep::Detected { name, has_gpu } && name@ == no_gpu_label()
                && !has_gpu,
        },
    }
}

/// The GPU that the probes name when run in order with `outputs` (one per
/// probe, `None` for a probe that could not run), and whether there is one.
pub open spec fn detected_gpu(
    nvidia: Option<Seq<char>>,
    lspci: Option<Seq<char>>,
    profiler: Option<Seq<char>>,
) -> (Seq<char>, bool) {
    match found_by(GpuProbe::NvidiaSmi, nvidia) {
        Some(l) => (l, true),
        None => match found_by(GpuProbe::Lspci, lspci) {
            Some(l) => (l, true),
            None => match found_by(GpuProbe::SystemProfiler, profiler) {
                Some(l) => (l, true),
                None => (no_gpu_label(), false),
            },
        },
    }
}

impl GpuProbe {
    /// The program that this probe runs, and its arguments.
    pub fn command(&self) -> (r: (&'static str, Vec<&'static str>))
        ensures
            *self == GpuProbe::NvidiaSmi ==> r.0@ == "nvidia-smi"@ && r.1@.len() == 2
                && r.1@[0]@ == "--query-gpu=name"@ && r.1@[1]@ == "--format=csv,noheader"@,
            *self == GpuProbe::Lspci ==> r.0@ == "lspci"@ && r.1@.len() == 1 && r.1@[0]@
                == "-nn"@,
            *self == GpuProbe::SystemProfiler ==> r.0@ == "system_profiler"@ && r.1@.len() == 1
                && r.1@[0]@ == "SPDisplaysDataType"@,
    {
        match self {
            GpuProbe::NvidiaSmi => ("nvidia-smi", vec!["--query-gpu=name", "--format=csv,noheader"]),
            GpuProbe::Lspci => ("lspci", vec!["-nn"]),
            GpuProbe::SystemProfiler => ("system_profiler", vec!["SPDisplaysDataType"]),
        }
    }
}

/// Decides what follows a run of `probe`: its output (`None` where the
/// command could not run) either names the GPU, or the next probe is tried;
/// after the last probe, the machine has no GPU.
pub fn gpu_step(probe: GpuProbe, output: Option<&str>) -> (r: GpuStep)
    ensures
        is_step(
            probe,
            match output {
                Some(o) => Some(o@),
                None => None,
            },
            r,
        ),
{
    let found = match output {
        Some(o) => match probe {
            GpuProbe::NvidiaSmi => nvidia_gpu(o),
            GpuProbe::Lspci => lspci_gpu(o),
            GpuProbe::SystemProfiler => profiler_gpu(o),
        },
        None => None,
    };
    match found {
        Some(name) => GpuStep::Detected { name, has_gpu: true },
        None => match probe {
            GpuProbe::NvidiaSmi => GpuStep::Next(GpuProbe::Lspci),
            GpuProbe::Lspci => GpuStep::Next(GpuProbe::SystemProfiler),
            GpuProbe::SystemProfiler => GpuStep::Detected {
                name: String::from_str("CPU-only (no GPU detected)"),
                has_gpu: false,
            },
        },
    }
}

/// Run from the first probe, the steps end on the GPU that the first probe
/// to name one names, in the order `nvidia-smi`, `lspci`, `system_profiler`,
/// and on `CPU-only (no GPU detected)` without a GPU when none does.
pub proof fn lemma_probe_order(
    nvidia: Option<Seq<char>>,
    lspci: Option<Seq<char>>,
    profiler: Option<Seq<char>>,
    s1: GpuStep,
    s2: GpuStep,
    s3: GpuStep,
)
    requires
        is_step(GpuProbe::NvidiaSmi, nvidia, s1),
        s1 == GpuStep::Next(GpuProbe::Lspci) ==> is_step(GpuProbe::Lspci, lspci, s2),
        s2 == GpuStep::Next(GpuProbe::SystemProfiler) ==> is_step(
            GpuProbe::SystemProfiler,
            profiler,
            s3,
        ),
    ensures
        ({
            let last = if s1 != GpuStep::Next(GpuProbe::Lspci) {
                s1
            } else if s2 != GpuStep::Next(GpuProbe::SystemProfiler) {
                s2
            } else {
                s3
            };
            last matches GpuStep::Detected { name, has_gpu } && (name@, has_gpu) == detected_gpu(
                nvidia,
                lspci,
                profiler,
            )
        }),
{
}


// ───────────────────────── laws ─────────────────────────

/// Where `ls[k]` is the first of `ls` that satisfies `p`, `first_where` finds it.
proof fn lemma_first_where_at(ls: Seq<Seq<char>>, p: spec_fn(Seq<char>) -> bool, k: int)
    requires
        0 <= k < ls.len(),
        p(ls[k]),
        forall|j: int| 0 <= j < k ==> !p(#[trigger] ls[j]),
    ensures
        first_where(ls, p) == Some(ls[k]),
    decreases k,
{
    if k > 0 {
        assert(!p(ls[0]));
        let rest = ls.drop_first();
        assert forall|j: int| 0 <= j < k - 1 implies !p(#[trigger] rest[j]) by {
            assert(rest[j] == ls[j + 1]);
        }
        lemma_first_where_at(rest, p, k - 1);
    }
}

/// Where no element of `ls` satisfies `p`, `first_where` finds nothing.
proof fn lemma_first_where_none(ls: Seq<Seq<char>>, p: spec_fn(Seq<char>) -> bool)
    requires
        forall|j: int| 0 <= j < ls.len() ==> !p(#[trigger] ls[j]),
    ensures
        first_where(ls, p) is None,
    decreases ls.len(),
{
    if ls.len() > 0 {
        assert(!p(ls[0]));
        let rest = ls.drop_first();
        assert forall|j: int| 0 <= j < rest.len() implies !p(#[trigger] rest[j]) by {
            assert(rest[j] == ls[j + 1]);
        }
        lemma_first_where_none(rest, p);
    }
}

/// The GPU that `lspci -nn` reports is named by its first display-controller
/// line, whatever lines follow it: where line `k` of the output is the first
/// whose lowercase form contains `vga` or `3d`, the result is that line's label.
pub proof fn lemma_lspci_first_display_line(out: Seq<char>, k: int)
    requires
        0 <= k < lines(out).len(),
        contains(unicode_lowercase(lines(out)[k]), "vga"@) || contains(
            unicode_lowercase(lines(out)[k]),
            "3d"@,
        ),
        forall|j: int|
            0 <= j < k ==> !contains(unicode_lowercase(#[trigger] lines(out)[j]), "vga"@)
                && !contains(unicode_lowercase(lines(out)[j]), "3d"@),
    ensures
        lspci_label(out) == Some(lspci_line_label(lines(out)[k])),
{
    let ls = lines(out);
    assert forall|j: int| 0 <= j < k implies !display_line()(#[trigger] ls[j]) by {}
    lemma_first_where_at(ls, display_line(), k);
}

/// Where no line of the output of `lspci -nn` names a display controller, it
/// reports no GPU.
pub proof fn lemma_lspci_no_display_line(out: Seq<char>)
    requires
        forall|j: int|
            0 <= j < lines(out).len() ==> !contains(
                unicode_lowercase(#[trigger] lines(out)[j]),
                "vga"@,
            ) && !contains(unicode_lowercase(lines(out)[j]), "3d"@),
    ensures
        lspci_label(out) is None,
{
    let ls = lines(out);
    assert forall|j: int| 0 <= j < ls.len() implies !display_line()(#[trigger] ls[j]) by {}
    lemma_first_where_none(ls, display_line());
}


/// What `first_where` finds in `ls` it finds in `ls` followed by anything.
proof fn lemma_first_where_prefix(
    ls: Seq<Seq<char>>,
    rest: Seq<Seq<char>>,
    p: spec_fn(Seq<char>) -> bool,
)
    requires
        first_where(ls, p) is Some,
    ensures
        first_where(ls + rest, p) == first_where(ls, p),
    decreases ls.len(),
{
    let whole = ls + rest;
    assert(whole[0] == ls[0]);
    if !p(ls[0]) {
        assert(whole.drop_first() =~= ls.drop_first() + rest);
        lemma_first_where_prefix(ls.drop_first(), rest, p);
    }
}

/// Searching `a + t` for a newline from `pos` finds what searching `a` finds,
/// and where `a` holds none from `pos` on, it finds what searching from the
/// end of `a` finds.
proof fn lemma_find_newline_extended(a: Seq<char>, t: Seq<char>, pos: int)
    requires
        0 <= pos <= a.len(),
    ensures
        find_from(a, seq!['\n'], pos) is Some ==> find_from(a + t, seq!['\n'], pos) == find_from(
            a,
            seq!['\n'],
            pos,
        ),
        find_from(a, seq!['\n'], pos) is None ==> find_from(a + t, seq!['\n'], pos)
            == find_from(a + t, seq!['\n'], a.len() as int),
    decreases a.len() - pos,
{
    let s = a + t;
    let nl = seq!['\n'];
    if pos < a.len() {
        assert(s.subrange(pos, pos + 1) =~= a.subrange(pos, pos + 1));
        assert(occurs_at(s, nl, pos) == occurs_at(a, nl, pos));
        if !occurs_at(a, nl, pos) {
            lemma_find_newline_extended(a, t, pos + 1);
        }
    }
}

/// The lines of `a + "\n" + b` from `pos` begin with the lines of `a` from
/// `pos`, where `a` does not end with a carriage return.
proof fn lemma_lines_extended(a: Seq<char>, b: Seq<char>, pos: int) -> (rest: Seq<Seq<char>>)
    requires
        0 <= pos <= a.len(),
        a.len() > 0 ==> a.last() != '\r',
    ensures
        lines_from(a + seq!['\n'] + b, pos) == lines_from(a, pos) + rest,
    decreases a.len() - pos,
{
    let t = seq!['\n'] + b;
    let s = a + t;
    assert(a + seq!['\n'] + b =~= s);
    let nl = seq!['\n'];
    if pos == a.len() {
        assert(lines_from(s, pos) =~= lines_from(a, pos) + lines_from(s, pos));
        lines_from(s, pos)
    } else {
        lemma_find_newline_extended(a, t, pos);
        lemma_find_from(a, nl, pos);
        match find_from(a, nl, pos) {
            Some(i) => {
                let rest = lemma_lines_extended(a, b, i + 1);
                assert(s.subrange(pos, i) =~= a.subrange(pos, i));
                assert(lines_from(s, pos) =~= lines_from(a, pos) + rest);
                rest
            },
            None => {
                let e = a.len() as int;
                assert(occurs_at(s, nl, e)) by {
                    assert(s.subrange(e, e + 1) =~= nl);
                }
                assert(find_from(s, nl, e) == Some(e));
                assert(s.subrange(pos, e) =~= a.subrange(pos, e));
                assert(strip_cr(a.subrange(pos, e)) == a.subrange(pos, e));
                let rest = lines_from(s, e + 1);
                assert(lines_from(s, pos) =~= lines_from(a, pos) + rest);
                rest
            },
        }
    }
}

/// The GPU that `lspci -nn` reports does not depend on what follows its
/// first display-controller line: once the output `a` (not ending in a
/// carriage return) names one, any further lines `b` change nothing.
pub proof fn lemma_lspci_later_lines_ignored(a: Seq<char>, b: Seq<char>)
    requires
        lspci_label(a) is Some,
        a.len() > 0 ==> a.last() != '\r',
    ensures
        lspci_label(a + "\n"@ + b) == lspci_label(a),
{
    reveal_strlit("\n");
    assert("\n"@ =~= seq!['\n']);
    let rest = lemma_lines_extended(a, b, 0);
    lemma_first_where_prefix(lines(a), rest, display_line());
}

/// The device shown is `GPU` exactly when a GPU was found, else `CPU`, and the
/// two differ.
pub proof fn lemma_device_label(has_gpu: bool)
    ensures
        has_gpu ==> device_label(has_gpu) == "GPU"@,
        !has_gpu ==> device_label(has_gpu) == "CPU"@,
        device_label(true) != device_label(false),
{
    reveal_strlit("GPU");
    reveal_strlit("CPU");
    assert(device_label(true)[0] != device_label(false)[0]);
}

// ───────────────────────── CPU ─────────────────────────

/// The CPU model named by the `model name` line of `/proc/cpuinfo`.
pub open spec fn cpuinfo_label(line: Seq<char>) -> Seq<char> {
    trim(trim_start_matches(line, "model name\t:"@))
}

/// The CPU model named by the `model name` line of `/proc/cpuinfo`, as the
/// line is printed by `grep -m1 "model name" /proc/cpuinfo`.
pub fn cpu_from_cpuinfo(line: &str) -> (r: String)
    ensures
        r@ == cpuinfo_label(line@),
{
    let v = chars_of(line);
    let i = trim_start_matches_at(&v, &chars_of("model name\t:"));
    let rest = line.substring_char(i, v.len());
    assert(rest@ =~= v@.skip(i as int));
    trim_str(rest)
}

// ───────────────────────── Ollama replies ─────────────────────────

/// The outcome of one request to the Ollama API.
#[derive(Debug)]
pub enum ApiReply<T> {
    /// The request could not be sent or got no answer.
    Unreachable,
    /// The answer could not be read as the expected JSON.
    Malformed,
    /// The answer, read.
    Parsed(T),
}

/// The URL of the Ollama API endpoint `endpoint` (such as `tags`) on `host`.
pub open spec fn api_url(host: Seq<char>, endpoint: Seq<char>) -> Seq<char> {
    host + "/api/"@ + endpoint
}

/// The URL of the Ollama API endpoint `endpoint` on `host`, as `format!("{}/api/{}", ..)` writes it.
pub fn api_endpoint(host: &str, endpoint: &str) -> (r: String)
    ensures
        r@ == api_url(host@, endpoint@),
{
    String::from_str(host).concat("/api/").concat(endpoint)
}

/// The Ollama version shown: the reported one, `unknown` when the answer
/// could not be read, `unreachable` when there was none.
pub open spec fn version_label(reply: ApiReply<OllamaVersion>) -> Seq<char> {
    match reply {
        ApiReply::Unreachable => "unreachable"@,
        ApiReply::Malformed => "unknown"@,
        ApiReply::Parsed(v) => v.version@,
    }
}

/// The cache type of the first projector that reports one.
pub open spec fn first_cache_type(ps: Seq<ProjectorInfo>) -> Option<String>
    decreases ps.len(),
{
    if ps.len() == 0 {
        None
    } else {
        match ps[0].cache_type {
            Some(c) => Some(c),
            None => first_cache_type(ps.drop_first()),
        }
    }
}

/// The KV cache type shown: that of the first projector that reports one,
/// else `N/A`.
pub open spec fn kv_cache_label(reply: ApiReply<OllamaShow>) -> Seq<char> {
    match reply {
        ApiReply::Parsed(show) => match show.projectors {
            Some(ps) => match first_cache_type(ps@) {
                Some(c) => c@,
                None => "N/A"@,
            },
            None => "N/A"@,
        },
        _ => "N/A"@,
    }
}

/// The Ollama version shown, from the reply of `/api/version`.
pub fn ollama_version_label(reply: ApiReply<OllamaVersion>) -> (r: String)
    ensures
        r@ == version_label(reply),
{
    match reply {
        ApiReply::Unreachable => String::from_str("unreachable"),
        ApiReply::Malformed => String::from_str("unknown"),
        ApiReply::Parsed(v) => v.version,
    }
}

/// The cache type of the first of `ps` that reports one.
fn first_cache_type_exec(ps: &Vec<ProjectorInfo>) -> (r: Option<String>)
    ensures
        r == first_cache_type(ps@),
{
    let mut i: usize = 0;
    assert(ps@.skip(0) =~= ps@);
    while i < ps.len()
        invariant
            i <= ps.len(),
            first_cache_type(ps@) == first_cache_type(ps@.skip(i as int)),
        decreases ps.len() - i,
    {
        assert(ps@.skip(i as int).drop_first() =~= ps@.skip(i + 1));
        assert(ps@.skip(i as int)[0] == ps@[i as int]);
        match &ps[i].cache_type {
            Some(c) => {
                return Some(c.clone());
            },
            None => {},
        }
        i = i + 1;
    }
    assert(ps@.skip(i as int).len() == 0);
    None
}

/// The KV cache type shown, from the reply of `/api/show`.
pub fn kv_cache_type(reply: ApiReply<OllamaShow>) -> (r: String)
    ensures
        r@ == kv_cache_label(reply),
{
    match reply {
        ApiReply::Parsed(show) => match show.projectors {
            Some(ps) => match first_cache_type_exec(&ps) {
                Some(c) => c,
                None => String::from_str("N/A"),
            },
            None => String::from_str("N/A"),
        },
        _ => String::from_str("N/A"),
    }
}

/// The inference device shown: `GPU` where a GPU was found, else `CPU`.
pub open spec fn device_label(has_gpu: bool) -> Seq<char> {
    if has_gpu {
        "GPU"@
    } else {
        "CPU"@
    }
}

/// `s` shows the model details `m` (or `N/A` throughout where there is none).
pub open spec fn shows_model(s: SystemInfo, m: Option<ModelInfo>) -> bool {
    ModelDetailsPlain {
        params: s.model_params,
        quant: s.model_quant,
        family: s.model_family,
        size: s.model_size,
    }.shows(m)
}

/// Assembles what the report says of the machine and of the model from what
/// was read: the OS, CPU and RAM descriptions, the GPU found, and the replies
/// of `/api/version`, `/api/tags` and `/api/show`.
pub fn assemble_system_info(
    os: String,
    cpu: String,
    ram_total: String,
    gpu: String,
    has_gpu: bool,
    version: ApiReply<OllamaVersion>,
    tags: &Option<OllamaTags>,
    show: ApiReply<OllamaShow>,
    model_name: &str,
    ctx: u32,
    iterations: usize,
) -> (s: SystemInfo)
    ensures
        s.os == os,
        s.cpu == cpu,
        s.ram_total == ram_total,
        s.gpu == gpu,
        s.ollama_version@ == version_label(version),
        s.model_name@ == model_name@,
        shows_model(s, shown_details(*tags, model_name@)),
        s.device@ == device_label(has_gpu),
        has_gpu ==> s.device@ == "GPU"@,
        !has_gpu ==> s.device@ == "CPU"@,
        s.kv_cache_type@ == kv_cache_label(show),
        s.ctx == ctx,
        s.iterations == iterations,
{
    let details = details_for(tags, model_name);
    let device = if has_gpu {
        String::from_str("GPU")
    } else {
        String::from_str("CPU")
    };
    SystemInfo {
        os,
        cpu,
        ram_total,
        gpu,
        ollama_version: ollama_version_label(version),
        model_name: String::from_str(model_name),
        model_params: details.params,
        model_quant: details.quant,
        model_family: details.family,
        model_size: details.size,
        device,
        kv_cache_type: kv_cache_type(show),
        ctx,
        iterations,
    }
}

} // verus!
