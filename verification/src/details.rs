//! A model's metadata as the report shows it, and the lookup of a model by name.

use vstd::prelude::*;

use crate::text::{decimal, decimal_string, join, join_strings, views};
use crate::types::{ModelDetails, ModelInfo, OllamaTags};

verus! {

// ───────────────────────── specifications ─────────────────────────

/// The text of `o`, or `N/A` where it is absent.
pub open spec fn or_na(o: Option<String>) -> Seq<char> {
    match o {
        Some(s) => s@,
        None => "N/A"@,
    }
}

/// The architecture shown for a model: its families joined with `", "` where
/// there is at least one, else its family, else `N/A`.
pub open spec fn family_label(d: ModelDetails) -> Seq<char> {
    match d.families {
        Some(v) => if v@.len() > 0 {
            join(views(v@), ", "@)
        } else {
            or_na(d.family)
        },
        None => or_na(d.family),
    }
}

/// `2` to the power `k`.
pub open spec fn two_pow(k: nat) -> nat
    decreases k,
{
    if k == 0 {
        1
    } else {
        2 * two_pow((k - 1) as nat)
    }
}

/// `n / d` rounded to the nearest integer, ties to the even one.
pub open spec fn round_half_even(n: nat, d: nat) -> nat {
    let q = n / d;
    let r = n % d;
    if 2 * r > d || (2 * r == d && q % 2 == 1) {
        q + 1
    } else {
        q
    }
}

/// How many low bits of `n` do not fit in the 53-bit significand of an `f64`.
pub open spec fn excess_bits(n: nat) -> nat
    decreases n,
{
    if n < 0x20_0000_0000_0000 {
        0
    } else {
        1 + excess_bits(n / 2)
    }
}

/// The value of `n as f64`: `n` rounded to 53 significant bits, ties to even.
pub open spec fn as_f64(n: nat) -> nat {
    let p = two_pow(excess_bits(n));
    round_half_even(n, p) * p
}

/// Bytes in a GiB.
pub open spec fn gib() -> nat {
    0x4000_0000
}

/// `n` bytes in tenths of a GiB, as `{:.1}` rounds `n as f64 / 2^30`
/// (exactly, ties to even).
pub open spec fn gib_tenths(n: nat) -> nat {
    round_half_even(as_f64(n) * 10, gib())
}

/// The size shown for a model of `n` bytes, such as `7.5 GB`.
pub open spec fn size_label(n: nat) -> Seq<char> {
    let t = gib_tenths(n);
    decimal(t / 10) + "."@ + decimal(t % 10) + " GB"@
}

/// `candidate` names the model `wanted`, or names it with the tag `:latest`.
pub open spec fn names_model(candidate: Seq<char>, wanted: Seq<char>) -> bool {
    candidate == wanted || candidate == wanted + ":latest"@
}

/// The position of the first of `models` that `names_model` picks out.
pub open spec fn first_named(models: Seq<ModelInfo>, wanted: Seq<char>, from: int) -> Option<int>
    decreases models.len() - from,
{
    if from < 0 || from >= models.len() {
        None
    } else if names_model(models[from].name@, wanted) {
        Some(from)
    } else {
        first_named(models, wanted, from + 1)
    }
}

// ───────────────────────── the display record ─────────────────────────

/// A model's metadata as text, ready for display.
#[derive(Debug, Clone)]
pub struct ModelDetailsPlain {
    pub params: String,
    pub quant: String,
    pub family: String,
    pub size: String,
}

impl ModelDetailsPlain {
    /// `self` is what `from_model_info` makes of `mi`.
    pub open spec fn describes(self, mi: ModelInfo) -> bool {
        &&& self.params@ == or_na(mi.details.parameter_size)
        &&& self.quant@ == or_na(mi.details.quantization_level)
        &&& self.family@ == family_label(mi.details)
        &&& self.size@ == size_label(mi.size as nat)
    }

    /// Every field of `self` reads `N/A`.
    pub open spec fn is_na(self) -> bool {
        &&& self.params@ == "N/A"@
        &&& self.quant@ == "N/A"@
        &&& self.family@ == "N/A"@
        &&& self.size@ == "N/A"@
    }

    /// The display record of a model listed by `/api/tags`.
    pub fn from_model_info(mi: &ModelInfo) -> (d: Self)
        ensures
            d.describes(*mi),
    {
        ModelDetailsPlain {
            params: text_or_na(&mi.details.parameter_size),
            quant: text_or_na(&mi.details.quantization_level),
            family: Self::format_family(&mi.details),
            size: size_string(mi.size),
        }
    }

    /// The display record of a model of which nothing is known.
    pub fn na() -> (d: Self)
        ensures
            d.is_na(),
    {
        ModelDetailsPlain {
            params: String::from_str("N/A"),
            quant: String::from_str("N/A"),
            family: String::from_str("N/A"),
            size: String::from_str("N/A"),
        }
    }

    /// The architecture shown for a model.
    fn format_family(details: &ModelDetails) -> (r: String)
        ensures
            r@ == family_label(*details),
    {
        match &details.families {
            Some(v) => {
                if v.len() > 0 {
                    join_strings(v, ", ")
                } else {
                    text_or_na(&details.family)
                }
            },
            None => text_or_na(&details.family),
        }
    }
}

/// The text of `o`, or `N/A`.
fn text_or_na(o: &Option<String>) -> (r: String)
    ensures
        r@ == or_na(*o),
{
    match o {
        Some(s) => s.clone(),
        None => String::from_str("N/A"),
    }
}

// ───────────────────────── sizes ─────────────────────────

/// Powers of two grow with the exponent.
proof fn lemma_two_pow_mono(a: nat, b: nat)
    requires
        a <= b,
    ensures
        1 <= two_pow(a) <= two_pow(b),
    decreases b,
{
    if b > a {
        lemma_two_pow_mono(a, (b - 1) as nat);
    } else if a > 0 {
        lemma_two_pow_mono((a - 1) as nat, (a - 1) as nat);
    }
}

/// Powers of two up to the eleventh stay within `2^11`.
proof fn lemma_two_pow_bound(k: nat)
    requires
        k <= 11,
    ensures
        1 <= two_pow(k) <= 0x800,
        two_pow(k) == 0x800 <==> k == 11,
{
    reveal_with_fuel(two_pow, 12);
    lemma_two_pow_mono(k, 11);
    if k < 11 {
        lemma_two_pow_mono(k, 10);
    }
}

/// `n` bytes in tenths of a GiB, rounded as `format!("{:.1}", n as f64 / 2^30)` rounds.
pub fn gib_tenths_exec(n: u64) -> (t: u64)
    ensures
        t == gib_tenths(n as nat),
{
    let mut p: u64 = 1;
    let ghost mut k: nat = 0;
    while n / p >= 0x20_0000_0000_0000
        invariant
            p == two_pow(k),
            k <= 11,
            1 <= p <= 0x800,
            excess_bits(n as nat) == k + excess_bits((n / p) as nat),
        decreases n / p,
    {
        let ghost m = n / p;
        proof {
            vstd::arithmetic::div_mod::lemma_div_denominator(n as int, p as int, 2);
            vstd::arithmetic::div_mod::lemma_fundamental_div_mod(n as int, p as int);
            assert(p * 0x20_0000_0000_0000 <= n) by (nonlinear_arith)
                requires
                    m == n / p,
                    m >= 0x20_0000_0000_0000,
                    n == p * (n / p) + n % p,
                    n % p >= 0,
                    p >= 1,
            ;
        }
        proof {
            lemma_two_pow_bound(k);
            assert(k < 11);
            lemma_two_pow_bound((k + 1) as nat);
        }
        p = p * 2;
        proof {
            k = k + 1;
        }
        assert(n / p < m);
    }
    let q = n / p;
    let r = n % p;
    let rounded: u64 = if 2 * (r as u128) > p as u128 || (2 * (r as u128) == p as u128 && q % 2
        == 1) {
        q + 1
    } else {
        q
    };
    assert(rounded as nat == round_half_even(n as nat, p as nat));
    assert(rounded as u128 * p as u128 <= 0x1_0000_0000_0000_0000) by (nonlinear_arith)
        requires
            rounded <= 0x20_0000_0000_0000,
            p <= 0x800,
    ;
    let value: u128 = rounded as u128 * p as u128;
    assert(value as nat == as_f64(n as nat));
    let scaled: u128 = value * 10;
    let q2 = scaled / 0x4000_0000;
    let r2 = scaled % 0x4000_0000;
    let t: u128 = if 2 * r2 > 0x4000_0000 || (2 * r2 == 0x4000_0000 && q2 % 2 == 1) {
        q2 + 1
    } else {
        q2
    };
    assert(q2 <= 0x28_0000_0000);
    assert(t <= 0x100_0000_0000);
    t as u64
}

/// The size shown for a model of `n` bytes, as `format!("{:.1} GB", n as f64 / 2^30)` writes it.
pub fn size_string(n: u64) -> (s: String)
    ensures
        s@ == size_label(n as nat),
{
    let t = gib_tenths_exec(n);
    let mut s = decimal_string(t / 10);
    s.append(".");
    let frac = decimal_string(t % 10);
    s.append(frac.as_str());
    s.append(" GB");
    s
}


// ───────────────────────── laws of sizes ─────────────────────────

/// A product of powers of two is the power of the summed exponents.
proof fn lemma_two_pow_adds(a: nat, b: nat)
    ensures
        two_pow(a + b) == two_pow(a) * two_pow(b),
    decreases a,
{
    if a > 0 {
        let a1 = (a - 1) as nat;
        lemma_two_pow_adds(a1, b);
        assert(a + b == (a1 + b) + 1);
        assert(two_pow(a + b) == 2 * two_pow(a1 + b));
        assert(two_pow(a) * two_pow(b) == 2 * (two_pow((a - 1) as nat) * two_pow(b))) by (nonlinear_arith)
            requires
                two_pow(a) == 2 * two_pow((a - 1) as nat),
        ;
        assert(two_pow(a + b) == two_pow(a) * two_pow(b));
    } else {
        assert(two_pow(0) == 1);
        assert(a + b == b);
    }
}

/// Below `2^(53 + j)`, at most `j` low bits fall outside an `f64` significand.
proof fn lemma_excess_bits_bound(n: nat, j: nat)
    requires
        n < 0x20_0000_0000_0000 * two_pow(j),
    ensures
        excess_bits(n) <= j,
    decreases n,
{
    if n >= 0x20_0000_0000_0000 {
        if j == 0 {
            assert(false);
        } else {
            assert(n / 2 < 0x20_0000_0000_0000 * two_pow((j - 1) as nat)) by (nonlinear_arith)
                requires
                    n < 0x20_0000_0000_0000 * two_pow(j),
                    two_pow(j) == 2 * two_pow((j - 1) as nat),
            ;
            lemma_excess_bits_bound(n / 2, (j - 1) as nat);
        }
    }
}

/// A whole number `k` of GiB converts to `f64` exactly and shows as `k.0 GB`.
pub proof fn lemma_whole_gib(k: nat)
    requires
        k * gib() <= u64::MAX,
    ensures
        as_f64(k * gib()) == k * gib(),
        gib_tenths(k * gib()) == 10 * k,
        size_label(k * gib()) == decimal(k) + ".0 GB"@,
{
    let n = k * gib();
    let e = excess_bits(n);
    reveal_with_fuel(two_pow, 12);
    assert(two_pow(11) == 0x800);
    assert(n < 0x20_0000_0000_0000 * two_pow(11));
    lemma_excess_bits_bound(n, 11);
    lemma_two_pow_adds(e, (30 - e) as nat);
    lemma_two_pow_mono(e, 11);
    lemma_two_pow_mono((30 - e) as nat, (30 - e) as nat);
    reveal_with_fuel(two_pow, 31);
    assert(two_pow(30) == gib());
    let p = two_pow(e);
    let c = k * two_pow((30 - e) as nat);
    assert(n == c * p) by (nonlinear_arith)
        requires
            n == k * gib(),
            gib() == p * two_pow((30 - e) as nat),
            c == k * two_pow((30 - e) as nat),
    ;
    vstd::arithmetic::div_mod::lemma_div_by_multiple(c as int, p as int);
    vstd::arithmetic::div_mod::lemma_mod_multiples_basic(c as int, p as int);
    assert(round_half_even(n, p) == c);
    assert(as_f64(n) == n);
    let m = 10 * k;
    assert(n * 10 == m * gib()) by (nonlinear_arith)
        requires
            n == k * gib(),
            m == 10 * k,
    ;
    vstd::arithmetic::div_mod::lemma_div_by_multiple(m as int, gib() as int);
    vstd::arithmetic::div_mod::lemma_mod_multiples_basic(m as int, gib() as int);
    assert(gib_tenths(n) == m);
    assert(m / 10 == k && m % 10 == 0);
    reveal_strlit(".0 GB");
    reveal_strlit(".");
    reveal_strlit(" GB");
    assert(decimal(0) =~= seq!['0']);
    assert(size_label(n) =~= decimal(k) + ".0 GB"@);
}


/// Below `2^53` bytes, a size converts to `f64` exactly.
pub proof fn lemma_small_sizes_exact(n: nat)
    requires
        n < 0x20_0000_0000_0000,
    ensures
        as_f64(n) == n,
{
    assert(excess_bits(n) == 0);
    assert(two_pow(0) == 1);
}

/// A model pulled under the tag `:latest` is found by its bare name, and a
/// model is found by its full name.
pub proof fn lemma_latest_tag_names_model(wanted: Seq<char>)
    ensures
        names_model(wanted + ":latest"@, wanted),
        names_model(wanted, wanted),
{
}

// ───────────────────────── lookup ─────────────────────────

/// Whether `candidate` names the model `wanted`, with or without the tag `:latest`.
pub fn names_model_exec(candidate: &String, wanted: &str) -> (r: bool)
    ensures
        r == names_model(candidate@, wanted@),
{
    let exact = String::from_str(wanted);
    if *candidate == exact {
        return true;
    }
    let tagged = exact.concat(":latest");
    *candidate == tagged
}

/// The position of the first of `models` named `wanted` (directly or with
/// the tag `:latest`), the one that `Iterator::find` picks.
pub fn find_model(models: &Vec<ModelInfo>, wanted: &str) -> (r: Option<usize>)
    ensures
        r is None <==> first_named(models@, wanted@, 0) is None,
        r matches Some(i) ==> first_named(models@, wanted@, 0) == Some(i as int) && i
            < models.len(),
{
    let mut i: usize = 0;
    while i < models.len()
        invariant
            i <= models.len(),
            first_named(models@, wanted@, 0) == first_named(models@, wanted@, i as int),
        decreases models.len() - i,
    {
        if names_model_exec(&models[i].name, wanted) {
            return Some(i);
        }
        i = i + 1;
    }
    None
}

/// The model whose details the report shows for `wanted`: the first model in
/// `tags` that `wanted` names; none where the tags could not be fetched or
/// name no such model.
pub open spec fn shown_details(tags: Option<OllamaTags>, wanted: Seq<char>) -> Option<ModelInfo> {
    match tags {
        Some(t) => match first_named(t.models@, wanted, 0) {
            Some(i) => Some(t.models@[i]),
            None => None,
        },
        None => None,
    }
}

impl ModelDetailsPlain {
    /// `self` is the display record of `m`, or `N/A` throughout where there is no model.
    pub open spec fn shows(self, m: Option<ModelInfo>) -> bool {
        match m {
            Some(mi) => self.describes(mi),
            None => self.is_na(),
        }
    }
}

/// The display record of the model `wanted`, looked up in the reply of
/// `/api/tags` (absent when that request failed).
pub fn details_for(tags: &Option<OllamaTags>, wanted: &str) -> (d: ModelDetailsPlain)
    ensures
        d.shows(shown_details(*tags, wanted@)),
{
    match tags {
        Some(t) => match find_model(&t.models, wanted) {
            Some(i) => ModelDetailsPlain::from_model_info(&t.models[i]),
            None => ModelDetailsPlain::na(),
        },
        None => ModelDetailsPlain::na(),
    }
}

} // verus!
