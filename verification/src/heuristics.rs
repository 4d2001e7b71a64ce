//! Reading a model's family, size and quantisation from its name, and the rules that turn
//! a model and a machine into a memory placement and a recommendation.

use vstd::prelude::*;
use crate::system::{GpuBackend, SystemInfo};
use crate::text::{
    all_digits, chars_of, find_from, contains_str, decimal_seq, decimal_string, digits_value, find,
    find_seq, has_substring, lowercase, string_of, to_lowercase,
};

verus! {

/// Where a model entry came from.
#[derive(Debug, Clone, Copy, PartialEq, Eq, Structural)]
pub enum ModelSource {
    Ollama,
    HuggingFace,
    Manual,
}

/// Whether a model fits in the GPU's memory.
#[derive(Debug, Clone, PartialEq)]
pub enum FitStatus {
    Fits,
    /// Runs, with part of it outside the GPU (the text says how).
    Partial(String),
    No,
}

/// A number of billions written in decimal: `units / 10^scale`, or `units * 10^-scale` when
/// `scale` is negative.
#[derive(Debug, Clone, Copy, PartialEq, Eq, Structural)]
pub struct Billions {
    pub units: u64,
    pub scale: i64,
}

/// A parameter count in billions: one decimal, or the product of two (as for a mixture of
/// experts, where it is the number of experts times the size of one).
#[derive(Debug, Clone, Copy, PartialEq, Eq, Structural)]
pub enum ParamCount {
    Exact(Billions),
    Product(Billions, Billions),
}

/// A model as the estimates see it.
#[derive(Debug, Clone, PartialEq)]
pub struct Model {
    pub name: String,
    pub family: String,
    pub size_label: String,
    pub total_params: ParamCount,
    pub active_params: ParamCount,
    pub quant: String,
    pub source: ModelSource,
}

/// The abstract value of a [`Model`].
#[verifier::ext_equal]
pub struct ModelView {
    pub name: Seq<char>,
    pub family: Seq<char>,
    pub size_label: Seq<char>,
    pub total_params: ParamCount,
    pub active_params: ParamCount,
    pub quant: Seq<char>,
    pub source: ModelSource,
}

impl View for Model {
    type V = ModelView;

    open spec fn view(&self) -> ModelView {
        ModelView {
            name: self.name@,
            family: self.family@,
            size_label: self.size_label@,
            total_params: self.total_params,
            active_params: self.active_params,
            quant: self.quant@,
            source: self.source,
        }
    }
}

/// An exact copy of a model.
pub fn copy_model(m: &Model) -> (r: Model)
    ensures
        r@ == m@,
{
    Model {
        name: m.name.clone(),
        family: m.family.clone(),
        size_label: m.size_label.clone(),
        total_params: m.total_params,
        active_params: m.active_params,
        quant: m.quant.clone(),
        source: m.source,
    }
}

/// The family a (lower-case) model name belongs to: the first of the known family names
/// that occurs in it, in a fixed order, or "unknown".
pub open spec fn family_of(name: Seq<char>) -> Seq<char> {
    if has_substring(name, "llama"@) {
        "llama"@
    } else if has_substring(name, "mistral"@) {
        "mistral"@
    } else if has_substring(name, "mixtral"@) {
        "mixtral"@
    } else if has_substring(name, "qwen"@) {
        "qwen"@
    } else if has_substring(name, "gemma"@) {
        "gemma"@
    } else if has_substring(name, "phi"@) {
        "phi"@
    } else if has_substring(name, "yi"@) {
        "yi"@
    } else if has_substring(name, "falcon"@) {
        "falcon"@
    } else if has_substring(name, "starcoder"@) {
        "starcoder"@
    } else if has_substring(name, "deepseek"@) {
        "deepseek"@
    } else if has_substring(name, "command"@) {
        "command-r"@
    } else {
        "unknown"@
    }
}

/// The family of a model name (which the caller has put in lower case).
pub fn detect_family(name: &str) -> (r: String)
    ensures
        r@ == family_of(name@),
{
    let n = chars_of(name);
    if contains_str(&n, "llama") {
        return String::from_str("llama");
    }
    if contains_str(&n, "mistral") {
        return String::from_str("mistral");
    }
    if contains_str(&n, "mixtral") {
        return String::from_str("mixtral");
    }
    if contains_str(&n, "qwen") {
        return String::from_str("qwen");
    }
    if contains_str(&n, "gemma") {
        return String::from_str("gemma");
    }
    if contains_str(&n, "phi") {
        return String::from_str("phi");
    }
    if contains_str(&n, "yi") {
        return String::from_str("yi");
    }
    if contains_str(&n, "falcon") {
        return String::from_str("falcon");
    }
    if contains_str(&n, "starcoder") {
        return String::from_str("starcoder");
    }
    if contains_str(&n, "deepseek") {
        return String::from_str("deepseek");
    }
    if contains_str(&n, "command") {
        return String::from_str("command-r");
    }
    String::from_str("unknown")
}


/// A size written as a number of experts times the size of one, such as `8x7b`.
pub const MOE_PATTERN: &'static str = r"(\d+)x(\d+(\.\d+)?)b";

/// A size written as one number, such as `8b` or `1.5b`.
pub const SIZE_PATTERN: &'static str = r"(\d+(\.\d+)?)b";

/// A quantisation tag, such as `q4_0`, `q8` or `fp16`.
pub const QUANT_PATTERN: &'static str = r"(q[234568](_?[0-9A-Z]+)?|fp16|bf16)";

/// The groups of the first match of a regular expression, each by its text when it took
/// part in the match.
pub open spec fn captures_view(c: Option<Vec<Option<String>>>) -> Option<Seq<Option<Seq<char>>>> {
    match c {
        Some(v) => Some(
            v@.map_values(
                |g: Option<String>|
                    match g {
                        Some(t) => Some(t@),
                        None => None,
                    },
            ),
        ),
        None => None,
    }
}

/// What `regex::Regex::new(pattern)` and then `Regex::captures(haystack)` give: the groups
/// of the leftmost-first match (group 0 being the whole match), or nothing when the
/// pattern does not compile or does not match.
pub uninterp spec fn regex_captures(pattern: Seq<char>, haystack: Seq<char>) -> Option<
    Seq<Option<Seq<char>>>,
>;

/// Compiles `pattern` with `regex::Regex::new` and runs `Regex::captures` on `haystack`, then
/// hands out each group (from `Captures::iter`) as its text. Claimed of it: the result is
/// `regex_captures` of the pattern and the haystack, a function of the two alone (nothing
/// when the pattern does not compile); which text the expression matches is not stated.
#[verifier::external_body]
fn captures(pattern: &str, haystack: &str) -> (r: Option<Vec<Option<String>>>)
    ensures
        captures_view(r) == regex_captures(pattern@, haystack@),
{
    let re = match regex::Regex::new(pattern) {
        Ok(re) => re,
        Err(_) => return None,
    };
    let caps = re.captures(haystack)?;
    let mut out = Vec::new();
    for m in caps.iter() {
        out.push(m.map(|m| m.as_str().to_string()));
    }
    Some(out)
}

/// Group `i` of a match, when there is such a group and it took part in the match.
pub open spec fn group(caps: Seq<Option<Seq<char>>>, i: int) -> Option<Seq<char>> {
    if 0 <= i < caps.len() {
        caps[i]
    } else {
        None
    }
}

/// The text of group `i`, or nothing.
fn group_text(caps: &Vec<Option<String>>, i: usize) -> (r: Option<Vec<char>>)
    ensures
        r matches Some(t) ==> group(captures_view(Some(*caps))->0, i as int) == Some(t@),
        r is None ==> group(captures_view(Some(*caps))->0, i as int) is None,
{
    if i < caps.len() {
        match &caps[i] {
            Some(t) => Some(chars_of(t.as_str())),
            None => None,
        }
    } else {
        None
    }
}

/// How many digits after the point are kept, counting from `k`: at most 19, and no more
/// than keep the units within a `u64`.
pub open spec fn kept_fraction(ip: Seq<char>, fp: Seq<char>, k: int) -> int
    decreases 19 - k,
{
    if k < 0 || k >= 19 || k >= fp.len() || digits_value(ip + fp.take(k + 1)) > u64::MAX {
        k
    } else {
        kept_fraction(ip, fp, k + 1)
    }
}

/// How many leading digits of `d` are kept, counting from `k`: as many as keep their value
/// within a `u64`.
pub open spec fn kept_whole(d: Seq<char>, k: int) -> int
    decreases d.len() - k,
{
    if k < 0 || k >= d.len() || digits_value(d.take(k + 1)) > u64::MAX {
        k
    } else {
        kept_whole(d, k + 1)
    }
}

/// The scale that stands for `m` digits dropped at the end of a whole number (capped at the
/// largest `i64`).
pub open spec fn dropped_scale(m: int) -> i64 {
    if m <= i64::MAX {
        (-m) as i64
    } else {
        (-i64::MAX) as i64
    }
}

/// The decimal for a whole number `d` whose value is beyond a `u64`: its leading digits
/// that fit, times ten to the number of digits dropped.
pub open spec fn large_whole(d: Seq<char>) -> Billions {
    let n = kept_whole(d, 0);
    Billions { units: digits_value(d.take(n)) as u64, scale: dropped_scale(d.len() - n) }
}

/// The value of a decimal number written with ASCII digits and at most one point with
/// digits on both sides (`8`, `1.5`). A whole part beyond a `u64` keeps the leading digits
/// that fit, with a negative scale for the ones dropped, and no fraction. Otherwise the
/// digits after the point are cut after the 19th, or earlier where more would not fit in a
/// `u64` of units.
pub open spec fn billions_seq(t: Seq<char>) -> Option<Billions> {
    match find_seq(t, seq!['.']) {
        None => if t.len() > 0 && all_digits(t) {
            if kept_whole(t, 0) == t.len() {
                Some(Billions { units: digits_value(t) as u64, scale: 0 })
            } else {
                Some(large_whole(t))
            }
        } else {
            None
        },
        Some(k) => {
            let ip = t.take(k);
            let fp = t.skip(k + 1);
            if ip.len() > 0 && fp.len() > 0 && all_digits(ip) && all_digits(fp) {
                if kept_whole(ip, 0) == ip.len() {
                    let n = kept_fraction(ip, fp, 0);
                    Some(Billions { units: digits_value(ip + fp.take(n)) as u64, scale: n as i64 })
                } else {
                    Some(large_whole(ip))
                }
            } else {
                None
            }
        },
    }
}

/// The value of group `i` as a decimal number, or `default` when the group is missing or
/// is not such a number.
pub open spec fn group_billions(caps: Seq<Option<Seq<char>>>, i: int, default: Billions) -> Billions {
    match group(caps, i) {
        Some(t) => match billions_seq(t) {
            Some(b) => b,
            None => default,
        },
        None => default,
    }
}

/// The leading digits of `d` whose value fits in a `u64`: that value and their count.
fn fitting_prefix(d: &Vec<char>) -> (r: (u64, usize))
    requires
        all_digits(d@),
    ensures
        r.1 == kept_whole(d@, 0),
        r.0 == digits_value(d@.take(r.1 as int)),
        r.1 <= d@.len(),
{
    let mut acc: u64 = 0;
    let mut j: usize = 0;
    let mut full = false;
    assert(d@.take(0) =~= Seq::<char>::empty());
    while !full && j < d.len()
        invariant
            j <= d@.len(),
            all_digits(d@),
            acc as nat == digits_value(d@.take(j as int)),
            kept_whole(d@, 0) == kept_whole(d@, j as int),
            full ==> j < d@.len() && digits_value(d@.take(j + 1)) > u64::MAX,
        decreases 2 * (d@.len() - j) + (if full {
            0int
        } else {
            1int
        }),
    {
        let x = d[j] as u32;
        assert(crate::text::is_digit(d@[j as int]));
        let v = (x - 48) as u64;
        let ghost longer = d@.take(j + 1);
        assert(longer.drop_last() =~= d@.take(j as int));
        assert(longer.last() == d@[j as int]);
        assert(digits_value(longer) == acc * 10 + v);
        if acc > (u64::MAX - v) / 10 {
            assert(acc * 10 + v > u64::MAX) by (nonlinear_arith)
                requires
                    acc > (u64::MAX - v) / 10,
                    v <= 9,
            ;
            full = true;
        } else {
            assert(acc * 10 + v <= u64::MAX) by (nonlinear_arith)
                requires
                    acc <= (u64::MAX - v) / 10,
                    v <= 9,
            ;
            acc = acc * 10 + v;
            j = j + 1;
        }
    }
    assert(kept_whole(d@, j as int) == j);
    (acc, j)
}

/// The decimal for the digits `d` when they do not all fit in a `u64`.
fn large_whole_exec(d: &Vec<char>, units: u64, n: usize) -> (r: Billions)
    requires
        n == kept_whole(d@, 0),
        units == digits_value(d@.take(n as int)),
        n <= d@.len(),
    ensures
        r == large_whole(d@),
{
    let m = (d.len() - n) as u64;
    let scale: i64 = if m <= 9223372036854775807u64 {
        -(m as i64)
    } else {
        -9223372036854775807
    };
    Billions { units, scale }
}

/// Reads a decimal number such as `8` or `1.5`.
pub fn parse_billions(t: &Vec<char>) -> (r: Option<Billions>)
    ensures
        r == billions_seq(t@),
{
    let mut dot: Vec<char> = Vec::new();
    dot.push('.');
    assert(dot@ =~= seq!['.']);
    match find(t, &dot) {
        None => {
            if t.len() == 0 || !crate::text::all_digits_exec(t) {
                return None;
            }
            let (units, n) = fitting_prefix(t);
            if n == t.len() {
                assert(t@.take(n as int) =~= t@);
                Some(Billions { units, scale: 0 })
            } else {
                Some(large_whole_exec(t, units, n))
            }
        },
        Some(k) => {
            proof {
                crate::text::lemma_find_from(t@, seq!['.'], 0);
                assert(find_from(t@, dot@, 0) == Some(k as int));
                assert(crate::text::occurs_at(t@, seq!['.'], k as int));
            }
            assert(k < t.len());
            let ip = crate::text::slice(t, 0, k);
            let fp = crate::text::slice(t, k + 1, t.len());
            assert(ip@ =~= t@.take(k as int));
            assert(fp@ =~= t@.skip(k + 1));
            if ip.len() == 0 || fp.len() == 0 || !crate::text::all_digits_exec(&ip)
                || !crate::text::all_digits_exec(&fp) {
                return None;
            }
            let (whole, n) = fitting_prefix(&ip);
            if n < ip.len() {
                return Some(large_whole_exec(&ip, whole, n));
            }
            let mut acc: u64 = whole;
            proof {
                assert(ip@.take(n as int) =~= ip@);
                assert(ip@ + fp@.take(0) =~= ip@);
            }
            let mut j: usize = 0;
            let mut full = false;
            while !full && j < 19 && j < fp.len()
                invariant
                    j <= 19,
                    j <= fp@.len(),
                    all_digits(fp@),
                    acc as nat == digits_value(ip@ + fp@.take(j as int)),
                    kept_fraction(ip@, fp@, 0) == kept_fraction(ip@, fp@, j as int),
                    full ==> j < 19 && j < fp@.len() && digits_value(ip@ + fp@.take(j + 1))
                        > u64::MAX,
                decreases 2 * (19 - j) + (if full {
                    0int
                } else {
                    1int
                }),
            {
                let x = fp[j] as u32;
                assert(crate::text::is_digit(fp@[j as int]));
                let d = (x - 48) as u64;
                let ghost longer = ip@ + fp@.take(j + 1);
                assert(longer.drop_last() =~= ip@ + fp@.take(j as int));
                assert(longer.last() == fp@[j as int]);
                assert(digits_value(longer) == acc * 10 + d);
                if acc > (u64::MAX - d) / 10 {
                    assert(acc * 10 + d > u64::MAX) by (nonlinear_arith)
                        requires
                            acc > (u64::MAX - d) / 10,
                            d <= 9,
                    ;
                    full = true;
                } else {
                    assert(acc * 10 + d <= u64::MAX) by (nonlinear_arith)
                        requires
                            acc <= (u64::MAX - d) / 10,
                            d <= 9,
                    ;
                    acc = acc * 10 + d;
                    j = j + 1;
                }
            }
            assert(kept_fraction(ip@, fp@, j as int) == j);
            Some(Billions { units: acc, scale: j as i64 })
        },
    }
}

/// The value of group `i` as a decimal number, or `default`.
fn group_billions_exec(caps: &Vec<Option<String>>, i: usize, default: Billions) -> (r: Billions)
    ensures
        r == group_billions(captures_view(Some(*caps))->0, i as int, default),
{
    match group_text(caps, i) {
        Some(t) => match parse_billions(&t) {
            Some(b) => b,
            None => default,
        },
        None => default,
    }
}


/// `units / 10^scale` billions.
pub open spec fn billions(units: u64, scale: i64) -> Billions {
    Billions { units, scale }
}

/// Exactly `units / 10^scale` billions.
pub open spec fn exact(units: u64, scale: i64) -> ParamCount {
    ParamCount::Exact(Billions { units, scale })
}

/// The text of group `i`, or the empty text.
pub open spec fn group_label(caps: Seq<Option<Seq<char>>>, i: int) -> Seq<char> {
    match group(caps, i) {
        Some(t) => t,
        None => Seq::empty(),
    }
}

/// The size label and the total and active parameter counts of a family whose name carries
/// no size.
pub open spec fn fallback_size(family: Seq<char>) -> (Seq<char>, ParamCount, ParamCount) {
    if family == "llama"@ || family == "mistral"@ || family == "qwen"@ {
        ("7b"@, exact(7, 0), exact(7, 0))
    } else if family == "mixtral"@ {
        ("8x7b"@, exact(47, 0), exact(129, 1))
    } else if family == "gemma"@ {
        ("2b"@, exact(2, 0), exact(2, 0))
    } else if family == "phi"@ {
        ("3b"@, exact(3, 0), exact(3, 0))
    } else if family == "deepseek"@ {
        ("67b"@, exact(67, 0), exact(67, 0))
    } else {
        ("unknown"@, exact(7, 0), exact(7, 0))
    }
}

/// The size label and the total and active parameter counts, from the match of
/// [`MOE_PATTERN`] and that of [`SIZE_PATTERN`] in a name, and the name's family.
///
/// A mixture `NxM b` has N times M parameters in all (N read as 1 and M as 0 when they are
/// not numbers); a Mixtral uses 12.9 billion of them per token, any other mixture two
/// experts. A plain `N b` has N (0 when it is not a number). Without either, the family
/// decides.
pub open spec fn size_of(
    moe: Option<Seq<Option<Seq<char>>>>,
    dense: Option<Seq<Option<Seq<char>>>>,
    family: Seq<char>,
) -> (Seq<char>, ParamCount, ParamCount) {
    match moe {
        Some(caps) => {
            let count = group_billions(caps, 1, billions(1, 0));
            let per_expert = group_billions(caps, 2, billions(0, 0));
            let active = if family == "mixtral"@ {
                exact(129, 1)
            } else {
                ParamCount::Product(per_expert, billions(2, 0))
            };
            (group_label(caps, 0), ParamCount::Product(count, per_expert), active)
        },
        None => match dense {
            Some(caps) => {
                let size = group_billions(caps, 1, billions(0, 0));
                (group_label(caps, 0), ParamCount::Exact(size), ParamCount::Exact(size))
            },
            None => fallback_size(family),
        },
    }
}

/// Whether `s` is the text `t`.
fn is_str(s: &Vec<char>, t: &str) -> (r: bool)
    ensures
        r == (s@ == t@),
{
    let tv = chars_of(t);
    crate::text::chars_eq(s, &tv)
}

/// The text of group `i`, or the empty string.
fn group_label_exec(caps: &Vec<Option<String>>, i: usize) -> (r: String)
    ensures
        r@ == group_label(captures_view(Some(*caps))->0, i as int),
{
    match group_text(caps, i) {
        Some(t) => string_of(&t),
        None => String::new(),
    }
}

/// The size label and parameter counts for a family whose name carries no size.
fn fallback_size_exec(family: &Vec<char>) -> (r: (String, ParamCount, ParamCount))
    ensures
        (r.0@, r.1, r.2) == fallback_size(family@),
{
    if is_str(family, "llama") || is_str(family, "mistral") || is_str(family, "qwen") {
        (String::from_str("7b"), ParamCount::Exact(Billions { units: 7, scale: 0 }), ParamCount::Exact(Billions { units: 7, scale: 0 }))
    } else if is_str(family, "mixtral") {
        (String::from_str("8x7b"), ParamCount::Exact(Billions { units: 47, scale: 0 }), ParamCount::Exact(Billions { units: 129, scale: 1 }))
    } else if is_str(family, "gemma") {
        (String::from_str("2b"), ParamCount::Exact(Billions { units: 2, scale: 0 }), ParamCount::Exact(Billions { units: 2, scale: 0 }))
    } else if is_str(family, "phi") {
        (String::from_str("3b"), ParamCount::Exact(Billions { units: 3, scale: 0 }), ParamCount::Exact(Billions { units: 3, scale: 0 }))
    } else if is_str(family, "deepseek") {
        (String::from_str("67b"), ParamCount::Exact(Billions { units: 67, scale: 0 }), ParamCount::Exact(Billions { units: 67, scale: 0 }))
    } else {
        (String::from_str("unknown"), ParamCount::Exact(Billions { units: 7, scale: 0 }), ParamCount::Exact(Billions { units: 7, scale: 0 }))
    }
}

/// The size label and the total and active parameter counts, given the captures of
/// [`MOE_PATTERN`] and [`SIZE_PATTERN`] in a name and the name's family.
pub fn size_from_captures(
    moe: Option<Vec<Option<String>>>,
    dense: Option<Vec<Option<String>>>,
    family: &str,
) -> (r: (String, ParamCount, ParamCount))
    ensures
        (r.0@, r.1, r.2) == size_of(captures_view(moe), captures_view(dense), family@),
{
    let fam = chars_of(family);
    match moe {
        Some(caps) => {
            let count = group_billions_exec(&caps, 1, Billions { units: 1, scale: 0 });
            let per_expert = group_billions_exec(&caps, 2, Billions { units: 0, scale: 0 });
            let active = if is_str(&fam, "mixtral") {
                ParamCount::Exact(Billions { units: 129, scale: 1 })
            } else {
                ParamCount::Product(per_expert, Billions { units: 2, scale: 0 })
            };
            (group_label_exec(&caps, 0), ParamCount::Product(count, per_expert), active)
        },
        None => match dense {
            Some(caps) => {
                let size = group_billions_exec(&caps, 1, Billions { units: 0, scale: 0 });
                (group_label_exec(&caps, 0), ParamCount::Exact(size), ParamCount::Exact(size))
            },
            None => fallback_size_exec(&fam),
        },
    }
}

/// The size label and parameter counts read from a (lower-case) model name.
pub fn detect_size(name: &str, family: &str) -> (r: (String, ParamCount, ParamCount))
    ensures
        (r.0@, r.1, r.2) == size_of(
            regex_captures(MOE_PATTERN@, name@),
            regex_captures(SIZE_PATTERN@, name@),
            family@,
        ),
{
    let moe = captures(MOE_PATTERN, name);
    let dense = captures(SIZE_PATTERN, name);
    size_from_captures(moe, dense, family)
}

/// The quantisation tag: the match of [`QUANT_PATTERN`], or "f16" when there is none.
pub open spec fn quant_of(caps: Option<Seq<Option<Seq<char>>>>) -> Seq<char> {
    match caps {
        Some(c) => match group(c, 0) {
            Some(t) => t,
            None => "f16"@,
        },
        None => "f16"@,
    }
}

/// The quantisation tag, given the captures of [`QUANT_PATTERN`] in a name.
pub fn quant_from_captures(caps: Option<Vec<Option<String>>>) -> (r: String)
    ensures
        r@ == quant_of(captures_view(caps)),
{
    match caps {
        Some(c) => match group_text(&c, 0) {
            Some(t) => string_of(&t),
            None => String::from_str("f16"),
        },
        None => String::from_str("f16"),
    }
}

/// The quantisation tag read from a (lower-case) model name.
pub fn detect_quant(name: &str) -> (r: String)
    ensures
        r@ == quant_of(regex_captures(QUANT_PATTERN@, name@)),
{
    quant_from_captures(captures(QUANT_PATTERN, name))
}

/// The model that a name describes: the family, size and quantisation are read from the
/// name in lower case, and the name itself is kept as given.
pub open spec fn parsed_model(name: Seq<char>, source: ModelSource) -> ModelView {
    let lower = lowercase(name);
    let family = family_of(lower);
    let size = size_of(
        regex_captures(MOE_PATTERN@, lower),
        regex_captures(SIZE_PATTERN@, lower),
        family,
    );
    ModelView {
        name,
        family,
        size_label: size.0,
        total_params: size.1,
        active_params: size.2,
        quant: quant_of(regex_captures(QUANT_PATTERN@, lower)),
        source,
    }
}

/// Reads the family, size and quantisation of a model from its name.
pub fn parse_model_string(name: &str, source: ModelSource) -> (r: Model)
    ensures
        r@ == parsed_model(name@, source),
{
    let lower = to_lowercase(name);
    let family = detect_family(lower.as_str());
    let (size_label, total_params, active_params) = detect_size(lower.as_str(), family.as_str());
    let quant = detect_quant(lower.as_str());
    Model {
        name: String::from_str(name),
        family,
        size_label,
        total_params,
        active_params,
        quant,
        source,
    }
}


/// Bits stored per parameter under a quantisation, in tenths of a bit (GGUF block formats
/// carry their scales, so q4 costs about 5 bits); 16 bits when the tag is not recognised.
pub open spec fn bits_tenths_of(quant: Seq<char>) -> u64 {
    if has_substring(quant, "q8"@) {
        85
    } else if has_substring(quant, "q6"@) {
        65
    } else if has_substring(quant, "q5"@) {
        55
    } else if has_substring(quant, "q4"@) {
        50
    } else if has_substring(quant, "q3"@) {
        35
    } else if has_substring(quant, "q2"@) {
        25
    } else if has_substring(quant, "fp16"@) || has_substring(quant, "f16"@) {
        160
    } else if has_substring(quant, "bf16"@) {
        160
    } else if has_substring(quant, "fp32"@) {
        320
    } else {
        160
    }
}

/// Bits per parameter, in tenths of a bit, for a quantisation tag.
pub fn bits_per_param_tenths(quant: &str) -> (r: u64)
    ensures
        r == bits_tenths_of(quant@),
{
    let q = chars_of(quant);
    if contains_str(&q, "q8") {
        85
    } else if contains_str(&q, "q6") {
        65
    } else if contains_str(&q, "q5") {
        55
    } else if contains_str(&q, "q4") {
        50
    } else if contains_str(&q, "q3") {
        35
    } else if contains_str(&q, "q2") {
        25
    } else if contains_str(&q, "fp16") || contains_str(&q, "f16") {
        160
    } else if contains_str(&q, "bf16") {
        160
    } else if contains_str(&q, "fp32") {
        320
    } else {
        160
    }
}

/// Ten to the power `n`.
pub open spec fn pow10(n: nat) -> nat
    decreases n,
{
    if n == 0 {
        1
    } else {
        10 * pow10((n - 1) as nat)
    }
}

proof fn lemma_pow10_mono(a: nat, b: nat)
    requires
        a <= b,
    ensures
        1 <= pow10(a) <= pow10(b),
    decreases b,
{
    if a < b {
        lemma_pow10_mono(a, (b - 1) as nat);
    } else if b > 0 {
        lemma_pow10_mono(0, (b - 1) as nat);
    }
}

/// Whether a parameter count is more than `t` billion.
pub open spec fn exceeds_spec(p: ParamCount, t: nat) -> bool {
    match p {
        ParamCount::Exact(b) => scaled_exceeds(b.units as nat, b.scale as int, t),
        ParamCount::Product(a, b) => scaled_exceeds(
            (a.units * b.units) as nat,
            a.scale + b.scale,
            t,
        ),
    }
}

/// Whether `units / 10^scale` is more than `t`.
pub open spec fn scaled_exceeds(units: nat, scale: int, t: nat) -> bool {
    if scale >= 0 {
        units > t * pow10(scale as nat)
    } else {
        units * pow10((-scale) as nat) > t
    }
}

/// Whether `units * 10^k` is more than `t`.
fn grows_past(units: u128, k: u128, t: u64) -> (r: bool)
    ensures
        r == (units * pow10(k as nat) > t),
{
    let mut v: u128 = units;
    let mut i: u128 = 0;
    assert(pow10(0) == 1);
    while i < k && v <= t as u128
        invariant
            i <= k,
            v == units * pow10(i as nat),
        decreases k - i,
    {
        proof {
            assert(units * pow10((i + 1) as nat) == 10 * v) by (nonlinear_arith)
                requires
                    v == units * pow10(i as nat),
                    pow10((i + 1) as nat) == 10 * pow10(i as nat),
            ;
        }
        v = v * 10;
        i = i + 1;
    }
    if v > t as u128 {
        proof {
            lemma_pow10_mono(i as nat, k as nat);
            assert(units * pow10(k as nat) >= units * pow10(i as nat)) by (nonlinear_arith)
                requires
                    pow10(i as nat) <= pow10(k as nat),
            ;
        }
        true
    } else {
        false
    }
}

/// `t * 10^s`, when it fits in a `u128`.
fn scaled_threshold(t: u64, s: u64) -> (r: Option<u128>)
    ensures
        r matches Some(v) ==> v == t * pow10(s as nat),
        r is None ==> t * pow10(s as nat) > u128::MAX,
{
    let mut v: u128 = t as u128;
    let mut i: u64 = 0;
    assert(pow10(0) == 1);
    while i < s
        invariant
            i <= s,
            v == t * pow10(i as nat),
        decreases s - i,
    {
        if v > u128::MAX / 10 {
            proof {
                lemma_pow10_mono((i + 1) as nat, s as nat);
                assert(t * pow10((i + 1) as nat) == 10 * v) by (nonlinear_arith)
                    requires
                        v == t * pow10(i as nat),
                        pow10((i + 1) as nat) == 10 * pow10(i as nat),
                ;
                assert(t * pow10(s as nat) >= t * pow10((i + 1) as nat)) by (nonlinear_arith)
                    requires
                        pow10((i + 1) as nat) <= pow10(s as nat),
                ;
            }
            return None;
        }
        proof {
            assert(t * pow10((i + 1) as nat) == 10 * v) by (nonlinear_arith)
                requires
                    v == t * pow10(i as nat),
                    pow10((i + 1) as nat) == 10 * pow10(i as nat),
            ;
        }
        v = v * 10;
        i = i + 1;
    }
    Some(v)
}

/// Whether a parameter count is more than `t` billion.
pub fn exceeds(p: ParamCount, t: u64) -> (r: bool)
    ensures
        r == exceeds_spec(p, t as nat),
{
    let (lhs, s): (u128, i128) = match p {
        ParamCount::Exact(b) => (b.units as u128, b.scale as i128),
        ParamCount::Product(a, b) => {
            assert(a.units * b.units <= u128::MAX) by (nonlinear_arith)
                requires
                    a.units <= u64::MAX,
                    b.units <= u64::MAX,
            ;
            (a.units as u128 * b.units as u128, a.scale as i128 + b.scale as i128)
        },
    };
    if s >= 0 {
        match scaled_threshold(t, s as u64) {
            Some(v) => lhs > v,
            None => false,
        }
    } else {
        grows_past(lhs, (-s) as u128, t)
    }
}

/// The number of layers and the hidden size assumed for a model of a family and size.
pub open spec fn arch_params(family: Seq<char>, total: ParamCount) -> (usize, usize) {
    if family == "llama"@ {
        if exceeds_spec(total, 60) {
            (80, 8192)
        } else if exceeds_spec(total, 10) {
            (40, 5120)
        } else {
            (32, 4096)
        }
    } else if family == "mistral"@ || family == "mixtral"@ {
        (32, 4096)
    } else if family == "qwen"@ {
        if exceeds_spec(total, 10) {
            (40, 5120)
        } else {
            (32, 4096)
        }
    } else if family == "gemma"@ {
        (18, 2048)
    } else if family == "phi"@ {
        (32, 2560)
    } else {
        (32, 4096)
    }
}

/// The number of layers and the hidden size assumed for a model.
pub fn guess_arch_params(model: &Model) -> (r: (usize, usize))
    ensures
        r == arch_params(model.family@, model.total_params),
{
    let fam = chars_of(model.family.as_str());
    if is_str(&fam, "llama") {
        if exceeds(model.total_params, 60) {
            (80, 8192)
        } else if exceeds(model.total_params, 10) {
            (40, 5120)
        } else {
            (32, 4096)
        }
    } else if is_str(&fam, "mistral") || is_str(&fam, "mixtral") {
        (32, 4096)
    } else if is_str(&fam, "qwen") {
        if exceeds(model.total_params, 10) {
            (40, 5120)
        } else {
            (32, 4096)
        }
    } else if is_str(&fam, "gemma") {
        (18, 2048)
    } else if is_str(&fam, "phi") {
        (32, 2560)
    } else {
        (32, 4096)
    }
}

/// The share of the full key/value cache that a family keeps, in quarters: a quarter for
/// the families that use grouped-query attention, all of it otherwise.
pub open spec fn kv_quarters_of(family: Seq<char>) -> u64 {
    if has_substring(family, "llama"@) || has_substring(family, "mistral"@) || has_substring(
        family,
        "qwen"@,
    ) {
        1
    } else {
        4
    }
}

/// The share of the key/value cache kept, in quarters.
pub fn kv_factor_quarters(family: &str) -> (r: u64)
    ensures
        r == kv_quarters_of(family@),
{
    let f = chars_of(family);
    if contains_str(&f, "llama") || contains_str(&f, "mistral") || contains_str(&f, "qwen") {
        1
    } else {
        4
    }
}

/// The largest product of layers, hidden size, context and batch for which the cache
/// estimate is computed to the byte: up to it, four times the product stays within the
/// integers that a double holds exactly.
pub const KV_EXACT_LIMIT: u64 = 2251799813685248;

/// The bytes of the key/value cache: two tensors (keys and values) of two-byte numbers for
/// every layer, hidden unit, token of context and sequence of the batch, of which the
/// family keeps `kv_quarters_of` quarters; nothing when the product of the four sizes is
/// beyond [`KV_EXACT_LIMIT`].
pub open spec fn kv_cache_of(
    family: Seq<char>,
    layers: int,
    hidden: int,
    ctx_len: int,
    batch_size: int,
) -> Option<u64> {
    let p = layers * hidden * ctx_len * batch_size;
    if p <= KV_EXACT_LIMIT {
        Some((p * kv_quarters_of(family)) as u64)
    } else {
        None
    }
}

/// `a * b` when it is at most `limit`.
fn bounded_mul(a: u64, b: u64, limit: u64) -> (r: Option<u64>)
    ensures
        r == (if a * b <= limit { Some((a * b) as u64) } else { None::<u64> }),
{
    if a == 0 || b == 0 {
        assert(a * b == 0) by (nonlinear_arith)
            requires
                a == 0 || b == 0,
        ;
        Some(0)
    } else if a > limit / b {
        assert(a * b > limit) by (nonlinear_arith)
            requires
                a > limit / b,
                b > 0,
        ;
        None
    } else {
        assert(a * b <= limit) by (nonlinear_arith)
            requires
                a <= limit / b,
                b > 0,
        ;
        Some(a * b)
    }
}

/// The bytes of the key/value cache for a model of the given family and shape, at a
/// context length and batch size.
pub fn kv_cache_bytes(
    family: &str,
    layers: usize,
    hidden: usize,
    ctx_len: usize,
    batch_size: usize,
) -> (r: Option<u64>)
    ensures
        r == kv_cache_of(family@, layers as int, hidden as int, ctx_len as int, batch_size as int),
{
    let l = layers as u64;
    let h = hidden as u64;
    let c = ctx_len as u64;
    let b = batch_size as u64;
    let q = kv_factor_quarters(family);
    let ghost p: int = l * h * c * b;
    if l == 0 || h == 0 || c == 0 || b == 0 {
        assert(p == 0) by (nonlinear_arith)
            requires
                l == 0 || h == 0 || c == 0 || b == 0,
                p == l * h * c * b,
        ;
        return Some(0);
    }
    let lh = match bounded_mul(l, h, KV_EXACT_LIMIT) {
        Some(x) => x,
        None => {
            assert(p > KV_EXACT_LIMIT) by (nonlinear_arith)
                requires
                    l * h > KV_EXACT_LIMIT,
                    c >= 1,
                    b >= 1,
                    p == l * h * c * b,
            ;
            return None;
        },
    };
    let lhc = match bounded_mul(lh, c, KV_EXACT_LIMIT) {
        Some(x) => x,
        None => {
            assert(p > KV_EXACT_LIMIT) by (nonlinear_arith)
                requires
                    lh * c > KV_EXACT_LIMIT,
                    b >= 1,
                    p == lh * c * b,
            ;
            return None;
        },
    };
    match bounded_mul(lhc, b, KV_EXACT_LIMIT) {
        Some(x) => {
            assert(x * q <= 4 * KV_EXACT_LIMIT) by (nonlinear_arith)
                requires
                    x <= KV_EXACT_LIMIT,
                    q <= 4,
            ;
            Some(x * q)
        },
        None => None,
    }
}

/// The memory a model needs: its weights, its key/value cache, the overhead on the
/// weights, and four bytes per hidden unit for every token of context in the batch.
pub open spec fn required_total(
    weights: int,
    kv_cache: int,
    weight_overhead: int,
    ctx_len: int,
    batch_size: int,
    hidden: int,
) -> int {
    weights + kv_cache + weight_overhead + ctx_len * batch_size * hidden * 4
}

/// The memory bandwidth, in GB/s, assumed for a backend.
pub open spec fn bandwidth_of(backend: GpuBackend) -> u64 {
    match backend {
        GpuBackend::Nvidia => 500,
        GpuBackend::Amd => 400,
        GpuBackend::Apple => 100,
        GpuBackend::CpuOnly => 40,
        GpuBackend::Generic => 50,
    }
}

/// The memory bandwidth, in GB/s, assumed for a backend.
pub fn memory_bandwidth_gbps(backend: GpuBackend) -> (r: u64)
    ensures
        r == bandwidth_of(backend),
{
    match backend {
        GpuBackend::Nvidia => 500,
        GpuBackend::Amd => 400,
        GpuBackend::Apple => 100,
        GpuBackend::CpuOnly => 40,
        GpuBackend::Generic => 50,
    }
}

/// The memory a model needs: its weights, its key/value cache, an overhead proportional to
/// the weights, and four bytes per hidden unit per token of context in the batch.
pub fn required_memory(
    weights: u64,
    kv_cache: u64,
    weight_overhead: u64,
    ctx_len: usize,
    batch_size: usize,
    hidden: usize,
) -> (r: u64)
    requires
        ctx_len * batch_size <= usize::MAX,
        ctx_len * batch_size * hidden <= usize::MAX,
        ctx_len * batch_size * hidden * 4 <= usize::MAX,
        weights + kv_cache + weight_overhead + ctx_len * batch_size * hidden * 4 <= u64::MAX,
    ensures
        r == required_total(
            weights as int,
            kv_cache as int,
            weight_overhead as int,
            ctx_len as int,
            batch_size as int,
            hidden as int,
        ),
{
    let context = ctx_len * batch_size * hidden * 4;
    let overhead = weight_overhead + context as u64;
    weights + kv_cache + overhead
}


/// The abstract value of a [`FitStatus`].
pub enum FitView {
    Fits,
    Partial(Seq<char>),
    No,
}

impl View for FitStatus {
    type V = FitView;

    open spec fn view(&self) -> FitView {
        match self {
            FitStatus::Fits => FitView::Fits,
            FitStatus::Partial(t) => FitView::Partial(t@),
            FitStatus::No => FitView::No,
        }
    }
}

/// Where a model's memory goes: bytes in VRAM, bytes in system RAM, and the verdict.
#[derive(Debug, Clone)]
pub struct Placement {
    pub vram_usage_bytes: u64,
    pub ram_usage_bytes: u64,
    pub vram_status: FitStatus,
}

/// How `total` bytes are spread over a machine's memory.
///
/// Without a GPU everything goes to RAM. With unified memory (Apple) the model fits when it
/// is smaller than the memory, and otherwise fills it and overflows. With a dedicated GPU
/// the model fits when it is smaller than the VRAM; otherwise the VRAM is filled and the
/// rest spills to the available RAM when it is smaller than that (`offload` describes
/// this), and when it is not, VRAM and RAM are filled and the model does not fit.
pub open spec fn placement_of(
    total: u64,
    backend: GpuBackend,
    vram: u64,
    ram: u64,
    offload: Seq<char>,
) -> (u64, u64, FitView) {
    if backend == GpuBackend::CpuOnly {
        (0, total, FitView::Partial("CPU Only"@))
    } else if backend == GpuBackend::Apple {
        if total < vram {
            (total, 0, FitView::Fits)
        } else {
            (vram, (total - vram) as u64, FitView::No)
        }
    } else {
        if total < vram {
            (total, 0, FitView::Fits)
        } else if ((total - vram) as u64) < ram {
            (vram, (total - vram) as u64, FitView::Partial(offload))
        } else {
            (vram, ram, FitView::No)
        }
    }
}

/// Places `total_required` bytes on the machine; `offload_label` is the text that a partial
/// offload to RAM is reported with.
pub fn place_model(total_required: u64, sys: &SystemInfo, offload_label: String) -> (r: Placement)
    ensures
        (r.vram_usage_bytes, r.ram_usage_bytes, r.vram_status@) == placement_of(
            total_required,
            sys.gpu.backend,
            sys.gpu.vram_total_bytes,
            sys.ram_available_bytes,
            offload_label@,
        ),
{
    let available_vram = sys.gpu.vram_total_bytes;
    let available_ram = sys.ram_available_bytes;
    if sys.gpu.backend == GpuBackend::CpuOnly {
        Placement {
            vram_usage_bytes: 0,
            ram_usage_bytes: total_required,
            vram_status: FitStatus::Partial(String::from_str("CPU Only")),
        }
    } else if sys.gpu.backend == GpuBackend::Apple {
        if total_required < available_vram {
            Placement {
                vram_usage_bytes: total_required,
                ram_usage_bytes: 0,
                vram_status: FitStatus::Fits,
            }
        } else {
            Placement {
                vram_usage_bytes: available_vram,
                ram_usage_bytes: total_required - available_vram,
                vram_status: FitStatus::No,
            }
        }
    } else {
        if total_required < available_vram {
            Placement {
                vram_usage_bytes: total_required,
                ram_usage_bytes: 0,
                vram_status: FitStatus::Fits,
            }
        } else {
            let spill = total_required.saturating_sub(available_vram);
            if spill < available_ram {
                Placement {
                    vram_usage_bytes: available_vram,
                    ram_usage_bytes: spill,
                    vram_status: FitStatus::Partial(offload_label),
                }
            } else {
                Placement {
                    vram_usage_bytes: available_vram,
                    ram_usage_bytes: available_ram,
                    vram_status: FitStatus::No,
                }
            }
        }
    }
}

/// The advice given for a placement on a GPU with `vram_total` bytes.
pub open spec fn recommendation_of(p: (u64, u64, FitView), vram_total: u64) -> Seq<char> {
    if p.0 < vram_total {
        "Excellent. Run entirely on GPU."@
    } else if p.1 > 0 && p.2 is Partial {
        "Functional but slower due to CPU offloading."@
    } else {
        "Model is too large for this system."@
    }
}

/// The advice for a placement on a machine.
pub fn recommendation(p: &Placement, sys: &SystemInfo) -> (r: String)
    ensures
        r@ == recommendation_of(
            (p.vram_usage_bytes, p.ram_usage_bytes, p.vram_status@),
            sys.gpu.vram_total_bytes,
        ),
{
    if p.vram_usage_bytes < sys.gpu.vram_total_bytes {
        String::from_str("Excellent. Run entirely on GPU.")
    } else if p.ram_usage_bytes > 0 && matches!(p.vram_status, FitStatus::Partial(_)) {
        String::from_str("Functional but slower due to CPU offloading.")
    } else {
        String::from_str("Model is too large for this system.")
    }
}

/// A number of tenths written with one decimal, such as `8.5` or `16.0`.
pub open spec fn tenths_text(t: nat) -> Seq<char> {
    decimal_seq(t / 10) + "."@ + decimal_seq(t % 10)
}

/// The notes that go with an estimate: the bits per weight assumed for the quantisation,
/// and for Mixtral that the active parameters set the speed.
pub open spec fn notes_of(bits_tenths: u64, quant: Seq<char>, family: Seq<char>) -> Seq<Seq<char>> {
    let first = "Assumed "@ + tenths_text(bits_tenths as nat) + " bits per weight ("@ + quant
        + ")"@;
    if family == "mixtral"@ {
        seq![first, "Mixtral MoE: Active params used for speed estimate."@]
    } else {
        seq![first]
    }
}

/// The views of a sequence of strings.
pub open spec fn string_views(v: Seq<String>) -> Seq<Seq<char>> {
    v.map_values(|s: String| s@)
}

/// The notes for an estimate with `bits_tenths` bits per weight.
pub fn estimation_notes(bits_tenths: u64, quant: &str, family: &str) -> (r: Vec<String>)
    ensures
        string_views(r@) == notes_of(bits_tenths, quant@, family@),
{
    let whole = string_of(&decimal_string(bits_tenths / 10));
    let frac = string_of(&decimal_string(bits_tenths % 10));
    let first = String::from_str("Assumed ").concat(whole.as_str()).concat(".").concat(
        frac.as_str(),
    ).concat(" bits per weight (").concat(quant).concat(")");
    assert(first@ =~= "Assumed "@ + tenths_text(bits_tenths as nat) + " bits per weight ("@
        + quant@ + ")"@);
    let mut notes: Vec<String> = Vec::new();
    notes.push(first);
    let fam = chars_of(family);
    if is_str(&fam, "mixtral") {
        notes.push(String::from_str("Mixtral MoE: Active params used for speed estimate."));
    }
    assert(string_views(notes@) =~= notes_of(bits_tenths, quant@, family@));
    notes
}


/// A model name always falls in one of the known families, or in "unknown".
pub proof fn lemma_family_known(name: Seq<char>)
    ensures
        ({
            let f = family_of(name);
            f == "llama"@ || f == "mistral"@ || f == "mixtral"@ || f == "qwen"@ || f == "gemma"@
                || f == "phi"@ || f == "yi"@ || f == "falcon"@ || f == "starcoder"@ || f
                == "deepseek"@ || f == "command-r"@ || f == "unknown"@
        }),
{
}

/// What a placement does with the memory: a model that fits is entirely in VRAM; one that
/// fits or runs partly offloaded has all its bytes accounted for between VRAM and RAM;
/// without a GPU nothing goes to VRAM; and with a GPU no more VRAM is used than there is.
pub proof fn lemma_placement_accounts(
    total: u64,
    backend: GpuBackend,
    vram: u64,
    ram: u64,
    offload: Seq<char>,
)
    ensures
        ({
            let p = placement_of(total, backend, vram, ram, offload);
            &&& p.2 is Fits ==> p.0 == total && p.1 == 0 && total < vram
            &&& (p.2 is Fits || p.2 is Partial) ==> p.0 + p.1 == total
            &&& backend == GpuBackend::CpuOnly ==> p.0 == 0 && p.1 == total
            &&& backend != GpuBackend::CpuOnly ==> p.0 <= vram
            &&& backend != GpuBackend::CpuOnly && total >= vram ==> !(p.2 is Fits)
        }),
{
}

/// The families that use grouped-query attention (any name holding "llama", "mistral" or
/// "qwen") keep a quarter of the full cache, two bytes for each of keys and values: one byte
/// per layer, hidden unit, token and sequence. Every other family keeps all of it, four
/// bytes.
pub proof fn lemma_kv_cache_share(
    family: Seq<char>,
    layers: int,
    hidden: int,
    ctx_len: int,
    batch_size: int,
)
    requires
        0 <= layers,
        0 <= hidden,
        0 <= ctx_len,
        0 <= batch_size,
        layers * hidden * ctx_len * batch_size <= KV_EXACT_LIMIT,
    ensures
        (has_substring(family, "llama"@) || has_substring(family, "mistral"@) || has_substring(
            family,
            "qwen"@,
        )) ==> kv_quarters_of(family) == 1 && kv_cache_of(
            family,
            layers,
            hidden,
            ctx_len,
            batch_size,
        ) == Some((layers * hidden * ctx_len * batch_size) as u64),
        !(has_substring(family, "llama"@) || has_substring(family, "mistral"@) || has_substring(
            family,
            "qwen"@,
        )) ==> kv_quarters_of(family) == 4 && kv_cache_of(
            family,
            layers,
            hidden,
            ctx_len,
            batch_size,
        ) == Some((4 * (layers * hidden * ctx_len * batch_size)) as u64),
{
    let p = layers * hidden * ctx_len * batch_size;
    assert(p * 4 == 4 * p);
}

/// A decimal has the value `num / 10^digits`.
pub open spec fn has_value(b: Billions, num: nat, digits: nat) -> bool {
    if b.scale >= 0 {
        b.units * pow10(digits) == num * pow10(b.scale as nat)
    } else {
        b.units * pow10((-b.scale) as nat) * pow10(digits) == num
    }
}

/// A parameter count is the single decimal `num / 10^digits`.
pub open spec fn count_is(p: ParamCount, num: nat, digits: nat) -> bool {
    p matches ParamCount::Exact(b) && has_value(b, num, digits)
}

/// A name in which no size is found gets the usual size of its family: 7 billion for
/// llama, mistral and qwen (labelled "7b"), 47 billion of which 12.9 are active for
/// mixtral ("8x7b"), 2 for gemma, 3 for phi, 67 for deepseek, and 7 ("unknown") for any
/// other family.
pub proof fn lemma_sizes_without_size_in_name(name: Seq<char>, source: ModelSource)
    requires
        regex_captures(MOE_PATTERN@, lowercase(name)) is None,
        regex_captures(SIZE_PATTERN@, lowercase(name)) is None,
    ensures
        ({
            let m = parsed_model(name, source);
            let f = m.family;
            &&& (f == "llama"@ || f == "mistral"@ || f == "qwen"@) ==> m.size_label == "7b"@
                && count_is(m.total_params, 7, 0) && count_is(m.active_params, 7, 0)
            &&& f == "mixtral"@ ==> m.size_label == "8x7b"@ && count_is(m.total_params, 47, 0)
                && count_is(m.active_params, 129, 1)
            &&& f == "gemma"@ ==> m.size_label == "2b"@ && count_is(m.total_params, 2, 0)
                && count_is(m.active_params, 2, 0)
            &&& f == "phi"@ ==> m.size_label == "3b"@ && count_is(m.total_params, 3, 0)
                && count_is(m.active_params, 3, 0)
            &&& f == "deepseek"@ ==> m.size_label == "67b"@ && count_is(m.total_params, 67, 0)
                && count_is(m.active_params, 67, 0)
            &&& !(f == "llama"@ || f == "mistral"@ || f == "qwen"@ || f == "mixtral"@ || f
                == "gemma"@ || f == "phi"@ || f == "deepseek"@) ==> m.size_label == "unknown"@
                && count_is(m.total_params, 7, 0) && count_is(m.active_params, 7, 0)
        }),
{
    reveal_with_fuel(pow10, 2);
    reveal_strlit("llama");
    reveal_strlit("mistral");
    reveal_strlit("qwen");
    reveal_strlit("mixtral");
    reveal_strlit("gemma");
    reveal_strlit("phi");
    reveal_strlit("deepseek");
    assert("mixtral"@ != "llama"@ && "mixtral"@ != "mistral"@ && "mixtral"@ != "qwen"@) by {
        assert("mixtral"@[0] != "llama"@[0]);
        assert("mixtral"@[2] != "mistral"@[2]);
        assert("mixtral"@[0] != "qwen"@[0]);
    }
    assert("gemma"@ != "llama"@ && "gemma"@ != "mistral"@ && "gemma"@ != "qwen"@
        && "gemma"@ != "mixtral"@) by {
        assert("gemma"@[0] != "llama"@[0]);
        assert("gemma"@[0] != "mistral"@[0]);
        assert("gemma"@[0] != "qwen"@[0]);
        assert("gemma"@[0] != "mixtral"@[0]);
    }
    assert("phi"@ != "llama"@ && "phi"@ != "mistral"@ && "phi"@ != "qwen"@ && "phi"@
        != "mixtral"@ && "phi"@ != "gemma"@) by {
        assert("phi"@[0] != "llama"@[0]);
        assert("phi"@[0] != "mistral"@[0]);
        assert("phi"@[0] != "qwen"@[0]);
        assert("phi"@[0] != "mixtral"@[0]);
        assert("phi"@[0] != "gemma"@[0]);
    }
    assert("deepseek"@ != "llama"@ && "deepseek"@ != "mistral"@ && "deepseek"@ != "qwen"@
        && "deepseek"@ != "mixtral"@ && "deepseek"@ != "gemma"@ && "deepseek"@ != "phi"@) by {
        assert("deepseek"@[0] != "llama"@[0]);
        assert("deepseek"@[0] != "mistral"@[0]);
        assert("deepseek"@[0] != "qwen"@[0]);
        assert("deepseek"@[0] != "mixtral"@[0]);
        assert("deepseek"@[0] != "gemma"@[0]);
        assert("deepseek"@[0] != "phi"@[0]);
    }
}

/// A shorter context, a smaller batch or more VRAM never turns a fit into a non-fit: for
/// one model (its family, shape, weights and overhead on them), the cache and the memory
/// needed do not grow when context and batch shrink, and a placement that fits keeps
/// fitting on a GPU with at least as much VRAM, whatever RAM is available.
pub proof fn lemma_fit_monotone(
    family: Seq<char>,
    layers: int,
    hidden: int,
    weights: int,
    weight_overhead: int,
    ctx_small: int,
    batch_small: int,
    ctx_large: int,
    batch_large: int,
    backend: GpuBackend,
    vram_small: u64,
    vram_large: u64,
    ram_small: u64,
    ram_large: u64,
    offload_small: Seq<char>,
    offload_large: Seq<char>,
)
    requires
        0 <= layers,
        0 <= hidden,
        0 <= weights,
        0 <= weight_overhead,
        0 <= ctx_small <= ctx_large,
        0 <= batch_small <= batch_large,
        vram_small <= vram_large,
        kv_cache_of(family, layers, hidden, ctx_large, batch_large) is Some,
        required_total(
            weights,
            kv_cache_of(family, layers, hidden, ctx_large, batch_large)->0 as int,
            weight_overhead,
            ctx_large,
            batch_large,
            hidden,
        ) <= u64::MAX,
        placement_of(
            required_total(
                weights,
                kv_cache_of(family, layers, hidden, ctx_large, batch_large)->0 as int,
                weight_overhead,
                ctx_large,
                batch_large,
                hidden,
            ) as u64,
            backend,
            vram_small,
            ram_small,
            offload_small,
        ).2 is Fits,
    ensures
        kv_cache_of(family, layers, hidden, ctx_small, batch_small) is Some,
        kv_cache_of(family, layers, hidden, ctx_small, batch_small)->0 <= kv_cache_of(
            family,
            layers,
            hidden,
            ctx_large,
            batch_large,
        )->0,
        required_total(
            weights,
            kv_cache_of(family, layers, hidden, ctx_small, batch_small)->0 as int,
            weight_overhead,
            ctx_small,
            batch_small,
            hidden,
        ) <= required_total(
            weights,
            kv_cache_of(family, layers, hidden, ctx_large, batch_large)->0 as int,
            weight_overhead,
            ctx_large,
            batch_large,
            hidden,
        ),
        placement_of(
            required_total(
                weights,
                kv_cache_of(family, layers, hidden, ctx_small, batch_small)->0 as int,
                weight_overhead,
                ctx_small,
                batch_small,
                hidden,
            ) as u64,
            backend,
            vram_large,
            ram_large,
            offload_large,
        ).2 is Fits,
{
    let q = kv_quarters_of(family) as int;
    let p_small = layers * hidden * ctx_small * batch_small;
    let p_large = layers * hidden * ctx_large * batch_large;
    assert(p_small <= p_large && 0 <= p_small) by (nonlinear_arith)
        requires
            0 <= layers,
            0 <= hidden,
            0 <= ctx_small <= ctx_large,
            0 <= batch_small <= batch_large,
            p_small == layers * hidden * ctx_small * batch_small,
            p_large == layers * hidden * ctx_large * batch_large,
    ;
    assert(p_small * q <= p_large * q && 0 <= p_small * q) by (nonlinear_arith)
        requires
            0 <= p_small <= p_large,
            1 <= q <= 4,
    ;
    assert(p_large * q <= 4 * KV_EXACT_LIMIT) by (nonlinear_arith)
        requires
            p_large <= KV_EXACT_LIMIT,
            1 <= q <= 4,
    ;
    let c_small = ctx_small * batch_small * hidden * 4;
    let c_large = ctx_large * batch_large * hidden * 4;
    assert(c_small <= c_large) by (nonlinear_arith)
        requires
            0 <= hidden,
            0 <= ctx_small <= ctx_large,
            0 <= batch_small <= batch_large,
            c_small == ctx_small * batch_small * hidden * 4,
            c_large == ctx_large * batch_large * hidden * 4,
    ;
}

/// The advice is "Excellent" exactly when the VRAM used is below the GPU's VRAM.
pub proof fn lemma_recommendation_excellent(p: (u64, u64, FitView), vram_total: u64)
    ensures
        (recommendation_of(p, vram_total) == "Excellent. Run entirely on GPU."@) <==> p.0
            < vram_total,
{
    if p.0 >= vram_total {
        reveal_strlit("Excellent. Run entirely on GPU.");
        reveal_strlit("Functional but slower due to CPU offloading.");
        reveal_strlit("Model is too large for this system.");
        assert("Excellent. Run entirely on GPU."@[0] != "Functional but slower due to CPU offloading."@[0]);
        assert("Excellent. Run entirely on GPU."@[0] != "Model is too large for this system."@[0]);
    }
}


/// The headline shown for a fit verdict.
pub open spec fn status_text_of(s: FitView) -> Seq<char> {
    match s {
        FitView::Fits => "YES - RUNS FAST"@,
        FitView::Partial(t) => "MAYBE - "@ + t,
        FitView::No => "NO - INSUFFICIENT VRAM"@,
    }
}

/// The headline shown for a fit verdict.
pub fn status_text(s: &FitStatus) -> (r: String)
    ensures
        r@ == status_text_of(s@),
{
    match s {
        FitStatus::Fits => String::from_str("YES - RUNS FAST"),
        FitStatus::Partial(t) => String::from_str("MAYBE - ").concat(t.as_str()),
        FitStatus::No => String::from_str("NO - INSUFFICIENT VRAM"),
    }
}

/// How a model is listed: its name and, in brackets, its size.
pub fn list_entry(m: &Model) -> (r: String)
    ensures
        r@ == m.name@ + " ["@ + m.size_label@ + "]"@,
{
    let r = m.name.clone().concat(" [").concat(m.size_label.as_str()).concat("]");
    assert(r@ =~= m.name@ + " ["@ + m.size_label@ + "]"@);
    r
}

} // verus!
