//! The machine a model is meant to run on, and how its GPU is recognised from the output
//! of the vendors' tools.

use vstd::prelude::*;
use crate::text::{
    chars_of, contains_str, has_substring, lines, lines_seq, opt_view, parse_u64, parse_u64_seq,
    split, split_seq, string_of, trim, trim_seq,
};

verus! {

/// The kind of accelerator a machine offers.
#[derive(Debug, Clone, Copy, PartialEq, Eq, Structural)]
pub enum GpuBackend {
    Nvidia,
    Amd,
    Apple,
    CpuOnly,
    Generic,
}

/// The GPU of a machine.
#[derive(Debug, Clone)]
pub struct GpuInfo {
    pub name: String,
    pub vram_total_bytes: u64,
    pub backend: GpuBackend,
}

/// The CPU, memory and GPU of a machine.
#[derive(Debug, Clone)]
pub struct SystemInfo {
    pub cpu_name: String,
    pub cpu_cores: usize,
    pub ram_total_bytes: u64,
    pub ram_available_bytes: u64,
    pub gpu: GpuInfo,
}

/// The GPU of a machine on which no accelerator was found.
pub fn fallback_gpu() -> (g: GpuInfo)
    ensures
        g.name@ == "CPU (No dedicated GPU detected)"@,
        g.vram_total_bytes == 0,
        g.backend == GpuBackend::CpuOnly,
{
    GpuInfo {
        name: String::from_str("CPU (No dedicated GPU detected)"),
        vram_total_bytes: 0,
        backend: GpuBackend::CpuOnly,
    }
}

/// The GPU that the probes found, in the order of preference: NVIDIA first, then Apple
/// silicon, then AMD.
pub open spec fn probed_gpu(
    nvidia: Option<GpuInfo>,
    apple: Option<GpuInfo>,
    amd: Option<GpuInfo>,
) -> Option<GpuInfo> {
    match nvidia {
        Some(g) => Some(g),
        None => match apple {
            Some(g) => Some(g),
            None => amd,
        },
    }
}

/// The probes are preferred in a fixed order: a GPU that the NVIDIA probe found is used
/// whatever the others found; Apple silicon is used when NVIDIA found none; and the AMD
/// probe's result stands when neither of the others found anything.
pub proof fn lemma_gpu_probe_order(nvidia: Option<GpuInfo>, apple: Option<GpuInfo>, amd: Option<GpuInfo>)
    ensures
        nvidia matches Some(x) ==> probed_gpu(nvidia, apple, amd) == Some(x),
        nvidia is None ==> (apple matches Some(x) ==> probed_gpu(nvidia, apple, amd) == Some(x)),
        nvidia is None && apple is None ==> (amd matches Some(x) ==> probed_gpu(nvidia, apple, amd)
            == Some(x)),
        probed_gpu(nvidia, apple, amd) is None <==> (nvidia is None && apple is None && amd is None),
{
}

/// Picks the GPU among the results of the three probes, and the CPU fallback when none of
/// them found one.
pub fn select_gpu(nvidia: Option<GpuInfo>, apple: Option<GpuInfo>, amd: Option<GpuInfo>) -> (g:
    GpuInfo)
    ensures
        probed_gpu(nvidia, apple, amd) matches Some(x) ==> g == x,
        probed_gpu(nvidia, apple, amd) is None ==> g.name@ == "CPU (No dedicated GPU detected)"@
            && g.vram_total_bytes == 0 && g.backend == GpuBackend::CpuOnly,
{
    match nvidia {
        Some(g) => g,
        None => match apple {
            Some(g) => g,
            None => match amd {
                Some(g) => g,
                None => fallback_gpu(),
            },
        },
    }
}

/// What the first line of `nvidia-smi --query-gpu=name,memory.total
/// --format=csv,noheader,nounits` gives: the trimmed name before the first comma and the
/// memory in MiB after it; nothing when there is no line, no comma, or the memory is not a
/// number.
pub open spec fn nvidia_reading(out: Seq<char>) -> Option<(Seq<char>, u64)> {
    let ls = lines_seq(out);
    if ls.len() == 0 {
        None
    } else {
        let parts = split_seq(ls[0], seq![',']);
        if parts.len() < 2 {
            None
        } else {
            match parse_u64_seq(trim_seq(parts[1])) {
                Some(mb) => Some((trim_seq(parts[0]), mb)),
                None => None,
            }
        }
    }
}

/// Reads the GPU name and its memory in MiB from the output of `nvidia-smi`.
pub fn parse_nvidia_smi(stdout: &str) -> (r: Option<(String, u64)>)
    ensures
        r matches Some(p) ==> nvidia_reading(stdout@) == Some((p.0@, p.1)),
        r is None ==> nvidia_reading(stdout@) is None,
{
    let s = chars_of(stdout);
    let ls = lines(&s);
    if ls.len() == 0 {
        return None;
    }
    let first = &ls[0];
    assert(first@ == lines_seq(stdout@)[0]);
    let mut comma: Vec<char> = Vec::new();
    comma.push(',');
    assert(comma@ == seq![',']);
    let parts = split(first, &comma);
    if parts.len() < 2 {
        return None;
    }
    assert(parts@[0]@ == split_seq(first@, seq![','])[0]);
    assert(parts@[1]@ == split_seq(first@, seq![','])[1]);
    let mem = trim(&parts[1]);
    match parse_u64(&mem) {
        Some(mb) => {
            let name = trim(&parts[0]);
            Some((string_of(&name), mb))
        },
        None => None,
    }
}

/// The NVIDIA GPU with the given name and memory in MiB.
pub fn nvidia_gpu(name: String, memory_mb: u64) -> (g: GpuInfo)
    requires
        memory_mb * 1048576 <= u64::MAX,
    ensures
        g.name == name,
        g.vram_total_bytes == memory_mb * 1048576,
        g.backend == GpuBackend::Nvidia,
{
    GpuInfo { name, vram_total_bytes: memory_mb * 1024 * 1024, backend: GpuBackend::Nvidia }
}

/// On Apple silicon the whole memory serves the GPU: a CPU whose brand names Apple gives a
/// GPU named after it, with the total memory as its VRAM.
pub fn apple_gpu(cpu_brand: &str, total_memory: u64) -> (r: Option<GpuInfo>)
    ensures
        has_substring(cpu_brand@, "Apple"@) ==> (r matches Some(g) && g.name@ == cpu_brand@
            + " (Unified Memory)"@ && g.vram_total_bytes == total_memory && g.backend
            == GpuBackend::Apple),
        !has_substring(cpu_brand@, "Apple"@) ==> r is None,
{
    let brand = chars_of(cpu_brand);
    if contains_str(&brand, "Apple") {
        let name = String::from_str(cpu_brand).concat(" (Unified Memory)");
        Some(GpuInfo { name, vram_total_bytes: total_memory, backend: GpuBackend::Apple })
    } else {
        None
    }
}

/// What one card of `rocm-smi --json` reports: its series name and its VRAM in bytes, each
/// as found when it is a string.
pub struct AmdCard {
    pub series: Option<String>,
    pub vram: Option<String>,
}

impl View for AmdCard {
    type V = (Option<Seq<char>>, Option<Seq<char>>);

    open spec fn view(&self) -> (Option<Seq<char>>, Option<Seq<char>>) {
        (opt_view(self.series), opt_view(self.vram))
    }
}

/// The views of a list of cards.
pub open spec fn cards_view(cards: Seq<AmdCard>) -> Seq<(Option<Seq<char>>, Option<Seq<char>>)> {
    cards.map_values(|c: AmdCard| c@)
}

/// The views of a list of cards that may be missing.
pub open spec fn opt_cards_view(cards: Option<Vec<AmdCard>>) -> Option<
    Seq<(Option<Seq<char>>, Option<Seq<char>>)>,
> {
    match cards {
        Some(v) => Some(cards_view(v@)),
        None => None,
    }
}

/// The name a card is shown under.
pub open spec fn amd_card_name(c: (Option<Seq<char>>, Option<Seq<char>>)) -> Seq<char> {
    match c.0 {
        Some(s) => s,
        None => "AMD GPU"@,
    }
}

/// The VRAM of a card in bytes, 0 when it is missing or not a number.
pub open spec fn amd_card_vram(c: (Option<Seq<char>>, Option<Seq<char>>)) -> u64 {
    match c.1 {
        Some(v) => match parse_u64_seq(v) {
            Some(n) => n,
            None => 0,
        },
        None => 0,
    }
}

/// The AMD GPU picked from a list of cards: the first card that reports some VRAM, with
/// its series name (or "AMD GPU"); none when no card does.
pub open spec fn amd_choice(cs: Seq<(Option<Seq<char>>, Option<Seq<char>>)>, r: Option<GpuInfo>) -> bool {
    &&& r is None <==> forall|i: int| 0 <= i < cs.len() ==> amd_card_vram(cs[i]) == 0
    &&& r matches Some(g) ==> exists|i: int|
        0 <= i < cs.len() && amd_card_vram(cs[i]) > 0 && (forall|j: int|
            0 <= j < i ==> amd_card_vram(cs[j]) == 0) && g.name@ == amd_card_name(cs[i])
            && g.vram_total_bytes == amd_card_vram(cs[i]) && g.backend == GpuBackend::Amd
}

/// The AMD GPU among the cards that `rocm-smi` reported.
pub fn amd_gpu(cards: &Vec<AmdCard>) -> (r: Option<GpuInfo>)
    ensures
        amd_choice(cards_view(cards@), r),
{
    let ghost cs = cards_view(cards@);
    let n = cards.len();
    for i in 0..n
        invariant
            n == cards@.len(),
            cs == cards_view(cards@),
            forall|j: int| 0 <= j < i ==> amd_card_vram(cs[j]) == 0,
    {
        let card = &cards[i];
        assert(cs[i as int] == card@);
        let vram: u64 = match &card.vram {
            Some(v) => match parse_u64(&chars_of(v.as_str())) {
                Some(x) => x,
                None => 0,
            },
            None => 0,
        };
        assert(vram == amd_card_vram(cs[i as int]));
        if vram > 0 {
            let name = match &card.series {
                Some(s) => s.clone(),
                None => String::from_str("AMD GPU"),
            };
            return Some(GpuInfo { name, vram_total_bytes: vram, backend: GpuBackend::Amd });
        }
    }
    None
}

/// What a JSON text holds, read as an object of objects: for each member of the outer
/// object, in the order the parser hands them out, the string values of the two given
/// keys in the inner one (each missing when the key is absent or not a string); nothing
/// when the text is not JSON or not an object.
pub uninterp spec fn json_string_pairs(
    text: Seq<char>,
    first_key: Seq<char>,
    second_key: Seq<char>,
) -> Option<Seq<(Option<Seq<char>>, Option<Seq<char>>)>>;

/// Parses `text` with `serde_json::from_str` into a `serde_json::Value`, takes the object
/// with `Value::as_object`, and for each of its values (`Map::values`) reads the two keys
/// with `Value::get` and `Value::as_str`. The contract claims only that the result is a
/// function of the text and the two keys: the whole of JSON decoding is left unsaid.
#[verifier::external_body]
fn read_json_cards(text: &str, series_key: &str, vram_key: &str) -> (r: Option<Vec<AmdCard>>)
    ensures
        opt_cards_view(r) == json_string_pairs(text@, series_key@, vram_key@),
{
    let json: serde_json::Value = serde_json::from_str(text).ok()?;
    let mut cards = Vec::new();
    for v in json.as_object()?.values() {
        let series = v.get(series_key).and_then(serde_json::Value::as_str).map(String::from);
        let vram = v.get(vram_key).and_then(serde_json::Value::as_str).map(String::from);
        cards.push(AmdCard { series, vram });
    }
    Some(cards)
}

/// The AMD GPU that the output of `rocm-smi --showproductname --showmeminfo vram --json`
/// reports: the cards are read under "Card Series" and "VRAM Total Memory (B)", and
/// nothing is found when the output is not a JSON object.
pub fn amd_gpu_from_output(stdout: &str) -> (r: Option<GpuInfo>)
    ensures
        json_string_pairs(stdout@, "Card Series"@, "VRAM Total Memory (B)"@) is None ==> r is None,
        json_string_pairs(stdout@, "Card Series"@, "VRAM Total Memory (B)"@) matches Some(cs)
            ==> amd_choice(cs, r),
{
    match read_json_cards(stdout, "Card Series", "VRAM Total Memory (B)") {
        Some(cards) => amd_gpu(&cards),
        None => None,
    }
}

} // verus!
