use vramancer::adapters::{parse_hf_model_id, parse_ollama_list};
use vramancer::heuristics::{
    bits_per_param_tenths, guess_arch_params, kv_cache_bytes, parse_model_string,
    place_model, required_memory, Billions, FitStatus, Model, ModelSource, ParamCount,
};
use vramancer::system::{GpuBackend, GpuInfo, SystemInfo};

fn billions_value(b: Billions) -> f64 {
    format!("{}e{}", b.units, -(b.scale as i128)).parse::<f64>().unwrap()
}

fn params_value(p: ParamCount) -> f64 {
    match p {
        ParamCount::Exact(b) => billions_value(b),
        ParamCount::Product(a, b) => billions_value(a) * billions_value(b),
    }
}

fn estimate_placement(model: &Model, sys: &SystemInfo, ctx_len: usize, batch_size: usize) -> (u64, FitStatus) {
    let bpp = bits_per_param_tenths(&model.quant) as f64 / 10.0;
    let weights_size = (params_value(model.total_params) * 1_000_000_000.0 * (bpp / 8.0)) as u64;
    let (layers, hidden) = guess_arch_params(model);
    let kv_cache_bytes = kv_cache_bytes(&model.family, layers, hidden, ctx_len, batch_size).unwrap();
    let weight_overhead = (weights_size as f64 * 0.05) as u64;
    let total = required_memory(weights_size, kv_cache_bytes, weight_overhead, ctx_len, batch_size, hidden);
    let placement = place_model(total, sys, "Offload".to_string());
    (placement.vram_usage_bytes, placement.vram_status)
}

#[test]
fn test_parse_hf() {
    let m = parse_hf_model_id("TheBloke/Llama-2-7B-Chat-GGUF");
    assert_eq!(m.family, "llama");
    assert_eq!(params_value(m.total_params), 7.0);
    assert_eq!(m.name, "TheBloke/Llama-2-7B-Chat-GGUF");
}

#[test]
fn test_parse_ollama_output() {
    let output = "NAME                     ID              SIZE    MODIFIED
llama3:8b                a6990ed6be41    4.7 GB  2 weeks ago
mistral:latest           61e88e884507    4.1 GB  4 weeks ago
";
    let models = parse_ollama_list(output);
    assert_eq!(models.len(), 2);
    assert_eq!(models[0].name, "llama3:8b");
    assert_eq!(models[0].family, "llama");
    assert_eq!(models[1].name, "mistral:latest");
    assert_eq!(models[1].family, "mistral");
}

#[test]
fn test_llama_parse() {
    let m = parse_model_string("llama3:8b", ModelSource::Ollama);
    assert_eq!(m.family, "llama");
    assert_eq!(params_value(m.total_params), 8.0);
    assert_eq!(m.quant, "f16");
}

#[test]
fn test_estimation() {
    let m = parse_model_string("llama3:8b-q4_0", ModelSource::Ollama);
    let sys = SystemInfo {
        cpu_name: "TestCPU".to_string(),
        cpu_cores: 8,
        ram_total_bytes: 32_000_000_000,
        ram_available_bytes: 16_000_000_000,
        gpu: GpuInfo {
            name: "TestGPU".to_string(),
            vram_total_bytes: 12_000_000_000, // 12GB
            backend: GpuBackend::Nvidia,
        },
    };

    // 8B params * 0.625 bytes (5 bits) = 5GB approx.
    // KV cache for 4k ctx = 0.5GB approx.
    // Total ~5.5GB. Should fit in 12GB.

    let (vram_usage_bytes, vram_status) = estimate_placement(&m, &sys, 4096, 1);
    assert_eq!(vram_status, FitStatus::Fits);
    assert!(vram_usage_bytes > 4_000_000_000);
    assert!(vram_usage_bytes < 8_000_000_000);
}
