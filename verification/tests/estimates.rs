use vramancer::heuristics::{
    bits_per_param_tenths, detect_family, detect_quant, detect_size, estimation_notes, exceeds,
    guess_arch_params, kv_cache_bytes, kv_factor_quarters, list_entry, memory_bandwidth_gbps, parse_billions,
    parse_model_string, place_model, quant_from_captures, recommendation, required_memory,
    size_from_captures, status_text, Billions, FitStatus, ModelSource, ParamCount,
};
use vramancer::system::{GpuBackend, GpuInfo, SystemInfo};

fn sys(backend: GpuBackend, vram: u64, ram: u64) -> SystemInfo {
    SystemInfo {
        cpu_name: "CPU".to_string(),
        cpu_cores: 4,
        ram_total_bytes: ram * 2,
        ram_available_bytes: ram,
        gpu: GpuInfo { name: "GPU".to_string(), vram_total_bytes: vram, backend },
    }
}

fn exact_b(units: u64, scale: i64) -> Billions {
    Billions { units, scale }
}

fn exact(units: u64, scale: i64) -> ParamCount {
    ParamCount::Exact(Billions { units, scale })
}

#[test]
fn family_order() {
    assert_eq!(detect_family("llama3:8b"), "llama");
    assert_eq!(detect_family("mistral:7b"), "mistral");
    assert_eq!(detect_family("mixtral:8x7b"), "mixtral");
    assert_eq!(detect_family("qwen2.5:14b"), "qwen");
    assert_eq!(detect_family("phi3"), "phi");
    assert_eq!(detect_family("yi:34b"), "yi");
    assert_eq!(detect_family("command-r-plus"), "command-r");
    assert_eq!(detect_family("gpt2"), "unknown");
    // the first family in the fixed order wins
    assert_eq!(detect_family("tinyllama-phi"), "llama");
}

#[test]
fn lowercase_before_detecting() {
    let m = parse_model_string("Meta-LLaMA-3-70B-Instruct-Q5_K_M", ModelSource::Manual);
    assert_eq!(m.name, "Meta-LLaMA-3-70B-Instruct-Q5_K_M");
    assert_eq!(m.family, "llama");
    assert_eq!(m.size_label, "70b");
    assert_eq!(m.total_params, exact(70, 0));
    assert_eq!(m.quant, "q5");
    assert_eq!(m.source, ModelSource::Manual);
}

#[test]
fn sizes_from_names() {
    let (label, total, active) = detect_size("mixtral:8x7b", "mixtral");
    assert_eq!(label, "8x7b");
    assert_eq!(total, ParamCount::Product(Billions { units: 8, scale: 0 }, Billions { units: 7, scale: 0 }));
    assert_eq!(active, exact(129, 1));
    let (label, total, active) = detect_size("foo-4x1.5b", "unknown");
    assert_eq!(label, "4x1.5b");
    assert_eq!(total, ParamCount::Product(Billions { units: 4, scale: 0 }, Billions { units: 15, scale: 1 }));
    assert_eq!(active, ParamCount::Product(Billions { units: 15, scale: 1 }, Billions { units: 2, scale: 0 }));
    let (label, total, _) = detect_size("qwen2.5:0.5b", "qwen");
    assert_eq!(label, "0.5b");
    assert_eq!(total, exact(5, 1));
    assert_eq!(detect_size("mixtral:latest", "mixtral"), ("8x7b".to_string(), exact(47, 0), exact(129, 1)));
    assert_eq!(detect_size("deepseek-coder", "deepseek"), ("67b".to_string(), exact(67, 0), exact(67, 0)));
    assert_eq!(detect_size("gemma", "gemma"), ("2b".to_string(), exact(2, 0), exact(2, 0)));
    assert_eq!(detect_size("phi", "phi"), ("3b".to_string(), exact(3, 0), exact(3, 0)));
    assert_eq!(detect_size("falcon", "falcon"), ("unknown".to_string(), exact(7, 0), exact(7, 0)));
    let (label, total, active) = detect_size("x-99999999999999999999b", "unknown");
    assert_eq!(label, "99999999999999999999b");
    assert_eq!(total, exact(9999999999999999999, -1));
    assert_eq!(active, exact(9999999999999999999, -1));
}

#[test]
fn sizes_from_given_captures() {
    let caps = Some(vec![Some("12x3b".to_string()), Some("12".to_string()), Some("3".to_string()), None]);
    let (label, total, active) = size_from_captures(caps, None, "mixtral");
    assert_eq!(label, "12x3b");
    assert_eq!(total, ParamCount::Product(Billions { units: 12, scale: 0 }, Billions { units: 3, scale: 0 }));
    assert_eq!(active, exact(129, 1));
    // a count that is not an ASCII number reads as 1, a size as 0
    let caps = Some(vec![Some("٣x٣b".to_string()), Some("٣".to_string()), Some("٣".to_string()), None]);
    let (_, total, _) = size_from_captures(caps, None, "x");
    assert_eq!(total, ParamCount::Product(Billions { units: 1, scale: 0 }, Billions { units: 0, scale: 0 }));
    let dense = Some(vec![Some("٣b".to_string()), Some("٣".to_string()), None]);
    assert_eq!(size_from_captures(None, dense, "x").1, exact(0, 0));
}

#[test]
fn decimals() {
    let v = |s: &str| s.chars().collect::<Vec<char>>();
    assert_eq!(parse_billions(&v("8")), Some(Billions { units: 8, scale: 0 }));
    assert_eq!(parse_billions(&v("1.25")), Some(Billions { units: 125, scale: 2 }));
    assert_eq!(parse_billions(&v("1.")), None);
    assert_eq!(parse_billions(&v(".5")), None);
    assert_eq!(parse_billions(&v("+5")), None);
    assert_eq!(parse_billions(&v("1.2.3")), None);
    assert_eq!(
        parse_billions(&v("1.12345678901234567890")),
        Some(Billions { units: 11234567890123456789, scale: 19 })
    );
    assert_eq!(
        parse_billions(&v("12.12345678901234567890")),
        Some(Billions { units: 12123456789012345678, scale: 18 })
    );
    assert_eq!(parse_billions(&v("18446744073709551615")), Some(Billions { units: u64::MAX, scale: 0 }));
    assert_eq!(
        parse_billions(&v("18446744073709551616")),
        Some(Billions { units: 1844674407370955161, scale: -1 })
    );
    assert_eq!(
        parse_billions(&v("99999999999999999999")),
        Some(Billions { units: 9999999999999999999, scale: -1 })
    );
    assert_eq!(
        parse_billions(&v("123456789012345678901234.5")),
        Some(Billions { units: 12345678901234567890, scale: -4 })
    );
    assert_eq!(parse_billions(&v("00000000000000000000000012")), Some(Billions { units: 12, scale: 0 }));
    assert_eq!(parse_billions(&v("99999999999999999999.x")), None);
}

#[test]
fn kv_cache_sizes() {
    assert_eq!(kv_cache_bytes("llama", 32, 4096, 4096, 1), Some(32 * 4096 * 4096));
    assert_eq!(kv_cache_bytes("gemma", 18, 2048, 8192, 2), Some(18 * 2048 * 8192 * 2 * 4));
    assert_eq!(kv_cache_bytes("phi", 0, 2560, usize::MAX, usize::MAX), Some(0));
    assert_eq!(kv_cache_bytes("phi", 1, 1, 1 << 51, 1), Some(4 << 51));
    assert_eq!(kv_cache_bytes("phi", 1, 1, (1 << 51) + 1, 1), None);
    assert_eq!(kv_cache_bytes("llama", 80, 8192, 1 << 30, 1 << 20), None);
}

#[test]
fn shorter_context_keeps_a_fit() {
    let s = sys(GpuBackend::Nvidia, 1 << 33, 1 << 30);
    let total = |ctx: usize, batch: usize| {
        let kv = kv_cache_bytes("llama", 32, 4096, ctx, batch).unwrap();
        required_memory(4_000_000_000, kv, 200_000_000, ctx, batch, 4096)
    };
    let large = place_model(total(8192, 2), &s, "x".to_string());
    assert_eq!(large.vram_status, FitStatus::Fits);
    let small = place_model(total(2048, 1), &s, "x".to_string());
    assert_eq!(small.vram_status, FitStatus::Fits);
    assert!(total(2048, 1) <= total(8192, 2));
    let bigger = place_model(total(8192, 2), &sys(GpuBackend::Nvidia, 1 << 34, 0), "x".to_string());
    assert_eq!(bigger.vram_status, FitStatus::Fits);
}

#[test]
fn quant_tags() {
    assert_eq!(detect_quant("llama3:8b-q4_0"), "q4_0");
    assert_eq!(detect_quant("llama3:8b-q4_k_m"), "q4");
    assert_eq!(detect_quant("model-q80"), "q80");
    assert_eq!(detect_quant("model-fp16"), "fp16");
    assert_eq!(detect_quant("model-bf16"), "bf16");
    assert_eq!(detect_quant("llama3:8b"), "f16");
    assert_eq!(quant_from_captures(Some(vec![Some("q6_k".to_string())])), "q6_k");
    assert_eq!(quant_from_captures(None), "f16");
}

#[test]
fn bits_per_param() {
    assert_eq!(bits_per_param_tenths("q8_0"), 85);
    assert_eq!(bits_per_param_tenths("q6_k"), 65);
    assert_eq!(bits_per_param_tenths("q5_0"), 55);
    assert_eq!(bits_per_param_tenths("q4_0"), 50);
    assert_eq!(bits_per_param_tenths("q3"), 35);
    assert_eq!(bits_per_param_tenths("q2"), 25);
    assert_eq!(bits_per_param_tenths("fp16"), 160);
    assert_eq!(bits_per_param_tenths("bf16"), 160);
    assert_eq!(bits_per_param_tenths("fp32"), 320);
    assert_eq!(bits_per_param_tenths("awq"), 160);
}

#[test]
fn arch_params() {
    let big = parse_model_string("llama3:70b", ModelSource::Manual);
    assert_eq!(guess_arch_params(&big), (80, 8192));
    let mid = parse_model_string("llama2:13b", ModelSource::Manual);
    assert_eq!(guess_arch_params(&mid), (40, 5120));
    let small = parse_model_string("llama3:8b", ModelSource::Manual);
    assert_eq!(guess_arch_params(&small), (32, 4096));
    let sixty = parse_model_string("llama:60b", ModelSource::Manual);
    assert_eq!(guess_arch_params(&sixty), (40, 5120));
    let qwen = parse_model_string("qwen:14b", ModelSource::Manual);
    assert_eq!(guess_arch_params(&qwen), (40, 5120));
    let gemma = parse_model_string("gemma:7b", ModelSource::Manual);
    assert_eq!(guess_arch_params(&gemma), (18, 2048));
    let phi = parse_model_string("phi3", ModelSource::Manual);
    assert_eq!(guess_arch_params(&phi), (32, 2560));
    assert!(exceeds(ParamCount::Product(Billions { units: 8, scale: 0 }, Billions { units: 22, scale: 0 }), 60));
    assert!(!exceeds(ParamCount::Product(Billions { units: 6, scale: 0 }, Billions { units: 10, scale: 0 }), 60));
    assert!(exceeds(exact(601, 1), 60));
    assert!(!exceeds(exact(600, 1), 60));
    assert!(!exceeds(exact(u64::MAX, 40), 1));
    assert!(exceeds(exact(1, -2), 60));
    assert!(!exceeds(exact(6, -1), 60));
    assert!(exceeds(exact(7, -1), 60));
    assert!(!exceeds(exact(0, -9223372036854775807), 1));
    assert!(exceeds(ParamCount::Product(exact_b(3, -1), exact_b(21, 0)), 60));
    assert!(!exceeds(ParamCount::Product(exact_b(3, -1), exact_b(2, 0)), 60));
}

#[test]
fn kv_and_bandwidth() {
    assert_eq!(kv_factor_quarters("llama"), 1);
    assert_eq!(kv_factor_quarters("qwen"), 1);
    assert_eq!(kv_factor_quarters("gemma"), 4);
    assert_eq!(memory_bandwidth_gbps(GpuBackend::Nvidia), 500);
    assert_eq!(memory_bandwidth_gbps(GpuBackend::Amd), 400);
    assert_eq!(memory_bandwidth_gbps(GpuBackend::Apple), 100);
    assert_eq!(memory_bandwidth_gbps(GpuBackend::CpuOnly), 40);
    assert_eq!(memory_bandwidth_gbps(GpuBackend::Generic), 50);
}

#[test]
fn memory_total() {
    assert_eq!(required_memory(100, 20, 5, 4096, 2, 4096), 100 + 20 + 5 + 4096 * 2 * 4096 * 4);
}

#[test]
fn placements() {
    let p = place_model(5, &sys(GpuBackend::CpuOnly, 0, 100), "x".to_string());
    assert_eq!((p.vram_usage_bytes, p.ram_usage_bytes), (0, 5));
    assert_eq!(p.vram_status, FitStatus::Partial("CPU Only".to_string()));
    let s = sys(GpuBackend::Apple, 10, 100);
    let p = place_model(9, &s, "x".to_string());
    assert_eq!((p.vram_usage_bytes, p.ram_usage_bytes, p.vram_status.clone()), (9, 0, FitStatus::Fits));
    let p = place_model(15, &s, "x".to_string());
    assert_eq!((p.vram_usage_bytes, p.ram_usage_bytes, p.vram_status.clone()), (10, 5, FitStatus::No));
    let s = sys(GpuBackend::Nvidia, 10, 8);
    let p = place_model(10, &s, "Offload 0%".to_string());
    assert_eq!((p.vram_usage_bytes, p.ram_usage_bytes, p.vram_status.clone()), (10, 0, FitStatus::Partial("Offload 0%".to_string())));
    assert_eq!(recommendation(&p, &s), "Model is too large for this system.");
    let p = place_model(15, &s, "Offload 33%".to_string());
    assert_eq!((p.vram_usage_bytes, p.ram_usage_bytes), (10, 5));
    assert_eq!(recommendation(&p, &s), "Functional but slower due to CPU offloading.");
    let p = place_model(18, &s, "x".to_string());
    assert_eq!((p.vram_usage_bytes, p.ram_usage_bytes, p.vram_status.clone()), (10, 8, FitStatus::No));
    assert_eq!(recommendation(&p, &s), "Model is too large for this system.");
    let p = place_model(3, &s, "x".to_string());
    assert_eq!(recommendation(&p, &s), "Excellent. Run entirely on GPU.");
}

#[test]
fn notes_and_labels() {
    assert_eq!(estimation_notes(50, "q4_0", "llama"), vec!["Assumed 5.0 bits per weight (q4_0)".to_string()]);
    assert_eq!(format!("Assumed {:.1} bits per weight ({})", 8.5f64, "q8_0"), estimation_notes(85, "q8_0", "x")[0]);
    assert_eq!(
        estimation_notes(160, "f16", "mixtral"),
        vec![
            "Assumed 16.0 bits per weight (f16)".to_string(),
            "Mixtral MoE: Active params used for speed estimate.".to_string()
        ]
    );
    assert_eq!(status_text(&FitStatus::Fits), "YES - RUNS FAST");
    assert_eq!(status_text(&FitStatus::Partial("CPU Only".to_string())), "MAYBE - CPU Only");
    assert_eq!(status_text(&FitStatus::No), "NO - INSUFFICIENT VRAM");
    let m = parse_model_string("llama3:8b", ModelSource::Ollama);
    assert_eq!(list_entry(&m), "llama3:8b [8b]");
}
