use vramancer::system::{
    amd_gpu, amd_gpu_from_output, apple_gpu, fallback_gpu, nvidia_gpu, parse_nvidia_smi, select_gpu, AmdCard,
    GpuBackend,
};

#[test]
fn nvidia_output() {
    let r = parse_nvidia_smi("NVIDIA GeForce RTX 3090, 24576\nNVIDIA GeForce RTX 3080, 10240\n");
    assert_eq!(r, Some(("NVIDIA GeForce RTX 3090".to_string(), 24576)));
    let g = nvidia_gpu("NVIDIA GeForce RTX 3090".to_string(), 24576);
    assert_eq!(g.vram_total_bytes, 24576 * 1024 * 1024);
    assert_eq!(g.backend, GpuBackend::Nvidia);
    assert_eq!(parse_nvidia_smi(""), None);
    assert_eq!(parse_nvidia_smi("no comma here\n"), None);
    assert_eq!(parse_nvidia_smi("GPU, lots\n"), None);
    assert_eq!(parse_nvidia_smi("  GPU X ,\t 8192 \r\n"), Some(("GPU X".to_string(), 8192)));
}

#[test]
fn apple_silicon() {
    let g = apple_gpu("Apple M2 Pro", 32_000_000_000).unwrap();
    assert_eq!(g.name, "Apple M2 Pro (Unified Memory)");
    assert_eq!(g.vram_total_bytes, 32_000_000_000);
    assert_eq!(g.backend, GpuBackend::Apple);
    assert!(apple_gpu("Intel(R) Core(TM) i7", 1).is_none());
}

#[test]
fn amd_cards() {
    let cards = vec![
        AmdCard { series: Some("Navi 21".to_string()), vram: Some("0".to_string()) },
        AmdCard { series: None, vram: Some("17163091968".to_string()) },
        AmdCard { series: Some("Other".to_string()), vram: Some("5".to_string()) },
    ];
    let g = amd_gpu(&cards).unwrap();
    assert_eq!(g.name, "AMD GPU");
    assert_eq!(g.vram_total_bytes, 17163091968);
    assert_eq!(g.backend, GpuBackend::Amd);
    let none = vec![AmdCard { series: Some("X".to_string()), vram: Some("n/a".to_string()) }];
    assert!(amd_gpu(&none).is_none());
}

#[test]
fn gpu_preference() {
    let apple = apple_gpu("Apple M1", 8);
    let g = select_gpu(None, apple, Some(nvidia_gpu("N".to_string(), 1)));
    assert_eq!(g.backend, GpuBackend::Apple);
    let g = select_gpu(Some(nvidia_gpu("N".to_string(), 1)), None, None);
    assert_eq!(g.backend, GpuBackend::Nvidia);
    let g = select_gpu(None, None, None);
    assert_eq!(g.name, "CPU (No dedicated GPU detected)");
    assert_eq!(g.vram_total_bytes, 0);
    assert_eq!(g.backend, GpuBackend::CpuOnly);
    assert_eq!(fallback_gpu().backend, GpuBackend::CpuOnly);
}

#[test]
fn amd_from_rocm_output() {
    let out = r#"{"card0": {"Card Series": "Navi 31", "VRAM Total Memory (B)": "25753026560"}, "card1": {"Card Series": "Navi 21", "VRAM Total Memory (B)": "17163091968"}}"#;
    let g = amd_gpu_from_output(out).unwrap();
    assert_eq!(g.name, "Navi 31");
    assert_eq!(g.vram_total_bytes, 25753026560);
    assert_eq!(g.backend, GpuBackend::Amd);

    let out = r#"{"card0": {"Card Series": "Navi 21", "VRAM Total Memory (B)": "0"}, "card1": {"VRAM Total Memory (B)": "8589934592"}}"#;
    let g = amd_gpu_from_output(out).unwrap();
    assert_eq!(g.name, "AMD GPU");
    assert_eq!(g.vram_total_bytes, 8589934592);

    let out = r#"{"card0": {"Card Series": "Navi 21", "VRAM Total Memory (B)": 17163091968}}"#;
    assert!(amd_gpu_from_output(out).is_none());
    assert!(amd_gpu_from_output("[1, 2, 3]").is_none());
    assert!(amd_gpu_from_output("rocm-smi: command failed").is_none());
    assert!(amd_gpu_from_output("").is_none());
}
