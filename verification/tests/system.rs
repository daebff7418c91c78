use ollama_bench::system::{
    after_vendor_text, api_endpoint, assemble_system_info, cpu_from_cpuinfo, gpu_step,
    kv_cache_type, lspci_gpu, names_display_controller, nvidia_gpu, ollama_version_label,
    pci_description_text, profiler_gpu, vendor_label_text, ApiReply, GpuProbe, GpuStep,
};
use ollama_bench::types::{ModelDetails, ModelInfo, OllamaShow, OllamaTags, OllamaVersion, ProjectorInfo};

#[test]
fn test_nvidia_name() {
    assert_eq!(nvidia_gpu("  NVIDIA GeForce RTX 4090\n").as_deref(), Some("NVIDIA: NVIDIA GeForce RTX 4090"));
    assert_eq!(nvidia_gpu(" \n\t"), None);
    assert_eq!(nvidia_gpu("[FAILED] no devices"), None);
}

#[test]
fn test_lspci_nvidia_line() {
    let out = "00:02.0 Host bridge [0600]: Intel Corporation Device [8086:a700]\n01:00.0 VGA compatible controller [0300]: NVIDIA Corporation AD102 [GeForce RTX 4090] [10de:2684] (rev a1)\n";
    assert_eq!(lspci_gpu(out).as_deref(), Some("NVIDIA Corporation AD102 [GeForce RTX 4090]"));
}

#[test]
fn test_lspci_amd_strips_vendor() {
    let out = "03:00.0 VGA compatible controller [0300]: Advanced Micro Devices, Inc. [AMD/ATI] Navi 31 [Radeon RX 7900 XTX] [1002:744c] (rev c8)";
    assert_eq!(lspci_gpu(out).as_deref(), Some("AMD: Navi 31 [Radeon RX 7900 XTX]"));
}

#[test]
fn test_lspci_intel_and_uppercase_match() {
    // The class is matched without regard to case, so `3D` counts as `3d`.
    let out = "00:02.0 3D CONTROLLER [0302]: INTEL Corporation, Arc A770 [8086:56a0]\r\n";
    assert_eq!(lspci_gpu(out).as_deref(), Some("Intel: Arc A770"));
}

#[test]
fn test_lspci_no_display() {
    assert_eq!(lspci_gpu("00:00.0 Host bridge: Intel Corporation\n\n"), None);
    assert_eq!(lspci_gpu(""), None);
}

#[test]
fn test_lspci_line_without_field_separator() {
    assert_eq!(lspci_gpu("vga thing [1:2] here").as_deref(), Some("vga thing here"));
}

#[test]
fn test_profiler_chipset() {
    let out = "Graphics/Displays:\n\n    Apple M2 Pro:\n\n      Chipset Model: Apple M2 Pro\n      Type: GPU\n";
    assert_eq!(profiler_gpu(out).as_deref(), Some("Apple M2 Pro"));
    assert_eq!(profiler_gpu("GPU Model:  Radeon Pro 5500M ").as_deref(), Some("Radeon Pro 5500M"));
    assert_eq!(profiler_gpu("Type: GPU\n"), None);
}

fn detected(step: GpuStep) -> (String, bool) {
    match step {
        GpuStep::Detected { name, has_gpu } => (name, has_gpu),
        GpuStep::Next(p) => panic!("expected a result, got {:?}", p),
    }
}

#[test]
fn test_gpu_probe_sequence() {
    assert!(matches!(gpu_step(GpuProbe::NvidiaSmi, None), GpuStep::Next(GpuProbe::Lspci)));
    assert!(matches!(gpu_step(GpuProbe::NvidiaSmi, Some("")), GpuStep::Next(GpuProbe::Lspci)));
    assert!(matches!(gpu_step(GpuProbe::Lspci, Some("nothing")), GpuStep::Next(GpuProbe::SystemProfiler)));
    assert_eq!(
        detected(gpu_step(GpuProbe::SystemProfiler, None)),
        ("CPU-only (no GPU detected)".to_string(), false)
    );
    assert_eq!(detected(gpu_step(GpuProbe::NvidiaSmi, Some("RTX A6000"))), ("NVIDIA: RTX A6000".to_string(), true));
    assert_eq!(GpuProbe::Lspci.command(), ("lspci", vec!["-nn"]));
}

#[test]
fn test_cpuinfo_line() {
    assert_eq!(cpu_from_cpuinfo("model name\t: AMD Ryzen 9 7950X 16-Core Processor"), "AMD Ryzen 9 7950X 16-Core Processor");
    assert_eq!(cpu_from_cpuinfo("Unknown CPU"), "Unknown CPU");
}

#[test]
fn test_version_and_cache_labels() {
    assert_eq!(ollama_version_label(ApiReply::Unreachable), "unreachable");
    assert_eq!(ollama_version_label(ApiReply::Malformed), "unknown");
    assert_eq!(ollama_version_label(ApiReply::Parsed(OllamaVersion { version: "0.6.2".into() })), "0.6.2");
    let show = OllamaShow {
        parameters: None,
        projectors: Some(vec![ProjectorInfo { cache_type: None }, ProjectorInfo { cache_type: Some("q8_0".into()) }, ProjectorInfo { cache_type: Some("f16".into()) }]),
    };
    assert_eq!(kv_cache_type(ApiReply::Parsed(show)), "q8_0");
    assert_eq!(kv_cache_type(ApiReply::Parsed(OllamaShow { parameters: None, projectors: None })), "N/A");
    assert_eq!(kv_cache_type(ApiReply::Unreachable), "N/A");
    assert_eq!(api_endpoint("http://localhost:11434", "tags"), "http://localhost:11434/api/tags");
}

#[test]
fn test_assemble_system_info() {
    let tags = Some(OllamaTags {
        models: vec![ModelInfo {
            name: "llama3.2:latest".into(),
            size: 2_147_483_648,
            details: ModelDetails {
                format: Some("gguf".into()),
                family: Some("llama".into()),
                families: Some(vec!["llama".into()]),
                parameter_size: Some("3.2B".into()),
                quantization_level: Some("Q4_K_M".into()),
            },
        }],
    });
    let s = assemble_system_info(
        "Linux 6.8".into(),
        "CPU".into(),
        "64 GiB".into(),
        "NVIDIA: X".into(),
        true,
        ApiReply::Parsed(OllamaVersion { version: "0.6.2".into() }),
        &tags,
        ApiReply::Malformed,
        "llama3.2",
        24576,
        3,
    );
    assert_eq!(s.device, "GPU");
    assert_eq!(s.model_params, "3.2B");
    assert_eq!(s.model_size, "2.0 GB");
    assert_eq!(s.model_family, "llama");
    assert_eq!(s.kv_cache_type, "N/A");
    assert_eq!(s.ollama_version, "0.6.2");
    assert_eq!(s.model_name, "llama3.2");
    assert_eq!((s.ctx, s.iterations), (24576, 3));
}

#[test]
fn test_lspci_revision_tag_stripped() {
    let out = "00:0f.0 VGA compatible controller [0300]: VMware SVGA II Adapter [15ad:0405] (rev 00)\n";
    assert_eq!(
        detected(gpu_step(GpuProbe::Lspci, Some(out))),
        ("VMware SVGA II Adapter".to_string(), true)
    );
    assert_eq!(
        pci_description_text("x: A (rev a1) B [1:2] (rev)"),
        "A B"
    );
    // An unclosed tag takes only its opening word with it.
    assert_eq!(pci_description_text("x: A (rev B C"), "A B C");
    assert_eq!(pci_description_text("x: A (rev a1 b2)"), "A a1 b2)");
}

#[test]
fn test_lspci_vendor_prefix_stripped() {
    let out = "01:00.0 VGA compatible controller [0300]: Advanced Micro Devices, Inc. Radeon RX 6800 [1002:73bf]\n";
    assert!(matches!(gpu_step(GpuProbe::NvidiaSmi, None), GpuStep::Next(GpuProbe::Lspci)));
    assert_eq!(
        detected(gpu_step(GpuProbe::Lspci, Some(out))),
        ("AMD: Radeon RX 6800".to_string(), true)
    );
    assert_eq!(after_vendor_text("Acme Graphics, Ltd. Widget 9"), "Widget 9");
    assert_eq!(after_vendor_text("Acme Graphics, Widget 9"), "Widget 9");
    assert_eq!(after_vendor_text("Intel Corporation Arc"), "Intel Corporation Arc");
    assert_eq!(after_vendor_text("Acme, G.F. 100"), "G.F. 100");
    assert_eq!(after_vendor_text("Acme, Corp. X"), "X");
}

#[test]
fn test_label_from_given_lowercase() {
    assert_eq!(vendor_label_text("Foo, Inc. Bar", "intel inside"), "Intel: Bar");
    assert_eq!(vendor_label_text("Foo Bar", "radeon"), "AMD: Foo Bar");
    assert_eq!(vendor_label_text("Foo Bar", "foo bar"), "Foo Bar");
    assert!(names_display_controller("01:00.0 vga compatible controller"));
    assert!(names_display_controller("3d controller"));
    assert!(!names_display_controller("VGA"));
}
