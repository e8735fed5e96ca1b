use neuraloc_core::hardware::{
    cpu_display_name, detect_npu, hardware_snapshot, hardware_warnings, parse_nvidia_row, parse_nvidia_rows, probe_capabilities,
    CapabilityStatus, HardwareCache, MemoryInfo,
};

#[test]
fn parses_nvidia_csv() {
    let device = parse_nvidia_row(0, "NVIDIA GeForce RTX 5070, 8192, 7000, 12, 48").unwrap();
    assert_eq!(device.name, "NVIDIA GeForce RTX 5070");
    assert_eq!(device.memory_total_bytes, Some(8192 * 1024 * 1024));
    assert_eq!(device.memory_available_bytes, Some(7000 * 1024 * 1024));
    assert_eq!(device.id, "nvidia-0");
    assert_eq!(device.vendor, "NVIDIA");
    assert_eq!(device.kind, "gpu");
}

#[test]
fn nvidia_rows_keep_every_field() {
    let device = parse_nvidia_row(1, "GPU, 1024, x, 5, 40").unwrap();
    assert_eq!(device.id, "nvidia-1");
    assert_eq!(device.memory_available_bytes, None);
    assert_eq!(device.utilization_text.as_deref(), Some("5"));
    assert_eq!(device.temperature_text.as_deref(), Some("40"));
    assert!(parse_nvidia_row(0, "GPU, 1024, 512").is_none());
}

#[test]
fn npu_listing_names_the_accelerator() {
    let listing = "Instance ID: PCI\\VEN\nDevice Description: Intel(R) AI Boost\nStatus: Started";
    assert_eq!(detect_npu(listing).as_deref(), Some("Intel(R) AI Boost"));
    assert_eq!(detect_npu("some NPU without colon").as_deref(), Some("Intel AI accelerator"));
    assert_eq!(detect_npu("Display adapter"), None);
}

#[test]
fn capabilities_follow_the_probes() {
    let caps = probe_capabilities(true, false);
    assert_eq!(caps.len(), 5);
    assert_eq!(caps[0].id, "cpu");
    assert_eq!(caps[1].status, CapabilityStatus::Available);
    assert_eq!(caps[3].status, CapabilityStatus::Unknown);
    let caps = probe_capabilities(false, true);
    assert_eq!(caps[1].status, CapabilityStatus::Unknown);
    assert_eq!(caps[3].status, CapabilityStatus::Experimental);
    assert_eq!(hardware_warnings(0), vec!["No accelerator was confirmed. CPU inference remains available.".to_string()]);
    assert!(hardware_warnings(1).is_empty());
    assert_eq!(cpu_display_name(Some("  Ryzen 9 ")), "Ryzen 9");
    assert_eq!(cpu_display_name(None), "Unknown processor");
}

#[test]
fn numbers_each_gpu_by_its_line_and_skips_other_lines() {
    let devices = parse_nvidia_rows("RTX A, 8192, 7000, 12, 48\r\nnot a row\nRTX B, 4096, 100, 0, 30\n");
    assert_eq!(devices.len(), 2);
    assert_eq!((devices[0].id.as_str(), devices[0].name.as_str()), ("nvidia-0", "RTX A"));
    assert_eq!(devices[0].temperature_text.as_deref(), Some("48"));
    assert_eq!((devices[1].id.as_str(), devices[1].name.as_str()), ("nvidia-2", "RTX B"));
    assert_eq!(devices[1].memory_available_bytes, Some(100 * 1024 * 1024));
    assert!(parse_nvidia_rows("").is_empty());
}

#[test]
fn mib_counts_that_overflow_are_no_size() {
    let device = parse_nvidia_row(0, "GPU, 18446744073709551615, 1, 0, 0").unwrap();
    assert_eq!(device.memory_total_bytes, None);
    assert_eq!(device.memory_available_bytes, Some(1024 * 1024));
}

#[test]
fn snapshots_list_gpus_then_the_npu_with_matching_capabilities() {
    let memory = MemoryInfo { total_bytes: 64, available_bytes: 32 };
    let listing = "Device Description: Intel(R) AI Boost";
    let snapshot = hardware_snapshot(
        Some(" Ryzen "),
        Some(8),
        16,
        None,
        memory,
        Some("RTX A, 8192, 7000, 12, 48"),
        listing,
        "2024-01-01T00:00:00Z".into(),
    );
    assert_eq!(snapshot.source, "native");
    assert_eq!(snapshot.cpu.name, "Ryzen");
    assert_eq!(snapshot.devices.len(), 2);
    assert_eq!((snapshot.devices[0].kind, snapshot.devices[0].vendor.as_str()), ("gpu", "NVIDIA"));
    assert_eq!((snapshot.devices[1].id.as_str(), snapshot.devices[1].kind), ("intel-npu-0", "npu"));
    assert_eq!(snapshot.devices[1].name, "Intel(R) AI Boost");
    assert_eq!(snapshot.capabilities[1].status, CapabilityStatus::Available);
    assert_eq!(snapshot.capabilities[3].status, CapabilityStatus::Experimental);
    assert!(snapshot.warnings.is_empty());

    let bare = hardware_snapshot(None, None, 4, None, memory, None, "", "t".into());
    assert!(bare.devices.is_empty());
    assert_eq!(bare.cpu.name, "Unknown processor");
    assert_eq!(bare.capabilities[1].status, CapabilityStatus::Unknown);
    assert_eq!(bare.warnings, vec!["No accelerator was confirmed. CPU inference remains available.".to_string()]);
}

#[test]
fn a_read_after_a_refresh_returns_the_refreshed_snapshot() {
    let memory = MemoryInfo { total_bytes: 1, available_bytes: 1 };
    let mut cache = HardwareCache::new();
    assert!(cache.get().is_none());
    cache.replace(hardware_snapshot(None, None, 1, None, memory, None, "", "first".into()));
    assert_eq!(cache.get().map(|s| s.captured_at.as_str()), Some("first"));
    cache.replace(hardware_snapshot(None, None, 1, None, memory, None, "", "second".into()));
    assert_eq!(cache.get().map(|s| s.captured_at.as_str()), Some("second"));
}
