use swiftfetch::hardware::{
    resolve_amd_gpu_range, parse_amd_gpu, parse_nvidia_gpu, parse_intel_gpu,
    extract_gpu_model_name, detect_gpu_type, parse_gpu_from_lspci, detect_all_gpus,
    sort_gpus, amd_device_id_to_name, lookup_gpu_by_ids, detect_gpu, collect_gpu_info,
    get_exact_amd_model_from_sysfs, DrmCard,
};

fn card(dir: &str, name: Option<&str>, vendor: Option<&str>, bus: Option<&str>) -> DrmCard {
    DrmCard {
        dir_name: dir.to_string(),
        name: name.map(|s| s.to_string()),
        vendor: vendor.map(|s| s.to_string()),
        device_id: None,
        bus: bus.map(|s| s.to_string()),
    }
}

#[test]
fn dual_sku_bracket_takes_trailing_model() {
    assert_eq!(resolve_amd_gpu_range("Radeon RX 7700 XT / 7800 XT"), "7800 XT");
}

#[test]
fn single_sku_bracket_is_untouched() {
    assert_eq!(resolve_amd_gpu_range("Radeon RX 6800 XT"), "Radeon RX 6800 XT");
}

#[test]
fn amd_radeon_bracket() {
    let d = "Navi 32 [Radeon RX 7700 XT / 7800 XT]";
    assert_eq!(parse_amd_gpu(d), Some("AMD 7800 XT".to_string()));
}

#[test]
fn amd_radeon_in_main_text() {
    let d = "AMD Radeon RX 580 (rev e7)";
    assert_eq!(parse_amd_gpu(d), Some("AMD Radeon RX 580".to_string()));
}

#[test]
fn amd_integrated_codename() {
    assert_eq!(parse_amd_gpu("AMD Raphael iGPU"), Some("AMD Raphael".to_string()));
}

#[test]
fn amd_generic_fallback() {
    assert_eq!(parse_amd_gpu("AMD device 1234"), Some("AMD GPU".to_string()));
}

#[test]
fn nvidia_geforce_text() {
    let d = "NVIDIA Corporation GA104 [GeForce RTX 3070] (rev a1)";
    // the GeForce run starts inside the bracket, so its closing bracket is trimmed
    assert_eq!(parse_nvidia_gpu(d), Some("GeForce RTX 3070".to_string()));
}

#[test]
fn nvidia_generic_fallback() {
    assert_eq!(parse_nvidia_gpu("NVIDIA device"), Some("NVIDIA GPU".to_string()));
}

#[test]
fn intel_family_name() {
    let d = "Intel Corporation UHD Graphics 630 [8086:3e92]";
    assert_eq!(parse_intel_gpu(d), Some("Intel UHD Graphics 630".to_string()));
}

#[test]
fn intel_generic() {
    assert_eq!(parse_intel_gpu("Intel Corporation Device 1234"), Some("Intel Device 1234".to_string()));
}

#[test]
fn model_name_dispatches_by_vendor() {
    assert_eq!(
        extract_gpu_model_name("Intel Corporation HD Graphics 620"),
        Some("Intel HD Graphics 620".to_string())
    );
    // non-vendor bracket content is used when long enough and slash-free
    assert_eq!(
        extract_gpu_model_name("Some vendor [Fancy Card 9000]"),
        Some("Fancy Card 9000".to_string())
    );
    // a vendor-alias bracket with a slash falls back to the raw text
    assert_eq!(
        extract_gpu_model_name("Thing [A/B]"),
        Some("Thing [A/B]".to_string())
    );
}

#[test]
fn gpu_type_tagging() {
    assert_eq!(detect_gpu_type("01:00.0 VGA", "GeForce RTX 3070"), " [Discrete]");
    assert_eq!(detect_gpu_type("00:02.0 VGA Intel something", "Intel UHD Graphics"), " [Integrated]");
    assert_eq!(detect_gpu_type("01:00.0 VGA", "AMD Raphael"), " [Integrated]");
}

#[test]
fn lspci_line_parses_to_tagged_name() {
    let line = "01:00.0 VGA compatible controller: NVIDIA Corporation GA104 [GeForce RTX 3070] (rev a1)";
    assert_eq!(
        parse_gpu_from_lspci(line),
        Some("GeForce RTX 3070 [Discrete]".to_string())
    );
}

#[test]
fn sort_puts_discrete_first() {
    let sorted = sort_gpus(vec![
        "X [Integrated]".to_string(),
        "Y [Discrete]".to_string(),
    ]);
    assert_eq!(sorted, vec!["Y [Discrete]".to_string(), "X [Integrated]".to_string()]);
}

#[test]
fn sort_is_stable_within_classes() {
    let sorted = sort_gpus(vec![
        "A [Integrated]".to_string(),
        "B [Discrete]".to_string(),
        "C [Integrated]".to_string(),
        "D [Discrete]".to_string(),
    ]);
    assert_eq!(
        sorted,
        vec![
            "B [Discrete]".to_string(),
            "D [Discrete]".to_string(),
            "A [Integrated]".to_string(),
            "C [Integrated]".to_string(),
        ]
    );
}

#[test]
fn sysfs_cards_win_over_lspci() {
    let cards = vec![
        card("card0", Some("Intel UHD\n"), Some("0x8086\n"), None),
        card("card1", Some("Radeon RX 7800 XT\n"), Some("0x1002\n"), Some("pci-0000:01:00.0")),
        card("card1-DP-1", Some("ignored"), None, None),
    ];
    let gpus = detect_all_gpus(&cards, &None);
    assert_eq!(
        gpus,
        vec![
            "Radeon RX 7800 XT [Discrete]".to_string(),
            "Intel UHD [Integrated]".to_string(),
        ]
    );
}

#[test]
fn lspci_fallback_when_no_cards() {
    let lspci = "00:02.0 VGA compatible controller: Intel Corporation UHD Graphics 630\n\
                 01:00.0 3D controller: NVIDIA Corporation GA104 [GeForce RTX 3070]\n\
                 02:00.0 Ethernet controller: Intel Corporation I219\n";
    let gpus = detect_all_gpus(&Vec::new(), &Some(lspci.to_string()));
    assert_eq!(
        gpus,
        vec![
            "GeForce RTX 3070 [Discrete]".to_string(),
            "Intel UHD Graphics 630 [Integrated]".to_string(),
        ]
    );
}

#[test]
fn no_sources_mean_no_gpus() {
    let gpus = detect_all_gpus(&Vec::new(), &None);
    assert!(gpus.is_empty());
}

#[test]
fn device_id_table() {
    assert_eq!(amd_device_id_to_name("0x7480"), Some("Radeon RX 7800 XT".to_string()));
    assert_eq!(amd_device_id_to_name("0x9999"), None);
}

#[test]
fn id_lookup_labels() {
    assert_eq!(lookup_gpu_by_ids("0x10de", "0x2484"), Some("NVIDIA GPU (0x2484)".to_string()));
    assert_eq!(lookup_gpu_by_ids("0x1002", "0x7480"), Some("AMD Radeon RX 7800 XT".to_string()));
    assert_eq!(lookup_gpu_by_ids("0x1002", "0xffff"), Some("AMD GPU (0xffff)".to_string()));
    assert_eq!(lookup_gpu_by_ids("0x8086", "0x3e92"), Some("Intel GPU (0x3e92)".to_string()));
    assert_eq!(lookup_gpu_by_ids("0xabcd", "0x1"), Some("GPU (0xabcd/0x1)".to_string()));
}

#[test]
fn primary_gpu_with_fallback() {
    assert_eq!(detect_gpu(&Vec::new()), "Unknown GPU");
    assert_eq!(detect_gpu(&vec!["A".to_string(), "B".to_string()]), "A");
}

#[test]
fn gpu_fact_list_is_never_empty() {
    // total detection failure leaves the single sentinel entry
    let info = collect_gpu_info(Vec::new());
    assert_eq!(info.all_gpus, vec!["Unknown GPU".to_string()]);
    assert_eq!(info.primary, "Unknown GPU");
    let info2 = collect_gpu_info(vec!["A [Discrete]".to_string()]);
    assert_eq!(info2.primary, "A [Discrete]");
    assert_eq!(info2.all_gpus, vec!["A [Discrete]".to_string()]);
}

#[test]
fn exact_amd_model_from_device_ids() {
    let mut amd = card("card0", None, Some("0x1002\n"), None);
    amd.device_id = Some("0x7480\n".to_string());
    let cards = vec![
        card("card1", None, Some("0x8086"), None),
        amd,
    ];
    assert_eq!(
        get_exact_amd_model_from_sysfs(&cards).unwrap(),
        "AMD Radeon RX 7800 XT"
    );
    assert!(get_exact_amd_model_from_sysfs(&Vec::new()).is_err());
}
