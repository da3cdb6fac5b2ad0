use metrics::gpu::{
    amd_gpu_info, format_amd_gpu_name, get_amd_gpus, get_gpus, get_gpus_from_sysfs, is_amd_vendor,
    is_drm_card, is_hwmon_entry, pci_id_from_uevent, read_hwmon_fan, read_sysfs_u64, AmdCard,
    amdgpu_power_microwatts, get_nvidia_gpus, hwmon_temperature, nvidia_gpu_info, HwmonTemperature, GpuInfo, NvidiaDevice, PciDevice,
};

fn s(x: &str) -> Option<String> {
    Some(x.to_string())
}

#[test]
fn test_gpus() {
    let amd = get_amd_gpus(&Vec::new());
    let sysfs = get_gpus_from_sysfs(&Vec::new());
    let gpus = get_gpus(Vec::new(), amd, sysfs);
    println!("Found {} GPUs", gpus.len());
    for gpu in &gpus {
        println!("GPU {}: {} - Brand: {}", gpu.index, gpu.name, gpu.brand);
    }
}

#[test]
fn amd_names_from_table_any_case() {
    assert_eq!(format_amd_gpu_name("1002:13FE"), "AMD Radeon RX 6750 GRE");
    assert_eq!(format_amd_gpu_name("1002:13fe"), "AMD Radeon RX 6750 GRE");
    assert_eq!(format_amd_gpu_name("1002:744c"), "AMD GPU 744c");
    assert_eq!(format_amd_gpu_name("1002:7347"), "AMD Radeon RX 7700M");
    assert_eq!(format_amd_gpu_name("1002:6819"), "AMD Radeon RX 560");
}

#[test]
fn amd_names_fallback() {
    assert_eq!(format_amd_gpu_name("1002:0abc"), "AMD GPU abc");
    assert_eq!(format_amd_gpu_name("1002:0000"), "AMD GPU");
    assert_eq!(format_amd_gpu_name("1002:"), "AMD GPU");
    assert_eq!(format_amd_gpu_name("garbage"), "AMD GPU");
    assert_eq!(format_amd_gpu_name("1002:1:2"), "AMD GPU");
}

#[test]
fn drm_entries_and_vendor_files() {
    assert!(is_drm_card("card0"));
    assert!(!is_drm_card("card0-DP-1"));
    assert!(!is_drm_card("renderD128"));
    assert!(is_amd_vendor(&s("0x1002\n")));
    assert!(!is_amd_vendor(&s("0x10de\n")));
    assert!(!is_amd_vendor(&None));
    assert!(is_hwmon_entry("hwmon3"));
    assert!(!is_hwmon_entry("power"));
}

#[test]
fn sysfs_numbers() {
    assert_eq!(read_sysfs_u64(&s("8573157376\n")), 8573157376);
    assert_eq!(read_sysfs_u64(&s("  12 ")), 12);
    assert_eq!(read_sysfs_u64(&s("n/a")), 0);
    assert_eq!(read_sysfs_u64(&None), 0);
    assert_eq!(read_hwmon_fan("1200\n"), Some(1200));
    assert_eq!(read_hwmon_fan(""), None);
}

#[test]
fn uevent_pci_id() {
    let uevent = "DRIVER=amdgpu\nPCI_CLASS=30000\nPCI_ID=1002:73BF\nPCI_SUBSYS_ID=1DA2:E445\n";
    assert_eq!(pci_id_from_uevent(uevent), Some("1002:73BF".to_string()));
    assert_eq!(pci_id_from_uevent("DRIVER=amdgpu\n"), None);
}

#[test]
fn amd_memory_prefers_vram_then_gtt() {
    let card = AmdCard {
        uevent: s("PCI_ID=1002:1478\n"),
        vram_total: s("1000\n"),
        vram_used: s("0\n"),
        gtt_total: s("5000\n"),
        gtt_used: s("1500\n"),
        driver_version: s(" 6.8.0 \n"),
    };
    let g: GpuInfo = amd_gpu_info(3, &card);
    assert_eq!(g.index, 3);
    assert_eq!(g.name, "AMD Radeon RX 6800");
    assert_eq!(g.brand, "AMD");
    assert_eq!(g.driver_version, "6.8.0");
    assert_eq!(g.memory_total_bytes, 1000);
    assert_eq!(g.memory_used_bytes, 1500);
    assert_eq!(g.memory_free_bytes, 0);
}

#[test]
fn amd_cards_numbered_in_order() {
    let blank = || AmdCard {
        uevent: None,
        vram_total: None,
        vram_used: None,
        gtt_total: None,
        gtt_used: None,
        driver_version: None,
    };
    let gpus = get_amd_gpus(&vec![blank(), blank()]);
    assert_eq!(gpus.len(), 2);
    assert_eq!(gpus[0].index, 0);
    assert_eq!(gpus[1].index, 1);
    assert_eq!(gpus[1].name, "AMD GPU");
    assert_eq!(gpus[1].driver_version, "Unknown");
}

#[test]
fn sysfs_fallback_reports_other_vga_controllers() {
    let devices = vec![
        PciDevice { class: s("0x030000\n"), vendor: s("0x8086\n"), device: s("0x9a49\n") },
        PciDevice { class: s("0x030000\n"), vendor: s("0x10de\n"), device: s("0x2484\n") },
        PciDevice { class: s("0x020000\n"), vendor: s("0x8086\n"), device: s("0x15f3\n") },
        PciDevice { class: s("0x030000\n"), vendor: s("0x1af4\n"), device: s("0x1050\n") },
        PciDevice { class: None, vendor: s("0x8086\n"), device: None },
        PciDevice { class: s("0x030000"), vendor: s("0x8086"), device: None },
    ];
    let gpus = get_gpus_from_sysfs(&devices);
    assert_eq!(gpus.len(), 3);
    assert_eq!(gpus[0].index, 0);
    assert_eq!(gpus[0].name, "Intel GPU 0x9a49");
    assert_eq!(gpus[0].brand, "Intel");
    assert_eq!(gpus[0].driver_version, "Unknown");
    assert_eq!(gpus[1].index, 1);
    assert_eq!(gpus[1].name, "Unknown GPU 0x1050");
    assert_eq!(gpus[1].brand, "Unknown");
    assert_eq!(gpus[1].memory_total_bytes, 0);
    assert_eq!(gpus[2].index, 2);
    assert_eq!(gpus[2].name, "Intel GPU Unknown");
}

#[test]
fn sysfs_fallback_reports_any_vendor() {
    let devices = vec![
        PciDevice { class: s("0x030000\n"), vendor: s("0x1a03\n"), device: s("0x2000\n") },
        PciDevice { class: s("0x030000\n"), vendor: s("0x1002\n"), device: s("0x73bf\n") },
        PciDevice { class: s("0x030000\n"), vendor: None, device: None },
    ];
    let gpus = get_gpus_from_sysfs(&devices);
    assert_eq!(gpus.len(), 2);
    assert_eq!(gpus[0].name, "Unknown GPU 0x2000");
    assert_eq!(gpus[0].brand, "Unknown");
    assert_eq!(gpus[0].driver_version, "Unknown");
    assert_eq!((gpus[0].memory_used_bytes, gpus[0].memory_free_bytes), (0, 0));
    assert_eq!(gpus[1].index, 1);
    assert_eq!(gpus[1].name, "Unknown GPU Unknown");
}

#[test]
fn amd_names_are_case_free() {
    for id in ["1002:13fe", "1002:15bf", "1002:6811"] {
        assert_eq!(format_amd_gpu_name(id), format_amd_gpu_name(&id.to_uppercase()));
    }
    for id in ["1002:13fe", "1002:744c", "garbage", ""] {
        assert!(format_amd_gpu_name(id).starts_with("AMD "));
    }
}

#[test]
fn hwmon_temperature_sources() {
    let inputs = vec![None, s("garbage\n"), s(" 45000\n"), s("50000\n")];
    assert_eq!(hwmon_temperature(&inputs, &s("60\n")), HwmonTemperature::Millidegrees(45000));
    assert_eq!(hwmon_temperature(&vec![s("-5000")], &None), HwmonTemperature::Millidegrees(-5000));
    assert_eq!(hwmon_temperature(&vec![None, s("+-1")], &s("61")), HwmonTemperature::Degrees(61));
    assert_eq!(hwmon_temperature(&vec![s("3000000000")], &s("-")), HwmonTemperature::Missing);
    assert_eq!(hwmon_temperature(&Vec::new(), &None), HwmonTemperature::Missing);
}

#[test]
fn amdgpu_power_sources() {
    assert_eq!(amdgpu_power_microwatts(&s("15000000\n"), &s("9\n")), 15_000_000);
    assert_eq!(amdgpu_power_microwatts(&s("0\n"), &s("12000000\n")), 12_000_000);
    assert_eq!(amdgpu_power_microwatts(&None, &s("+7")), 7);
    assert_eq!(amdgpu_power_microwatts(&s("x"), &s("y")), 0);
    assert_eq!(amdgpu_power_microwatts(&s("-9223372036854775808"), &None), i64::MIN);
}
