use lianli::gpu_names::{amd_gpu_names_from, amd_gpu_usage_sensor, clean_common_prefixes, drm_cards};
use lianli::sensor_list::{
    base_sensors, hwmon_input_sensor, nvidia_sensors_from, pwm_headers_for, pwm_pci_id, pwm_value_from,
    sort_pwm_headers, PwmHeader,
};
use lianli::sensors::{
    config_eq, find_default_cpu_temp, find_default_gpu_temp, hwmon_category, infer_sensor_category,
    pick_source_for_category, sensor_divider, source_to_config, DiskDirection, NetDirection, NvidiaMetric,
    SensorCategory, SensorInfo, SensorSource, SensorSourceConfig, Unit,
};
use lianli::sysfs::{
    block_device_for, default_route_iface_from, disk_devices_from, disk_sensor_entries, get_label_name,
    get_unit, get_display_name, hwmon_sort_key, looks_like_pci_id, network_interfaces_from,
    network_sensor_entries, numbered_name, get_pci_id_from_path, root_partition_from_mounts,
    sensor_device_path, strip_pci_domain, GpuName, PathAncestor,
};

fn hwmon(name: &str, label: &str, unit: Unit) -> SensorInfo {
    SensorInfo {
        source: SensorSource::Hwmon { name: name.to_string(), label: label.to_string(), device_path: "p".to_string() },
        sensor_name: None,
        display_name: None,
        divider: 1000,
        unit,
    }
}

fn plain(source: SensorSource, unit: Unit) -> SensorInfo {
    SensorInfo { source, sensor_name: None, display_name: None, divider: 1, unit }
}

fn label_of(s: &Option<SensorSource>) -> Option<String> {
    match s {
        Some(SensorSource::Hwmon { label, .. }) => Some(label.clone()),
        _ => None,
    }
}

fn gpu(pci: &str, name: &str) -> GpuName {
    GpuName { pci_id: pci.to_string(), name: name.to_string() }
}

fn names(g: &[GpuName]) -> Vec<(String, String)> {
    g.iter().map(|x| (x.pci_id.clone(), x.name.clone())).collect()
}

#[test]
fn cpu_temp_prefers_control_label() {
    let sensors = vec![
        hwmon("k10temp", "temp3", Unit::C),
        hwmon("k10temp", "Tctl", Unit::C),
        hwmon("nct6775", "temp1", Unit::C),
    ];
    assert_eq!(label_of(&find_default_cpu_temp(&sensors)), Some("Tctl".to_string()));
    let fallback = vec![hwmon("coretemp", "fan1", Unit::RPM), hwmon("coretemp", "Core 0", Unit::C)];
    assert_eq!(label_of(&find_default_cpu_temp(&fallback)), Some("Core 0".to_string()));
    assert!(find_default_cpu_temp(&[hwmon("nct6775", "Package id 0", Unit::C)]).is_none());
    let pkg = vec![hwmon("coretemp", "Core 1", Unit::C), hwmon("coretemp", "Package id 0", Unit::C)];
    assert_eq!(label_of(&find_default_cpu_temp(&pkg)), Some("Package id 0".to_string()));
}

#[test]
fn gpu_temp_prefers_nvidia_then_edge() {
    let sensors = vec![
        hwmon("amdgpu", "junction", Unit::C),
        hwmon("amdgpu", "EDGE", Unit::C),
        plain(SensorSource::NvidiaGpu { gpu_index: 1, metric: NvidiaMetric::Temp }, Unit::C),
    ];
    assert!(matches!(
        find_default_gpu_temp(&sensors),
        Some(SensorSource::NvidiaGpu { gpu_index: 1, metric: NvidiaMetric::Temp })
    ));
    assert_eq!(label_of(&find_default_gpu_temp(&sensors[..2])), Some("EDGE".to_string()));
    assert_eq!(label_of(&find_default_gpu_temp(&sensors[..1])), Some("junction".to_string()));
    assert!(find_default_gpu_temp(&[hwmon("k10temp", "Tctl", Unit::C)]).is_none());
}

#[test]
fn category_picks() {
    let sensors = vec![
        hwmon("k10temp", "Tctl", Unit::C),
        plain(SensorSource::AmdGpuUsage { card_index: 0 }, Unit::PERCENT),
        plain(SensorSource::NvidiaGpu { gpu_index: 0, metric: NvidiaMetric::Usage }, Unit::PERCENT),
    ];
    assert!(matches!(pick_source_for_category(SensorCategory::CpuUsage, &sensors, None, None), Some(SensorSourceConfig::CpuUsage)));
    assert!(matches!(pick_source_for_category(SensorCategory::MemFree, &[], None, None), Some(SensorSourceConfig::MemFree)));
    assert!(matches!(
        pick_source_for_category(SensorCategory::CpuTemp, &sensors, None, None),
        Some(SensorSourceConfig::Hwmon { ref label, .. }) if label == "Tctl"
    ));
    assert!(matches!(
        pick_source_for_category(SensorCategory::GpuUsage, &sensors, None, None),
        Some(SensorSourceConfig::AmdGpuUsage { card_index: 0 })
    ));
    assert!(pick_source_for_category(SensorCategory::GpuTemp, &sensors, None, None).is_none());
    assert!(matches!(
        pick_source_for_category(SensorCategory::NetworkTx, &sensors, Some("eth0".to_string()), None),
        Some(SensorSourceConfig::NetworkTx { ref iface }) if iface == "eth0"
    ));
    assert!(pick_source_for_category(SensorCategory::NetworkRx, &sensors, None, Some("sda".to_string())).is_none());
    assert!(matches!(
        pick_source_for_category(SensorCategory::DiskRead, &sensors, None, Some("nvme0n1".to_string())),
        Some(SensorSourceConfig::DiskRead { ref device }) if device == "nvme0n1"
    ));
}

#[test]
fn category_inference() {
    let h = |name: &str, label: &str| SensorSourceConfig::Hwmon {
        name: name.to_string(),
        label: label.to_string(),
        device_path: String::new(),
    };
    assert_eq!(infer_sensor_category(&h("k10temp", "anything")), Some(SensorCategory::CpuTemp));
    assert_eq!(infer_sensor_category(&h("amdgpu", "Edge")), Some(SensorCategory::GpuTemp));
    assert_eq!(infer_sensor_category(&h("radeon", "temp1")), Some(SensorCategory::GpuTemp));
    assert_eq!(infer_sensor_category(&h("amdgpu", "fan1")), None);
    assert_eq!(infer_sensor_category(&h("nct6775", "temp1")), None);
    assert_eq!(
        infer_sensor_category(&SensorSourceConfig::NvidiaGpu { gpu_index: 0, metric: NvidiaMetric::Usage }),
        Some(SensorCategory::GpuUsage)
    );
    assert_eq!(infer_sensor_category(&SensorSourceConfig::DiskWrite { device: "sda".into() }), Some(SensorCategory::DiskWrite));
    assert_eq!(infer_sensor_category(&SensorSourceConfig::Command { cmd: "x".into() }), None);
    assert_eq!(infer_sensor_category(&SensorSourceConfig::Constant { value_bits: 0 }), None);
    assert_eq!(hwmon_category("coretemp", "core 0"), Some(SensorCategory::CpuTemp));
    assert_eq!(hwmon_category("amdgpu", "junction"), None);
}

#[test]
fn pick_then_infer_gives_the_category_back() {
    let sensors = vec![
        hwmon("k10temp", "Tctl", Unit::C),
        hwmon("amdgpu", "edge", Unit::C),
        plain(SensorSource::NvidiaGpu { gpu_index: 0, metric: NvidiaMetric::Usage }, Unit::PERCENT),
    ];
    for cat in [
        SensorCategory::CpuUsage, SensorCategory::MemUsage, SensorCategory::MemUsed, SensorCategory::MemFree,
        SensorCategory::CpuTemp, SensorCategory::GpuTemp, SensorCategory::GpuUsage, SensorCategory::NetworkRx,
        SensorCategory::NetworkTx, SensorCategory::DiskRead, SensorCategory::DiskWrite,
    ] {
        let picked = pick_source_for_category(cat, &sensors, Some("eth0".into()), Some("sda".into())).unwrap();
        assert_eq!(infer_sensor_category(&picked), Some(cat));
    }
}

#[test]
fn source_configs() {
    let c = source_to_config(SensorSource::NetworkRate { iface: "wlan0".into(), direction: NetDirection::Tx });
    assert!(matches!(c, SensorSourceConfig::NetworkTx { ref iface } if iface == "wlan0"));
    let d = source_to_config(SensorSource::DiskRate { device: "sdb".into(), direction: DiskDirection::Read });
    assert!(matches!(d, SensorSourceConfig::DiskRead { ref device } if device == "sdb"));
    assert!(config_eq(&c, &SensorSourceConfig::NetworkTx { iface: "wlan0".into() }));
    assert!(!config_eq(&c, &SensorSourceConfig::NetworkRx { iface: "wlan0".into() }));
    assert!(!config_eq(&c, &SensorSourceConfig::NetworkTx { iface: "wlan1".into() }));
}

#[test]
fn divider_of_configured_source() {
    let sensors = vec![hwmon("k10temp", "Tctl", Unit::C), base_sensors().remove(2)];
    let cfg = SensorSourceConfig::Hwmon { name: "k10temp".into(), label: "Tctl".into(), device_path: "p".into() };
    assert_eq!(sensor_divider(&cfg, &sensors), 1000);
    assert_eq!(sensor_divider(&SensorSourceConfig::MemUsed, &sensors), 1024 * 1024);
    assert_eq!(sensor_divider(&SensorSourceConfig::CpuUsage, &sensors), 1);
    assert_eq!(sensor_divider(&SensorSourceConfig::Constant { value_bits: 7 }, &sensors), 1);
}

#[test]
fn proc_tables() {
    let route = "Iface\tDestination\tGateway\nwlan0\t0010A8C0\t00000000\neth0\t00000000\t0101A8C0\n";
    assert_eq!(default_route_iface_from(route), Some("eth0".to_string()));
    assert_eq!(default_route_iface_from("Iface Destination\n"), None);
    assert_eq!(default_route_iface_from("eth9 00000000\n"), None);
    let mounts = "proc /proc proc rw 0 0\n/dev/nvme0n1p2 / ext4 rw 0 0\n/dev/sda1 /boot vfat rw 0 0\n";
    assert_eq!(root_partition_from_mounts(mounts), Some("nvme0n1p2".to_string()));
    assert_eq!(root_partition_from_mounts("overlay / overlay rw 0 0\n"), None);
    assert_eq!(root_partition_from_mounts("tmpfs /tmp tmpfs rw 0 0\n"), None);
    assert_eq!(block_device_for("nvme0n1p2", "nvme0n1"), "nvme0n1");
    assert_eq!(block_device_for("sda", "block"), "sda");
}

#[test]
fn interfaces_and_disks() {
    let dev = "Inter-|   Receive\n face |bytes\n  wlan0: 1 2 3\n    lo: 5 6\n  eth0: 7 8\n";
    assert_eq!(network_interfaces_from(dev), vec!["eth0".to_string(), "wlan0".to_string()]);
    let disks = disk_devices_from(vec![
        "sdb".into(), "loop0".into(), "nvme0n1".into(), "ram1".into(), "dm-0".into(), "zram0".into(),
        "sr0".into(), "sda".into(),
    ]);
    assert_eq!(disks, vec!["nvme0n1".to_string(), "sda".to_string(), "sdb".to_string()]);
}

#[test]
fn rate_sensor_entries() {
    let net = network_sensor_entries(&["eth0".to_string()]);
    assert_eq!(net.len(), 2);
    assert_eq!(net[0].display_name.as_deref(), Some("Network eth0: Rx"));
    assert_eq!(net[1].display_name.as_deref(), Some("Network eth0: Tx"));
    assert_eq!((net[1].divider, net[1].unit), (1_000_000, Unit::MBps));
    assert!(matches!(net[1].source, SensorSource::NetworkRate { direction: NetDirection::Tx, .. }));
    let disk = disk_sensor_entries(&["sda".to_string(), "sdb".to_string()]);
    assert_eq!(disk.len(), 4);
    assert_eq!(disk[2].display_name.as_deref(), Some("Disk sdb: Read"));
    assert_eq!(disk[3].display_name.as_deref(), Some("Disk sdb: Write"));
}

#[test]
fn hwmon_naming() {
    assert_eq!(numbered_name("hwmon12", "hwmon"), Some(12));
    assert_eq!(numbered_name("card0-DP-1", "card"), None);
    assert_eq!(hwmon_sort_key("hwmon3"), 3);
    assert_eq!(hwmon_sort_key("other"), u32::MAX);
    assert!(looks_like_pci_id("0000:03:00.0"));
    assert!(!looks_like_pci_id("a:b.c"));
    assert!(!looks_like_pci_id("hwmon3"));
    assert_eq!(strip_pci_domain("0000:03:00.0"), "03:00.0");
    assert_eq!(strip_pci_domain("platform:nct"), "platform:nct");
    assert_eq!(sensor_device_path(Some("0000:03:00.0"), "x"), "0000:03:00.0");
    assert_eq!(sensor_device_path(Some("DEADBEEF-1"), "pci"), "pci");
    assert_eq!(sensor_device_path(None, "pci"), "pci");
}

#[test]
fn units_and_labels() {
    assert_eq!(get_unit("temp1"), (Unit::C, 1000));
    assert_eq!(get_unit("fan2"), (Unit::RPM, 1));
    assert_eq!(get_unit("in0"), (Unit::V, 1));
    assert_eq!(get_unit("freq1"), (Unit::FREQ, 1_000_000));
    assert_eq!(get_unit("power1"), (Unit::WO, 1));
    assert_eq!(get_label_name("temp1", "Tctl"), "Control Temp");
    assert_eq!(get_label_name("temp2", "Package id 0"), "Control Temp");
    assert_eq!(get_label_name("temp2", "junction"), "Hotspot Temp");
    assert_eq!(get_label_name("temp1", "edge"), "Edge Temp");
    assert_eq!(get_label_name("temp3", "mem"), "VRAM Temp");
    assert_eq!(get_label_name("freq1", "sclk"), "System Clock");
    assert_eq!(get_label_name("freq2", "mclk"), "Memory Clock");
    assert_eq!(get_label_name("in0", "vddgfx"), "GPU Voltage");
    assert_eq!(get_label_name("temp3", "Tccd1"), "Temp Die 1");
    assert_eq!(get_label_name("temp5", "Core 3"), "Temp Core 3");
    assert_eq!(get_label_name("temp5", "CPU Fan"), "Fan ");
    assert_eq!(get_label_name("fan2", ""), "Fan 2");
    assert_eq!(get_label_name("temp9", ""), "temp9");
    assert_eq!(get_label_name("temp9", "SYSTIN"), "SYSTIN");
}

#[test]
fn device_display_names() {
    let g = vec![gpu("03:00.0", "Radeon RX 7900 XTX")];
    let (n, m, x) = get_display_name(Some("  Samsung SSD \n"), Some("nvme"), "", &g, 0, 0);
    assert_eq!((n.as_deref(), m, x), (Some("Samsung SSD"), 0, 0));
    assert_eq!(get_display_name(None, Some("nvme\n"), "", &g, 0, 0).0.as_deref(), Some("NVMe Storage Device"));
    assert_eq!(get_display_name(None, Some("k10temp"), "", &g, 0, 0).0.as_deref(), Some("CPU"));
    let (n, _, x) = get_display_name(None, Some("amdgpu"), "03:00.0", &g, 0, 0);
    assert_eq!((n.as_deref(), x), (Some("Radeon RX 7900 XTX"), 1));
    let (n, _, x) = get_display_name(None, Some("amdgpu"), "04:00.0", &g, 0, 1);
    assert_eq!((n.as_deref(), x), (Some("AMD GPU 1"), 2));
    assert_eq!(get_display_name(None, Some("nouveau"), "", &g, 0, 0).2, 1);
    assert_eq!(get_display_name(None, Some("nct6798"), "", &g, 0, 0).0.as_deref(), Some("Motherboard"));
    let (n, m, _) = get_display_name(None, Some("spd5118"), "", &g, 1, 0);
    assert_eq!((n.as_deref(), m), (Some("DDR5 RAM Module 2"), 2));
    assert_eq!(get_display_name(None, Some("ee1004"), "", &g, 0, 0).0.as_deref(), Some("DDR4 RAM Module 1"));
    assert_eq!(get_display_name(None, Some("jc42"), "", &g, 0, 0).0.as_deref(), Some("DDR3/ECC RAM Module 1"));
    assert_eq!(get_display_name(None, Some("acpitz"), "", &g, 0, 0).0, None);
    assert_eq!(get_display_name(None, Some("asus_ec"), "", &g, 0, 0).0.as_deref(), Some("asus_ec"));
    assert_eq!(get_display_name(None, None, "", &g, 0, 0).0.as_deref(), Some("Unknown Device"));
}

#[test]
fn fixed_sensors() {
    let b = base_sensors();
    assert_eq!(b.len(), 4);
    assert_eq!(b[0].display_name.as_deref(), Some("CPU: Usage"));
    assert_eq!((b[0].divider, b[0].unit), (100, Unit::PERCENT));
    assert_eq!(b[3].display_name.as_deref(), Some("RAM: Free"));
    assert_eq!((b[3].divider, b[3].unit), (1024 * 1024, Unit::SIZE));
    assert!(matches!(b[2].source, SensorSource::MemUsed));
}

#[test]
fn hwmon_input_files() {
    assert!(hwmon_input_sensor("temp1_label", None, "k10temp", "CPU", None, "pci").is_none());
    let s = hwmon_input_sensor("temp1_input", Some(" Tctl\n"), "k10temp", "CPU", Some("0000:00:18.3"), "pci").unwrap();
    match &s.source {
        SensorSource::Hwmon { name, label, device_path } => {
            assert_eq!((name.as_str(), label.as_str(), device_path.as_str()), ("k10temp", "temp1", "0000:00:18.3"));
        }
        other => panic!("unexpected source {:?}", other),
    }
    let n = s.sensor_name.as_ref().unwrap();
    assert_eq!((n.device_name.as_str(), n.sensor_name.as_str()), ("CPU", "Control Temp"));
    assert_eq!((s.unit, s.divider), (Unit::C, 1000));
    assert!(s.display_name.is_none());
    let f = hwmon_input_sensor("fan3_input", None, "nct6798", "Motherboard", None, "platform:nct").unwrap();
    assert_eq!(f.sensor_name.as_ref().unwrap().sensor_name, "Fan 3");
    assert_eq!((f.unit, f.divider), (Unit::RPM, 1));
}

#[test]
fn nvidia_smi_lines() {
    let out = "0, NVIDIA GeForce RTX 4090, 45, 3\n1, Tesla T4 , 50\nx,  A100 , 30, 90\n";
    let s = nvidia_sensors_from(out);
    assert_eq!(s.len(), 4);
    assert_eq!(s[0].display_name.as_deref(), Some("NVIDIA GeForce RTX 4090: Temp"));
    assert_eq!(s[1].display_name.as_deref(), Some("NVIDIA GeForce RTX 4090: Usage"));
    assert!(matches!(s[0].source, SensorSource::NvidiaGpu { gpu_index: 0, metric: NvidiaMetric::Temp }));
    assert_eq!((s[0].unit, s[1].unit), (Unit::C, Unit::PERCENT));
    assert_eq!(s[2].display_name.as_deref(), Some("A100: Temp"));
    assert!(matches!(s[3].source, SensorSource::NvidiaGpu { gpu_index: 0, metric: NvidiaMetric::Usage }));
    assert!(nvidia_sensors_from("").is_empty());
}

#[test]
fn pwm_headers() {
    let h = pwm_headers_for("hwmon4", Some("Motherboard"), None, 2);
    let ids: Vec<(&str, &str, &str)> = h.iter().map(|x| (x.id.as_str(), x.label.as_str(), x.path.as_str())).collect();
    assert_eq!(
        ids,
        vec![
            ("hwmon4/pwm1", "Motherboard Fan1", "/sys/class/hwmon/hwmon4/pwm1"),
            ("hwmon4/pwm2", "Motherboard Fan2", "/sys/class/hwmon/hwmon4/pwm2"),
        ]
    );
    let h2 = pwm_headers_for("hwmon1", None, Some("acpitz\n"), 1);
    assert_eq!(h2[0].label, "acpitz Fan1");
    assert!(pwm_headers_for("hwmon1", None, None, 0).is_empty());
    let mut all = pwm_headers_for("hwmon4", Some("B"), None, 1);
    all.extend(pwm_headers_for("hwmon10", Some("A"), None, 1));
    all.extend(pwm_headers_for("hwmon1", Some("C"), None, 2));
    let sorted = sort_pwm_headers(all);
    let ids: Vec<&str> = sorted.iter().map(|x| x.id.as_str()).collect();
    assert_eq!(ids, vec!["hwmon1/pwm1", "hwmon1/pwm2", "hwmon10/pwm1", "hwmon4/pwm1"]);
    let same = sort_pwm_headers(vec![
        PwmHeader { id: "a".into(), label: "first".into(), path: String::new() },
        PwmHeader { id: "a".into(), label: "second".into(), path: String::new() },
    ]);
    assert_eq!((same[0].label.as_str(), same[1].label.as_str()), ("first", "second"));
    assert_eq!(pwm_value_from(" 128\n"), Some(128));
    assert_eq!(pwm_value_from("256"), None);
    assert_eq!(pwm_value_from(""), None);
    assert_eq!(pwm_pci_id(Some("0000:03:00.0")), "03:00.0");
    assert_eq!(pwm_pci_id(Some("0000:00:01.0/0000:03:00.0")), "00:01.0/03:00.0");
    assert_eq!(pwm_pci_id(None), "");
}

#[test]
fn gpu_name_prefixes() {
    let one = clean_common_prefixes(vec![gpu("a", "AMD Radeon X")]);
    assert_eq!(names(&one), vec![("a".to_string(), "AMD Radeon X".to_string())]);
    let two = clean_common_prefixes(vec![gpu("a", "AMD Radeon RX 7900"), gpu("b", "AMD Radeon RX 6600")]);
    assert_eq!(names(&two), vec![("a".to_string(), "7900".to_string()), ("b".to_string(), "6600".to_string())]);
    let none = clean_common_prefixes(vec![gpu("a", "Navi"), gpu("b", "Vega")]);
    assert_eq!(names(&none), vec![("a".to_string(), "Navi".to_string()), ("b".to_string(), "Vega".to_string())]);
}

#[test]
fn lspci_amd_gpus() {
    let out = "00:02.0 VGA compatible controller: Intel Corporation UHD\n\
03:00.0 VGA compatible controller: Advanced Micro Devices, Inc. [AMD/ATI] Navi 31 [Radeon RX 7900 XTX] (rev c8)\n\
0c:00.0 Display controller: Advanced Micro Devices, Inc. [AMD/ATI] Raphael (rev c1)\n\
0d:00.0 Audio device: Advanced Micro Devices, Inc. [AMD] Audio\n";
    let g = amd_gpu_names_from(out);
    assert_eq!(
        names(&g),
        vec![
            ("03:00.0".to_string(), "Navi 31 [Radeon RX 7900 XTX] (rev c8)".to_string()),
            ("0c:00.0".to_string(), "Raphael (rev c1)".to_string()),
        ]
    );
    let single = amd_gpu_names_from("03:00.0 VGA compatible controller: AMD Radeon 780M\n");
    assert_eq!(names(&single), vec![("03:00.0".to_string(), "AMD Radeon 780M".to_string())]);
    let repeated = amd_gpu_names_from("03:00.0 VGA: AMD One\n03:00.0 VGA: AMD Two\n");
    assert_eq!(names(&repeated), vec![("03:00.0".to_string(), "AMD Two".to_string())]);
    assert!(amd_gpu_names_from("").is_empty());
}

#[test]
fn drm_card_list() {
    let c = drm_cards(vec!["card1".into(), "renderD128".into(), "card0-DP-1".into(), "card0".into(), "card10".into()]);
    assert_eq!(c, vec![(0, "card0".to_string()), (1, "card1".to_string()), (10, "card10".to_string())]);
}

#[test]
fn amd_usage_sensors() {
    let g = vec![gpu("03:00.0", "Radeon RX 7900 XTX")];
    let s = amd_gpu_usage_sensor(0, "0x1002\n", Some("0000:03:00.0"), &g).unwrap();
    assert_eq!(s.display_name.as_deref(), Some("Radeon RX 7900 XTX: Usage"));
    assert!(matches!(s.source, SensorSource::AmdGpuUsage { card_index: 0 }));
    assert_eq!((s.unit, s.divider), (Unit::PERCENT, 1));
    let s2 = amd_gpu_usage_sensor(2, "0x1002", Some("0000:0c:00.0"), &g).unwrap();
    assert_eq!(s2.display_name.as_deref(), Some("AMD GPU 2: Usage"));
    let s3 = amd_gpu_usage_sensor(1, "0x1002", None, &g).unwrap();
    assert_eq!(s3.display_name.as_deref(), Some("AMD GPU 1: Usage"));
    assert!(amd_gpu_usage_sensor(0, "0x10de", Some("0000:03:00.0"), &g).is_none());
    assert!(amd_gpu_usage_sensor(0, "", None, &g).is_none());
}

fn ancestor(path: &str, name: Option<&str>) -> PathAncestor {
    PathAncestor { path: path.to_string(), file_name: name.map(|n| n.to_string()) }
}

#[test]
fn pci_ids_from_device_paths() {
    let pci = vec![
        ancestor("/sys/devices/pci0000:00/0000:00:01.1/0000:03:00.0", Some("0000:03:00.0")),
        ancestor("/sys/devices/pci0000:00/0000:00:01.1", Some("0000:00:01.1")),
        ancestor("/sys/devices/pci0000:00", Some("pci0000:00")),
        ancestor("/sys/devices", Some("devices")),
        ancestor("/sys", Some("sys")),
        ancestor("/", None),
    ];
    assert_eq!(get_pci_id_from_path(Some(&pci), Some("amdgpu")), "0000:03:00.0");
    let platform = vec![
        ancestor("/sys/devices/platform/nct6775.656", Some("nct6775.656")),
        ancestor("/sys/devices/platform", Some("platform")),
        ancestor("/sys/devices", Some("devices")),
        ancestor("/sys/x:y.zzzz", Some("x:y.zzzz")),
    ];
    assert_eq!(get_pci_id_from_path(Some(&platform), Some("nct6798\n")), "platform:nct6798");
    assert_eq!(get_pci_id_from_path(Some(&platform), None), "platform:unknown");
    assert_eq!(get_pci_id_from_path(None, Some("x")), "None");
    let short = vec![ancestor("/a/b:c.d", Some("b:c.d"))];
    assert_eq!(get_pci_id_from_path(Some(&short), Some("k")), "platform:k");
}
