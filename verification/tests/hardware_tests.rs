use missioncenter::cpu::{
    current_frequency_mhz, sysctl_text, thread_count, tick_deltas, ticks_from_load_info,
    uptime_seconds, zero_ticks, CpuSysctl, CpuTicks, MacosCpuStaticInfo,
};
use missioncenter::fans::{fan_key, fan_label, fan_max_speed, smc_fpe2_rpm, smc_key_code, smc_u8_value};
use missioncenter::gpu::{
    detect_metal_version, extract_ioreg_u64, gpus_from_display_entries, parse_device_id,
    parse_ioreg_gpu, parse_vendor_id, vendor_id_from_lowercase, ApiVersion, DisplayEntry, MacosGpuStaticInfo,
};
use missioncenter::text::FieldValue;

fn sysctl() -> CpuSysctl {
    CpuSysctl {
        brand: Some("Apple M2".to_string()),
        logical: Some(8),
        physical: Some(4),
        frequency_hz: Some(3_504_000_000),
        l1i: Some(131072),
        l1d: Some(65536),
        l2: Some(4194304),
        l3: None,
        hv_vmm_present: Some(0),
    }
}

#[test]
fn cpu_static_info_from_sysctl() {
    let i = MacosCpuStaticInfo::from_sysctl(&sysctl());
    assert_eq!(i.name(), "Apple M2");
    assert_eq!(i.logical_cpu_count(), 8);
    assert_eq!(i.socket_count(), Some(2));
    assert_eq!(i.base_frequency_khz(), Some(3_504_000));
    assert_eq!(i.l1_combined_cache(), Some(196608));
    assert_eq!(i.l2_cache(), Some(4194304));
    assert_eq!(i.l3_cache(), None);
    assert_eq!(i.l4_cache(), None);
    assert_eq!(i.is_virtual_machine(), Some(false));
    assert_eq!(i.virtualization_technology(), None);
    let vm = CpuSysctl { brand: None, logical: None, physical: Some(0), frequency_hz: None, l1i: None, l1d: None, l2: None, l3: None, hv_vmm_present: Some(1) };
    let i = MacosCpuStaticInfo::from_sysctl(&vm);
    assert_eq!(i.name(), "Unknown CPU");
    assert_eq!(i.logical_cpu_count(), 1);
    assert_eq!(i.socket_count(), Some(1));
    assert_eq!(i.l1_combined_cache(), None);
    assert_eq!(i.virtualization_technology(), Some("Hypervisor"));
    let many = CpuSysctl { logical: Some(1024), physical: Some(1), ..sysctl() };
    assert_eq!(MacosCpuStaticInfo::from_sysctl(&many).socket_count(), Some(0));
    let over = CpuSysctl { l1i: Some(u64::MAX), ..sysctl() };
    assert_eq!(MacosCpuStaticInfo::try_from_sysctl(&over), None);
    assert_eq!(MacosCpuStaticInfo::default().logical_cpu_count(), 0);
}

#[test]
fn cpu_ticks_and_deltas() {
    let info = [10, 20, 30, 40, -1, 2, 3, 4];
    let t = ticks_from_load_info(&info, 2);
    assert_eq!(t[0], CpuTicks { user: 10, system: 20, idle: 30, nice: 40 });
    assert_eq!(t[1].user, u64::MAX);
    assert_eq!(zero_ticks(3).len(), 3);
    let prev = vec![CpuTicks { user: 5, system: 5, idle: 5, nice: 5 }];
    let curr = vec![CpuTicks { user: 10, system: 7, idle: 6, nice: 5 }];
    let d = tick_deltas(&prev, &curr).unwrap();
    assert_eq!((d[0].total, d[0].user, d[0].system), (8, 5, 2));
    assert_eq!(tick_deltas(&prev, &vec![]), None);
    assert_eq!(current_frequency_mhz(Some(3_200_000_000), Some(1)), 3200);
    assert_eq!(current_frequency_mhz(None, Some(4_000_000_000)), 4000);
    assert_eq!(current_frequency_mhz(None, None), 0);
    assert_eq!(uptime_seconds(100, 40), 60);
    assert_eq!(uptime_seconds(40, 100), 0);
    assert_eq!(thread_count(&vec![3, 4, 5]), 12);
    assert_eq!(sysctl_text(b"Apple M2\0\0\0", 11), "Apple M2");
    assert_eq!(sysctl_text(b"abc", 2), "ab");
}

#[test]
fn gpu_vendor_device_and_metal() {
    assert_eq!(parse_vendor_id("Apple (0x106b)"), 0x106b);
    assert_eq!(parse_vendor_id("sppci_vendor_ATI"), 0x1002);
    assert_eq!(parse_vendor_id("NVIDIA"), 0x10de);
    assert_eq!(parse_vendor_id("Intel"), 0x8086);
    assert_eq!(parse_vendor_id("Matrox"), 0);
    assert_eq!(parse_device_id("0x1234"), 0x1234);
    assert_eq!(parse_device_id("0x0xbeef"), 0xbeef);
    assert_eq!(parse_device_id("0x12345"), 0);
    assert_eq!(parse_device_id("zz"), 0);
    assert_eq!(detect_metal_version(Some("spdisplays_metal3")), None);
    assert_eq!(detect_metal_version(Some("Metal 3")), Some(ApiVersion { major: 3, minor: 0, patch: 0 }));
    assert_eq!(detect_metal_version(Some("Metal Support, GPUFamily Apple 7")), Some(ApiVersion { major: 2, minor: 0, patch: 0 }));
    assert_eq!(detect_metal_version(Some("Metal")), Some(ApiVersion { major: 1, minor: 0, patch: 0 }));
    assert_eq!(detect_metal_version(None), None);
}

#[test]
fn gpu_static_info_from_displays() {
    let e = DisplayEntry {
        model: Some("Apple M2".to_string()),
        vram_bytes: Some(0),
        vendor: FieldValue::Missing,
        pci_vendor: FieldValue::Text("sppci_vendor_Apple".to_string()),
        device_id: None,
        metal: Some("spdisplays_metal3".to_string()),
    };
    let e2 = DisplayEntry { model: None, vram_bytes: Some(8 << 30), vendor: FieldValue::Other, metal: Some("Metal 3".to_string()), ..e.clone() };
    let g = gpus_from_display_entries(&vec![e, e2], 16 << 30);
    assert_eq!(g[0].id(), "gpu-0");
    assert_eq!(g[0].device_name(), "Apple M2");
    assert_eq!(g[0].total_memory(), 16 << 30);
    assert_eq!(g[0].vendor_id(), 0x106b);
    assert_eq!(g[0].metal_version(), None);
    assert_eq!(g[1].id(), "gpu-1");
    assert_eq!(g[1].device_name(), "Unknown GPU");
    assert_eq!(g[1].total_memory(), 8 << 30);
    assert_eq!(g[1].vendor_id(), 0);
    assert_eq!(g[1].metal_version(), Some(ApiVersion { major: 3, minor: 0, patch: 0 }));
    assert_eq!(g[1].direct3d_version(), None);
    assert_eq!(MacosGpuStaticInfo::default().total_memory(), 0);
}

#[test]
fn gpu_accelerator_statistics() {
    let report = "  | \"PerformanceStatistics\" = {\"Device Utilization %\"=37,\"In use system memory\"=123456}\n  | \"Other\" = {\"Device Utilization %\"=99}\n";
    let s = parse_ioreg_gpu(report);
    assert_eq!(s.util_percent, 37);
    assert_eq!(s.used_vram, 123456);
    assert_eq!(s.free_vram, 0);
    let big = format!("\"PerformanceStatistics\" = {{\"Device Utilization %\"={}}}", (1u64 << 32) + 3);
    assert_eq!(parse_ioreg_gpu(&big).util_percent, 3);
    assert_eq!(extract_ioreg_u64("\"k\"=12x", "k"), Some(12));
}

#[test]
fn smc_values() {
    assert_eq!(smc_key_code(b"FNum\0"), Some(u32::from_be_bytes(*b"FNum")));
    assert_eq!(smc_key_code(b"F0"), None);
    assert_eq!(fan_key(0, b"Ac"), "F0Ac");
    assert_eq!(fan_key(12, b"Mx"), "F12Mx");
    assert_eq!(fan_key(1, b"\xff"), "F1Ac");
    let mut bytes = [0u8; 32];
    bytes[0] = 0x1f;
    bytes[1] = 0x40;
    assert_eq!(smc_fpe2_rpm(&bytes, 2), 2000);
    assert_eq!(smc_fpe2_rpm(&bytes, 1), 0);
    assert_eq!(smc_u8_value(&bytes, 1), 0x1f);
    assert_eq!(smc_u8_value(&bytes, 0), 0);
    assert_eq!(fan_label(2), "Fan 2");
    assert_eq!(fan_max_speed(0), 1);
    assert_eq!(fan_max_speed(5000), 5000);
}

#[test]
fn vendor_from_lowercase_text() {
    assert_eq!(vendor_id_from_lowercase("nvidia"), 0x10de);
    // `ati` is looked for before `nvidia`, and "corporation" contains it.
    assert_eq!(vendor_id_from_lowercase("nvidia corporation"), 0x1002);
    assert_eq!(vendor_id_from_lowercase("NVIDIA"), 0);
    assert_eq!(vendor_id_from_lowercase("amd radeon"), 0x1002);
}
