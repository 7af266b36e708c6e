use missioncenter::mem_info::{
    MemInfo, MemoryDevice, ProfilerMemoryItem, VmStat,
};

const MEMINFO: &str = "MemTotal:       16284332 kB\nMemFree:         1234567 kB\nMemAvailable:    8000000 kB\nBuffers:          100 kB\nActive(anon):     42 kB\nHugePages_Total:       4\nHugepagesize:       2048 kB\nBogus:  7 kB\nDirectMap1G:  garbage\n";

#[test]
fn proc_meminfo_figures_in_bytes() {
    let m = MemInfo::parse_proc_meminfo(MEMINFO);
    assert_eq!(m.mem_total, 16284332 * 1024);
    assert_eq!(m.mem_free, 1234567 * 1024);
    assert_eq!(m.mem_available, 8000000 * 1024);
    assert_eq!(m.buffers, 100 * 1024);
    assert_eq!(m.active_anon, 42 * 1024);
    assert_eq!(m.huge_pages_total, 4);
    assert_eq!(m.hugepagesize, 2048 * 1024);
    assert_eq!(m.direct_map1g, 0);
    assert_eq!(m.cached, 0);
}

#[test]
fn proc_meminfo_later_line_wins_and_empty_report() {
    let m = MemInfo::parse_proc_meminfo("MemTotal: 1 kB\nMemTotal: 2 kB\n");
    assert_eq!(m.mem_total, 2048);
    assert_eq!(MemInfo::parse_proc_meminfo(""), MemInfo::default());
}

#[test]
fn proc_meminfo_overflow_is_refused() {
    let report = format!("MemTotal: {} kB\n", usize::MAX / 1024 + 1);
    assert_eq!(MemInfo::try_parse_proc_meminfo(&report), None);
    assert!(MemInfo::try_parse_proc_meminfo(MEMINFO).is_some());
}

#[test]
fn proc_meminfo_output_with_errors_is_refused() {
    assert_eq!(MemInfo::from_proc_meminfo_output(MEMINFO.as_bytes(), b"oops"), None);
    let m = MemInfo::from_proc_meminfo_output(MEMINFO.as_bytes(), b"").unwrap();
    assert_eq!(m.mem_total, 16284332 * 1024);
    let mut bytes = b"MemFree: 3 kB\n\xff\nMemTotal: 5 kB\n".to_vec();
    bytes.push(b'\n');
    let m = MemInfo::from_proc_meminfo_output(&bytes, b"").unwrap();
    assert_eq!((m.mem_free, m.mem_total), (3072, 5120));
}

const UDEV: &str = "DEVPATH=/devices/virtual/dmi/id\nMEMORY_ARRAY_NUM_DEVICES=2\nMEMORY_DEVICE_0_SIZE=8589934592\nMEMORY_DEVICE_0_FORM_FACTOR=SODIMM\nMEMORY_DEVICE_0_LOCATOR=ChannelA-DIMM0\nMEMORY_DEVICE_0_BANK_LOCATOR=BANK 0\nMEMORY_DEVICE_0_TYPE=DDR4\nMEMORY_DEVICE_0_SPEED_MTS=3200\nMEMORY_DEVICE_0_CONFIGURED_SPEED_MTS=2933\nMEMORY_DEVICE_0_RANK=2\nMEMORY_DEVICE_1_PRESENT=1\nMEMORY_DEVICE_1_SIZE=4294967296\nMEMORY_DEVICE_1_TYPE=DDR4\nMEMORY_DEVICE_1_SPEED_MTS=2400\n";

#[test]
fn udevadm_memory_devices() {
    let devs = MemInfo::parse_udevadm_memory_devices(UDEV).unwrap();
    assert_eq!(devs.len(), 2);
    assert_eq!(
        devs[0],
        MemoryDevice {
            size: 8589934592,
            form_factor: "SODIMM".to_string(),
            locator: "ChannelA-DIMM0".to_string(),
            bank_locator: "BANK 0".to_string(),
            ram_type: "DDR4".to_string(),
            speed: 2933,
            rank: 2,
        }
    );
    assert_eq!(devs[1].size, 4294967296);
    assert_eq!(devs[1].speed, 2400);
    assert_eq!(devs[1].rank, 0);
}

#[test]
fn udevadm_absent_module_is_dropped() {
    let report = "HEADER_THAT_IS_LONG_ENOUGH=1\nMEMORY_DEVICE_0_PRESENT=0\nMEMORY_DEVICE_0_SIZE=1\nMEMORY_DEVICE_1_SIZE=5\n";
    let devs = MemInfo::parse_udevadm_memory_devices(report).unwrap();
    assert_eq!(devs.len(), 1);
    assert_eq!(devs[0].size, 5);
    assert_eq!(MemInfo::parse_udevadm_memory_devices("").unwrap(), vec![]);
    assert_eq!(MemInfo::parse_udevadm_memory_devices("NOTHING=1").unwrap(), vec![]);
}

#[test]
fn udevadm_slice_inside_a_character_is_refused() {
    let report = format!("{}\u{e9}\u{e9}\u{e9}MEMORY_DEVICE_0_SIZE=1\n", " ".repeat(21));
    assert_eq!(MemInfo::parse_udevadm_memory_devices(&report), None);
    let aligned = format!("{}\u{e9}\u{e9}\u{e9}MEMORY_DEVICE_0_SIZE=1\n", " ".repeat(20));
    assert_eq!(MemInfo::parse_udevadm_memory_devices(&aligned).unwrap().len(), 1);
}

#[test]
fn udevadm_output_checks() {
    assert_eq!(MemInfo::memory_devices_from_udevadm_output(UDEV.as_bytes(), b"err"), None);
    assert_eq!(MemInfo::memory_devices_from_udevadm_output(b"\xff\xfe", b""), None);
    assert_eq!(MemInfo::memory_devices_from_udevadm_output(UDEV.as_bytes(), b"").unwrap().len(), 2);
}

const VM_STAT: &str = "Mach Virtual Memory Statistics: (page size of 16384 bytes)\nPages free:                               10.\nPages active:                             20.\nPages inactive:                           30.\nPages speculative:                         4.\nPages wired down:                          5.\nPages purgeable:                           6.\nFile-backed pages:                         7.\nAnonymous pages:                           8.\nPages stored in compressor:                9.\nPages occupied by compressor:              2.\n";

#[test]
fn vm_stat_counts_and_page_size() {
    let v = VmStat::parse(VM_STAT);
    assert_eq!(
        v,
        VmStat {
            page_size: 16384,
            free: 10,
            active: 20,
            inactive: 30,
            wired: 5,
            purgeable: 6,
            speculative: 4,
            anonymous: 8,
            file_backed: 7,
            compressor: 2,
            stored_in_compressor: 9,
        }
    );
    assert_eq!(VmStat::parse("").page_size, 4096);
    assert_eq!(VmStat::parse("Mach Virtual Memory Statistics: (page size of many bytes)").page_size, 4096);
}

#[test]
fn memory_figures_from_vm_stat() {
    let v = VmStat::parse(VM_STAT);
    let m = MemInfo::from_vm_stat(Some(1 << 34), &v, 2048, 512);
    let ps = 16384usize;
    assert_eq!(m.mem_total, 1 << 34);
    assert_eq!(m.mem_free, 6 * ps);
    assert_eq!(m.active, (8 + 5 + 2) * ps);
    assert_eq!(m.inactive, 30 * ps);
    assert_eq!(m.cached, (7 + 6) * ps);
    assert_eq!(m.mem_available, (6 + 30) * ps);
    assert_eq!(m.committed, (8 + 5 + 9) * ps + 512);
    assert_eq!(m.swap_total, 2048);
    assert_eq!(m.swap_free, 1536);
    let m = MemInfo::from_vm_stat(None, &v, 10, 20);
    assert_eq!((m.mem_total, m.swap_free), (0, 0));
    let mut big = v;
    big.anonymous = usize::MAX;
    assert_eq!(MemInfo::try_from_vm_stat(None, &big, 0, 0), None);
    let out = MemInfo::from_vm_stat_output(None, VM_STAT.as_bytes(), 0, 0).unwrap();
    assert_eq!(out.inactive, 30 * ps);
}

#[test]
fn memory_devices_from_system_profiler() {
    let item = |size: Option<&str>, speed: Option<&str>| ProfilerMemoryItem {
        dimm_size: size.map(|s| s.to_string()),
        dimm_speed: speed.map(|s| s.to_string()),
        dimm_type: Some("LPDDR5".to_string()),
        name: Some("BANK 0/DIMM0".to_string()),
    };
    let d = MemInfo::memory_device_from_profiler(&item(Some("16 GB"), Some("6400 MHz"))).unwrap();
    assert_eq!(d.size, 16 * 1024 * 1024 * 1024);
    assert_eq!(d.speed, 6400);
    assert_eq!(d.form_factor, "LPDDR5");
    assert_eq!(d.ram_type, "LPDDR5");
    assert_eq!(d.locator, "BANK 0/DIMM0");
    assert_eq!(d.bank_locator, "");
    let d = MemInfo::memory_device_from_profiler(&item(Some("512 MB"), None)).unwrap();
    assert_eq!((d.size, d.speed), (512 * 1024 * 1024, 0));
    let d = MemInfo::memory_device_from_profiler(&item(None, Some("fast"))).unwrap();
    assert_eq!((d.size, d.speed), (0, 0));
    let huge = format!("{} GB", usize::MAX);
    assert_eq!(MemInfo::memory_device_from_profiler(&item(Some(huge.as_str()), None)), None);
    let all = MemInfo::memory_devices_from_profiler(&vec![item(Some("8 GB"), None), item(Some("4 GB"), None)]).unwrap();
    assert_eq!(all.len(), 2);
    assert_eq!(all[1].size, 4 * 1024 * 1024 * 1024);
}
