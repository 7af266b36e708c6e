use missioncenter::disk::{
    apfs_free_bytes, disk_type_of_lowercase, detect_disk_type, detect_system_disk, disk_deltas, disk_stats_of,
    extract_ioreg_stat, extract_str_field, is_system_disk, is_virtual_disk,
    parse_all_ioreg_disk_stats, parse_apfs_containers, parse_diskutil_list, parse_plist_str,
    parse_plist_u64, physical_disk_step, read_disk_capacity, read_iokit_disk_model,
    strip_partition_suffix, try_parse_all_ioreg_disk_stats, ApfsContainerInfo, DiskCounters,
    DiskType, PhysicalDiskStep, RawDiskStats,
};

const DISKUTIL_LIST: &str = "<plist>\n<dict>\n\t<key>AllDisks</key>\n\t<array>\n\t\t<string>disk0</string>\n\t\t<string>disk0s1</string>\n\t\t<string>disk1</string>\n\t\t<string>disk12</string>\n\t</array>\n\t<key>Other</key>\n\t<array>\n\t\t<string>disk9</string>\n\t</array>\n</dict>\n</plist>\n";

#[test]
fn diskutil_list_keeps_whole_disks_of_all_disks() {
    assert_eq!(parse_diskutil_list(DISKUTIL_LIST), vec!["disk0", "disk1", "disk12"]);
    assert_eq!(parse_diskutil_list("<string>disk3</string>"), Vec::<String>::new());
}

#[test]
fn plist_values_after_their_key() {
    let info = "<dict>\n  <key>TotalSize</key>\n  <integer>500277790720</integer>\n  <key>ParentWholeDisk</key>\n  <string>disk3</string>\n</dict>\n";
    assert_eq!(parse_plist_u64(info, "TotalSize"), Some(500277790720));
    assert_eq!(parse_plist_str(info, "ParentWholeDisk"), Some("disk3".to_string()));
    assert_eq!(parse_plist_str(info, "TotalSize"), None);
    assert_eq!(parse_plist_u64(info, "Missing"), None);
}

#[test]
fn partition_suffix_is_stripped() {
    assert_eq!(strip_partition_suffix("disk0s2"), "disk0");
    assert_eq!(strip_partition_suffix("disk3"), "disk3");
    assert_eq!(strip_partition_suffix("disk0s"), "disk0s");
    assert_eq!(strip_partition_suffix("disks1x"), "disks1x");
}

#[test]
fn ioreg_fields() {
    let block = "\"BSD Name\" = \"disk0\"\n\"Statistics\" = {\"Bytes (Read)\"=1234,\"Bytes (Write)\"=99}";
    assert_eq!(extract_str_field(block, "BSD Name"), Some("disk0".to_string()));
    assert_eq!(extract_ioreg_stat(block, "Bytes (Read)"), Some(1234));
    assert_eq!(extract_ioreg_stat(block, "Bytes (Write)"), Some(99));
    assert_eq!(extract_ioreg_stat(block, "Missing"), None);
    assert_eq!(extract_ioreg_stat("\"X\"=abc", "X"), None);
}

const IOREG: &str = "+-o IOBlockStorageDriver\n \"Statistics\" = {\"Operations (Write)\"=5,\"Bytes (Read)\"=100,\"Total Time (Read)\"=7,\"Total Time (Write)\"=8,\"Operations (Read)\"=3,\"Bytes (Write)\"=200}\n +-o Media \"BSD Name\" = \"disk0\"\n+-o IOBlockStorageDriver\n \"BSD Name\" = \"disk0s1\"\n+-o IOBlockStorageDriver\n \"Statistics\" = {\"Bytes (Read)\"=1}\n \"BSD Name\" = \"disk2\"\n";

#[test]
fn ioreg_disk_stats_by_whole_disk() {
    let stats = parse_all_ioreg_disk_stats(IOREG);
    assert_eq!(stats.len(), 2);
    let d0 = disk_stats_of(&stats, "disk0").unwrap();
    assert_eq!(d0, RawDiskStats { read_bytes: 100, write_bytes: 200, busy_time_ns: 15, read_ops: 3, write_ops: 5 });
    let d2 = disk_stats_of(&stats, "disk2").unwrap();
    assert_eq!(d2.read_bytes, 1);
    assert_eq!(d2.busy_time_ns, 0);
    assert!(disk_stats_of(&stats, "disk0s1").is_none());
}

#[test]
fn ioreg_busy_time_overflow_is_refused() {
    let text = format!(
        "+-o IOBlockStorageDriver \"BSD Name\" = \"disk1\" \"Total Time (Read)\"={} \"Total Time (Write)\"=1",
        u64::MAX
    );
    assert!(try_parse_all_ioreg_disk_stats(&text).is_none());
    assert!(try_parse_all_ioreg_disk_stats(IOREG).is_some());
}

const INFO_SSD: &str = "<dict>\n<key>VirtualOrPhysical</key>\n<string>Physical</string>\n</dict>\n   Device / Media Name:      APPLE SSD AP0512Q\n   Solid State:              Yes\n   Protocol:                 Apple Fabric\n";

#[test]
fn disk_info_decisions() {
    assert!(!is_virtual_disk(Some(INFO_SSD)));
    assert!(is_virtual_disk(Some("<key>VirtualOrPhysical</key>\n<string>Virtual</string>\n")));
    assert!(!is_virtual_disk(None));
    assert_eq!(read_iokit_disk_model(Some(INFO_SSD), "disk0"), "APPLE SSD AP0512Q");
    assert_eq!(read_iokit_disk_model(None, "disk0"), "disk0");
    assert_eq!(read_iokit_disk_model(Some("nothing"), "disk4"), "disk4");
    assert_eq!(detect_disk_type(Some(INFO_SSD)), DiskType::SSD);
    assert_eq!(detect_disk_type(Some("Solid State: Yes\nProtocol: NVMe")), DiskType::NVMe);
    assert_eq!(detect_disk_type(Some("Optical Drive")), DiskType::Optical);
    assert_eq!(detect_disk_type(Some("SDXC Reader")), DiskType::SD);
    assert_eq!(detect_disk_type(Some("Rotational")), DiskType::HDD);
    assert_eq!(detect_disk_type(None), DiskType::Unknown);
    assert_eq!(DiskType::NVMe.code(), 3);
    assert_eq!(DiskType::default(), DiskType::Unknown);
}

const APFS: &str = "<dict>\n<key>CapacityCeiling</key>\n<integer>1000</integer>\n<key>CapacityFree</key>\n<integer>400</integer>\n<key>DesignatedPhysicalStore</key>\n<string>disk0s2</string>\n</dict>\n<dict>\n<key>CapacityCeiling</key>\n<integer>0</integer>\n<key>DesignatedPhysicalStore</key>\n<string>disk5s1</string>\n</dict>\n<dict>\n<key>CapacityFree</key>\n<integer>50</integer>\n<key>CapacityCeiling</key>\n<integer>60</integer>\n<key>DesignatedPhysicalStore</key>\n<string>disk0s3</string>\n</dict>\n";

#[test]
fn apfs_containers_and_capacity() {
    let cs = parse_apfs_containers(APFS);
    assert_eq!(cs.len(), 2);
    assert_eq!((cs[0].free, cs[0].ceiling, cs[0].physical_store.as_str()), (400, 1000, "disk0"));
    assert_eq!((cs[1].free, cs[1].ceiling, cs[1].physical_store.as_str()), (50, 60, "disk0"));
    assert_eq!(apfs_free_bytes(&cs, "disk0"), Some(450));
    assert_eq!(apfs_free_bytes(&cs, "disk1"), Some(0));
    let info = "<key>TotalSize</key>\n<integer>2000</integer>\n";
    assert_eq!(read_disk_capacity(Some(info), &cs, "disk0"), (2000, 1550));
    assert_eq!(read_disk_capacity(None, &cs, "disk0"), (0, 0));
    let big = vec![
        ApfsContainerInfo { free: u64::MAX, ceiling: 1, physical_store: "disk0".to_string() },
        ApfsContainerInfo { free: 1, ceiling: 1, physical_store: "disk0".to_string() },
    ];
    assert_eq!(apfs_free_bytes(&big, "disk0"), None);
}

#[test]
fn system_disk_and_physical_store_steps() {
    let mounts = vec![
        ("/dev/disk3s5".to_string(), "/System/Volumes/Data".to_string()),
        ("/dev/disk3s1s1".to_string(), "/".to_string()),
    ];
    assert_eq!(detect_system_disk(&mounts), Some("disk3s1s1".to_string()));
    assert_eq!(detect_system_disk(&vec![]), None);
    let own = "<key>ParentWholeDisk</key>\n<string>disk3</string>\n<key>APFSPhysicalStore</key>\n<string>disk0s2</string>\n";
    assert_eq!(physical_disk_step("disk3", Some(own)), PhysicalDiskStep::Found("disk0".to_string()));
    let parent = "<key>ParentWholeDisk</key>\n<string>disk3</string>\n";
    assert_eq!(physical_disk_step("disk3s1", Some(parent)), PhysicalDiskStep::Parent("disk3".to_string()));
    assert_eq!(physical_disk_step("disk3", Some(parent)), PhysicalDiskStep::Found("disk3".to_string()));
    assert_eq!(physical_disk_step("disk3", None), PhysicalDiskStep::NotFound);
    assert!(is_system_disk(Some("disk0"), "disk0"));
    assert!(!is_system_disk(Some("disk0"), "disk1"));
    assert!(!is_system_disk(None, "disk0"));
}

#[test]
fn disk_deltas_saturate() {
    let raw = RawDiskStats { read_bytes: 100, write_bytes: 50, busy_time_ns: 10, read_ops: u64::MAX, write_ops: 2 };
    let (now, d) = disk_deltas(&raw, None);
    assert_eq!(now.total_ops, u64::MAX);
    assert_eq!((d.read_bytes, d.write_bytes, d.busy_time_ns, d.ops), (100, 50, 10, u64::MAX));
    let prev = DiskCounters { read_bytes: 40, write_bytes: 80, busy_time_ns: 4, total_ops: 10 };
    let (_, d) = disk_deltas(&raw, Some(prev));
    assert_eq!((d.read_bytes, d.write_bytes, d.busy_time_ns, d.ops), (60, 0, 6, u64::MAX - 10));
}

#[test]
fn disk_type_of_lowercase_text() {
    assert_eq!(disk_type_of_lowercase("solid state: yes"), DiskType::SSD);
    assert_eq!(disk_type_of_lowercase("Solid State: Yes"), DiskType::HDD);
    assert_eq!(disk_type_of_lowercase("flash, nvme"), DiskType::NVMe);
    assert_eq!(disk_type_of_lowercase("dvd"), DiskType::Optical);
}
