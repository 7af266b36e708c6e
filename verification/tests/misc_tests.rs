use missioncenter::dbus_shim::{ArgType, Signature};
use missioncenter::services::{MacosService, MacosServices, MacosServicesError};
use missioncenter::ui::{
    copy_all_text, format_kernel_release_string, placeholder_profile, row_copy_text, AboutLabels,
    DeInfo, OsInfo, PlaceholderProfile, ShimmerBlock,
};
use missioncenter::utilities::MacosPlatformUtilities;

#[test]
fn services_are_not_supported() {
    let mut s = MacosServices::new();
    assert!(s.refresh_cache().is_ok());
    assert!(s.services().unwrap().is_empty());
    let c = s.controller().unwrap();
    assert_eq!(c.enable_service("x"), Err(MacosServicesError::NotSupported));
    assert_eq!(c.disable_service("x"), Err(MacosServicesError::NotSupported));
    assert_eq!(c.start_service("x"), Err(MacosServicesError::NotSupported));
    assert_eq!(c.stop_service("x"), Err(MacosServicesError::NotSupported));
    assert_eq!(c.restart_service("x"), Err(MacosServicesError::NotSupported));
    assert_eq!(s.service_logs("x", Some(3)).unwrap(), "");
    assert_eq!(MacosServicesError::NotSupported.message(), "Services not supported on macOS");
    let d = MacosService::default();
    assert!(!d.enabled && !d.running && !d.failed && d.pid.is_none());
}

#[test]
fn shim_and_utilities() {
    assert_eq!(Signature::from("a(sassyuu(dddddd)t)"), Signature);
    assert_ne!(ArgType::Struct, ArgType::Array);
    assert!(MacosPlatformUtilities::watches_parent(500));
    assert!(!MacosPlatformUtilities::watches_parent(1));
    assert!(!MacosPlatformUtilities::watches_parent(0));
}

fn os() -> OsInfo {
    OsInfo {
        name: Some("macOS".to_string()),
        pretty_name: None,
        version: Some("14".to_string()),
        version_id: Some("14.4".to_string()),
        os_type: Some("Darwin".to_string()),
        kernel_release: Some("23.4.0".to_string()),
        kernel_version: None,
        package_manager: None,
        package_manager_version: None,
    }
}

#[test]
fn about_dialog_texts() {
    assert_eq!(format_kernel_release_string(&os()), Some("Darwin 23.4.0".to_string()));
    let no_type = OsInfo { os_type: None, ..os() };
    assert_eq!(format_kernel_release_string(&no_type), Some("Unknown 23.4.0".to_string()));
    let no_release = OsInfo { kernel_release: None, ..os() };
    assert_eq!(format_kernel_release_string(&no_release), Some("Darwin".to_string()));
    let none = OsInfo { os_type: None, kernel_release: None, ..os() };
    assert_eq!(format_kernel_release_string(&none), None);
    let de = DeInfo { desktop_environment: None, version: None, windowing_system: None, virtual_terminal: None };
    let l = AboutLabels::setup(&os(), &de);
    assert_eq!(l.os_name, Some("macOS".to_string()));
    assert_eq!(l.version, Some("14.4".to_string()));
    assert!(l.os_group_visible());
    assert!(l.kernel_group_visible());
    assert!(!l.de_group_visible());
    assert_eq!(row_copy_text("Name", "macOS"), "Name: macOS");
}

#[test]
fn copy_all_layout() {
    let labels: Vec<String> = (0..10).map(|i| format!("v{i}")).collect();
    let t = copy_all_text(&labels);
    let expected = "System Information:\n    Operating System Information\n    Name:                    v0\n    Version:                 v1\n    Package Manager:         v2\n    Package Manager Version: v3\n\n    Kernel Information\n    Kernel Release:          v4\n    Version:                 v5\n\n    Desktop Environment Information\n    Name:                    v6\n    Version:                 v7\n    Windowing System:        v8\n    Virtual Terminal:        v9";
    assert_eq!(t, expected);
}

#[test]
fn placeholders() {
    assert_eq!(placeholder_profile("sidebar"), PlaceholderProfile::Sidebar);
    assert_eq!(placeholder_profile("performance-page-graph"), PlaceholderProfile::PerformancePageGraph);
    assert_eq!(placeholder_profile("performance-page-info"), PlaceholderProfile::PerformancePageInfo);
    assert_eq!(placeholder_profile("apps-page"), PlaceholderProfile::AppsPage);
    assert_eq!(placeholder_profile("services-page"), PlaceholderProfile::ServicesPage);
    assert_eq!(placeholder_profile("other"), PlaceholderProfile::Empty);
    let b = ShimmerBlock::new(80, 9);
    assert_eq!(b.measure(true), (0, 80, -1, -1));
    assert_eq!(b.measure(false), (9, 9, -1, -1));
}
