use missioncenter::apps::{
    bundle_info_from_plist, bundle_path_from_exe, bundle_path_given_lowercase, try_group_by_bundle, build_app_list, group_by_bundle,
    info_plist_path, sort_apps_by_name, try_bundle_path_from_exe, BundleInfo, BundlePlist,
    MacosApp, MacosApps,
};
use missioncenter::text::FieldValue;

#[test]
fn bundle_paths_of_executables() {
    assert_eq!(
        bundle_path_from_exe("/Applications/Safari.app/Contents/MacOS/Safari"),
        Some("/Applications/Safari.app".to_string())
    );
    assert_eq!(
        bundle_path_from_exe("/Applications/OLD.APP/Contents/MacOS/x"),
        Some("/Applications/OLD.APP".to_string())
    );
    assert_eq!(bundle_path_from_exe("/usr/bin/ssh"), None);
    assert_eq!(bundle_path_from_exe("/Applications/Thing.app"), None);
    assert_eq!(try_bundle_path_from_exe("/usr/bin/ssh"), Ok(None));
}

#[test]
fn processes_grouped_by_bundle_in_first_seen_order() {
    let procs = vec![
        (10, "/Applications/B.app/Contents/MacOS/B".to_string()),
        (11, "/usr/bin/true".to_string()),
        (12, "".to_string()),
        (13, "/Applications/A.app/Contents/MacOS/A".to_string()),
        (14, "/Applications/B.app/Contents/XPC/helper".to_string()),
    ];
    let g = group_by_bundle(&procs);
    assert_eq!(
        g,
        vec![
            ("/Applications/B.app".to_string(), vec![10, 14]),
            ("/Applications/A.app".to_string(), vec![13]),
        ]
    );
}

fn app(name: &str) -> MacosApp {
    MacosApp { name: name.to_string(), icon: None, id: format!("id.{name}"), command: String::new(), pids: vec![1] }
}

#[test]
fn apps_sorted_by_lowercase_name() {
    let sorted = sort_apps_by_name(vec![app("zed"), app("Alpha"), app("beta"), app("Zed")]);
    let names: Vec<&str> = sorted.iter().map(|a| a.name.as_str()).collect();
    assert_eq!(names, vec!["Alpha", "beta", "zed", "Zed"]);
}

#[test]
fn app_list_from_bundles() {
    let entries = vec![
        ("/Applications/Zoom.app".to_string(), vec![1, 2], Some(BundleInfo { id: "us.zoom".to_string(), icon: Some("/tmp/z.png".to_string()) })),
        ("/Applications/NoInfo.app".to_string(), vec![3], None),
        ("/Applications/Empty.app".to_string(), vec![4], Some(BundleInfo { id: "".to_string(), icon: None })),
        ("/Applications/calc.app".to_string(), vec![5], Some(BundleInfo { id: "com.calc".to_string(), icon: None })),
    ];
    let list = build_app_list(entries.clone());
    assert_eq!(list.len(), 2);
    assert_eq!(list[0].name, "calc");
    assert_eq!(list[0].command, "/Applications/calc.app");
    assert_eq!(list[1].name, "Zoom");
    assert_eq!(list[1].id, "us.zoom");
    assert_eq!(list[1].icon(), Some("/tmp/z.png"));
    assert_eq!(list[1].pids(), &[1, 2]);
    let mut apps = MacosApps::new();
    assert!(apps.app_list().is_empty());
    apps.refresh_cache(entries);
    assert_eq!(apps.app_list().len(), 2);
    assert_eq!(MacosApp::default().name(), "");
}

#[test]
fn bundle_info_from_info_plist() {
    let p = BundlePlist {
        identifier: FieldValue::Text("com.apple.Safari".to_string()),
        name: FieldValue::Missing,
        display_name: FieldValue::Text("Safari Browser".to_string()),
        icon_file: FieldValue::Text("AppIcon".to_string()),
        icon_name: FieldValue::Text("Other".to_string()),
    };
    let (id, name, icon) = bundle_info_from_plist("/Applications/Safari.app", &p).unwrap();
    assert_eq!(id, "com.apple.Safari");
    assert_eq!(name, "Safari Browser");
    assert_eq!(icon, Some("/Applications/Safari.app/Contents/Resources/AppIcon.icns".to_string()));
    let p2 = BundlePlist {
        identifier: FieldValue::Text("x.y".to_string()),
        name: FieldValue::Other,
        display_name: FieldValue::Text("ignored".to_string()),
        icon_file: FieldValue::Text("i.icns".to_string()),
        icon_name: FieldValue::Missing,
    };
    let (_, name, icon) = bundle_info_from_plist("/Applications/Tool.app", &p2).unwrap();
    assert_eq!(name, "Tool");
    assert_eq!(icon, Some("/Applications/Tool.app/Contents/Resources/i.icns".to_string()));
    let p3 = BundlePlist { identifier: FieldValue::Text(String::new()), ..p2.clone() };
    assert_eq!(bundle_info_from_plist("/x.app", &p3), None);
    assert_eq!(info_plist_path("/A.app"), "/A.app/Contents/Info.plist");
}

#[test]
fn bundle_path_with_given_lowercase_form() {
    assert_eq!(bundle_path_given_lowercase("/A/X.APP/y", "/a/x.app/y"), Ok(Some("/A/X.APP".to_string())));
    assert_eq!(bundle_path_given_lowercase("/A/X.APP/y", "/A/X.APP/y"), Ok(None));
    // The offset found in the lowercase form falls inside a character of the path.
    assert_eq!(bundle_path_given_lowercase("\u{e9}\u{e9}\u{e9}", "a.app/"), Err(()));
    let procs = vec![(1, "/Applications/A.app/Contents/MacOS/A".to_string()), (2, "/bin/sh".to_string())];
    assert_eq!(try_group_by_bundle(&procs), Some(vec![("/Applications/A.app".to_string(), vec![1])]));
}
