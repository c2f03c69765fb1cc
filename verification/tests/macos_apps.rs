use prune::platform::macos::apps::{
    app_info, bundle_meta, data_names, descends_into, is_bundle_path, is_prefixed, mac_related_candidates,
    prefix_folder_paths, BundleFields, BundleMeta,
};
use prune::platform::windows::rules::keep_existing;
use prune::platform::{AppDataKind, ApplicationInfo, KnownPaths};

fn known(home: &str) -> KnownPaths {
    KnownPaths {
        home: home.to_string(),
        user_cache: None,
        user_logs: None,
        app_support: None,
        local_app_data: None,
        temp: "/tmp".to_string(),
        trash: None,
        downloads: None,
        project_roots: vec![],
    }
}

fn app(home: &str, name: &str, bundle_id: &str) -> ApplicationInfo {
    ApplicationInfo {
        id: "x".into(),
        name: name.into(),
        path: format!("{home}/Applications/{name}.app"),
        version: None,
        bundle_id: Some(bundle_id.into()),
        publisher: None,
        size_bytes: None,
        modified_at: None,
        source: "applications".into(),
        is_system: false,
        uninstall_command: None,
    }
}

#[test]
fn related_paths_match_bundle_id_and_bundle_name() {
    let home = "/h";
    let lib = "/h/Library";
    let a = app(home, "Visual Studio Code", "com.microsoft.VSCode");
    let names = data_names(&a.name, Some("Code".to_string()));
    assert_eq!(names, vec!["Code", "Visual Studio Code"]);
    let folders = prefix_folder_paths(&known(home));
    let mut listings: Vec<Vec<String>> = vec![Vec::new(); folders.len()];
    listings[0] = vec![
        format!("{lib}/Preferences/com.microsoft.VSCode.plist"),
        format!("{lib}/Preferences/com.microsoft.VSCodeOther.plist"),
    ];
    let candidates = mac_related_candidates(&a, &known(home), &names, &listings);
    let existing = [
        a.path.clone(),
        format!("{lib}/Application Support/Code"),
        format!("{lib}/Caches/com.microsoft.VSCode"),
        format!("{lib}/Preferences/com.microsoft.VSCode.plist"),
        format!("{lib}/Preferences/com.microsoft.VSCodeOther.plist"),
        format!("{lib}/Application Support/CodeOther"),
    ];
    let exists: Vec<bool> = candidates.iter().map(|c| existing.contains(&c.path)).collect();
    let found = keep_existing(candidates, &exists);
    let paths: Vec<&str> = found.iter().map(|r| r.path.as_str()).collect();
    assert!(paths.contains(&a.path.as_str()));
    assert!(paths.contains(&format!("{lib}/Application Support/Code").as_str()));
    assert!(paths.contains(&format!("{lib}/Caches/com.microsoft.VSCode").as_str()));
    assert!(paths.contains(&format!("{lib}/Preferences/com.microsoft.VSCode.plist").as_str()));
    assert!(!paths.contains(&format!("{lib}/Preferences/com.microsoft.VSCodeOther.plist").as_str()));
    assert!(!paths.contains(&format!("{lib}/Application Support/CodeOther").as_str()));
    assert_eq!(found[0].kind, AppDataKind::Application);
}

#[test]
fn short_names_are_never_looked_for() {
    assert!(data_names("Go", None).is_empty());
    assert_eq!(data_names("  Tool  ", Some("Tool".into())), vec!["Tool"]);
    assert!(data_names("a/b/c", None).is_empty());
}

#[test]
fn prefixed_entries_need_a_separator_after_the_identifier() {
    assert!(is_prefixed("com.foo.Bar", "com.foo.Bar"));
    assert!(is_prefixed("com.foo.Bar.plist", "com.foo.Bar"));
    assert!(is_prefixed("com.foo.Bar-1", "com.foo.Bar"));
    assert!(!is_prefixed("com.foo.BarBaz", "com.foo.Bar"));
}

#[test]
fn bundles_are_described_from_their_plist_and_file_name() {
    let meta = bundle_meta(&BundleFields {
        display_name: Some("  ".into()),
        name: Some(" Code ".into()),
        identifier: Some("com.apple.Safari".into()),
        short_version: None,
        version: Some("1.2".into()),
    });
    assert_eq!(meta.name.as_deref(), Some("Code"));
    assert_eq!(meta.version.as_deref(), Some("1.2"));
    let info = app_info("/Applications/Visual Studio Code.app", "applications", meta, Some(3));
    assert_eq!(info.name, "Visual Studio Code");
    assert!(info.is_system);
    let plain = app_info("/Applications/X.app", "applications", BundleMeta { name: None, bundle_id: None, version: None }, None);
    assert!(!plain.is_system);
    assert!(is_bundle_path("/Applications/X.app"));
    assert!(!is_bundle_path("/Applications/Utilities"));
    assert!(descends_into("applications", "/Applications/Vendor"));
    assert!(!descends_into("applications", "/Applications/Utilities"));
    assert!(!descends_into("user_applications", "/h/Applications/Vendor"));
}
