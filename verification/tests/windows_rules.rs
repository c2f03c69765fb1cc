use prune::platform::windows::rules::{claimable, keep_existing, related_candidates, specific_enough};
use prune::platform::{AppDataKind, ApplicationInfo, KnownPaths, RelatedPath};

fn app(name: &str, publisher: Option<&str>) -> ApplicationInfo {
    ApplicationInfo {
        id: "x".into(),
        name: name.into(),
        path: String::new(),
        version: None,
        bundle_id: Some("key".into()),
        publisher: publisher.map(str::to_string),
        size_bytes: None,
        modified_at: None,
        source: "registry".into(),
        is_system: false,
        uninstall_command: None,
    }
}

const LOCAL: &str = "/u/AppData/Local";
const ROAMING: &str = "/u/AppData/Roaming";

fn sandbox() -> KnownPaths {
    KnownPaths {
        home: "/u".to_string(),
        user_cache: Some(LOCAL.to_string()),
        user_logs: None,
        app_support: Some(ROAMING.to_string()),
        local_app_data: Some(LOCAL.to_string()),
        temp: "/u/Temp".to_string(),
        trash: None,
        downloads: None,
        project_roots: vec![],
    }
}

/// The places found, given the directories that exist on disk.
fn found(app: &ApplicationInfo, present: &[&str]) -> Vec<RelatedPath> {
    let candidates = related_candidates(app, &sandbox());
    let exists: Vec<bool> = candidates
        .iter()
        .map(|c| present.iter().any(|p| *p == c.path || p.starts_with(&format!("{}/", c.path))))
        .collect();
    keep_existing(candidates, &exists)
}

fn paths(v: &[RelatedPath]) -> Vec<String> {
    v.iter().map(|r| r.path.clone()).collect()
}

#[test]
fn an_applications_own_folder_is_found_in_both_appdata_roots() {
    let present = ["/u/AppData/Local/Slack", "/u/AppData/Roaming/Slack"];
    let f = paths(&found(&app("Slack", Some("Slack Technologies")), &present));
    assert_eq!(f.len(), 2, "{f:?}");
    assert!(f.iter().all(|p| p.ends_with("/Slack")));
}

#[test]
fn a_vendor_folder_is_never_claimed_by_one_application() {
    let present = [
        "/u/AppData/Roaming/Microsoft/Templates",
        "/u/AppData/Roaming/Microsoft/Signatures",
        "/u/AppData/Roaming/Microsoft/Windows/Recent",
    ];
    let f = found(&app("Microsoft", Some("Microsoft Corporation")), &present);
    assert!(f.is_empty(), "a vendor folder is not one application's to remove: {:?}", paths(&f));
}

#[test]
fn the_folder_every_per_user_installation_lives_in_is_never_claimed() {
    for name in ["Programs", "Packages", "Temp", "Cache", "Logs"] {
        let own = format!("{LOCAL}/{name}");
        let present = [
            "/u/AppData/Local/Programs/Microsoft VS Code",
            "/u/AppData/Local/Programs/Discord",
            own.as_str(),
        ];
        let f = found(&app(name, Some("Some Vendor")), &present);
        assert!(f.is_empty(), "{name} should not be claimable: {:?}", paths(&f));
    }
}

#[test]
fn a_product_folder_inside_a_vendor_folder_is_still_found() {
    let present = ["/u/AppData/Roaming/Microsoft/Teams", "/u/AppData/Roaming/Microsoft/Signatures"];
    let f = paths(&found(&app("Teams", Some("Microsoft")), &present));
    assert_eq!(f, vec![format!("{ROAMING}/Microsoft/Teams")]);
}

#[test]
fn short_names_match_too_much_to_be_used() {
    let present = ["/u/AppData/Roaming/Go"];
    assert!(found(&app("Go", Some("Google")), &present).is_empty());
    assert!(!claimable("Go"));
    assert!(claimable("Godot"));
}

#[test]
fn an_install_location_is_offered_but_still_has_to_pass_the_safety_layer() {
    let install = "/u/AppData/Local/Programs/Thing";
    let mut a = app("Thing", Some("Vendor"));
    a.path = install.to_string();
    let f = found(&a, &[install]);
    assert_eq!(f.len(), 1);
    assert_eq!(f[0].kind, AppDataKind::Application);
    assert_eq!(f[0].path, install);
}

#[test]
fn the_same_place_is_offered_once() {
    // An application installed straight into its own AppData folder.
    let own = "/u/AppData/Local/Thing";
    let mut a = app("Thing", None);
    a.path = own.to_string();
    let f = found(&a, &[own]);
    assert_eq!(paths(&f), vec![own.to_string()]);
    assert!(specific_enough(" Thing "));
}
