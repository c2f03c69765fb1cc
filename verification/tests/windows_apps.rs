use prune::platform::macos::apps::sorted_by_name;
use prune::platform::windows::apps::{registry_app, uninstall_keys, without_repeats, RegistryFields};

fn fields(name: Option<&str>, version: Option<&str>) -> RegistryFields {
    RegistryFields {
        display_name: name.map(str::to_string),
        publisher: Some(" Contoso Ltd ".to_string()),
        display_version: version.map(str::to_string),
        install_location: Some("C:\\Program Files\\Contoso".to_string()),
        quiet_uninstall: None,
        uninstall: Some("C:\\Program Files\\Contoso\\uninstall.exe".to_string()),
        system_component: None,
        estimated_size_kb: Some(2048),
    }
}

const KEY: &str = "SOFTWARE\\Microsoft\\Windows\\CurrentVersion\\Uninstall";

#[test]
fn an_uninstall_entry_becomes_an_application() {
    let app = registry_app(KEY, "{ABC}", "registry", &fields(Some("  Contoso Editor "), Some("2.1"))).unwrap();
    assert_eq!(app.name, "Contoso Editor");
    assert_eq!(app.publisher.as_deref(), Some("Contoso Ltd"));
    assert_eq!(app.bundle_id.as_deref(), Some("{ABC}"));
    assert_eq!(app.size_bytes, Some(2048 * 1024));
    assert_eq!(app.path, "C:\\Program Files\\Contoso");
    assert_eq!(app.uninstall_command.as_deref(), Some("C:\\Program Files\\Contoso\\uninstall.exe"));
    assert_eq!(app.source, "registry");
    assert!(!app.is_system);
    assert_eq!(app.id.len(), 16);
}

#[test]
fn nameless_and_hidden_entries_are_not_applications() {
    assert!(registry_app(KEY, "x", "registry", &fields(None, None)).is_none());
    assert!(registry_app(KEY, "x", "registry", &fields(Some("   "), None)).is_none());
    let mut hidden = fields(Some("Driver"), None);
    hidden.system_component = Some(1);
    assert!(registry_app(KEY, "x", "registry", &hidden).is_none());
}

#[test]
fn microsoft_components_are_system_and_the_quiet_uninstaller_wins() {
    let mut f = fields(Some("Microsoft Edge"), Some("120"));
    f.publisher = Some("Microsoft Corporation".to_string());
    f.quiet_uninstall = Some("edge.exe --uninstall --quiet".to_string());
    let app = registry_app(KEY, "Edge", "registry", &f).unwrap();
    assert!(app.is_system);
    assert_eq!(app.uninstall_command.as_deref(), Some("edge.exe --uninstall --quiet"));
    f.display_name = Some("Edge by Microsoft".to_string());
    assert!(!registry_app(KEY, "Edge", "registry", &f).unwrap().is_system);
}

#[test]
fn a_program_listed_twice_appears_once() {
    let a = registry_app(KEY, "1", "registry", &fields(Some("beta"), Some("1"))).unwrap();
    let b = registry_app(KEY, "2", "registry_user", &fields(Some("Alpha"), Some("1"))).unwrap();
    let c = registry_app(KEY, "3", "registry", &fields(Some("Alpha"), Some("1"))).unwrap();
    let d = registry_app(KEY, "4", "registry", &fields(Some("Alpha"), Some("2"))).unwrap();
    let listed = without_repeats(sorted_by_name(vec![a, b, c, d]));
    let keys: Vec<&str> = listed.iter().map(|x| x.bundle_id.as_deref().unwrap()).collect();
    assert_eq!(keys, vec!["2", "4", "1"]);
}

#[test]
fn three_uninstall_keys_are_read() {
    let keys = uninstall_keys();
    assert_eq!(keys.len(), 3);
    assert!(keys[0].0 && keys[1].0 && !keys[2].0);
    assert_eq!(keys[2].2, "registry_user");
}
