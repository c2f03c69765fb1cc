use prune::platform::macos::startup::{launchd_item, plist_info, sorted_items, PlistFields, PlistInfo};
use prune::platform::project_root_candidates;
use prune::platform::{StartupScope, StartupTrigger};

fn info(label: Option<&str>, disabled: bool) -> PlistInfo {
    PlistInfo {
        label: label.map(str::to_string),
        command: Some("/usr/bin/true".to_string()),
        trigger: StartupTrigger::AtLogin,
        disabled_in_plist: disabled,
    }
}

#[test]
fn an_agent_of_this_user_can_be_toggled() {
    let item = launchd_item(
        "/Users/a/Library/LaunchAgents/com.google.keystone.agent.plist",
        "launch_agent",
        StartupScope::User,
        info(Some("com.google.keystone.agent"), false),
        &vec![],
    );
    assert_eq!(item.name, "Keystone Agent");
    assert_eq!(item.label.as_deref(), Some("com.google.keystone.agent"));
    assert!(item.enabled);
    assert!(item.can_toggle);
    assert!(item.reason.is_none());
    assert_eq!(item.source, "launch_agent");
    assert_eq!(item.trigger, StartupTrigger::AtLogin);
    assert_eq!(item.id.len(), 16);
}

#[test]
fn the_override_database_disables_an_item() {
    let disabled = vec!["com.example.helper".to_string()];
    let item = launchd_item(
        "/Users/a/Library/LaunchAgents/com.example.helper.plist",
        "launch_agent",
        StartupScope::User,
        info(Some("com.example.helper"), false),
        &disabled,
    );
    assert!(!item.enabled);
    let item = launchd_item("/x/other.plist", "launch_agent", StartupScope::User, info(Some("other"), true), &disabled);
    assert!(!item.enabled);
}

#[test]
fn an_item_without_a_label_is_named_after_its_file() {
    let item = launchd_item("/Library/LaunchDaemons/my-helper.plist", "launch_daemon", StartupScope::System, plist_info(&None), &vec![]);
    assert_eq!(item.label.as_deref(), Some("my-helper"));
    assert_eq!(item.name, "My Helper");
    assert!(!item.can_toggle);
    assert_eq!(item.reason.as_deref(), Some("Installed for all users; change it with administrator rights."));
    assert_eq!(item.trigger, StartupTrigger::OnDemand);
}

#[test]
fn enabled_items_come_first_then_by_name() {
    let fields = PlistFields {
        label: None,
        program: None,
        program_arguments: None,
        run_at_load: None,
        keep_alive: None,
        scheduled: false,
        disabled: Some(true),
    };
    let off = launchd_item("/x/aaa-first.plist", "launch_agent", StartupScope::User, plist_info(&Some(fields)), &vec![]);
    let b = launchd_item("/x/beta.plist", "launch_agent", StartupScope::User, info(Some("beta"), false), &vec![]);
    let a = launchd_item("/x/Alpha.plist", "launch_agent", StartupScope::User, info(Some("Alpha"), false), &vec![]);
    let sorted = sorted_items(vec![off, b, a]);
    let names: Vec<&str> = sorted.iter().map(|s| s.name.as_str()).collect();
    assert_eq!(names, vec!["Alpha", "Beta", "Aaa First"]);
}

#[test]
fn project_roots_are_looked_for_under_home() {
    let c = project_root_candidates("/Users/a");
    assert_eq!(c.len(), 20);
    assert_eq!(c[0], "/Users/a/Projects");
    assert_eq!(c[13], "/Users/a/Documents/GitHub");
    assert_eq!(c[19], "/Users/a/Desktop");
}

use prune::error::PruneError;
use prune::platform::macos::startup::{launchctl_args, launchctl_failure, toggle_label};
use prune::platform::windows::startup::{approved_key, is_startup_entry, run_key_item, startup_folder_item, APPROVED_FOLDER, APPROVED_RUN, RUN};

fn other_message(e: PruneError) -> String {
    match e {
        PruneError::Other(m) => m,
        e => panic!("unexpected error {e:?}"),
    }
}

#[test]
fn only_a_users_own_agent_is_switched() {
    let user = launchd_item("/x/com.example.a.plist", "launch_agent", StartupScope::User, info(Some("com.example.a"), false), &vec![]);
    assert_eq!(toggle_label(&user).unwrap(), "com.example.a");
    let system = launchd_item("/Library/LaunchDaemons/x.plist", "launch_daemon", StartupScope::System, info(Some("x"), false), &vec![]);
    assert_eq!(
        other_message(toggle_label(&system).unwrap_err()),
        "Installed for all users; change it with administrator rights."
    );
}

#[test]
fn launchctl_is_told_the_users_service() {
    assert_eq!(launchctl_args(false, 501, "com.example.a"), vec!["disable", "gui/501/com.example.a"]);
    assert_eq!(launchctl_args(true, 0, "x"), vec!["enable", "gui/0/x"]);
    assert_eq!(other_message(launchctl_failure(true, &b"  \n".to_vec())), "launchctl enable failed");
    assert_eq!(other_message(launchctl_failure(false, &b" Operation not permitted\n".to_vec())), "Operation not permitted");
}

#[test]
fn a_run_value_becomes_an_item() {
    let item = run_key_item(RUN, "OneDrive", "\"C:\\Program Files\\OneDrive.exe\" /background", true, StartupScope::User);
    assert_eq!(item.path, format!("{RUN}\\OneDrive"));
    assert_eq!(item.name, "OneDrive");
    assert_eq!(item.source, "registry_run");
    assert!(item.can_toggle);
    assert!(item.command.is_some());
    let empty = run_key_item(RUN, "Nothing", "", false, StartupScope::System);
    assert!(empty.command.is_none());
    assert!(!empty.enabled);
    assert!(!empty.can_toggle);
    assert_eq!(approved_key(&item).unwrap(), (APPROVED_RUN, "OneDrive".to_string()));
    assert_eq!(
        other_message(approved_key(&empty).unwrap_err()),
        "Installed for all users; change it with administrator rights."
    );
}

#[test]
fn a_startup_folder_shortcut_becomes_an_item() {
    assert!(is_startup_entry("Slack.lnk", true));
    assert!(!is_startup_entry("desktop.ini", true));
    assert!(!is_startup_entry("Folder", false));
    let item = startup_folder_item("C:\\Users\\a\\Startup\\Slack.lnk", "Slack.lnk", true, StartupScope::User);
    assert_eq!(item.name, "Slack");
    assert_eq!(item.label.as_deref(), Some("Slack.lnk"));
    assert_eq!(approved_key(&item).unwrap(), (APPROVED_FOLDER, "Slack.lnk".to_string()));
    let shared = startup_folder_item("C:\\ProgramData\\Startup\\x.lnk", "x.lnk", true, StartupScope::System);
    assert_eq!(shared.reason.as_deref(), Some("Shared by all users; change it with administrator rights."));
}

#[test]
fn an_unknown_source_cannot_be_switched() {
    let mut item = startup_folder_item("/x/y.lnk", "y.lnk", true, StartupScope::User);
    item.source = "elsewhere".to_string();
    assert_eq!(other_message(approved_key(&item).unwrap_err()), "unsupported startup source: elsewhere");
    item.label = None;
    assert_eq!(other_message(approved_key(&item).unwrap_err()), "item has no registry value name");
}
