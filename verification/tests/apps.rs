use prune::apps::{as_scan_result, detail_knowing_siblings, measure, other_copies, AppDetail};
use prune::models::RiskLevel;
use prune::platform::sandbox::SandboxPlatform;
use prune::platform::{AppDataKind, ApplicationInfo, KnownPaths, RelatedPath};
use prune::providers::context::Measurement;
use prune::safety::{PathFacts, SafetyPolicy};

/// Two copies of one application, as a machine with `App-v1-backup.app` beside `App.app`.
struct TwoCopies {
    sandbox: SandboxPlatform,
    backup_present: bool,
}

impl TwoCopies {
    fn app(&self, name: &str) -> ApplicationInfo {
        ApplicationInfo {
            id: format!("id-{name}"),
            name: name.to_string(),
            path: format!("{}/Applications/{name}.app", self.sandbox.home()),
            version: None,
            bundle_id: Some("com.example.app".into()),
            publisher: None,
            size_bytes: None,
            modified_at: None,
            source: "applications".into(),
            is_system: false,
            uninstall_command: None,
        }
    }

    fn applications(&self) -> Vec<ApplicationInfo> {
        let mut all = vec![self.app("App")];
        if self.backup_present {
            all.push(self.app("App-backup"));
        }
        all
    }

    /// Both copies answer to the same identifier, so both are pointed at the same data.
    fn related(&self, app: &ApplicationInfo, known: &KnownPaths) -> Vec<RelatedPath> {
        vec![
            RelatedPath { kind: AppDataKind::Application, path: app.path.clone() },
            RelatedPath {
                kind: AppDataKind::ApplicationSupport,
                path: format!("{}/App", known.app_support.clone().unwrap()),
            },
        ]
    }
}

/// What measuring finds in the fixture: a four-byte bundle, and the settings both copies read.
fn measured(related: &[RelatedPath]) -> (Vec<Measurement>, Vec<PathFacts>) {
    let mut ms = Vec::new();
    let mut facts = Vec::new();
    for r in related {
        let bytes = if r.kind == AppDataKind::Application { 4 } else { 29 };
        ms.push(Measurement { is_dir: true, files: 1, bytes, modified_at: None });
        facts.push(PathFacts { exists: true, resolved: Ok(r.path.clone()), resolved_is_dir: true });
    }
    (ms, facts)
}

fn detail_for(platform: &TwoCopies, app: &ApplicationInfo) -> AppDetail {
    let known = platform.sandbox.known_paths();
    let policy = SafetyPolicy::from_protected(platform.sandbox.protected_paths(&known));
    let shared_with = other_copies(app, &platform.applications());
    let related = platform.related(app, &known);
    let (ms, facts) = measured(&related);
    detail_knowing_siblings(&policy, app, &related, &ms, &facts, shared_with)
}

#[test]
fn a_second_copy_makes_the_shared_data_untouchable() {
    let platform = TwoCopies { sandbox: SandboxPlatform::new("/tmp/two".into()), backup_present: true };
    let detail = detail_for(&platform, &platform.app("App-backup"));

    assert_eq!(detail.shared_with.len(), 1, "the other copy should be named: {:?}", detail.shared_with);
    assert!(detail.shared_with[0].ends_with("App.app"));

    let support = detail
        .items
        .iter()
        .find(|i| i.kind == AppDataKind::ApplicationSupport)
        .expect("the shared data should still be listed, not hidden");
    assert_eq!(
        support.target.risk,
        RiskLevel::Protected,
        "removing the backup must not take the working copy's settings"
    );

    // The copy the user actually asked to remove can still go.
    let bundle = detail.items.iter().find(|i| i.kind == AppDataKind::Application).unwrap();
    assert_ne!(bundle.target.risk, RiskLevel::Protected);
}

#[test]
fn the_last_copy_can_take_its_data_with_it() {
    let platform = TwoCopies { sandbox: SandboxPlatform::new("/tmp/one".into()), backup_present: false };
    let detail = detail_for(&platform, &platform.app("App"));

    assert!(detail.shared_with.is_empty());
    let support = detail.items.iter().find(|i| i.kind == AppDataKind::ApplicationSupport).unwrap();
    assert_ne!(
        support.target.risk,
        RiskLevel::Protected,
        "with nothing else reading it, the data is the application's to take"
    );
}

#[test]
fn totals_and_the_bundle_size_come_from_what_was_measured() {
    let platform = TwoCopies { sandbox: SandboxPlatform::new("/tmp/sum".into()), backup_present: false };
    let detail = detail_for(&platform, &platform.app("App"));
    assert_eq!(detail.total_bytes, 33);
    assert_eq!(detail.leftover_bytes, 29);
    assert_eq!(detail.app.size_bytes, Some(4));
    let result = as_scan_result(&detail);
    assert_eq!(result.provider_id, "uninstaller");
    assert_eq!(result.provider_name, "Uninstall App");
    assert_eq!(result.total_bytes, 33);
    assert_eq!(result.targets.len(), 2);
}

#[test]
fn an_application_without_an_identifier_shares_with_nobody() {
    let platform = TwoCopies { sandbox: SandboxPlatform::new("/tmp/noid".into()), backup_present: true };
    let mut app = platform.app("App-backup");
    app.bundle_id = None;
    assert!(other_copies(&app, &platform.applications()).is_empty());
    app.bundle_id = Some(String::new());
    assert!(other_copies(&app, &platform.applications()).is_empty());
}

#[test]
fn an_application_without_a_path_keeps_the_size_it_was_listed_with() {
    let platform = TwoCopies { sandbox: SandboxPlatform::new("/tmp/m".into()), backup_present: false };
    let mut app = platform.app("App");
    assert_eq!(measure(&app, 123), Some(123));
    app.path = String::new();
    app.size_bytes = Some(9);
    assert_eq!(measure(&app, 123), Some(9));
}

#[test]
fn nothing_found_is_left_out() {
    let platform = TwoCopies { sandbox: SandboxPlatform::new("/tmp/empty".into()), backup_present: false };
    let known = platform.sandbox.known_paths();
    let policy = SafetyPolicy::from_protected(platform.sandbox.protected_paths(&known));
    let app = platform.app("App");
    let related = platform.related(&app, &known);
    let ms = vec![
        Measurement { is_dir: true, files: 0, bytes: 0, modified_at: None },
        Measurement { is_dir: true, files: 1, bytes: 5, modified_at: None },
    ];
    let facts: Vec<PathFacts> = related
        .iter()
        .map(|r| PathFacts { exists: true, resolved: Ok(r.path.clone()), resolved_is_dir: true })
        .collect();
    let detail = detail_knowing_siblings(&policy, &app, &related, &ms, &facts, Vec::new());
    assert_eq!(detail.items.len(), 1);
    assert_eq!(detail.items[0].kind, AppDataKind::ApplicationSupport);
    assert_eq!(detail.app.size_bytes, None);
}
