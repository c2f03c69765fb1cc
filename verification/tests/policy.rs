use prune::error::PruneError;
use prune::platform::ProtectedPaths;
use prune::safety::{IoFailure, PathFacts, SafetyPolicy};
use prune::settings::{validate_root, Canonical, RootRejection, Settings};

/// What the file system says of an existing path whose parent resolves to where it is.
fn there(path: &str, is_dir: bool) -> PathFacts {
    PathFacts { exists: true, resolved: Ok(path.to_string()), resolved_is_dir: is_dir }
}

fn missing(path: &str) -> PathFacts {
    PathFacts { exists: false, resolved: Ok(path.to_string()), resolved_is_dir: false }
}

fn sandbox() -> SafetyPolicy {
    SafetyPolicy::from_protected(ProtectedPaths {
        allowed_roots: vec!["/sb/home".to_string()],
        exact: vec!["/sb/home".to_string(), "/sb/home/Library".to_string(), "/sb/home/Documents".to_string()],
        trees: vec!["/sb/home/.ssh".to_string(), "/sb/system".to_string()],
        app_bundle_roots: vec![],
    })
}

fn ok(policy: &SafetyPolicy, path: &str) -> bool {
    policy.validate(path, &there(path, true)).is_ok()
}

#[test]
fn accepts_cache_inside_home() {
    let policy = sandbox();
    let v = policy.validate("/sb/home/Library/Caches/app", &there("/sb/home/Library/Caches/app", true)).unwrap();
    assert_eq!(v.as_path(), "/sb/home/Library/Caches/app");
}

#[test]
fn rejects_relative_and_dotdot() {
    let policy = sandbox();
    assert!(!ok(&policy, "relative/path"));
    assert!(!ok(&policy, "/sb/home/../x"));
}

#[test]
fn rejects_root_and_home_itself() {
    let policy = sandbox();
    assert!(!ok(&policy, "/"));
    assert!(!ok(&policy, "/sb/home"));
}

#[test]
fn rejects_exact_protected_and_ancestors() {
    let policy = sandbox();
    assert!(!ok(&policy, "/sb/home/Library"));
    assert!(!ok(&policy, "/sb/home/Documents"));
    // Children of exact-protected dirs are allowed.
    assert!(ok(&policy, "/sb/home/Documents/important"));
}

#[test]
fn rejects_protected_trees() {
    let policy = sandbox();
    assert!(!ok(&policy, "/sb/home/.ssh"));
    assert!(!ok(&policy, "/sb/home/.ssh/id_ed25519"));
    assert!(!ok(&policy, "/sb/system/bin"));
}

#[test]
fn rejects_outside_allowed_roots() {
    let policy = sandbox();
    assert!(!ok(&policy, "/sb/elsewhere/x"));
}

#[test]
fn app_bundle_rule_allows_only_direct_app_children() {
    let apps = "/sb/Applications";
    let policy = SafetyPolicy::from_protected(ProtectedPaths {
        allowed_roots: vec!["/sb/home".to_string()],
        exact: vec![],
        trees: vec![apps.to_string()],
        app_bundle_roots: vec![apps.to_string()],
    });
    assert!(ok(&policy, "/sb/Applications/Foo.app"));
    assert!(!ok(&policy, apps));
    assert!(!ok(&policy, "/sb/Applications/Foo.app/Contents"));
    assert!(!ok(&policy, "/sb/Applications/Utilities"));
    assert!(!ok(&policy, "/sb/Applications/Utilities/Bar.app"));
    // A file named like a bundle is not one.
    assert!(policy.validate("/sb/Applications/Foo.app", &there("/sb/Applications/Foo.app", false)).is_err());
}

#[test]
fn rejects_missing_path() {
    let policy = sandbox();
    let path = "/sb/home/Library/Caches/nope";
    assert!(policy.validate(path, &missing(path)).is_err());
}

#[test]
fn symlink_leaf_is_not_followed_into_protected_tree() {
    let policy = sandbox();
    // The link itself lives in an allowed place: its parent resolves there, and its own
    // target is not looked at.
    let link = "/sb/home/Library/Caches/sneaky";
    let v = policy.validate(link, &there("/private/sb/home/Library/Caches/sneaky", false));
    assert!(v.is_err(), "a parent that resolves outside the allowed roots is refused");
    let v = policy.validate(link, &there(link, false)).unwrap();
    assert_eq!(v.as_path(), link);
    // A path through the link resolves into the protected tree and is refused.
    assert!(policy.validate("/sb/home/Library/Caches/sneaky/id_ed25519", &there("/sb/home/.ssh/id_ed25519", false)).is_err());
}

#[test]
fn an_unresolvable_parent_is_an_io_error() {
    let policy = sandbox();
    let facts = PathFacts {
        exists: true,
        resolved: Err(IoFailure { path: "/sb/home/x".to_string(), message: "denied".to_string() }),
        resolved_is_dir: false,
    };
    match policy.validate("/sb/home/x/y", &facts) {
        Err(PruneError::Io { path, message }) => {
            assert_eq!(path, "/sb/home/x");
            assert_eq!(message, "denied");
        }
        other => panic!("unexpected {other:?}"),
    }
    assert!(policy.is_protected("/sb/home/x/y", &facts));
}

#[test]
fn validates_candidate_roots() {
    let home = "/h";
    let dir = |p: &str| Canonical::Resolved { path: p.to_string(), is_dir: true };
    assert_eq!(validate_root("/h/code", &dir("/h/code"), home), Ok("/h/code".to_string()));
    assert_eq!(validate_root("relative", &dir("/h/relative"), home), Err(RootRejection::NotAbsolute));
    assert_eq!(validate_root("/h/nope", &Canonical::NotFound, home), Err(RootRejection::Missing));
    assert_eq!(
        validate_root("/h/file.txt", &Canonical::Resolved { path: "/h/file.txt".to_string(), is_dir: false }, home),
        Err(RootRejection::NotADirectory)
    );
    assert_eq!(validate_root("/elsewhere", &dir("/elsewhere"), home), Err(RootRejection::OutsideHome));
    assert_eq!(validate_root("/h/odd", &Canonical::Unreadable, home), Err(RootRejection::NotADirectory));
}

#[test]
fn sanitizing_drops_unusable_and_nested_roots() {
    let settings = Settings {
        project_roots: vec!["/h/code".into(), "/h/code/app".into(), "/h/gone".into(), "/h/work".into()],
    };
    let checked = vec![
        Ok("/h/code".to_string()),
        Ok("/h/code/app".to_string()),
        Err(RootRejection::Missing),
        Ok("/h/work".to_string()),
    ];
    assert_eq!(settings.sanitized_roots(&checked), vec!["/h/code".to_string(), "/h/work".to_string()]);
}

#[test]
fn a_parent_added_later_replaces_the_child() {
    let settings = Settings { project_roots: vec!["/h/code/app".into(), "/h/code".into()] };
    let checked = vec![Ok("/h/code/app".to_string()), Ok("/h/code".to_string())];
    assert_eq!(settings.sanitized_roots(&checked), vec!["/h/code".to_string()]);
}
