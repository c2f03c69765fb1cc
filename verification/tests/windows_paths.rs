use prune::paths::{file_name, join, parse, same, starts_with, strip_verbatim};
use prune::platform::windows::{protected_paths, WindowsEnv};
use prune::platform::{KnownPaths, ProtectedPaths};
use prune::providers::projects::parent_text;
use prune::safety::{PathFacts, SafetyPolicy};

fn there(path: &str, is_dir: bool) -> PathFacts {
    PathFacts { exists: true, resolved: Ok(path.to_string()), resolved_is_dir: is_dir }
}

fn windows_policy() -> SafetyPolicy {
    SafetyPolicy::from_protected(ProtectedPaths {
        allowed_roots: vec![r"C:\Users\u".to_string()],
        exact: vec![r"C:\Users\u".to_string(), r"C:\Users\u\AppData".to_string()],
        trees: vec![r"C:\Users\u\.ssh".to_string(), r"C:\Windows".to_string()],
        app_bundle_roots: vec![],
    })
}

#[test]
fn a_windows_path_is_read_in_components() {
    let p = parse(r"C:\Users\u\AppData/Local\\Temp\.\old\");
    assert!(p.absolute);
    assert_eq!(p.prefix, vec!['C', ':']);
    assert_eq!(p.parts, vec!["Users", "u", "AppData", "Local", "Temp", "old"]);
    assert!(!parse(r"C:relative\x").absolute);
    assert!(parse(r"\\server\share\x").absolute);
    assert!(same(r"c:\Users\u", r"C:\Users\u\"));
    assert!(!same(r"C:\Users\u", r"D:\Users\u"));
    assert!(!same(r"C:\Users\u", "/Users/u"));
}

#[test]
fn starts_with_and_join_follow_windows_rules() {
    assert!(starts_with(r"C:\Users\u\AppData\Local", r"C:\Users\u"));
    assert!(!starts_with(r"C:\Users\uv", r"C:\Users\u"));
    assert!(!starts_with(r"D:\Users\u\x", r"C:\Users\u"));
    assert_eq!(join(r"C:\Users\u", "Library/Caches"), r"C:\Users\u\Library/Caches");
    assert_eq!(join(r"C:\Users\u\", "x"), r"C:\Users\u\x");
    assert_eq!(join(r"C:\Users\u", r"D:\other"), r"D:\other");
    assert_eq!(join("/Users/u", "x"), "/Users/u/x");
    assert_eq!(file_name(r"C:\Users\u\AppData\Local\Temp\old.log").unwrap(), "old.log");
    assert_eq!(parent_text(r"C:\Users\u\old").unwrap(), r"C:\Users\u");
    assert_eq!(parent_text(r"C:\Users").unwrap(), r"C:\");
    assert!(parent_text(r"C:\").is_none());
    assert_eq!(parent_text(r"\\server\share\x").unwrap(), r"\\server\share");
}

#[test]
fn the_safety_policy_accepts_a_windows_cache_under_the_profile() {
    let policy = windows_policy();
    let path = r"C:\Users\u\AppData\Local\Temp\old";
    let v = policy.validate(path, &there(path, true)).unwrap();
    assert_eq!(v.as_path(), path);
}

#[test]
fn the_safety_policy_refuses_protected_windows_paths() {
    let policy = windows_policy();
    for path in [
        r"C:\Users\u",
        r"C:\Users\u\AppData",
        r"C:\Users\u\.ssh\id_ed25519",
        r"c:\Users\u\.ssh\config",
        r"C:\Windows\System32",
        r"D:\Users\u\AppData\Local\x",
        r"C:\Users\u\AppData\..\Documents",
        r"Users\u\AppData\Local\x",
    ] {
        assert!(policy.validate(path, &there(path, true)).is_err(), "{path} should be refused");
    }
}

#[test]
fn the_verbatim_marker_of_a_canonical_path_is_dropped() {
    assert_eq!(strip_verbatim(r"\\?\C:\Users\u\x"), r"C:\Users\u\x");
    assert_eq!(strip_verbatim(r"\\?\UNC\server\share\x"), r"\\server\share\x");
    assert_eq!(strip_verbatim(r"C:\Users\u"), r"C:\Users\u");
    assert_eq!(strip_verbatim("/Users/u"), "/Users/u");
    assert_eq!(strip_verbatim(r"\\?"), r"\\?");
}

#[test]
fn joining_onto_a_bare_drive_adds_no_separator() {
    assert_eq!(join("C:", "Boot"), "C:Boot");
    assert_eq!(join("c:", r"x\y"), r"c:x\y");
    assert!(!parse("C:Boot").absolute);
    assert_eq!(join(r"C:\", "Boot"), r"C:\Boot");
}

#[test]
fn without_the_environment_the_drive_trees_are_drive_relative() {
    let known = KnownPaths {
        home: r"C:\Users\u".to_string(),
        user_cache: None,
        user_logs: None,
        app_support: None,
        local_app_data: None,
        temp: r"C:\Users\u\AppData\Local\Temp".to_string(),
        trash: None,
        downloads: None,
        project_roots: vec![],
    };
    let env = WindowsEnv { system_drive: None, windir: None, program_files: None, program_files_x86: None, program_data: None };
    let p = protected_paths(&known, &env);
    for t in ["C:Windows", "C:Program Files", "C:System Volume Information", "C:$Recycle.Bin", "C:Recovery", "C:Boot"] {
        assert!(p.trees.iter().any(|x| x == t), "{t} should be a tree");
    }
}
