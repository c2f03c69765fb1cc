use prune::models::RiskLevel;
use prune::providers::projects::{
    describe, label_for, latest, marker_paths, matching_rule, parent_text, project_dir, project_rules,
    search_chain, skips_dir, activity_files,
};

fn found_for(dir: &str, existing: &[&str]) -> Vec<bool> {
    marker_paths(dir)
        .into_iter()
        .map(|p| p.map(|p| existing.contains(&p.as_str())).unwrap_or(false))
        .collect()
}

#[test]
fn a_rule_needs_its_marker() {
    let dir = "/w/app/node_modules";
    assert_eq!(matching_rule(dir, &found_for(dir, &[])), None);
    let rule = matching_rule(dir, &found_for(dir, &["/w/app/package.json"])).unwrap();
    assert_eq!(project_rules()[rule].1, "node_modules");
}

#[test]
fn a_virtualenv_needs_its_config_inside() {
    let dir = "/w/.venv";
    assert_eq!(matching_rule(dir, &found_for(dir, &["/w/pyvenv.cfg"])), None);
    let rule = matching_rule(dir, &found_for(dir, &["/w/.venv/pyvenv.cfg"])).unwrap();
    assert_eq!(project_rules()[rule].2, RiskLevel::Medium);
}

#[test]
fn caches_without_markers_always_match() {
    let dir = "/w/x/__pycache__";
    let rule = matching_rule(dir, &found_for(dir, &[])).unwrap();
    assert_eq!(project_rules()[rule].1, "Python bytecode");
}

#[test]
fn hidden_and_listed_folders_are_not_entered() {
    assert!(skips_dir(".git"));
    assert!(skips_dir("Library"));
    assert!(skips_dir(".cache"));
    assert!(!skips_dir("."));
    assert!(!skips_dir("src"));
}

#[test]
fn labels_are_relative_and_short() {
    assert_eq!(label_for("/w", "/w/app/node_modules"), "app/node_modules");
    assert_eq!(label_for("/w", "/w/a/b/c/d/target"), "…/c/d/target");
    assert_eq!(label_for("/w", "/elsewhere/x"), "//elsewhere/x");
}

#[test]
fn the_search_walks_up_to_the_scan_root_and_stops() {
    let chain = search_chain("/w/queryx/apps/desktop/src-tauri/target", "/w");
    assert_eq!(
        chain,
        vec!["/w/queryx/apps/desktop/src-tauri", "/w/queryx/apps/desktop", "/w/queryx/apps", "/w/queryx", "/w"]
    );
    // The repository is the first directory with `.git`.
    let has_git: Vec<bool> = chain.iter().map(|d| d == "/w/queryx").collect();
    assert_eq!(chain[project_dir(&has_git)], "/w/queryx");
    // Without a repository the artifact's own directory is the project.
    assert_eq!(project_dir(&vec![false; chain.len()]), 0);
}

#[test]
fn a_group_is_named_after_its_folder_and_dated_by_its_repository() {
    let g = describe("/w/queryx", latest(&vec![Some(5), None, Some(9)]));
    assert_eq!(g.label, "queryx");
    assert_eq!(g.key, "/w/queryx");
    assert_eq!(g.last_active_at, Some(9));
    assert_eq!(latest(&vec![None, None]), None);
    assert_eq!(activity_files("/w/q"), vec!["/w/q/.git/index", "/w/q/.git/HEAD"]);
}

#[test]
fn parents_are_written_back_as_text() {
    assert_eq!(parent_text("/a/b/c").unwrap(), "/a/b");
    assert_eq!(parent_text("/a").unwrap(), "/");
    assert_eq!(parent_text("/"), None);
    assert_eq!(parent_text("a/b").unwrap(), "a");
}
