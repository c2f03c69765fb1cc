use prune::analyzer::{skip_when_root, DiskAnalysis, DiskScanStatus, DiskWalk, HostKind};
use prune::models::RiskLevel;
use prune::platform::ProtectedPaths;
use prune::safety::{PathFacts, SafetyPolicy};

/// What the file system would say of a regular file at `path`.
fn file_facts(path: &str) -> PathFacts {
    PathFacts { exists: true, resolved: Ok(path.to_string()), resolved_is_dir: false }
}

fn finish(walk: DiskWalk, cancelled: bool, policy: &SafetyPolicy) -> DiskAnalysis {
    let facts: Vec<PathFacts> = walk.candidate_paths().iter().map(|p| file_facts(p)).collect();
    walk.finish(cancelled, 0, 12, policy, &facts)
}

/// The tree of the original fixture, reported in the order a depth-first walk meets it.
fn fixture(root: &str) -> DiskWalk {
    let mut walk = DiskWalk::new("t", root);
    walk.add_dir(1, "a".into(), format!("{root}/a"));
    walk.add_dir(2, "b".into(), format!("{root}/a/b"));
    walk.add_file(3, format!("{root}/a/b/mid.zip"), 1500, None, None);
    walk.add_file(2, format!("{root}/a/big.iso"), 5000, None, Some(1));
    walk.add_dir(1, "c".into(), format!("{root}/c"));
    walk.add_file(2, format!("{root}/c/other.txt"), 20, None, None);
    walk.add_file(2, format!("{root}/c/small.txt"), 10, None, None);
    walk.add_file(1, format!("{root}/top.mov"), 700, None, None);
    walk
}

#[test]
fn builds_tree_large_files_and_extensions() {
    let root = "/tmp/t/home";
    let policy = SafetyPolicy::from_protected(ProtectedPaths {
        allowed_roots: vec![root.to_string()],
        exact: vec![],
        trees: vec![format!("{root}/c")],
        app_bundle_roots: vec![],
    });
    let analysis = finish(fixture(root), false, &policy);

    let view = analysis.node(None).unwrap();
    assert_eq!(view.node.size_bytes, 5000 + 1500 + 10 + 20 + 700);
    assert_eq!(view.node.file_count, 5);
    assert_eq!(view.node.dir_count, 3);
    assert_eq!(view.node.own_file_bytes, 700);
    assert_eq!(view.children[0].name, "a");
    assert_eq!(view.children[0].size_bytes, 6500);
    assert_eq!(view.children[1].name, "c");

    let b = analysis.node(Some(format!("{root}/a/b").as_str())).unwrap();
    assert_eq!(b.node.size_bytes, 1500);
    assert_eq!(b.breadcrumbs.len(), 2);
    assert_eq!(b.breadcrumbs[1].name, "a");

    let large = analysis.large_files(1000, 10);
    assert_eq!(large.len(), 2);
    assert_eq!(large[0].name, "big.iso");
    assert_eq!(large[0].risk, RiskLevel::Medium);
    // files inside a protected tree are visible but Protected
    let all = analysis.large_files(0, 10);
    assert!(all.iter().any(|f| f.name == "small.txt" && f.risk == RiskLevel::Protected));

    let summary = analysis.summary();
    assert_eq!(summary.top_extensions[0].extension, "iso");
    assert_eq!(
        summary.top_extensions.iter().find(|e| e.extension == "txt").unwrap().count,
        2
    );
    assert_eq!(summary.status, DiskScanStatus::Completed);
}

#[test]
fn forget_removed_adjusts_ancestors() {
    let root = "/tmp/f/home";
    let policy = SafetyPolicy::from_protected(ProtectedPaths {
        allowed_roots: vec![root.to_string()],
        ..Default::default()
    });
    let mut walk = DiskWalk::new("t", root);
    walk.add_dir(1, "a".into(), format!("{root}/a"));
    walk.add_file(2, format!("{root}/a/big.iso"), 5000, None, None);
    walk.add_file(2, format!("{root}/a/small.bin"), 100, None, None);
    let mut analysis = finish(walk, false, &policy);
    let id = analysis.large_files(4000, 1)[0].target_id.clone();
    analysis.forget_removed(&[id]);
    assert_eq!(analysis.node(None).unwrap().node.size_bytes, 100);
    assert_eq!(analysis.node(Some(format!("{root}/a").as_str())).unwrap().node.file_count, 1);
    assert!(analysis.large_files(4000, 1).is_empty());
}

#[test]
fn cancel_marks_cancelled() {
    let policy = SafetyPolicy::from_protected(ProtectedPaths::default());
    let walk = DiskWalk::new("t", "/tmp/c");
    // The flag is looked at before the first entry, and it is already set.
    assert!(walk.cancel_due());
    let analysis = finish(walk, true, &policy);
    assert_eq!(analysis.status, DiskScanStatus::Cancelled);
}

#[test]
fn a_hard_link_counts_its_bytes_once() {
    let policy = SafetyPolicy::from_protected(ProtectedPaths::default());
    let mut walk = DiskWalk::new("t", "/h");
    walk.add_file(1, "/h/one".into(), 400, Some((1, 77)), None);
    walk.add_file(1, "/h/two".into(), 400, Some((1, 77)), None);
    walk.add_file(1, "/h/three".into(), 400, Some((1, 78)), None);
    let analysis = finish(walk, false, &policy);
    let root = analysis.node(None).unwrap().node;
    assert_eq!(root.size_bytes, 800);
    assert_eq!(root.file_count, 3);
}

#[test]
fn only_the_largest_files_are_kept_and_ties_keep_the_first() {
    let policy = SafetyPolicy::from_protected(ProtectedPaths::default());
    let mut walk = DiskWalk::new("t", "/h");
    for i in 0..2001u64 {
        walk.add_file(1, format!("/h/f{i}"), 10, None, None);
    }
    walk.add_file(1, "/h/big".into(), 99, None, None);
    assert_eq!(walk.candidates.len(), 2000);
    let analysis = finish(walk, false, &policy);
    let large = analysis.large_files(0, 3000);
    assert_eq!(large.len(), 2000);
    assert_eq!(large[0].name, "big");
    // The file met first gave way to the bigger one; the one met last of the first 2000 is
    // still there, and the 2001st never got in.
    assert!(!large.iter().any(|f| f.name == "f0"));
    assert!(large.iter().any(|f| f.name == "f1999"));
    assert!(!large.iter().any(|f| f.name == "f2000"));
}

#[test]
fn extensions_are_keyed_lower_case_and_long_ones_count_as_none() {
    let policy = SafetyPolicy::from_protected(ProtectedPaths::default());
    let mut walk = DiskWalk::new("t", "/h");
    walk.add_file(1, "/h/A.JPG".into(), 5, None, None);
    walk.add_file(1, "/h/b.jpg".into(), 7, None, None);
    walk.add_file(1, "/h/c.averyveryverylongext".into(), 1, None, None);
    walk.add_file(1, "/h/noext".into(), 1, None, None);
    let analysis = finish(walk, false, &policy);
    let summary = analysis.summary();
    assert_eq!(summary.top_extensions[0].extension, "jpg");
    assert_eq!(summary.top_extensions[0].bytes, 12);
    assert_eq!(summary.top_extensions[1].extension, "(none)");
    assert_eq!(summary.top_extensions[1].count, 2);
    let large = analysis.large_files(0, 10);
    assert_eq!(large[0].extension, "jpg");
    assert_eq!(large[0].name, "b.jpg");
}

#[test]
fn the_root_of_a_filesystem_leaves_other_mounts_out() {
    assert!(skip_when_root("/", "/proc", HostKind::Other));
    assert!(skip_when_root("/", "/Volumes", HostKind::MacOs));
    assert!(!skip_when_root("/", "/Volumes", HostKind::Other));
    assert!(!skip_when_root("/home", "/proc", HostKind::Other));
    assert!(!skip_when_root("/", "/home", HostKind::Other));
}

#[test]
fn progress_is_reported_every_so_many_files() {
    let mut walk = DiskWalk::new("t", "/h");
    let mut reports = 0;
    for i in 0..4096u64 {
        if let Some(p) = walk.add_file(1, format!("/h/f{i}"), 1, None, None) {
            reports += 1;
            assert_eq!(p.files % 2048, 0);
            assert_eq!(p.bytes, p.files);
            assert_eq!(p.current_path, Some(format!("/h/f{i}")));
        }
    }
    assert_eq!(reports, 2);
}

#[test]
fn large_files_become_cleanup_targets() {
    let root = "/tmp/l/home";
    let policy = SafetyPolicy::from_protected(ProtectedPaths {
        allowed_roots: vec![root.to_string()],
        ..Default::default()
    });
    let analysis = finish(fixture(root), false, &policy);
    let result = analysis.large_files_result();
    assert_eq!(result.provider_id, "large_files");
    assert_eq!(result.targets.len(), 5);
    assert_eq!(result.total_bytes, 7230);
    assert_eq!(result.total_files, 5);
    assert_eq!(result.targets[0].path, format!("{root}/a/big.iso"));
    assert_eq!(result.targets[0].description.as_deref(), Some("iso"));
}
