use prune::cli::projects::{age_text, any_grouped, kinds_text, project_rows, targets_by_size};
use prune::cli::render::{human_bytes, risk, truncate};
use prune::models::{Category, CleanupTarget, RiskLevel, ScanResult, TargetGroup, TargetKind};

#[test]
fn formats_sizes_in_decimal_units() {
    assert_eq!(human_bytes(0), "0 B");
    assert_eq!(human_bytes(999), "999 B");
    assert_eq!(human_bytes(1_000), "1.00 KB");
    assert_eq!(human_bytes(12_800_000_000), "12.8 GB");
    assert_eq!(human_bytes(382_000_000_000), "382 GB");
}

#[test]
fn truncates_on_character_boundaries() {
    assert_eq!(truncate("short", 10), "short");
    assert_eq!(truncate("exactly-ten", 11), "exactly-ten");
    assert_eq!(truncate("a-much-longer-name", 8), "a-much-…");
    // Multi-byte characters must not be cut in half.
    assert_eq!(truncate("한국어이름입니다", 4), "한국어…");
}

#[test]
fn names_every_risk_level() {
    for level in [
        RiskLevel::Safe,
        RiskLevel::Low,
        RiskLevel::Medium,
        RiskLevel::High,
        RiskLevel::Protected,
    ] {
        assert!(!risk(level).is_empty());
    }
}

#[test]
fn sizes_keep_three_significant_digits_across_units() {
    assert_eq!(human_bytes(1_234), "1.23 KB");
    assert_eq!(human_bytes(45_600_000), "45.6 MB");
    assert_eq!(human_bytes(999_999), "1000 KB");
    assert_eq!(human_bytes(5_000_000_000_000_000), "5000 TB");
}

fn target(path: &str, bytes: u64, group: Option<(&str, Option<i64>)>, kind: Option<&str>) -> CleanupTarget {
    CleanupTarget {
        id: CleanupTarget::make_id("p", path),
        provider_id: "p".to_string(),
        path: path.to_string(),
        kind: TargetKind::Directory,
        size_bytes: bytes,
        file_count: 1,
        risk: RiskLevel::Low,
        label: path.to_string(),
        description: kind.map(|k| k.to_string()),
        modified_at: None,
        permanent_only: false,
        group: group.map(|(label, at)| TargetGroup {
            key: format!("/p/{label}"),
            label: label.to_string(),
            last_active_at: at,
        }),
    }
}

fn result(targets: Vec<CleanupTarget>) -> ScanResult {
    ScanResult {
        provider_id: "p".to_string(),
        provider_name: "P".to_string(),
        category: Category::DeveloperFiles,
        targets,
        total_bytes: 0,
        total_files: 0,
        duration_ms: 0,
        issues: Vec::new(),
    }
}

#[test]
fn projects_are_summed_and_listed_biggest_first() {
    let r = result(vec![
        target("/p/a/node_modules", 100, Some(("a", Some(5))), Some("node_modules")),
        target("/p/b/target", 500, Some(("b", None)), Some("Rust target")),
        target("/p/a/dist", 50, Some(("a", Some(5))), Some("dist")),
        target("/p/a/other/node_modules", 10, Some(("a", Some(5))), Some("node_modules")),
        target("/loose", 7, None, None),
        target("/p/c/build", 160, Some(("c", None)), None),
    ]);
    let rows = project_rows(&r);
    let labels: Vec<&str> = rows.projects.iter().map(|p| p.label.as_str()).collect();
    assert_eq!(labels, vec!["b", "a", "c"]);
    assert_eq!(rows.projects[1].bytes, 160);
    assert_eq!(rows.projects[1].items, 3);
    assert_eq!(rows.projects[1].kinds, vec!["node_modules".to_string(), "dist".to_string()]);
    assert_eq!(rows.projects[1].last_active, Some(5));
    assert!(rows.projects[2].kinds.is_empty());
    assert_eq!(rows.ungrouped_bytes, 7);
    assert_eq!(rows.ungrouped_items, 1);
    assert!(any_grouped(&r.targets));
}

#[test]
fn projects_of_equal_size_keep_the_order_they_were_met() {
    let r = result(vec![
        target("/p/z/x", 10, Some(("z", None)), None),
        target("/p/y/x", 10, Some(("y", None)), None),
    ]);
    let rows = project_rows(&r);
    assert_eq!(rows.projects[0].label, "z");
    assert_eq!(rows.projects[1].label, "y");
}

#[test]
fn age_counts_whole_days_and_admits_an_unknown() {
    let day = 86_400_000i64;
    assert_eq!(age_text(10 * day + 5, Some(3 * day)), "7d since work");
    assert_eq!(age_text(day - 1, Some(0)), "0d since work");
    assert_eq!(age_text(0, Some(day)), "0d since work");
    assert_eq!(age_text(0, None), "no repository");
}

#[test]
fn long_kind_lists_are_cut() {
    let short = vec!["node_modules".to_string(), "dist".to_string()];
    assert_eq!(kinds_text(&short), "node_modules, dist");
    let long = vec![
        "node_modules".to_string(),
        "Rust target".to_string(),
        "Next.js cache".to_string(),
    ];
    let text = kinds_text(&long);
    assert_eq!(text.chars().count(), 34);
    assert!(text.ends_with('…'));
}

#[test]
fn targets_are_listed_biggest_first() {
    let ts = vec![
        target("/a", 5, None, None),
        target("/b", 50, None, None),
        target("/c", 5, None, None),
    ];
    assert_eq!(targets_by_size(&ts), vec![1, 0, 2]);
    assert!(!any_grouped(&ts));
}

/// The figure as the float arithmetic of `f64` gives it.
fn float_reference(bytes: u64) -> String {
    const UNITS: [&str; 5] = ["B", "KB", "MB", "GB", "TB"];
    if bytes < 1000 {
        return format!("{bytes} B");
    }
    let mut value = bytes as f64;
    let mut unit = 0;
    while value >= 1000.0 && unit < UNITS.len() - 1 {
        value /= 1000.0;
        unit += 1;
    }
    let digits = if value >= 100.0 {
        0
    } else if value >= 10.0 {
        1
    } else {
        2
    };
    format!("{value:.digits$} {}", UNITS[unit], digits = digits)
}

#[test]
fn sizes_read_as_the_double_they_come_from() {
    assert_eq!(human_bytes(1_015), "1.01 KB");
    assert_eq!(human_bytes(1_125), "1.12 KB");
    assert_eq!(human_bytes(1_135), "1.14 KB");
}

#[test]
fn sizes_match_float_arithmetic_across_the_range() {
    let mut samples: Vec<u64> = vec![
        1_000, 1_005, 1_015, 1_025, 1_125, 9_995, 10_050, 10_150, 99_950, 99_995, 999_500, 999_999,
        1_000_000, 1_005_000, 9_999_999, 123_456_789, 999_999_999_999, 1_000_000_000_000,
        9_007_199_254_740_993, 18_014_398_509_481_985, u64::MAX, u64::MAX - 1,
    ];
    let mut x: u64 = 0x9E37_79B9_7F4A_7C15;
    for _ in 0..20_000 {
        x ^= x << 13;
        x ^= x >> 7;
        x ^= x << 17;
        samples.push(x >> (x % 61));
        samples.push(1_000 + x % 1_000_000);
    }
    for b in samples {
        assert_eq!(human_bytes(b), float_reference(b), "for {b} bytes");
    }
}
