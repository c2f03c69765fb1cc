use prune::models::{Category, CleanupTarget, RiskLevel, ScanResult, TargetKind};
use prune::providers::registry::ProviderRegistry;
use prune::providers::simple::SimpleProvider;
use prune::scan::dedupe_overlaps;

fn generic() -> SimpleProvider {
    SimpleProvider::new("generic", "Generic", Category::ApplicationCache, "", RiskLevel::Safe).priority(10)
}

fn specific() -> SimpleProvider {
    SimpleProvider::new("specific", "Specific", Category::DeveloperFiles, "", RiskLevel::Safe).priority(60)
}

fn target(provider: &str, path: &str, bytes: u64) -> CleanupTarget {
    CleanupTarget {
        id: CleanupTarget::make_id(provider, path),
        provider_id: provider.into(),
        path: path.into(),
        kind: TargetKind::Directory,
        size_bytes: bytes,
        file_count: 1,
        risk: RiskLevel::Safe,
        label: path.into(),
        description: None,
        modified_at: None,
        permanent_only: false,
        group: None,
    }
}

fn result(provider: &str, category: Category, targets: Vec<CleanupTarget>) -> ScanResult {
    let mut r = ScanResult {
        provider_id: provider.into(),
        provider_name: provider.into(),
        category,
        targets,
        total_bytes: 0,
        total_files: 0,
        duration_ms: 0,
        issues: vec![],
    };
    r.recompute_totals();
    r
}

#[test]
fn specialised_provider_wins_over_generic_ancestor() {
    let registry = ProviderRegistry::new(vec![generic().entry(), specific().entry()]);
    let mut results = vec![
        result(
            "generic",
            Category::ApplicationCache,
            vec![
                target("generic", "/home/u/Library/Caches/Homebrew", 100),
                target("generic", "/home/u/Library/Caches/Other", 5),
            ],
        ),
        result(
            "specific",
            Category::DeveloperFiles,
            vec![target("specific", "/home/u/Library/Caches/Homebrew", 100)],
        ),
    ];
    dedupe_overlaps(&mut results, &registry);
    assert_eq!(results[0].targets.len(), 1);
    assert_eq!(results[0].targets[0].path, "/home/u/Library/Caches/Other");
    assert_eq!(results[1].targets.len(), 1);
}

#[test]
fn descendant_of_specialised_target_drops_generic_ancestor() {
    let registry = ProviderRegistry::new(vec![generic().entry(), specific().entry()]);
    let mut results = vec![
        result("generic", Category::ApplicationCache, vec![target("generic", "/c/Google", 100)]),
        result(
            "specific",
            Category::DeveloperFiles,
            vec![target("specific", "/c/Google/Chrome/Default/Cache", 40)],
        ),
    ];
    dedupe_overlaps(&mut results, &registry);
    assert!(results[0].targets.is_empty());
    assert_eq!(results[1].targets.len(), 1);
}

#[test]
fn same_priority_keeps_ancestor() {
    let registry = ProviderRegistry::new(vec![specific().entry()]);
    let mut results = vec![result(
        "specific",
        Category::DeveloperFiles,
        vec![
            target("specific", "/p/app/node_modules", 100),
            target("specific", "/p/app/node_modules/x/dist", 10),
        ],
    )];
    dedupe_overlaps(&mut results, &registry);
    assert_eq!(results[0].targets.len(), 1);
    assert_eq!(results[0].targets[0].path, "/p/app/node_modules");
}

#[test]
fn unrelated_paths_all_survive() {
    let registry = ProviderRegistry::new(vec![generic().entry(), specific().entry()]);
    let mut results = vec![
        result("generic", Category::ApplicationCache, vec![target("generic", "/a/one", 1)]),
        result("specific", Category::DeveloperFiles, vec![target("specific", "/a/onex", 2)]),
    ];
    dedupe_overlaps(&mut results, &registry);
    assert_eq!(results[0].targets.len(), 1);
    assert_eq!(results[1].targets.len(), 1);
}
