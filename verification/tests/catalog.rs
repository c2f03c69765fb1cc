use prune::models::{Category, RiskLevel};
use prune::platform::KnownPaths;
use prune::providers::catalog::{built_in_ids, default_entries, BuiltIn, SystemLocation, ToolCache};
use prune::providers::custom::{accept_specs, CustomMode, CustomProviderSpec};
use prune::providers::simple::{Root, RootMode};
use prune::providers::ProviderRegistry;

fn mac_known() -> KnownPaths {
    KnownPaths {
        home: "/Users/a".to_string(),
        user_cache: Some("/Users/a/Library/Caches".to_string()),
        user_logs: Some("/Users/a/Library/Logs".to_string()),
        app_support: Some("/Users/a/Library/Application Support".to_string()),
        local_app_data: Some("/Users/a/Library/Application Support".to_string()),
        temp: "/tmp".to_string(),
        trash: Some("/Users/a/.Trash".to_string()),
        downloads: Some("/Users/a/Downloads".to_string()),
        project_roots: vec![],
    }
}

fn paths(roots: &[Root]) -> Vec<String> {
    roots.iter().map(|r| r.path.clone()).collect()
}

#[test]
fn a_custom_provider_joins_the_built_in_ones_and_outranks_the_generic_cache() {
    let ids = built_in_ids();
    let reserved: Vec<&str> = ids.iter().map(String::as_str).collect();
    let spec = CustomProviderSpec {
        id: "mine".to_string(),
        name: "Mine".to_string(),
        description: String::new(),
        category: Category::DeveloperFiles,
        risk: RiskLevel::Safe,
        mode: CustomMode::Whole,
        paths: vec!["~/mine".to_string()],
        min_age_days: None,
        exclude: vec![],
    };
    let loaded = accept_specs(vec![spec], &reserved);
    assert!(loaded.issues.is_empty(), "{:?}", loaded.issues);

    let registry = ProviderRegistry::with_custom(&loaded.providers);
    let mine = registry.get("mine").expect("the custom provider is registered");

    assert!(mine.custom);
    assert!(mine.priority > registry.get("user_cache").unwrap().priority);
    assert!(registry.get("npm_cache").is_some());
}

#[test]
fn built_in_ids_are_what_a_custom_file_may_not_reuse() {
    let ids = built_in_ids();
    assert!(ids.iter().any(|id| id == "npm_cache"));
    assert_eq!(ids.len(), default_entries().len());
}

#[test]
fn provider_ids_are_unique() {
    let providers = default_entries();
    let mut ids: Vec<&str> = providers.iter().map(|p| p.id.as_str()).collect();
    let before = ids.len();
    ids.sort_unstable();
    ids.dedup();
    assert_eq!(before, ids.len(), "duplicate provider id");
}

#[test]
fn the_built_in_providers_come_in_display_order() {
    let entries = default_entries();
    assert_eq!(entries.len(), 37);
    assert_eq!(entries[0].id, "user_cache");
    assert_eq!(entries[0].priority, 10);
    assert_eq!(entries[4].id, "old_installers");
    assert_eq!(entries[4].priority, 50);
    assert_eq!(entries[5].id, "chromium_cache");
    assert_eq!(entries[7].id, "npm_cache");
    assert_eq!(entries[7].priority, 60);
    assert_eq!(entries[36].id, "project_artifacts");
    assert_eq!(entries[36].priority, 80);
    assert!(entries.iter().all(|e| !e.custom));
    assert_eq!(BuiltIn::all().len(), 37);
    assert_eq!(ToolCache::all().len(), 29);
}

#[test]
fn a_tool_cache_is_found_relative_to_the_home_directory() {
    let known = mac_known();
    let roots = ToolCache::NpmCache.roots(&known, false, &vec![]);
    assert_eq!(paths(&roots), vec!["/Users/a/.npm/_cacache"]);
    assert_eq!(roots[0].mode, RootMode::Whole);
    assert!(roots[0].label.is_none());
}

#[test]
fn a_place_whose_directory_is_missing_is_left_out() {
    let mut known = mac_known();
    known.user_cache = None;
    let roots = ToolCache::PipCache.roots(&known, false, &vec![]);
    assert_eq!(paths(&roots), vec!["/Users/a/.cache/pip"]);
    known.local_app_data = None;
    assert!(ToolCache::NpmCache.roots(&known, true, &vec![]).is_empty());
}

#[test]
fn labelled_places_keep_their_labels() {
    let roots = ToolCache::GoCache.roots(&mac_known(), false, &vec![]);
    assert_eq!(
        paths(&roots),
        vec!["/Users/a/Library/Caches/go-build", "/Users/a/go/pkg/mod/cache/download"]
    );
    assert_eq!(roots[0].label.as_deref(), Some("Go build cache"));
    assert_eq!(roots[1].label.as_deref(), Some("Go module downloads"));
}

#[test]
fn jetbrains_offers_each_ide_folder() {
    let roots = ToolCache::JetbrainsCache.roots(&mac_known(), false, &vec![]);
    assert_eq!(
        paths(&roots),
        vec!["/Users/a/Library/Caches/JetBrains", "/Users/a/Library/Logs/JetBrains"]
    );
    assert!(roots.iter().all(|r| r.mode == RootMode::Children));
}

#[test]
fn rubygems_takes_each_versions_archives_in_order_then_bundler() {
    let versions = vec!["3.2.0".to_string(), "2.7.0".to_string()];
    let roots = ToolCache::RubygemsCache.roots(&mac_known(), false, &versions);
    assert_eq!(
        paths(&roots),
        vec![
            "/Users/a/.gem/ruby/2.7.0/cache",
            "/Users/a/.gem/ruby/3.2.0/cache",
            "/Users/a/.bundle/cache",
        ]
    );
}

#[test]
fn the_tool_caches_are_developer_files_with_their_own_risk() {
    let p = ToolCache::XcodeArchives.provider();
    assert_eq!(p.id, "xcode_archives");
    assert_eq!(p.risk, RiskLevel::Medium);
    assert_eq!(p.category, Category::DeveloperFiles);
    assert_eq!(p.priority, 60);
}

#[test]
fn temporary_files_wait_a_day_and_skip_system_sockets() {
    let p = SystemLocation::TempFiles.provider();
    assert_eq!(p.id, "temp_files");
    assert_eq!(p.priority, 20);
    assert_eq!(p.min_age_days, Some(1));
    assert!(p.skips_child(".X11-unix"));
    assert!(!p.skips_child("scratch"));
    let roots = SystemLocation::TempFiles.roots(&mac_known(), false);
    assert_eq!(paths(&roots), vec!["/tmp"]);
    assert_eq!(roots[0].mode, RootMode::Children);
}

#[test]
fn the_trash_is_only_ever_deleted_outright() {
    let p = SystemLocation::Trash.provider();
    assert!(p.permanent_only);
    let mut known = mac_known();
    known.trash = None;
    assert!(SystemLocation::Trash.roots(&known, false).is_empty());
}

#[test]
fn the_generic_cache_skips_account_state() {
    let p = SystemLocation::UserCache.provider();
    assert_eq!(p.priority, 10);
    assert!(p.skips_child("CloudKit"));
    assert!(p.skips_child(".DS_Store"));
    assert!(!p.skips_child("com.example.app"));
}
