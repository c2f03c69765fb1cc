use prune::models::{Category, RiskLevel};
use prune::platform::KnownPaths;
use prune::providers::custom::{accept_specs, expand, CustomMode, CustomProviderSpec};

const BUILT_IN: &[&str] = &["npm_cache", "user_cache"];

fn spec(id: &str, name: &str, category: Category, risk: RiskLevel, paths: &[&str]) -> CustomProviderSpec {
    CustomProviderSpec {
        id: id.to_string(),
        name: name.to_string(),
        description: String::new(),
        category,
        risk,
        mode: CustomMode::Whole,
        paths: paths.iter().map(|p| p.to_string()).collect(),
        min_age_days: None,
        exclude: vec![],
    }
}

fn valid(id: &str) -> CustomProviderSpec {
    spec(id, "Thing", Category::DeveloperFiles, RiskLevel::Safe, &["~/thing"])
}

#[test]
fn one_bad_entry_does_not_lose_the_good_ones() {
    let specs = vec![
        valid("first"),
        spec("BAD ID", "x", Category::Logs, RiskLevel::Safe, &["~/x"]),
        valid("second"),
    ];
    let loaded = accept_specs(specs, BUILT_IN);

    assert_eq!(loaded.providers.len(), 2);
    assert_eq!(loaded.issues.len(), 1);
    assert_eq!(loaded.issues[0].id.as_deref(), Some("BAD ID"));
}

#[test]
fn refuses_an_id_that_would_shadow_a_built_in_one() {
    let loaded = accept_specs(vec![valid("npm_cache")], BUILT_IN);
    assert!(loaded.providers.is_empty());
    assert!(loaded.issues[0].message.contains("built-in"));
}

#[test]
fn refuses_a_repeated_id() {
    let loaded = accept_specs(vec![valid("dup"), valid("dup")], BUILT_IN);
    assert_eq!(loaded.providers.len(), 1);
    assert!(loaded.issues[0].message.contains("more than once"));
}

#[test]
fn refuses_entries_that_could_never_work() {
    let cases = [
        (spec("no_paths", "x", Category::Logs, RiskLevel::Safe, &[]), "at least one path"),
        (spec("no_name", "", Category::Logs, RiskLevel::Safe, &["~/x"]), "name must not be empty"),
        (spec("locked", "x", Category::Logs, RiskLevel::Protected, &["~/x"]), "unusable"),
        (spec("odd_token", "x", Category::Logs, RiskLevel::Safe, &["{nowhere}/x"]), "unknown location"),
    ];
    for (body, expected) in cases {
        let id = body.id.clone();
        let loaded = accept_specs(vec![body], BUILT_IN);
        assert!(loaded.providers.is_empty(), "{id}");
        assert!(loaded.issues[0].message.contains(expected), "{id} -> {}", loaded.issues[0].message);
    }
}

#[test]
fn expands_the_locations_it_understands() {
    let known = KnownPaths {
        home: "/home/u".to_string(),
        user_cache: Some("/home/u/Library/Caches".to_string()),
        temp: "/tmp".to_string(),
        ..Default::default()
    };

    assert_eq!(expand("~/thing", &known).unwrap(), "/home/u/thing");
    assert_eq!(expand("~", &known).unwrap(), "/home/u");
    assert_eq!(expand("{cache}/zig", &known).unwrap(), "/home/u/Library/Caches/zig");
    assert_eq!(expand("{temp}", &known).unwrap(), "/tmp");
    assert_eq!(expand("/absolute/path", &known).unwrap(), "/absolute/path");
    // A relative path is not a location.
    assert_eq!(expand("relative/path", &known), None);
    // A location this platform does not have is skipped, not an error.
    assert_eq!(expand("{downloads}/x", &known), None);
}

#[test]
fn a_valid_entry_becomes_a_custom_provider() {
    let loaded = accept_specs(vec![valid("zig_cache")], BUILT_IN);
    assert!(loaded.issues.is_empty(), "{:?}", loaded.issues);
    assert_eq!(loaded.providers.len(), 1);
    let entry = loaded.providers[0].entry();
    assert_eq!(entry.id, "zig_cache");
    assert_eq!(entry.default_risk, RiskLevel::Safe);
    assert!(entry.custom);
}
