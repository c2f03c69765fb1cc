use prune::models::{Category, RiskLevel};
use prune::providers::simple::{ChildFacts, Finding, Root, RootFacts, SimpleProvider};

const DAY: u64 = 86_400;

fn provider() -> SimpleProvider {
    SimpleProvider::new("logs", "Logs", Category::Logs, "", RiskLevel::Safe)
        .exclude(vec!["keep-me"])
        .min_age_days(7)
}

fn child(path: &str, age: u64) -> ChildFacts {
    ChildFacts { path: path.to_string(), age_secs: Some(age) }
}

fn offers(findings: &[Finding]) -> Vec<(String, String)> {
    findings
        .iter()
        .filter_map(|f| match f {
            Finding::Offer { path, label } => Some((path.clone(), label.clone())),
            Finding::Unreadable { .. } => None,
        })
        .collect()
}

#[test]
fn children_are_offered_when_old_enough_and_not_excluded() {
    let roots = vec![Root::children("/h/Library/Logs".to_string())];
    let facts = vec![RootFacts {
        exists: true,
        age_secs: None,
        listing: Ok(vec![
            child("/h/Library/Logs/old", 30 * DAY),
            child("/h/Library/Logs/new", DAY),
            child("/h/Library/Logs/keep-me", 30 * DAY),
            child("/h/Library/Logs/.DS_Store", 30 * DAY),
            ChildFacts { path: "/h/Library/Logs/unknown-age".to_string(), age_secs: None },
        ]),
    }];
    let found = provider().findings(&roots, &facts);
    assert_eq!(offers(&found), vec![("/h/Library/Logs/old".to_string(), "old".to_string())]);
}

#[test]
fn a_missing_root_offers_nothing_and_an_unreadable_one_is_reported() {
    let roots = vec![
        Root::children("/h/gone".to_string()),
        Root::children("/h/locked".to_string()),
        Root::labelled("/h/cache".to_string(), "Cache".to_string()),
        Root::whole("/h/young".to_string()),
    ];
    let facts = vec![
        RootFacts { exists: false, age_secs: None, listing: Ok(vec![]) },
        RootFacts { exists: true, age_secs: None, listing: Err("permission denied".to_string()) },
        RootFacts { exists: true, age_secs: Some(8 * DAY), listing: Ok(vec![]) },
        RootFacts { exists: true, age_secs: Some(DAY), listing: Ok(vec![]) },
    ];
    let found = provider().findings(&roots, &facts);
    assert_eq!(found.len(), 2);
    match &found[0] {
        Finding::Unreadable { path, message } => {
            assert_eq!(path, "/h/locked");
            assert_eq!(message, "permission denied");
        }
        other => panic!("expected the unreadable root first, got {other:?}"),
    }
    assert_eq!(offers(&found), vec![("/h/cache".to_string(), "Cache".to_string())]);
}
