use prune::engine::{note_log_outcome, Execution, PruneEngine};
use prune::error::PruneError;
use prune::models::{
    Category, CleanupResult, CleanupStatus, CleanupTarget, DeleteMode, RiskLevel, ScanResult, ScanSession, ScanStatus,
    TargetKind,
};
use prune::platform::sandbox::SandboxPlatform;
use prune::providers::ProviderRegistry;
use prune::safety::PathFacts;

const CACHE: &str = "/sb/home/Library/Caches/com.example.app";
const BREW: &str = "/sb/home/Library/Caches/Homebrew";
const TRASHED: &str = "/sb/home/.Trash/old.txt";
const SSH_KEY: &str = "/sb/home/.ssh/id_ed25519";

fn engine() -> PruneEngine {
    let sandbox = SandboxPlatform::new("/sb".to_string());
    let known = sandbox.known_paths();
    let protected = sandbox.protected_paths(&known);
    PruneEngine::with_parts(known, protected, ProviderRegistry::with_defaults())
}

fn target(provider: &str, path: &str, kind: TargetKind, size: u64, permanent_only: bool) -> CleanupTarget {
    CleanupTarget {
        id: CleanupTarget::make_id(provider, path),
        provider_id: provider.to_string(),
        path: path.to_string(),
        kind,
        size_bytes: size,
        file_count: 1,
        risk: RiskLevel::Safe,
        label: path.rsplit('/').next().unwrap().to_string(),
        description: None,
        modified_at: None,
        permanent_only,
        group: None,
    }
}

fn result(provider: &str, category: Category, targets: Vec<CleanupTarget>) -> ScanResult {
    let total_bytes = targets.iter().map(|t| t.size_bytes).sum();
    let total_files = targets.iter().map(|t| t.file_count).sum();
    ScanResult {
        provider_id: provider.to_string(),
        provider_name: provider.to_string(),
        category,
        targets,
        total_bytes,
        total_files,
        duration_ms: 0,
        issues: vec![],
    }
}

/// What the sandbox looked like when it was scanned: an application cache, the Homebrew
/// cache, and a file in the trash.
fn session() -> ScanSession {
    let results = vec![
        result(
            "user_cache",
            Category::ApplicationCache,
            vec![
                target("user_cache", CACHE, TargetKind::Directory, 4096, false),
                target("user_cache", BREW, TargetKind::Directory, 2048, false),
            ],
        ),
        result("trash", Category::Trash, vec![target("trash", TRASHED, TargetKind::File, 128, true)]),
    ];
    ScanSession {
        id: "s2".to_string(),
        status: ScanStatus::Completed,
        started_at: 0,
        finished_at: Some(1),
        results,
        total_bytes: 4096 + 2048 + 128,
        total_files: 3,
    }
}

/// What the file system says of a path that is there and resolves to itself.
fn there(path: &str, is_dir: bool) -> PathFacts {
    PathFacts { exists: true, resolved: Ok(path.to_string()), resolved_is_dir: is_dir }
}

fn path_of(session: &ScanSession, id: &str) -> Option<(String, bool)> {
    session
        .results
        .iter()
        .flat_map(|r| r.targets.iter())
        .find(|t| t.id == id)
        .map(|t| (t.path.clone(), t.kind == TargetKind::Directory))
}

fn facts_for(session: &ScanSession, ids: &[String]) -> Vec<PathFacts> {
    ids.iter()
        .map(|id| match path_of(session, id) {
            Some((path, is_dir)) => there(&path, is_dir),
            None => PathFacts { exists: false, resolved: Ok(String::new()), resolved_is_dir: false },
        })
        .collect()
}

/// Runs `plan` against a file system where every removal succeeds; the paths removed come
/// back with the result.
fn execute(engine: &PruneEngine, plan: &prune::models::CleanupPlan) -> (CleanupResult, Vec<String>) {
    let mut removed = Vec::new();
    let mut execution = Execution::new(plan, 10);
    loop {
        let path = match execution.current() {
            Some(t) => t.path.clone(),
            None => break,
        };
        let is_dir = path != TRASHED;
        if let Some((validated, _mode)) = execution.check(engine.policy(), &there(&path, is_dir)) {
            removed.push(validated.as_path().to_string());
            execution.removal_done(&Ok(()));
        }
    }
    (execution.finish("op-1".to_string(), 20), removed)
}

#[test]
fn plan_blocks_unknown_ids_and_execute_removes_only_planned_targets() {
    let engine = engine();
    let session = session();
    let all_ids: Vec<String> = session.results.iter().flat_map(|r| r.targets.iter().map(|t| t.id.clone())).collect();
    let cache_id = CleanupTarget::make_id("user_cache", CACHE);
    let trash_id = CleanupTarget::make_id("trash", TRASHED);
    let ids = vec![cache_id, trash_id, "bogus".to_string()];
    let facts = facts_for(&session, &ids);

    let plan = engine.plan(&session, &ids, DeleteMode::Permanent, &facts, "plan-1".to_string(), 5);
    assert_eq!(plan.targets.len(), 2);
    assert_eq!(plan.blocked.len(), 1);
    assert_eq!(plan.blocked[0].target_id, "bogus");
    assert_eq!(plan.total_bytes, 4096 + 128);
    assert_eq!(plan.directory_count, 1);
    assert_eq!(plan.id, "plan-1");
    assert_eq!(plan.created_at, 5);

    let (result, removed) = execute(&engine, &plan);
    assert_eq!(result.removed_targets, 2);
    assert_eq!(result.removed_bytes, 4096 + 128);
    assert!(result.failed.is_empty());
    assert_eq!(result.status, CleanupStatus::Success);
    assert_eq!(result.operation_id, "op-1");
    assert_eq!((result.started_at, result.finished_at), (10, 20));
    // Only what the plan lists was removed; the Homebrew cache is intact.
    assert_eq!(removed, vec![CACHE.to_string(), TRASHED.to_string()]);
    assert!(!removed.contains(&BREW.to_string()));
    assert!(all_ids.len() > 2);

    let record = engine.operation_record(&plan, &result);
    assert_eq!(record.removed_bytes, 4096 + 128);
    assert_eq!(record.title, "Clean 2 categories");
}

#[test]
fn execute_refuses_paths_that_became_protected() {
    let engine = engine();
    let mut session = session();
    // Tamper with a target path to point at protected data: the plan must block it.
    let target = &mut session.results[0].targets[0];
    target.path = SSH_KEY.to_string();
    let id = target.id.clone();
    let ids = vec![id];
    let facts = vec![there(SSH_KEY, false)];
    let plan = engine.plan(&session, &ids, DeleteMode::Permanent, &facts, "plan-2".to_string(), 0);
    assert!(plan.targets.is_empty());
    assert_eq!(plan.blocked.len(), 1);
}

#[test]
fn a_path_that_turns_protected_after_planning_is_kept_at_execution() {
    let engine = engine();
    let session = session();
    let ids = vec![CleanupTarget::make_id("user_cache", CACHE)];
    let facts = facts_for(&session, &ids);
    let plan = engine.plan(&session, &ids, DeleteMode::Trash, &facts, "plan-3".to_string(), 0);
    assert_eq!(plan.targets.len(), 1);

    // Between planning and removal the cache directory became a link into ~/.ssh.
    let mut execution = Execution::new(&plan, 0);
    let linked = PathFacts { exists: true, resolved: Ok(SSH_KEY.to_string()), resolved_is_dir: false };
    assert!(execution.check(engine.policy(), &linked).is_none());
    assert!(execution.current().is_none());
    let result = execution.finish("op-3".to_string(), 1);
    assert_eq!(result.removed_targets, 0);
    assert_eq!(result.failed.len(), 1);
    assert_eq!(result.failed[0].path, CACHE);
    assert_eq!(result.status, CleanupStatus::Failed);
}

#[test]
fn a_cleanup_still_counts_when_the_log_cannot_be_written() {
    let engine = engine();
    let session = session();
    let ids = vec![CleanupTarget::make_id("user_cache", CACHE)];
    let facts = facts_for(&session, &ids);
    let plan = engine.plan(&session, &ids, DeleteMode::Permanent, &facts, "plan-4".to_string(), 0);
    let (mut result, _) = execute(&engine, &plan);
    note_log_outcome(&mut result, &Err(PruneError::Io { path: "/sb/log".to_string(), message: "not a directory".to_string() }));
    assert!(result.log_error.is_some(), "the user should be told the history was not recorded");
    assert_eq!(result.removed_targets, 1);
    assert_eq!(result.removed_bytes, 4096);
    assert_eq!(result.status, CleanupStatus::Success);
}

#[test]
fn a_successful_cleanup_reports_no_log_problem() {
    let engine = engine();
    let session = session();
    let ids = vec![CleanupTarget::make_id("user_cache", CACHE)];
    let facts = facts_for(&session, &ids);
    let plan = engine.plan(&session, &ids, DeleteMode::Permanent, &facts, "plan-5".to_string(), 0);
    let (mut result, _) = execute(&engine, &plan);
    assert!(result.log_error.is_none());
    note_log_outcome(&mut result, &Ok(()));
    assert!(result.log_error.is_none());
    assert_eq!(engine.operation_record(&plan, &result).removed_targets, 1);
}
