//! Prune on the command line: what each subcommand decides, apart from the printing.
//!
//! Two habits make the command line safe to use in a hurry:
//!
//! - `clean` is a dry run unless `--yes` is given. Printing what would go is the default.
//! - `clean` only ever selects `Safe` targets, or `Low` as well with `--include-low`. Anything
//!   riskier is listed by `scan` but can only be chosen item by item in the desktop app.

use vstd::prelude::*;

pub mod projects;
pub mod render;

pub use render::human_bytes;

use crate::docker::{action_description, action_display, DockerAction, DockerState};
use crate::text::concat;
use crate::models::{session_targets, CleanupTarget, DeleteMode, RiskLevel, ScanSession};

verus! {

/// The parsed command line.
#[derive(Debug, Clone)]
pub struct Cli {
    pub command: Command,
    /// Print machine-readable JSON instead of a table.
    pub json: bool,
}

#[derive(Debug, Clone)]
pub enum Command {
    /// Show what Prune can look at on this machine.
    Status,
    /// List the cleanup providers and whether they apply here.
    Providers,
    /// Look for removable data. Read-only.
    Scan { only: Vec<String> },
    /// Remove regenerable data. A dry run unless `yes` is given.
    Clean { only: Vec<String>, include_low: bool, permanent: bool, yes: bool },
    /// Show where the space goes in a directory. Read-only.
    Disk { path: Option<String>, large: u64 },
    /// List installed applications, or one application's leftovers. Read-only.
    Apps { detail: Option<String> },
    /// Show what Docker is holding, or ask it to reclaim space.
    Docker { prune_cache: bool, prune_unused: bool, yes: bool },
    /// List running processes, or stop one.
    Processes { limit: usize, stop: Option<u32>, force: bool },
    /// List programs that start by themselves. Read-only.
    Startup,
    /// Show the local operation log.
    Log { limit: usize },
}

/// Exit codes. `0` success, `1` a problem, `2` nothing matched.
pub const EXIT_OK: i32 = 0;

pub const EXIT_ERROR: i32 = 1;

pub const EXIT_NOTHING: i32 = 2;

/// Whether `clean` takes a target without the user naming it: `Safe` ones, `Low` ones when
/// asked, and only targets that can go to the trash unless deleting outright was asked for.
pub open spec fn auto_selects(t: CleanupTarget, include_low: bool, permanent: bool) -> bool {
    (t.risk == RiskLevel::Safe || (include_low && t.risk == RiskLevel::Low)) && (permanent
        || !t.permanent_only)
}

/// The ids of the targets among `ts` that `clean` takes, in order.
pub open spec fn selected_ids(ts: Seq<CleanupTarget>, include_low: bool, permanent: bool) -> Seq<
    Seq<char>,
>
    decreases ts.len(),
{
    if ts.len() == 0 {
        Seq::empty()
    } else {
        let prev = selected_ids(ts.drop_last(), include_low, permanent);
        if auto_selects(ts.last(), include_low, permanent) {
            prev.push(ts.last().id@)
        } else {
            prev
        }
    }
}

/// Ids of the targets `clean` is willing to select without the user naming each one.
///
/// Risk decides most of it, but there is a second rule: some targets cannot be moved to the
/// trash (items already in it, for instance) and are always deleted outright. Selecting those
/// while promising "move to the trash" would delete a user's Trash on a command that reads as
/// reversible, so they are only taken when `permanent` was asked for.
pub fn auto_selected(session: &ScanSession, include_low: bool, permanent: bool) -> (r: Vec<String>)
    ensures
        crate::text::string_views(r@) == selected_ids(
            session_targets(session.results@),
            include_low,
            permanent,
        ),
{
    let mut out: Vec<String> = Vec::new();
    let mut i: usize = 0;
    while i < session.results.len()
        invariant
            i <= session.results@.len(),
            crate::text::string_views(out@) == selected_ids(
                session_targets(session.results@.take(i as int)),
                include_low,
                permanent,
            ),
        decreases session.results@.len() - i,
    {
        let targets = &session.results[i].targets;
        let ghost before = session_targets(session.results@.take(i as int));
        proof {
            assert(session.results@.take(i + 1).drop_last() == session.results@.take(i as int));
            assert(session.results@.take(i + 1).last() == session.results@[i as int]);
        }
        let mut j: usize = 0;
        while j < targets.len()
            invariant
                j <= targets@.len(),
                crate::text::string_views(out@) == selected_ids(
                    before + targets@.take(j as int),
                    include_low,
                    permanent,
                ),
            decreases targets@.len() - j,
        {
            let t = &targets[j];
            proof {
                assert((before + targets@.take(j + 1)).drop_last() == before + targets@.take(j as int));
                assert((before + targets@.take(j + 1)).last() == targets@[j as int]);
            }
            if (matches!(t.risk, RiskLevel::Safe) || (include_low && matches!(t.risk, RiskLevel::Low)))
                && (permanent || !t.permanent_only) {
                let id = t.id.clone();
                out.push(id);
                assert(crate::text::string_views(out@) == crate::text::string_views(out@.drop_last()).push(id@));
            }
            j = j + 1;
        }
        assert(targets@.take(targets@.len() as int) == targets@);
        i = i + 1;
    }
    assert(session.results@.take(session.results@.len() as int) == session.results@);
    out
}

/// Whether a target that can only be deleted outright would have been taken had that been
/// asked for.
pub open spec fn held_back(t: CleanupTarget, include_low: bool) -> bool {
    t.permanent_only && (t.risk == RiskLevel::Safe || include_low)
}

pub open spec fn held_back_in(ts: Seq<CleanupTarget>, include_low: bool) -> nat
    decreases ts.len(),
{
    if ts.len() == 0 {
        0
    } else {
        held_back_in(ts.drop_last(), include_low) + if held_back(ts.last(), include_low) {
            1nat
        } else {
            0nat
        }
    }
}

proof fn lemma_held_back_bounded(ts: Seq<CleanupTarget>, include_low: bool)
    ensures
        held_back_in(ts, include_low) <= ts.len(),
    decreases ts.len(),
{
    if ts.len() > 0 {
        lemma_held_back_bounded(ts.drop_last(), include_low);
    }
}

/// How many targets a trash-mode `clean` leaves out because they can only be deleted outright;
/// none when deleting outright was asked for.
pub fn held_back_count(session: &ScanSession, include_low: bool, permanent: bool) -> (r: u64)
    requires
        session_targets(session.results@).len() <= u64::MAX,
    ensures
        r == if permanent {
            0
        } else {
            held_back_in(session_targets(session.results@), include_low)
        },
{
    if permanent {
        return 0;
    }
    let ghost all = session_targets(session.results@);
    let mut count: u64 = 0;
    let mut i: usize = 0;
    while i < session.results.len()
        invariant
            i <= session.results@.len(),
            all == session_targets(session.results@),
            all.len() <= u64::MAX,
            count == held_back_in(session_targets(session.results@.take(i as int)), include_low),
            session_targets(session.results@.take(i as int)).len() <= all.len(),
        decreases session.results@.len() - i,
    {
        let targets = &session.results[i].targets;
        let ghost before = session_targets(session.results@.take(i as int));
        proof {
            assert(session.results@.take(i + 1).drop_last() == session.results@.take(i as int));
            assert(session.results@.take(i + 1).last() == session.results@[i as int]);
            crate::models::lemma_session_targets_prefix_len(session.results@, i + 1);
        }
        let mut j: usize = 0;
        while j < targets.len()
            invariant
                j <= targets@.len(),
                all.len() <= u64::MAX,
                (before + targets@).len() <= all.len(),
                count == held_back_in(before + targets@.take(j as int), include_low),
            decreases targets@.len() - j,
        {
            let t = &targets[j];
            proof {
                assert((before + targets@.take(j + 1)).drop_last() == before + targets@.take(j as int));
                assert((before + targets@.take(j + 1)).last() == targets@[j as int]);
                lemma_held_back_bounded(before + targets@.take(j + 1), include_low);
            }
            if t.permanent_only && (matches!(t.risk, RiskLevel::Safe) || include_low) {
                count = count + 1;
            }
            j = j + 1;
        }
        assert(targets@.take(targets@.len() as int) == targets@);
        i = i + 1;
    }
    assert(session.results@.take(session.results@.len() as int) == session.results@);
    count
}

/// How `clean` deletes: outright when asked to, otherwise to the trash.
pub fn clean_mode(permanent: bool) -> (r: DeleteMode)
    ensures
        r == if permanent {
            DeleteMode::Permanent
        } else {
            DeleteMode::Trash
        },
{
    if permanent {
        DeleteMode::Permanent
    } else {
        DeleteMode::Trash
    }
}

/// What `clean` does once its plan is built.
#[derive(Debug, Clone, Copy, PartialEq, Eq, Structural)]
pub enum CleanStep {
    /// The plan is empty: say so and exit with `EXIT_NOTHING`.
    NothingToRemove,
    /// Show the plan and remove nothing: exit with `EXIT_OK`.
    DryRun,
    /// Remove what the plan lists.
    Execute,
}

pub fn clean_step(planned: usize, yes: bool) -> (r: CleanStep)
    ensures
        r == if planned == 0 {
            CleanStep::NothingToRemove
        } else if !yes {
            CleanStep::DryRun
        } else {
            CleanStep::Execute
        },
{
    if planned == 0 {
        CleanStep::NothingToRemove
    } else if !yes {
        CleanStep::DryRun
    } else {
        CleanStep::Execute
    }
}

/// The exit code after removing: a problem when anything was kept.
pub fn clean_exit(failed: usize) -> (r: i32)
    ensures
        r == if failed == 0 {
            EXIT_OK
        } else {
            EXIT_ERROR
        },
{
    if failed == 0 {
        EXIT_OK
    } else {
        EXIT_ERROR
    }
}

/// The exit code of `scan`: nothing found is `EXIT_NOTHING`.
pub fn scan_exit(total_bytes: u64) -> (r: i32)
    ensures
        r == if total_bytes == 0 {
            EXIT_NOTHING
        } else {
            EXIT_OK
        },
{
    if total_bytes == 0 {
        EXIT_NOTHING
    } else {
        EXIT_OK
    }
}

/// What `docker` asks Docker to remove: unused data wins over build cache; neither flag means
/// only a report.
pub open spec fn docker_action_spec(prune_cache: bool, prune_unused: bool) -> Option<DockerAction> {
    if prune_unused {
        Some(DockerAction::SystemPrune)
    } else if prune_cache {
        Some(DockerAction::BuilderPrune)
    } else {
        None
    }
}

pub fn docker_action(prune_cache: bool, prune_unused: bool) -> (r: Option<DockerAction>)
    ensures
        r == docker_action_spec(prune_cache, prune_unused),
{
    if prune_unused {
        Some(DockerAction::SystemPrune)
    } else if prune_cache {
        Some(DockerAction::BuilderPrune)
    } else {
        None
    }
}

/// The exit code of a Docker report: only a ready Docker is success.
pub fn docker_exit(state: &DockerState) -> (r: i32)
    ensures
        r == if state is Ready {
            EXIT_OK
        } else {
            EXIT_NOTHING
        },
{
    match state {
        DockerState::Ready { .. } => EXIT_OK,
        _ => EXIT_NOTHING,
    }
}

/// What `docker` does once its flags are read.
#[derive(Debug, Clone, Copy, PartialEq, Eq, Structural)]
pub enum DockerStep {
    /// No prune asked for: report what Docker is holding.
    Status,
    /// A prune asked for without `--yes`: say what would run, run nothing, exit with `EXIT_OK`.
    Preview(DockerAction),
    /// A prune asked for with `--yes`: run it.
    Prune(DockerAction),
}

/// Docker is never asked to remove anything unless `--yes` was given.
pub fn docker_step(prune_cache: bool, prune_unused: bool, yes: bool) -> (r: DockerStep)
    ensures
        r == match docker_action_spec(prune_cache, prune_unused) {
            None => DockerStep::Status,
            Some(a) => if yes { DockerStep::Prune(a) } else { DockerStep::Preview(a) },
        },
{
    match docker_action(prune_cache, prune_unused) {
        None => DockerStep::Status,
        Some(a) => if yes {
            DockerStep::Prune(a)
        } else {
            DockerStep::Preview(a)
        },
    }
}

/// What is shown in place of running `action`.
pub open spec fn docker_preview_text(action: DockerAction) -> Seq<char> {
    action_description(action) + "\n\nWould run: "@ + action_display(action) + "\nNothing was removed. Add --yes to run it."@
}

pub fn docker_preview(action: DockerAction) -> (r: String)
    ensures
        r@ == docker_preview_text(action),
{
    let first = concat(action.description(), "\n\nWould run: ");
    let second = concat(first.as_str(), action.display().as_str());
    concat(second.as_str(), "\nNothing was removed. Add --yes to run it.")
}

/// What `log` shows.
#[derive(Debug, Clone, Copy, PartialEq, Eq, Structural)]
pub enum LogStep {
    /// This machine has no log: "No operation log on this machine yet.", `EXIT_NOTHING`.
    NoLog,
    /// The records as JSON, even none of them: `EXIT_OK`.
    Json,
    /// A log with nothing in it: "No cleanups recorded yet.", `EXIT_NOTHING`.
    Empty,
    /// One line per record: `EXIT_OK`.
    Lines,
}

pub fn log_step(has_log: bool, records: usize, json: bool) -> (r: LogStep)
    ensures
        r == if !has_log {
            LogStep::NoLog
        } else if json {
            LogStep::Json
        } else if records == 0 {
            LogStep::Empty
        } else {
            LogStep::Lines
        },
{
    if !has_log {
        LogStep::NoLog
    } else if json {
        LogStep::Json
    } else if records == 0 {
        LogStep::Empty
    } else {
        LogStep::Lines
    }
}

/// The words a `log` step says in place of records, if any.
pub open spec fn log_notice_text(step: LogStep) -> Option<Seq<char>> {
    match step {
        LogStep::NoLog => Some("No operation log on this machine yet."@),
        LogStep::Empty => Some("No cleanups recorded yet."@),
        _ => None,
    }
}

pub fn log_notice(step: LogStep) -> (r: Option<&'static str>)
    ensures
        match log_notice_text(step) {
            None => r is None,
            Some(t) => r is Some && r->0@ == t,
        },
{
    match step {
        LogStep::NoLog => Some("No operation log on this machine yet."),
        LogStep::Empty => Some("No cleanups recorded yet."),
        _ => None,
    }
}

/// The exit code of `log`: nothing to show is `EXIT_NOTHING`.
pub fn log_exit(step: LogStep) -> (r: i32)
    ensures
        r == match step {
            LogStep::NoLog | LogStep::Empty => EXIT_NOTHING,
            _ => EXIT_OK,
        },
{
    match step {
        LogStep::NoLog | LogStep::Empty => EXIT_NOTHING,
        _ => EXIT_OK,
    }
}

/// What `clean` promises in a dry run.
pub open spec fn dry_run_action(permanent: bool) -> Seq<char> {
    if permanent {
        "delete these permanently"@
    } else {
        "move these to the trash"@
    }
}

pub fn dry_run_words(permanent: bool) -> (r: &'static str)
    ensures
        r@ == dry_run_action(permanent),
{
    if permanent {
        "delete these permanently"
    } else {
        "move these to the trash"
    }
}

/// The number of processes `processes` lists at most.
pub fn process_limit(limit: usize) -> (r: usize)
    ensures
        r == if limit < 2000 {
            limit
        } else {
            2000
        },
{
    if limit < 2000 {
        limit
    } else {
        2000
    }
}

/// The size threshold of `disk`, from megabytes, saturating.
pub fn large_threshold(large_mb: u64) -> (r: u64)
    ensures
        r == if large_mb * 1_000_000 > u64::MAX {
            u64::MAX as int
        } else {
            large_mb * 1_000_000
        },
{
    if large_mb > u64::MAX / 1_000_000 {
        u64::MAX
    } else {
        large_mb * 1_000_000
    }
}

} // verus!
