//! [`PruneEngine`] ties the protected paths, the safety policy and the providers together.
//!
//! It is stateless with respect to sessions: the caller stores scan sessions and cleanup plans
//! and passes them back in. Planning is a dry run that touches nothing; executing re-validates
//! every path immediately before it is removed. The file system itself (what a path is, and
//! removing it) is the caller's part, so execution is a state machine that the caller drives
//! one target at a time.

use vstd::prelude::*;

use crate::error::{error_message, PruneError};
use crate::models::{
    first_with_id, session_targets, sum_files, sum_sizes, BlockedTarget, CleanupPlan,
    CleanupProgress, CleanupResult, CleanupStatus, CleanupTarget, DeleteMode, FailedTarget,
    OperationRecord, ProviderInfo, RiskLevel, ScanSession, TargetKind,
};
use crate::platform::{KnownPaths, ProtectedPaths};
use crate::providers::ProviderRegistry;
use crate::safety::{policy_of, refusal_reason, verdict, PathFacts, PolicyView, SafetyPolicy, ValidatedPath, Verdict};
use crate::text::{concat, owned, str_eq, string_views};

verus! {

/// Whether `ids[i]` already appeared before position `i`.
pub open spec fn seen_before(ids: Seq<String>, i: int) -> bool {
    exists|j: int| 0 <= j < i && ids[j]@ == ids[i]@
}

/// What planning does with the `i`-th requested id.
pub enum PlanStep {
    /// Asked for twice: the second request is ignored.
    Repeat,
    /// Will be removed.
    Take(CleanupTarget),
    /// Refused: id, path, reason.
    Block(Seq<char>, Seq<char>, Seq<char>),
}

/// Why a verdict refuses, as the error it becomes reads.
pub open spec fn refusal_text(v: Verdict, path: Seq<char>) -> Seq<char> {
    match v {
        Verdict::Refused(k) => "path is not allowed: "@ + refusal_reason(k) + " ("@ + path + ")"@,
        Verdict::Unresolved(p, m) => "io error at "@ + p + ": "@ + m,
        Verdict::Allowed(_) => Seq::empty(),
    }
}

/// The plan's decision for the `i`-th id: ids not in the scan are refused, protected targets
/// are refused, and every other target goes through the safety policy with what the file
/// system says about its path (`facts[i]`).
pub open spec fn plan_step(
    session: ScanSession,
    ids: Seq<String>,
    facts: Seq<PathFacts>,
    policy: PolicyView,
    i: int,
) -> PlanStep {
    if seen_before(ids, i) {
        PlanStep::Repeat
    } else {
        match first_with_id(session_targets(session.results@), ids[i]@) {
            None => PlanStep::Block(ids[i]@, Seq::empty(), "not part of this scan"@),
            Some(t) => if t.risk == RiskLevel::Protected {
                PlanStep::Block(ids[i]@, t.path@, "protected"@)
            } else {
                let v = verdict(policy, t.path@, facts[i]);
                if v is Allowed {
                    PlanStep::Take(t)
                } else {
                    PlanStep::Block(ids[i]@, t.path@, refusal_text(v, t.path@))
                }
            },
        }
    }
}

/// The targets a plan takes among the first `n` ids, in order.
pub open spec fn plan_targets(
    session: ScanSession,
    ids: Seq<String>,
    facts: Seq<PathFacts>,
    policy: PolicyView,
    n: int,
) -> Seq<CleanupTarget>
    decreases n,
{
    if n <= 0 {
        Seq::empty()
    } else {
        let prev = plan_targets(session, ids, facts, policy, n - 1);
        match plan_step(session, ids, facts, policy, n - 1) {
            PlanStep::Take(t) => prev.push(t),
            _ => prev,
        }
    }
}

/// What a plan refuses among the first `n` ids, in order: id, path, reason.
pub open spec fn plan_blocked(
    session: ScanSession,
    ids: Seq<String>,
    facts: Seq<PathFacts>,
    policy: PolicyView,
    n: int,
) -> Seq<(Seq<char>, Seq<char>, Seq<char>)>
    decreases n,
{
    if n <= 0 {
        Seq::empty()
    } else {
        let prev = plan_blocked(session, ids, facts, policy, n - 1);
        match plan_step(session, ids, facts, policy, n - 1) {
            PlanStep::Block(id, path, reason) => prev.push((id, path, reason)),
            _ => prev,
        }
    }
}

/// Whether `t` is what the plan may take for the `i`-th id: the scan's target of that id, not
/// protected, and allowed by the safety policy with what the file system said of its path.
pub open spec fn taken_for(
    session: ScanSession,
    ids: Seq<String>,
    facts: Seq<PathFacts>,
    policy: PolicyView,
    t: CleanupTarget,
    i: int,
) -> bool {
    &&& first_with_id(session_targets(session.results@), ids[i]@) == Some(t)
    &&& t.risk != RiskLevel::Protected
    &&& verdict(policy, t.path@, facts[i]) is Allowed
}

/// Whether `t` is taken for one of the first `n` ids.
pub open spec fn taken_for_some(
    session: ScanSession,
    ids: Seq<String>,
    facts: Seq<PathFacts>,
    policy: PolicyView,
    t: CleanupTarget,
    n: int,
) -> bool {
    exists|i: int| 0 <= i < n && #[trigger] taken_for(session, ids, facts, policy, t, i)
}

/// A plan takes nothing but targets of its scan that were asked for, are not protected and
/// pass the safety policy: every target among those planned for the first `n` ids is taken
/// for one of them.
pub proof fn lemma_plan_takes_only_allowed(
    session: ScanSession,
    ids: Seq<String>,
    facts: Seq<PathFacts>,
    policy: PolicyView,
    n: int,
)
    requires
        0 <= n <= ids.len(),
    ensures
        forall|k: int| 0 <= k < plan_targets(session, ids, facts, policy, n).len() ==> taken_for_some(
            session,
            ids,
            facts,
            policy,
            #[trigger] plan_targets(session, ids, facts, policy, n)[k],
            n,
        ),
    decreases n,
{
    if n > 0 {
        lemma_plan_takes_only_allowed(session, ids, facts, policy, n - 1);
        let prev = plan_targets(session, ids, facts, policy, n - 1);
        let cur = plan_targets(session, ids, facts, policy, n);
        assert forall|k: int| 0 <= k < cur.len() implies taken_for_some(session, ids, facts, policy, #[trigger] cur[k], n) by {
            if k < prev.len() {
                assert(cur[k] == prev[k]);
                assert(taken_for_some(session, ids, facts, policy, prev[k], n - 1));
                let i = choose|i: int| 0 <= i < n - 1 && #[trigger] taken_for(session, ids, facts, policy, prev[k], i);
                assert(taken_for(session, ids, facts, policy, cur[k], i));
            } else {
                assert(taken_for(session, ids, facts, policy, cur[k], n - 1));
            }
        }
    }
}

pub open spec fn blocked_views(b: Seq<BlockedTarget>) -> Seq<(Seq<char>, Seq<char>, Seq<char>)> {
    b.map_values(|x: BlockedTarget| (x.target_id@, x.path@, x.reason@))
}

/// How many of `ts` are directories.
pub open spec fn directory_count(ts: Seq<CleanupTarget>) -> nat
    decreases ts.len(),
{
    if ts.len() == 0 {
        0
    } else {
        directory_count(ts.drop_last()) + if ts.last().kind == TargetKind::Directory {
            1nat
        } else {
            0nat
        }
    }
}

proof fn lemma_directory_count_bounded(ts: Seq<CleanupTarget>)
    ensures
        directory_count(ts) <= ts.len(),
    decreases ts.len(),
{
    if ts.len() > 0 {
        lemma_directory_count_bounded(ts.drop_last());
    }
}

/// The engine: where things live, what is protected, and the providers.
pub struct PruneEngine {
    pub known: KnownPaths,
    pub policy: SafetyPolicy,
    pub registry: ProviderRegistry,
}

/// Whether the targets' sizes and file counts add up within 64 bits.
pub open spec fn totals_fit(ts: Seq<CleanupTarget>) -> bool {
    sum_sizes(ts) <= u64::MAX && sum_files(ts) <= u64::MAX
}

impl PruneEngine {
    /// An engine over the given directories, protected paths and providers.
    pub fn with_parts(known: KnownPaths, protected: ProtectedPaths, registry: ProviderRegistry) -> (r: Self)
        ensures
            r.policy@ == policy_of(protected),
            r.known == known,
            r.registry.ordered@ == registry.ordered@,
    {
        PruneEngine { known, policy: SafetyPolicy::from_protected(protected), registry }
    }

    pub fn known_paths(&self) -> (r: &KnownPaths)
        ensures
            *r == self.known,
    {
        &self.known
    }

    pub fn policy(&self) -> (r: &SafetyPolicy)
        ensures
            *r == self.policy,
    {
        &self.policy
    }

    pub fn registry(&self) -> (r: &ProviderRegistry)
        ensures
            *r == self.registry,
    {
        &self.registry
    }

    /// What to list before any scan; `available[i]` says whether provider `i` has anything to
    /// look at here.
    pub fn providers(&self, available: &Vec<bool>) -> (r: Vec<ProviderInfo>)
        requires
            available@.len() == self.registry.ordered@.len(),
        ensures
            r@.len() == self.registry.ordered@.len(),
            forall|i: int|
                0 <= i < r@.len() ==> crate::providers::registry::info_of(
                    #[trigger] r@[i],
                    self.registry.ordered@[i],
                    available@[i],
                ),
    {
        self.registry.infos(available)
    }

    /// The targets a plan would take and what it would refuse, with no totals.
    pub fn plan_selection(&self, session: &ScanSession, target_ids: &Vec<String>, facts: &Vec<PathFacts>) -> (r: (
        Vec<CleanupTarget>,
        Vec<BlockedTarget>,
    ))
        requires
            facts@.len() == target_ids@.len(),
        ensures
            r.0@ == plan_targets(*session, target_ids@, facts@, self.policy@, target_ids@.len() as int),
            blocked_views(r.1@) == plan_blocked(*session, target_ids@, facts@, self.policy@, target_ids@.len() as int),
    {
        let ghost pv = self.policy@;
        let mut targets: Vec<CleanupTarget> = Vec::new();
        let mut blocked: Vec<BlockedTarget> = Vec::new();
        let mut i: usize = 0;
        while i < target_ids.len()
            invariant
                i <= target_ids@.len(),
                facts@.len() == target_ids@.len(),
                pv == self.policy@,
                targets@ == plan_targets(*session, target_ids@, facts@, pv, i as int),
                blocked_views(blocked@) == plan_blocked(*session, target_ids@, facts@, pv, i as int),
            decreases target_ids@.len() - i,
        {
            let id = &target_ids[i];
            let mut seen = false;
            let mut j: usize = 0;
            while j < i
                invariant
                    j <= i < target_ids@.len(),
                    *id == target_ids@[i as int],
                    seen == exists|k: int| 0 <= k < j && target_ids@[k]@ == target_ids@[i as int]@,
                decreases i - j,
            {
                if str_eq(target_ids[j].as_str(), id.as_str()) {
                    seen = true;
                }
                j = j + 1;
            }
            let ghost before = blocked@;
            if !seen {
                match session.find_target(id.as_str()) {
                    None => {
                        blocked.push(BlockedTarget {
                            target_id: id.clone(),
                            path: String::new(),
                            reason: owned("not part of this scan"),
                        });
                    },
                    Some(target) => {
                        if matches!(target.risk, RiskLevel::Protected) {
                            blocked.push(BlockedTarget {
                                target_id: id.clone(),
                                path: target.path.clone(),
                                reason: owned("protected"),
                            });
                        } else {
                            match self.policy.validate(target.path.as_str(), &facts[i]) {
                                Ok(_) => {
                                    targets.push(target.copy());
                                },
                                Err(e) => {
                                    blocked.push(BlockedTarget {
                                        target_id: id.clone(),
                                        path: target.path.clone(),
                                        reason: e.message(),
                                    });
                                },
                            }
                        }
                    },
                }
            }
            proof {
                if blocked@.len() > before.len() {
                    assert(blocked_views(blocked@) == blocked_views(before).push(blocked_views(blocked@).last()));
                }
            }
            i = i + 1;
        }
        (targets, blocked)
    }

    /// Whether the plan for these ids adds up within 64 bits.
    pub fn plan_fits(&self, session: &ScanSession, target_ids: &Vec<String>, facts: &Vec<PathFacts>) -> (r: bool)
        requires
            facts@.len() == target_ids@.len(),
        ensures
            r == totals_fit(plan_targets(*session, target_ids@, facts@, self.policy@, target_ids@.len() as int)),
    {
        let (targets, _) = self.plan_selection(session, target_ids, facts);
        fits(&targets)
    }

    /// Dry run. Resolves target ids against the session, validates every path, and reports
    /// what would be removed. Touches nothing. The plan's id and the time it was made are the
    /// caller's to draw, and are taken as they come.
    pub fn plan(
        &self,
        session: &ScanSession,
        target_ids: &Vec<String>,
        mode: DeleteMode,
        facts: &Vec<PathFacts>,
        id: String,
        created_at: i64,
    ) -> (r: CleanupPlan)
        requires
            facts@.len() == target_ids@.len(),
            totals_fit(plan_targets(*session, target_ids@, facts@, self.policy@, target_ids@.len() as int)),
        ensures
            r.targets@ == plan_targets(*session, target_ids@, facts@, self.policy@, target_ids@.len() as int),
            blocked_views(r.blocked@) == plan_blocked(*session, target_ids@, facts@, self.policy@, target_ids@.len() as int),
            r.total_bytes == sum_sizes(r.targets@),
            r.file_count == sum_files(r.targets@),
            r.directory_count == directory_count(r.targets@),
            r.scan_id@ == session.id@,
            r.mode == mode,
            r.id@ == id@,
            r.created_at == created_at,
    {
        let (targets, blocked) = self.plan_selection(session, target_ids, facts);
        let (total_bytes, file_count) = crate::models::target_totals(&targets);
        let directories = count_directories(&targets);
        CleanupPlan {
            id,
            scan_id: session.id.clone(),
            mode,
            created_at,
            targets,
            blocked,
            total_bytes,
            file_count,
            directory_count: directories,
        }
    }

    /// The log title for a cleanup of these providers: `Cleanup` for none, `Clean <name>` for
    /// one (its registered name, or its id when it is not registered), and `Clean <n>
    /// categories` for several.
    pub fn title_for(&self, providers: &Vec<String>) -> (r: String)
        ensures
            r@ == title_of(self.registry.ordered@, string_views(providers@)),
    {
        if providers.len() == 0 {
            owned("Cleanup")
        } else if providers.len() == 1 {
            proof {
                assert(string_views(providers@)[0] == providers@[0]@);
            }
            match self.registry.get(providers[0].as_str()) {
                Some(p) => concat("Clean ", p.name.as_str()),
                None => concat("Clean ", providers[0].as_str()),
            }
        } else {
            let n = crate::text::decimal_text(providers.len() as u64);
            let a = concat("Clean ", n.as_str());
            concat(a.as_str(), " categories")
        }
    }
}

/// What `title_for` writes.
pub open spec fn title_of(reg: Seq<crate::providers::ProviderEntry>, providers: Seq<Seq<char>>) -> Seq<char> {
    if providers.len() == 0 {
        "Cleanup"@
    } else if providers.len() == 1 {
        "Clean "@ + match crate::providers::registry::lookup(reg, providers[0]) {
            Some(i) => reg[i].name@,
            None => providers[0],
        }
    } else {
        "Clean "@ + crate::text::decimal_digits(providers.len()) + " categories"@
    }
}

fn fits(ts: &Vec<CleanupTarget>) -> (r: bool)
    ensures
        r == totals_fit(ts@),
{
    let mut bytes: u128 = 0;
    let mut files: u128 = 0;
    let mut i: usize = 0;
    while i < ts.len()
        invariant
            i <= ts@.len(),
            bytes == if sum_sizes(ts@.take(i as int)) > u64::MAX { u64::MAX as nat + 1 } else { sum_sizes(ts@.take(i as int)) },
            files == if sum_files(ts@.take(i as int)) > u64::MAX { u64::MAX as nat + 1 } else { sum_files(ts@.take(i as int)) },
        decreases ts@.len() - i,
    {
        proof {
            assert(ts@.take(i + 1).drop_last() == ts@.take(i as int));
            assert(ts@.take(i + 1).last() == ts@[i as int]);
        }
        bytes = bytes + ts[i].size_bytes as u128;
        if bytes > u64::MAX as u128 {
            bytes = u64::MAX as u128 + 1;
        }
        files = files + ts[i].file_count as u128;
        if files > u64::MAX as u128 {
            files = u64::MAX as u128 + 1;
        }
        i = i + 1;
    }
    assert(ts@.take(ts@.len() as int) == ts@);
    bytes <= u64::MAX as u128 && files <= u64::MAX as u128
}

fn count_directories(ts: &Vec<CleanupTarget>) -> (r: u64)
    ensures
        r == directory_count(ts@),
{
    let mut n: u64 = 0;
    let mut i: usize = 0;
    while i < ts.len()
        invariant
            i <= ts@.len(),
            n == directory_count(ts@.take(i as int)),
            n <= i,
        decreases ts@.len() - i,
    {
        proof {
            assert(ts@.take(i + 1).drop_last() == ts@.take(i as int));
            assert(ts@.take(i + 1).last() == ts@[i as int]);
        }
        if matches!(ts[i].kind, TargetKind::Directory) {
            n = n + 1;
        }
        i = i + 1;
    }
    assert(ts@.take(ts@.len() as int) == ts@);
    n
}

/// What happened to each target so far: `None` removed, `Some(message)` kept, with why.
pub open spec fn removed_count(outs: Seq<Option<Seq<char>>>) -> nat
    decreases outs.len(),
{
    if outs.len() == 0 {
        0
    } else {
        removed_count(outs.drop_last()) + if outs.last() is None {
            1nat
        } else {
            0nat
        }
    }
}

/// Sizes of the targets that were removed.
pub open spec fn removed_bytes_of(ts: Seq<CleanupTarget>, outs: Seq<Option<Seq<char>>>) -> nat
    decreases outs.len(),
{
    if outs.len() == 0 {
        0
    } else {
        removed_bytes_of(ts, outs.drop_last()) + if outs.last() is None {
            ts[outs.len() - 1].size_bytes as nat
        } else {
            0nat
        }
    }
}

/// File counts of the targets that were removed.
pub open spec fn removed_files_of(ts: Seq<CleanupTarget>, outs: Seq<Option<Seq<char>>>) -> nat
    decreases outs.len(),
{
    if outs.len() == 0 {
        0
    } else {
        removed_files_of(ts, outs.drop_last()) + if outs.last() is None {
            ts[outs.len() - 1].file_count as nat
        } else {
            0nat
        }
    }
}

/// The targets that were kept, with why: id, path, message.
pub open spec fn failures_of(ts: Seq<CleanupTarget>, outs: Seq<Option<Seq<char>>>) -> Seq<(Seq<char>, Seq<char>, Seq<char>)>
    decreases outs.len(),
{
    if outs.len() == 0 {
        Seq::empty()
    } else {
        let prev = failures_of(ts, outs.drop_last());
        match outs.last() {
            None => prev,
            Some(m) => prev.push((ts[outs.len() - 1].id@, ts[outs.len() - 1].path@, m)),
        }
    }
}

pub open spec fn failed_views(f: Seq<FailedTarget>) -> Seq<(Seq<char>, Seq<char>, Seq<char>)> {
    f.map_values(|x: FailedTarget| (x.target_id@, x.path@, x.error@))
}

/// How a target is removed: outright when it can only be removed that way, otherwise as the
/// plan says.
pub open spec fn mode_for(plan_mode: DeleteMode, t: CleanupTarget) -> DeleteMode {
    if t.permanent_only {
        DeleteMode::Permanent
    } else {
        plan_mode
    }
}

/// How a cleanup went: success when nothing was kept, failed when nothing was removed,
/// partial otherwise.
pub open spec fn status_of(removed: nat, failed: nat) -> CleanupStatus {
    if failed == 0 {
        CleanupStatus::Success
    } else if removed == 0 {
        CleanupStatus::Failed
    } else {
        CleanupStatus::Partial
    }
}

pub fn cleanup_status(removed: usize, failed: usize) -> (r: CleanupStatus)
    ensures
        r == status_of(removed as nat, failed as nat),
        (r == CleanupStatus::Success) == (failed == 0),
        (r == CleanupStatus::Failed) == (failed > 0 && removed == 0),
        (r == CleanupStatus::Partial) == (failed > 0 && removed > 0),
{
    if failed == 0 {
        CleanupStatus::Success
    } else if removed == 0 {
        CleanupStatus::Failed
    } else {
        CleanupStatus::Partial
    }
}

/// A cleanup's status says what happened to its targets: success exactly when none failed,
/// failed exactly when some failed and none was removed, partial exactly when some were removed
/// and some failed.
pub proof fn lemma_status_tells_what_happened(removed: nat, failed: nat)
    ensures
        (status_of(removed, failed) == CleanupStatus::Success) <==> failed == 0,
        (status_of(removed, failed) == CleanupStatus::Failed) <==> (failed > 0 && removed == 0),
        (status_of(removed, failed) == CleanupStatus::Partial) <==> (failed > 0 && removed > 0),
{
}

proof fn lemma_removed_bounded(ts: Seq<CleanupTarget>, outs: Seq<Option<Seq<char>>>)
    requires
        outs.len() <= ts.len(),
    ensures
        removed_count(outs) <= outs.len(),
        removed_bytes_of(ts, outs) <= sum_sizes(ts.take(outs.len() as int)),
        removed_files_of(ts, outs) <= sum_files(ts.take(outs.len() as int)),
        removed_count(outs) + failures_of(ts, outs).len() == outs.len(),
    decreases outs.len(),
{
    if outs.len() > 0 {
        lemma_removed_bounded(ts, outs.drop_last());
        let n = outs.len() as int;
        assert(ts.take(n).drop_last() == ts.take(n - 1));
        assert(ts.take(n).last() == ts[n - 1]);
    }
}

/// Executing a plan, one target at a time. The caller asks for the next target, reads what the
/// file system says about its path, lets the execution validate it again, removes what comes
/// back validated, and reports how that went.
pub struct Execution<'a> {
    plan: &'a CleanupPlan,
    next: usize,
    /// A validated target is waiting for its removal to be reported.
    awaiting: bool,
    removed_targets: usize,
    removed_files: u64,
    removed_bytes: u64,
    failed: Vec<FailedTarget>,
    started_at: i64,
    outcomes: Ghost<Seq<Option<Seq<char>>>>,
}

impl<'a> Execution<'a> {
    /// The state: which targets are done, and what happened to them.
    pub closed spec fn wf(&self) -> bool {
        let ts = self.plan.targets@;
        let outs = self.outcomes@;
        &&& totals_fit(ts)
        &&& self.next <= ts.len()
        &&& outs.len() == self.next
        &&& self.removed_targets == removed_count(outs)
        &&& self.removed_bytes == removed_bytes_of(ts, outs)
        &&& self.removed_files == removed_files_of(ts, outs)
        &&& failed_views(self.failed@) == failures_of(ts, outs)
        &&& self.awaiting ==> self.next < ts.len()
    }

    pub closed spec fn plan_spec(&self) -> CleanupPlan {
        *self.plan
    }

    /// What happened to the targets done so far.
    pub closed spec fn outcomes_spec(&self) -> Seq<Option<Seq<char>>> {
        self.outcomes@
    }

    pub closed spec fn awaiting_spec(&self) -> bool {
        self.awaiting
    }

    pub closed spec fn started_spec(&self) -> i64 {
        self.started_at
    }

    /// Starts executing `plan` at `started_at`.
    pub fn new(plan: &'a CleanupPlan, started_at: i64) -> (r: Self)
        requires
            totals_fit(plan.targets@),
        ensures
            r.wf(),
            r.plan_spec() == *plan,
            r.outcomes_spec().len() == 0,
            !r.awaiting_spec(),
            r.started_spec() == started_at,
    {
        let r = Execution {
            plan,
            next: 0,
            awaiting: false,
            removed_targets: 0,
            removed_files: 0,
            removed_bytes: 0,
            failed: Vec::new(),
            started_at,
            outcomes: Ghost(Seq::empty()),
        };
        assert(failed_views(r.failed@) =~= failures_of(plan.targets@, r.outcomes@));
        r
    }

    /// The target to do next, if any is left.
    pub fn current(&self) -> (r: Option<&CleanupTarget>)
        requires
            self.wf(),
        ensures
            self.outcomes_spec().len() < self.plan_spec().targets@.len() ==> r == Some(&self.plan_spec().targets@[self.outcomes_spec().len() as int]),
            self.outcomes_spec().len() >= self.plan_spec().targets@.len() ==> r is None,
    {
        if self.next < self.plan.targets.len() {
            Some(&self.plan.targets[self.next])
        } else {
            None
        }
    }

    /// Validates the current target again with what the file system says about its path now.
    /// A refused target is recorded as kept and the execution moves on (`None`); an accepted
    /// one comes back with how to remove it, and the execution waits for `removal_done`.
    pub fn check(&mut self, policy: &SafetyPolicy, facts: &PathFacts) -> (r: Option<(ValidatedPath, DeleteMode)>)
        requires
            old(self).wf(),
            !old(self).awaiting_spec(),
            old(self).outcomes_spec().len() < old(self).plan_spec().targets@.len(),
        ensures
            final(self).wf(),
            final(self).plan_spec() == old(self).plan_spec(),
            final(self).started_spec() == old(self).started_spec(),
            ({
                let t = old(self).plan_spec().targets@[old(self).outcomes_spec().len() as int];
                let v = verdict(policy@, t.path@, *facts);
                match v {
                    Verdict::Allowed(n) => r matches Some((vp, mode)) && vp@ == n && mode == mode_for(old(self).plan_spec().mode, t)
                        && final(self).awaiting_spec() && final(self).outcomes_spec() == old(self).outcomes_spec(),
                    _ => r is None && !final(self).awaiting_spec() && final(self).outcomes_spec() == old(self).outcomes_spec().push(Some(refusal_text(v, t.path@))),
                }
            }),
    {
        let t = &self.plan.targets[self.next];
        match policy.validate(t.path.as_str(), facts) {
            Ok(vp) => {
                let mode = if t.permanent_only {
                    DeleteMode::Permanent
                } else {
                    self.plan.mode
                };
                self.awaiting = true;
                Some((vp, mode))
            },
            Err(e) => {
                let message = e.message();
                self.record_failure(message);
                None
            },
        }
    }

    fn record_failure(&mut self, message: String)
        requires
            old(self).wf(),
            old(self).next < old(self).plan.targets@.len(),
        ensures
            final(self).wf(),
            final(self).plan == old(self).plan,
            final(self).started_at == old(self).started_at,
            !final(self).awaiting,
            final(self).outcomes@ == old(self).outcomes@.push(Some(message@)),
    {
        let t = &self.plan.targets[self.next];
        let ghost outs = self.outcomes@.push(Some(message@));
        proof {
            assert(outs.drop_last() =~= self.outcomes@);
            lemma_removed_bounded(self.plan.targets@, outs);
            assert(self.plan.targets@.len() == self.plan.targets.len());
        }
        self.failed.push(FailedTarget { target_id: t.id.clone(), path: t.path.clone(), error: message });
        proof {
            assert(failed_views(self.failed@) == failed_views(old(self).failed@).push((t.id@, t.path@, message@)));
        }
        self.outcomes = Ghost(outs);
        self.next = self.next + 1;
        self.awaiting = false;
    }

    /// Reports how removing the validated current target went.
    pub fn removal_done(&mut self, outcome: &Result<(), PruneError>)
        requires
            old(self).wf(),
            old(self).awaiting_spec(),
        ensures
            final(self).wf(),
            final(self).plan_spec() == old(self).plan_spec(),
            final(self).started_spec() == old(self).started_spec(),
            !final(self).awaiting_spec(),
            final(self).outcomes_spec() == old(self).outcomes_spec().push(match outcome {
                Ok(_) => None,
                Err(e) => Some(error_message(*e)),
            }),
    {
        match outcome {
            Ok(_) => {
                let t = &self.plan.targets[self.next];
                let ghost outs = self.outcomes@.push(None);
                proof {
                    assert(outs.drop_last() =~= self.outcomes@);
                    lemma_removed_bounded(self.plan.targets@, outs);
                    assert(self.plan.targets@.len() == self.plan.targets.len());
                    lemma_sum_prefix(self.plan.targets@, outs.len() as int);
                }
                self.removed_targets = self.removed_targets + 1;
                self.removed_files = self.removed_files + t.file_count;
                self.removed_bytes = self.removed_bytes + t.size_bytes;
                self.outcomes = Ghost(outs);
                self.next = self.next + 1;
                self.awaiting = false;
            },
            Err(e) => {
                let message = e.message();
                self.record_failure(message);
            },
        }
    }

    /// Where the execution is, for a progress bar.
    pub fn progress(&self) -> (r: CleanupProgress)
        requires
            self.wf(),
            self.outcomes_spec().len() > 0,
        ensures
            r.plan_id@ == self.plan_spec().id@,
            r.done == self.outcomes_spec().len(),
            r.total == self.plan_spec().targets@.len(),
            r.current_path@ == self.plan_spec().targets@[self.outcomes_spec().len() - 1].path@,
            r.removed_bytes == removed_bytes_of(self.plan_spec().targets@, self.outcomes_spec()),
    {
        CleanupProgress {
            plan_id: self.plan.id.clone(),
            done: self.next,
            total: self.plan.targets.len(),
            current_path: self.plan.targets[self.next - 1].path.clone(),
            removed_bytes: self.removed_bytes,
        }
    }

    /// The result once every target is done, under the operation id `operation_id`, finished
    /// at `finished_at`. The operation log has not been written yet, so no problem with it is
    /// reported.
    pub fn finish(self, operation_id: String, finished_at: i64) -> (r: CleanupResult)
        requires
            self.wf(),
            self.outcomes_spec().len() == self.plan_spec().targets@.len(),
        ensures
            r.operation_id@ == operation_id@,
            r.plan_id@ == self.plan_spec().id@,
            r.mode == self.plan_spec().mode,
            r.started_at == self.started_spec(),
            r.finished_at == finished_at,
            r.log_error is None,
            r.removed_targets == removed_count(self.outcomes_spec()),
            r.removed_files == removed_files_of(self.plan_spec().targets@, self.outcomes_spec()),
            r.removed_bytes == removed_bytes_of(self.plan_spec().targets@, self.outcomes_spec()),
            failed_views(r.failed@) == failures_of(self.plan_spec().targets@, self.outcomes_spec()),
            r.status == status_of(removed_count(self.outcomes_spec()), failures_of(self.plan_spec().targets@, self.outcomes_spec()).len()),
            (r.status == CleanupStatus::Success) == (r.failed@.len() == 0),
            (r.status == CleanupStatus::Failed) == (r.failed@.len() > 0 && r.removed_targets == 0),
            (r.status == CleanupStatus::Partial) == (r.failed@.len() > 0 && r.removed_targets > 0),
    {
        let status = cleanup_status(self.removed_targets, self.failed.len());
        CleanupResult {
            operation_id,
            plan_id: self.plan.id.clone(),
            mode: self.plan.mode,
            status,
            started_at: self.started_at,
            finished_at,
            removed_targets: self.removed_targets,
            removed_files: self.removed_files,
            removed_bytes: self.removed_bytes,
            failed: self.failed,
            log_error: None,
        }
    }
}

/// Folds what writing the operation log came to into the cleanup's result. A log that could
/// not be written neither fails nor undoes the cleanup: every figure stays as it was, and the
/// reason is kept so the user can be told the history was not recorded.
pub fn note_log_outcome(result: &mut CleanupResult, outcome: &Result<(), PruneError>)
    ensures
        match outcome {
            Ok(_) => final(result).log_error is None,
            Err(e) => final(result).log_error is Some && final(result).log_error->0@ == error_message(*e),
        },
        final(result).operation_id == old(result).operation_id,
        final(result).plan_id == old(result).plan_id,
        final(result).mode == old(result).mode,
        final(result).status == old(result).status,
        final(result).started_at == old(result).started_at,
        final(result).finished_at == old(result).finished_at,
        final(result).removed_targets == old(result).removed_targets,
        final(result).removed_files == old(result).removed_files,
        final(result).removed_bytes == old(result).removed_bytes,
        final(result).failed == old(result).failed,
{
    match outcome {
        Ok(_) => {
            result.log_error = None;
        },
        Err(e) => {
            result.log_error = Some(e.message());
        },
    }
}

proof fn lemma_sum_prefix(ts: Seq<CleanupTarget>, n: int)
    requires
        0 <= n <= ts.len(),
    ensures
        sum_sizes(ts.take(n)) <= sum_sizes(ts),
        sum_files(ts.take(n)) <= sum_files(ts),
{
    crate::models::lemma_sums_prefix_bounded(ts, n);
}

/// The providers of the targets, by id.
pub open spec fn provider_ids_of(ts: Seq<CleanupTarget>) -> Seq<Seq<char>> {
    ts.map_values(|t: CleanupTarget| t.provider_id@)
}

impl PruneEngine {
    /// The line the operation log gets for an executed plan: the providers involved, each once
    /// and in order, a title naming them, and the result's figures.
    pub fn operation_record(&self, plan: &CleanupPlan, result: &CleanupResult) -> (r: OperationRecord)
        ensures
            crate::text::strictly_sorted(string_views(r.providers@)),
            string_views(r.providers@).to_set() == provider_ids_of(plan.targets@).to_set(),
            r.title@ == title_of(self.registry.ordered@, string_views(r.providers@)),
            r.id@ == result.operation_id@,
            r.at == result.finished_at,
            r.mode == plan.mode,
            r.status == result.status,
            r.removed_targets == result.removed_targets,
            r.removed_files == result.removed_files,
            r.removed_bytes == result.removed_bytes,
            r.failed_count == result.failed@.len(),
    {
        let mut ids: Vec<String> = Vec::new();
        let mut i: usize = 0;
        while i < plan.targets.len()
            invariant
                i <= plan.targets@.len(),
                string_views(ids@) == provider_ids_of(plan.targets@.take(i as int)),
            decreases plan.targets@.len() - i,
        {
            let ghost before = ids@;
            let id = plan.targets[i].provider_id.clone();
            ids.push(id);
            proof {
                assert(string_views(ids@) =~= string_views(before).push(id@));
                assert(plan.targets@.take(i + 1) =~= plan.targets@.take(i as int).push(plan.targets@[i as int]));
                assert(provider_ids_of(plan.targets@.take(i + 1)) =~= provider_ids_of(plan.targets@.take(i as int)).push(plan.targets@[i as int].provider_id@));
            }
            i = i + 1;
        }
        assert(plan.targets@.take(plan.targets@.len() as int) == plan.targets@);
        let providers = crate::text::sorted_unique(&ids);
        let title = self.title_for(&providers);
        OperationRecord {
            id: result.operation_id.clone(),
            at: result.finished_at,
            title,
            mode: plan.mode,
            status: result.status,
            removed_targets: result.removed_targets,
            removed_files: result.removed_files,
            removed_bytes: result.removed_bytes,
            failed_count: result.failed.len(),
            providers,
        }
    }
}

} // verus!
