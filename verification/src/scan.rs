//! Putting provider results together: which providers run, in what order their results are
//! shown, and which of two overlapping targets is kept.
//!
//! Running the providers (in parallel, walking the file system) is the caller's part; it hands
//! the results back here.

use vstd::prelude::*;

use crate::models::{
    sum_files, sum_result_bytes, sum_result_files, sum_sizes, CleanupTarget, ScanIssue,
    ScanResult, ScanSession, ScanStatus,
};
use crate::paths::{
    model_eq, model_starts_with, parse, path_view, same_path, starts_with_spec, view_eq,
    view_starts_with, PathModel,
};
use crate::providers::registry::{first_position, priority_in, ProviderEntry, ProviderRegistry};
use crate::text::str_eq;

verus! {

pub open spec fn path_at(rs: Seq<ScanResult>, ri: int, ti: int) -> Seq<char> {
    rs[ri].targets@[ti].path@
}

pub open spec fn is_entry(rs: Seq<ScanResult>, ri: int, ti: int) -> bool {
    0 <= ri < rs.len() && 0 <= ti < rs[ri].targets@.len()
}

/// Whether target `a` comes before target `b` when the targets are walked in path order: `b`
/// lies inside `a` or at the same path, and at the same path `a` was reported first.
pub open spec fn walked_before(rs: Seq<ScanResult>, ari: int, ati: int, bri: int, bti: int) -> bool {
    let pa = path_at(rs, ari, ati);
    let pb = path_at(rs, bri, bti);
    starts_with_spec(pb, pa) && (!same_path(pa, pb) || ari < bri || (ari == bri && ati < bti))
}

/// Whether the pair `a`, `b` is weighed against each other: `b` is at or inside `a`, except
/// for the same path reported twice by one provider.
pub open spec fn weighed(rs: Seq<ScanResult>, ari: int, ati: int, bri: int, bti: int) -> bool {
    walked_before(rs, ari, ati, bri, bti) && !(ari == bri && same_path(
        path_at(rs, ari, ati),
        path_at(rs, bri, bti),
    ))
}

pub open spec fn prio(rs: Seq<ScanResult>, reg: Seq<ProviderEntry>, ri: int) -> int {
    priority_in(reg, rs[ri].provider_id@)
}

/// Whether target `j` costs target `i` its place. Of a weighed pair the outer (or first) one
/// goes when the other's provider has a strictly higher priority; otherwise the inner (or
/// later) one goes. So a specialised provider wins over a generic one, and on equal priority
/// the ancestor, which already includes the descendant, is kept.
pub open spec fn beats(
    rs: Seq<ScanResult>,
    reg: Seq<ProviderEntry>,
    ri: int,
    ti: int,
    rj: int,
    tj: int,
) -> bool {
    &&& is_entry(rs, rj, tj)
    &&& ((weighed(rs, ri, ti, rj, tj) && prio(rs, reg, rj) > prio(rs, reg, ri)) || (weighed(
        rs,
        rj,
        tj,
        ri,
        ti,
    ) && prio(rs, reg, ri) <= prio(rs, reg, rj)))
}

/// Whether target `i` is dropped as overlapping another.
pub open spec fn overlapped(rs: Seq<ScanResult>, reg: Seq<ProviderEntry>, ri: int, ti: int) -> bool {
    exists|rj: int, tj: int| beats(rs, reg, ri, ti, rj, tj)
}

/// The first `n` targets of result `ri` that are not dropped, in order.
pub open spec fn kept_upto(rs: Seq<ScanResult>, reg: Seq<ProviderEntry>, ri: int, n: int) -> Seq<
    CleanupTarget,
>
    decreases n,
{
    if n <= 0 {
        Seq::empty()
    } else if overlapped(rs, reg, ri, n - 1) {
        kept_upto(rs, reg, ri, n - 1)
    } else {
        kept_upto(rs, reg, ri, n - 1).push(rs[ri].targets@[n - 1])
    }
}

/// The targets of result `ri` that survive.
pub open spec fn survivors(rs: Seq<ScanResult>, reg: Seq<ProviderEntry>, ri: int) -> Seq<
    CleanupTarget,
> {
    kept_upto(rs, reg, ri, rs[ri].targets@.len() as int)
}

/// Whether every result's sizes and file counts add up within 64 bits.
pub open spec fn results_fit(rs: Seq<ScanResult>) -> bool {
    forall|i: int|
        0 <= i < rs.len() ==> sum_sizes(#[trigger] rs[i].targets@) <= u64::MAX && sum_files(
            rs[i].targets@,
        ) <= u64::MAX
}

/// Result `n` after overlaps are removed: the same result with only its survivors, and totals
/// that are theirs.
pub open spec fn deduped_result(n: ScanResult, o: ScanResult, kept: Seq<CleanupTarget>) -> bool {
    &&& n.targets@ == kept
    &&& n.provider_id == o.provider_id
    &&& n.provider_name == o.provider_name
    &&& n.category == o.category
    &&& n.duration_ms == o.duration_ms
    &&& n.issues@ == o.issues@
    &&& n.total_bytes == sum_sizes(kept)
    &&& n.total_files == sum_files(kept)
}

proof fn lemma_kept_sums(rs: Seq<ScanResult>, reg: Seq<ProviderEntry>, ri: int, n: int)
    requires
        0 <= ri < rs.len(),
        0 <= n <= rs[ri].targets@.len(),
    ensures
        sum_sizes(kept_upto(rs, reg, ri, n)) <= sum_sizes(rs[ri].targets@.take(n)),
        sum_files(kept_upto(rs, reg, ri, n)) <= sum_files(rs[ri].targets@.take(n)),
    decreases n,
{
    if n > 0 {
        lemma_kept_sums(rs, reg, ri, n - 1);
        let ts = rs[ri].targets@;
        assert(ts.take(n).drop_last() == ts.take(n - 1));
        assert(ts.take(n).last() == ts[n - 1]);
        if !overlapped(rs, reg, ri, n - 1) {
            let k = kept_upto(rs, reg, ri, n);
            assert(k.drop_last() == kept_upto(rs, reg, ri, n - 1));
        }
    }
}

proof fn lemma_take_all<T>(s: Seq<T>)
    ensures
        s.take(s.len() as int) == s,
{
    assert(s.take(s.len() as int) =~= s);
}

/// Parsed paths of every target, result by result.
fn parse_targets(rs: &Vec<ScanResult>) -> (m: Vec<Vec<PathModel>>)
    ensures
        m@.len() == rs@.len(),
        forall|ri: int|
            0 <= ri < rs@.len() ==> (#[trigger] m@[ri])@.len() == rs@[ri].targets@.len(),
        forall|ri: int, ti: int|
            is_entry(rs@, ri, ti) ==> (#[trigger] m@[ri]@[ti])@ == path_view(path_at(rs@, ri, ti)),
{
    let mut m: Vec<Vec<PathModel>> = Vec::new();
    let mut ri: usize = 0;
    while ri < rs.len()
        invariant
            ri <= rs@.len(),
            m@.len() == ri,
            forall|a: int| 0 <= a < ri ==> (#[trigger] m@[a])@.len() == rs@[a].targets@.len(),
            forall|a: int, b: int|
                0 <= a < ri && 0 <= b < rs@[a].targets@.len() ==> (#[trigger] m@[a]@[b])@
                    == path_view(path_at(rs@, a, b)),
        decreases rs@.len() - ri,
    {
        let ts = &rs[ri].targets;
        let mut row: Vec<PathModel> = Vec::new();
        let mut ti: usize = 0;
        while ti < ts.len()
            invariant
                ti <= ts@.len(),
                ts@ == rs@[ri as int].targets@,
                row@.len() == ti,
                forall|b: int| 0 <= b < ti ==> (#[trigger] row@[b])@ == path_view(ts@[b].path@),
            decreases ts@.len() - ti,
        {
            row.push(parse(ts[ti].path.as_str()));
            ti = ti + 1;
        }
        m.push(row);
        ri = ri + 1;
    }
    m
}

/// The priority of each result's provider.
fn result_priorities(rs: &Vec<ScanResult>, registry: &ProviderRegistry) -> (p: Vec<u8>)
    ensures
        p@.len() == rs@.len(),
        forall|i: int| 0 <= i < rs@.len() ==> p@[i] == prio(rs@, registry.ordered@, i),
{
    let mut p: Vec<u8> = Vec::new();
    let mut i: usize = 0;
    while i < rs.len()
        invariant
            i <= rs@.len(),
            p@.len() == i,
            forall|j: int| 0 <= j < i ==> p@[j] == prio(rs@, registry.ordered@, j),
        decreases rs@.len() - i,
    {
        p.push(registry.priority_of(rs[i].provider_id.as_str()));
        i = i + 1;
    }
    p
}

/// Whether target `j` costs target `i` its place, computed.
fn beats_at(
    rs: &Vec<ScanResult>,
    m: &Vec<Vec<PathModel>>,
    p: &Vec<u8>,
    ri: usize,
    ti: usize,
    rj: usize,
    tj: usize,
    ghost_reg: Ghost<Seq<ProviderEntry>>,
) -> (r: bool)
    requires
        is_entry(rs@, ri as int, ti as int),
        is_entry(rs@, rj as int, tj as int),
        m@.len() == rs@.len(),
        forall|a: int| 0 <= a < rs@.len() ==> (#[trigger] m@[a])@.len() == rs@[a].targets@.len(),
        forall|a: int, b: int|
            is_entry(rs@, a, b) ==> (#[trigger] m@[a]@[b])@ == path_view(path_at(rs@, a, b)),
        p@.len() == rs@.len(),
        forall|a: int| 0 <= a < rs@.len() ==> p@[a] == prio(rs@, ghost_reg@, a),
    ensures
        r == beats(rs@, ghost_reg@, ri as int, ti as int, rj as int, tj as int),
{
    let a = &m[ri][ti];
    let b = &m[rj][tj];
    let same = model_eq(a, b);
    let b_in_a = model_starts_with(b, a);
    let a_in_b = model_starts_with(a, b);
    let ij_before = b_in_a && (!same || ri < rj || (ri == rj && ti < tj));
    let ji_before = a_in_b && (!same || rj < ri || (rj == ri && tj < ti));
    let ij = ij_before && !(ri == rj && same);
    let ji = ji_before && !(rj == ri && same);
    proof {
        assert(m@[ri as int]@[ti as int]@ == path_view(path_at(rs@, ri as int, ti as int)));
        assert(m@[rj as int]@[tj as int]@ == path_view(path_at(rs@, rj as int, tj as int)));
        assert(same == same_path(path_at(rs@, rj as int, tj as int), path_at(rs@, ri as int, ti as int)) || same == same_path(path_at(rs@, ri as int, ti as int), path_at(rs@, rj as int, tj as int)));
    }
    (ij && p[rj] > p[ri]) || (ji && p[ri] <= p[rj])
}

/// Whether target `i` is dropped, computed by weighing it against every other target.
fn overlapped_at(
    rs: &Vec<ScanResult>,
    m: &Vec<Vec<PathModel>>,
    p: &Vec<u8>,
    ri: usize,
    ti: usize,
    ghost_reg: Ghost<Seq<ProviderEntry>>,
) -> (r: bool)
    requires
        is_entry(rs@, ri as int, ti as int),
        m@.len() == rs@.len(),
        forall|a: int| 0 <= a < rs@.len() ==> (#[trigger] m@[a])@.len() == rs@[a].targets@.len(),
        forall|a: int, b: int|
            is_entry(rs@, a, b) ==> (#[trigger] m@[a]@[b])@ == path_view(path_at(rs@, a, b)),
        p@.len() == rs@.len(),
        forall|a: int| 0 <= a < rs@.len() ==> p@[a] == prio(rs@, ghost_reg@, a),
    ensures
        r == overlapped(rs@, ghost_reg@, ri as int, ti as int),
{
    let mut rj: usize = 0;
    while rj < rs.len()
        invariant
            rj <= rs@.len(),
            is_entry(rs@, ri as int, ti as int),
            m@.len() == rs@.len(),
            forall|a: int| 0 <= a < rs@.len() ==> (#[trigger] m@[a])@.len() == rs@[a].targets@.len(),
            forall|a: int, b: int|
                is_entry(rs@, a, b) ==> (#[trigger] m@[a]@[b])@ == path_view(path_at(rs@, a, b)),
            p@.len() == rs@.len(),
            forall|a: int| 0 <= a < rs@.len() ==> p@[a] == prio(rs@, ghost_reg@, a),
            forall|a: int, b: int|
                0 <= a < rj ==> !beats(rs@, ghost_reg@, ri as int, ti as int, a, b),
        decreases rs@.len() - rj,
    {
        let n = rs[rj].targets.len();
        let mut tj: usize = 0;
        while tj < n
            invariant
                tj <= n == rs@[rj as int].targets@.len(),
                rj < rs@.len(),
                is_entry(rs@, ri as int, ti as int),
                m@.len() == rs@.len(),
                forall|a: int| 0 <= a < rs@.len() ==> (#[trigger] m@[a])@.len() == rs@[a].targets@.len(),
                forall|a: int, b: int|
                    is_entry(rs@, a, b) ==> (#[trigger] m@[a]@[b])@ == path_view(path_at(rs@, a, b)),
                p@.len() == rs@.len(),
                forall|a: int| 0 <= a < rs@.len() ==> p@[a] == prio(rs@, ghost_reg@, a),
                forall|a: int, b: int|
                    0 <= a < rj ==> !beats(rs@, ghost_reg@, ri as int, ti as int, a, b),
                forall|b: int| 0 <= b < tj ==> !beats(rs@, ghost_reg@, ri as int, ti as int, rj as int, b),
            decreases n - tj,
        {
            if beats_at(rs, m, p, ri, ti, rj, tj, ghost_reg) {
                return true;
            }
            tj = tj + 1;
        }
        proof {
            assert forall|a: int, b: int|
                0 <= a < rj + 1 implies !beats(rs@, ghost_reg@, ri as int, ti as int, a, b) by {
                if a == rj as int {
                    if 0 <= b < n {
                    } else {
                        assert(!is_entry(rs@, a, b));
                    }
                }
            }
        }
        rj = rj + 1;
    }
    proof {
        assert forall|a: int, b: int| !beats(rs@, ghost_reg@, ri as int, ti as int, a, b) by {
            if !(0 <= a < rs@.len()) {
                assert(!is_entry(rs@, a, b));
            }
        }
    }
    false
}

/// When two targets overlap (same path, or one contains the other), keep the one from the
/// higher-priority provider. On equal priority keep the ancestor (it already includes the
/// descendant). This lets a generic "all caches" provider coexist with specialised ones.
#[verifier::rlimit(30)]
pub fn dedupe_overlaps(results: &mut Vec<ScanResult>, registry: &ProviderRegistry)
    requires
        results_fit(old(results)@),
    ensures
        final(results)@.len() == old(results)@.len(),
        forall|ri: int|
            0 <= ri < old(results)@.len() ==> deduped_result(
                #[trigger] final(results)@[ri],
                old(results)@[ri],
                survivors(old(results)@, registry.ordered@, ri),
            ),
{
    let ghost reg = registry.ordered@;
    let ghost rs0 = results@;
    let m = parse_targets(results);
    let p = result_priorities(results, registry);
    let mut out: Vec<ScanResult> = Vec::new();
    let mut ri: usize = 0;
    while ri < results.len()
        invariant
            results@ == rs0,
            reg == registry.ordered@,
            results_fit(rs0),
            ri <= rs0.len(),
            m@.len() == rs0.len(),
            forall|a: int| 0 <= a < rs0.len() ==> (#[trigger] m@[a])@.len() == rs0[a].targets@.len(),
            forall|a: int, b: int|
                is_entry(rs0, a, b) ==> (#[trigger] m@[a]@[b])@ == path_view(path_at(rs0, a, b)),
            p@.len() == rs0.len(),
            forall|a: int| 0 <= a < rs0.len() ==> p@[a] == prio(rs0, reg, a),
            out@.len() == ri,
            forall|a: int| 0 <= a < ri ==> deduped_result(#[trigger] out@[a], rs0[a], survivors(rs0, reg, a)),
        decreases rs0.len() - ri,
    {
        let r = &results[ri];
        let mut kept: Vec<CleanupTarget> = Vec::new();
        let mut ti: usize = 0;
        while ti < r.targets.len()
            invariant
                results@ == rs0,
                reg == registry.ordered@,
                ri < rs0.len(),
                *r == rs0[ri as int],
                ti <= r.targets@.len(),
                m@.len() == rs0.len(),
                forall|a: int| 0 <= a < rs0.len() ==> (#[trigger] m@[a])@.len() == rs0[a].targets@.len(),
                forall|a: int, b: int|
                    is_entry(rs0, a, b) ==> (#[trigger] m@[a]@[b])@ == path_view(path_at(rs0, a, b)),
                p@.len() == rs0.len(),
                forall|a: int| 0 <= a < rs0.len() ==> p@[a] == prio(rs0, reg, a),
                kept@ == kept_upto(rs0, reg, ri as int, ti as int),
            decreases r.targets@.len() - ti,
        {
            if !overlapped_at(results, &m, &p, ri, ti, Ghost(reg)) {
                kept.push(r.targets[ti].copy());
            }
            ti = ti + 1;
        }
        proof {
            lemma_kept_sums(rs0, reg, ri as int, r.targets@.len() as int);
            lemma_take_all(r.targets@);
            assert(sum_sizes(rs0[ri as int].targets@) <= u64::MAX);
        }
        let (bytes, files) = crate::models::target_totals(&kept);
        let n = ScanResult {
            provider_id: r.provider_id.clone(),
            provider_name: r.provider_name.clone(),
            category: r.category,
            targets: kept,
            total_bytes: bytes,
            total_files: files,
            duration_ms: r.duration_ms,
            issues: crate::models::copy_issues(&r.issues),
        };
        out.push(n);
        ri = ri + 1;
    }
    *results = out;
}

/// No two targets that survive overlap: of any target and another at or inside it, one of the
/// two is dropped, unless the two are the same path reported twice by one provider.
pub proof fn lemma_no_overlap_survives(
    rs: Seq<ScanResult>,
    reg: Seq<ProviderEntry>,
    ri: int,
    ti: int,
    rj: int,
    tj: int,
)
    requires
        is_entry(rs, ri, ti),
        is_entry(rs, rj, tj),
        weighed(rs, ri, ti, rj, tj),
    ensures
        overlapped(rs, reg, ri, ti) || overlapped(rs, reg, rj, tj),
{
    if prio(rs, reg, rj) > prio(rs, reg, ri) {
        assert(beats(rs, reg, ri, ti, rj, tj));
    } else {
        assert(beats(rs, reg, rj, tj, ri, ti));
    }
}

/// Where the `k`-th of the first `n` survivors of result `ri` stood among its targets.
pub open spec fn kept_pos(rs: Seq<ScanResult>, reg: Seq<ProviderEntry>, ri: int, n: int, k: int) -> int
    decreases n,
{
    if n <= 0 {
        0
    } else if !overlapped(rs, reg, ri, n - 1) && k == kept_upto(rs, reg, ri, n - 1).len() {
        n - 1
    } else {
        kept_pos(rs, reg, ri, n - 1, k)
    }
}

/// Each survivor is a target that was not dropped, and survivors keep their order.
proof fn lemma_kept_pos(rs: Seq<ScanResult>, reg: Seq<ProviderEntry>, ri: int, n: int)
    requires
        0 <= ri < rs.len(),
        0 <= n <= rs[ri].targets@.len(),
    ensures
        forall|k: int|
            0 <= k < kept_upto(rs, reg, ri, n).len() ==> {
                let t = #[trigger] kept_pos(rs, reg, ri, n, k);
                &&& 0 <= t < n
                &&& !overlapped(rs, reg, ri, t)
                &&& kept_upto(rs, reg, ri, n)[k] == rs[ri].targets@[t]
            },
        forall|k1: int, k2: int|
            0 <= k1 < k2 < kept_upto(rs, reg, ri, n).len() ==> #[trigger] kept_pos(rs, reg, ri, n, k1)
                < #[trigger] kept_pos(rs, reg, ri, n, k2),
    decreases n,
{
    if n > 0 {
        lemma_kept_pos(rs, reg, ri, n - 1);
        let prev = kept_upto(rs, reg, ri, n - 1);
        assert forall|k: int|
            0 <= k < kept_upto(rs, reg, ri, n).len() implies {
                let t = #[trigger] kept_pos(rs, reg, ri, n, k);
                &&& 0 <= t < n
                &&& !overlapped(rs, reg, ri, t)
                &&& kept_upto(rs, reg, ri, n)[k] == rs[ri].targets@[t]
            } by {
            if !overlapped(rs, reg, ri, n - 1) && k == prev.len() {
            } else {
                assert(kept_pos(rs, reg, ri, n, k) == kept_pos(rs, reg, ri, n - 1, k));
            }
        }
        assert forall|k1: int, k2: int|
            0 <= k1 < k2 < kept_upto(rs, reg, ri, n).len() implies #[trigger] kept_pos(rs, reg, ri, n, k1)
                < #[trigger] kept_pos(rs, reg, ri, n, k2) by {
            assert(kept_pos(rs, reg, ri, n, k1) == kept_pos(rs, reg, ri, n - 1, k1));
            if !overlapped(rs, reg, ri, n - 1) && k2 == prev.len() {
                assert(kept_pos(rs, reg, ri, n - 1, k1) < n - 1);
            } else {
                assert(kept_pos(rs, reg, ri, n, k2) == kept_pos(rs, reg, ri, n - 1, k2));
            }
        }
    }
}

/// After overlaps are removed, no surviving target lies at or inside another one, anywhere in
/// the scan, except the same path reported twice by one provider. `after` is any outcome that
/// `dedupe_overlaps` promises for `before`.
pub proof fn lemma_deduped_has_no_overlap(
    before: Seq<ScanResult>,
    after: Seq<ScanResult>,
    reg: Seq<ProviderEntry>,
    ri: int,
    k: int,
    rj: int,
    l: int,
)
    requires
        after.len() == before.len(),
        forall|i: int|
            0 <= i < before.len() ==> deduped_result(#[trigger] after[i], before[i], survivors(before, reg, i)),
        is_entry(after, ri, k),
        is_entry(after, rj, l),
        ri != rj || k != l,
        starts_with_spec(path_at(after, rj, l), path_at(after, ri, k)),
    ensures
        ri == rj,
        same_path(path_at(after, ri, k), path_at(after, rj, l)),
{
    assert(deduped_result(after[ri], before[ri], survivors(before, reg, ri)));
    assert(deduped_result(after[rj], before[rj], survivors(before, reg, rj)));
    lemma_kept_pos(before, reg, ri, before[ri].targets@.len() as int);
    lemma_kept_pos(before, reg, rj, before[rj].targets@.len() as int);
    let ti = kept_pos(before, reg, ri, before[ri].targets@.len() as int, k);
    let tj = kept_pos(before, reg, rj, before[rj].targets@.len() as int, l);
    assert(path_at(after, ri, k) == path_at(before, ri, ti));
    assert(path_at(after, rj, l) == path_at(before, rj, tj));
    assert(ri != rj || ti != tj) by {
        if ri == rj {
            if k < l {
                assert(kept_pos(before, reg, ri, before[ri].targets@.len() as int, k) < kept_pos(before, reg, ri, before[ri].targets@.len() as int, l));
            } else {
                assert(kept_pos(before, reg, ri, before[ri].targets@.len() as int, l) < kept_pos(before, reg, ri, before[ri].targets@.len() as int, k));
            }
        }
    }
    let pa = path_at(before, ri, ti);
    let pb = path_at(before, rj, tj);
    if !(ri == rj && same_path(pa, pb)) {
        if !same_path(pa, pb) || ri < rj || (ri == rj && ti < tj) {
            assert(weighed(before, ri, ti, rj, tj));
            lemma_no_overlap_survives(before, reg, ri, ti, rj, tj);
        } else {
            assert(same_path(pb, pa));
            assert(starts_with_spec(pa, pb));
            assert(weighed(before, rj, tj, ri, ti));
            lemma_no_overlap_survives(before, reg, rj, tj, ri, ti);
        }
    }
}

/// Which providers to run. `None` runs every available provider.
#[derive(Debug, Clone)]
pub struct ScanRequest {
    pub provider_ids: Option<Vec<String>>,
}

/// Whether `request` asks for provider `id`.
pub open spec fn requested(request: ScanRequest, id: Seq<char>) -> bool {
    match request.provider_ids {
        None => true,
        Some(ids) => names(ids@, id),
    }
}

/// Whether one of `ids` is `id`.
pub open spec fn names(ids: Seq<String>, id: Seq<char>) -> bool {
    exists|i: int| 0 <= i < ids.len() && ids[i]@ == id
}

/// The providers a scan runs, by position in the registry: those asked for that have
/// something to look at, in registry order.
pub open spec fn selected_upto(reg: Seq<ProviderEntry>, request: ScanRequest, available: Seq<bool>, n: int) -> Seq<usize>
    decreases n,
{
    if n <= 0 {
        Seq::empty()
    } else {
        let prev = selected_upto(reg, request, available, n - 1);
        if requested(request, reg[n - 1].id@) && available[n - 1] {
            prev.push((n - 1) as usize)
        } else {
            prev
        }
    }
}

fn is_requested(request: &ScanRequest, id: &str) -> (r: bool)
    ensures
        r == requested(*request, id@),
{
    match &request.provider_ids {
        None => true,
        Some(ids) => {
            assert(request.provider_ids == Some(*ids));
            let mut i: usize = 0;
            while i < ids.len()
                invariant
                    i <= ids@.len(),
                    request.provider_ids == Some(*ids),
                    forall|j: int| 0 <= j < i ==> ids@[j]@ != id@,
                decreases ids@.len() - i,
            {
                if str_eq(ids[i].as_str(), id) {
                    assert(0 <= i < ids@.len() && ids@[i as int]@ == id@);
                    assert(names(ids@, id@));
                    return true;
                }
                i = i + 1;
            }
            false
        },
    }
}

/// The providers a scan runs, as positions in the registry. `available[i]` says whether
/// provider `i` has anything to look at on this machine.
pub fn selected_providers(registry: &ProviderRegistry, request: &ScanRequest, available: &Vec<bool>) -> (r: Vec<usize>)
    requires
        available@.len() == registry.ordered@.len(),
    ensures
        r@ == selected_upto(registry.ordered@, *request, available@, registry.ordered@.len() as int),
{
    let mut out: Vec<usize> = Vec::new();
    let mut i: usize = 0;
    while i < registry.ordered.len()
        invariant
            i <= registry.ordered@.len(),
            available@.len() == registry.ordered@.len(),
            out@ == selected_upto(registry.ordered@, *request, available@, i as int),
        decreases registry.ordered@.len() - i,
    {
        if is_requested(request, registry.ordered[i].id.as_str()) && available[i] {
            out.push(i);
        }
        i = i + 1;
    }
    out
}

/// Which provider a scan runs next, once `done` of the `selected` ones have run. A scan that
/// has been cancelled runs no further provider; the results it already has are kept, and the
/// session comes out cancelled.
pub fn next_provider(selected: &Vec<usize>, done: usize, cancelled: bool) -> (r: Option<usize>)
    ensures
        cancelled ==> r is None,
        !cancelled && done < selected@.len() ==> r == Some(selected@[done as int]),
        done >= selected@.len() ==> r is None,
{
    if cancelled || done >= selected.len() {
        None
    } else {
        Some(selected[done])
    }
}

/// The group key of a result: the registry position of its provider, or the registry's length
/// when its provider is not registered.
pub open spec fn key_of(reg: Seq<ProviderEntry>, r: ScanResult) -> int {
    match first_position(reg, r.provider_id@) {
        Some(p) => p,
        None => reg.len() as int,
    }
}

/// The results with key `k`, in the order they came.
pub open spec fn with_key(rs: Seq<ScanResult>, reg: Seq<ProviderEntry>, k: int) -> Seq<ScanResult>
    decreases rs.len(),
{
    if rs.len() == 0 {
        Seq::empty()
    } else if key_of(reg, rs.last()) == k {
        with_key(rs.drop_last(), reg, k).push(rs.last())
    } else {
        with_key(rs.drop_last(), reg, k)
    }
}

/// The results with keys below `n`, key by key.
pub open spec fn in_key_order(rs: Seq<ScanResult>, reg: Seq<ProviderEntry>, n: int) -> Seq<ScanResult>
    decreases n,
{
    if n <= 0 {
        Seq::empty()
    } else {
        in_key_order(rs, reg, n - 1) + with_key(rs, reg, n - 1)
    }
}

/// The results in registry order, keeping the order they came in among results of one
/// provider position, with results of unknown providers last: a stable sort by registry
/// position.
pub open spec fn ordered_results(rs: Seq<ScanResult>, reg: Seq<ProviderEntry>) -> Seq<ScanResult> {
    in_key_order(rs, reg, reg.len() as int + 1)
}

/// Moves the results with key `k` out of `slots`, in order, onto `out`.
fn take_group(
    slots: &mut Vec<Option<ScanResult>>,
    keys: &Vec<usize>,
    k: usize,
    out: &mut Vec<ScanResult>,
    ghost_rs: Ghost<Seq<ScanResult>>,
    ghost_reg: Ghost<Seq<ProviderEntry>>,
)
    requires
        old(slots)@.len() == ghost_rs@.len(),
        keys@.len() == ghost_rs@.len(),
        forall|j: int| 0 <= j < ghost_rs@.len() ==> keys@[j] == key_of(ghost_reg@, ghost_rs@[j]),
        forall|j: int| 0 <= j < ghost_rs@.len() ==> (old(slots)@[j] is Some <==> key_of(ghost_reg@, ghost_rs@[j]) >= k),
        forall|j: int| 0 <= j < ghost_rs@.len() && old(slots)@[j] is Some ==> old(slots)@[j] == Some(ghost_rs@[j]),
    ensures
        final(slots)@.len() == ghost_rs@.len(),
        forall|j: int| 0 <= j < ghost_rs@.len() ==> (final(slots)@[j] is Some <==> key_of(ghost_reg@, ghost_rs@[j]) > k),
        forall|j: int| 0 <= j < ghost_rs@.len() && final(slots)@[j] is Some ==> final(slots)@[j] == Some(ghost_rs@[j]),
        final(out)@ == old(out)@ + with_key(ghost_rs@, ghost_reg@, k as int),
{
    let ghost rs = ghost_rs@;
    let ghost reg = ghost_reg@;
    let ghost start = out@;
    let n = slots.len();
    let mut i: usize = 0;
    while i < n
        invariant
            i <= n,
            n == rs.len(),
            slots@.len() == n,
            keys@.len() == n,
            forall|j: int| 0 <= j < n ==> keys@[j] == key_of(reg, rs[j]),
            forall|j: int| 0 <= j < i ==> (slots@[j] is Some <==> key_of(reg, rs[j]) > k),
            forall|j: int| i <= j < n ==> (slots@[j] is Some <==> key_of(reg, rs[j]) >= k),
            forall|j: int| 0 <= j < n && slots@[j] is Some ==> slots@[j] == Some(rs[j]),
            out@ == start + with_key(rs.take(i as int), reg, k as int),
        decreases n - i,
    {
        proof {
            assert(rs.take(i + 1).drop_last() == rs.take(i as int));
            assert(rs.take(i + 1).last() == rs[i as int]);
        }
        if keys[i] == k {
            let ghost before = slots@;
            let taken = slots.remove(i);
            slots.insert(i, None);
            assert(slots@ =~= before.update(i as int, None));
            match taken {
                Some(r) => {
                    out.push(r);
                },
                None => {},
            }
        }
        i = i + 1;
    }
    assert(rs.take(n as int) == rs);
}

/// The results in registry order (a stable sort by the position of their provider), results of
/// providers the registry does not know last.
pub fn order_results(results: Vec<ScanResult>, registry: &ProviderRegistry) -> (r: Vec<ScanResult>)
    ensures
        r@ == ordered_results(results@, registry.ordered@),
{
    let ghost rs = results@;
    let ghost reg = registry.ordered@;
    let n = results.len();
    let m = registry.ordered.len();
    let mut keys: Vec<usize> = Vec::new();
    let mut i: usize = 0;
    while i < n
        invariant
            n == rs.len(),
            results@ == rs,
            reg == registry.ordered@,
            m == reg.len(),
            i <= n,
            keys@.len() == i,
            forall|j: int| 0 <= j < i ==> keys@[j] == key_of(reg, rs[j]),
        decreases n - i,
    {
        proof {
            crate::providers::registry::lemma_first_position_range(reg, rs[i as int].provider_id@);
        }
        let k = match registry.position(results[i].provider_id.as_str()) {
            Some(p) => p,
            None => m,
        };
        keys.push(k);
        i = i + 1;
    }
    let mut slots: Vec<Option<ScanResult>> = Vec::new();
    for r in it: results
        invariant
            it.seq() == rs,
            slots@.len() == it.index(),
            forall|j: int| 0 <= j < slots@.len() ==> slots@[j] == Some(rs[j]),
    {
        slots.push(Some(r));
    }
    let mut out: Vec<ScanResult> = Vec::new();
    let mut k: usize = 0;
    proof {
        assert forall|j: int| 0 <= j < n implies key_of(reg, rs[j]) >= 0 by {
            lemma_key_range(reg, rs[j]);
        }
    }
    while k < m
        invariant
            k <= m,
            m == reg.len(),
            n == rs.len(),
            slots@.len() == n,
            keys@.len() == n,
            forall|j: int| 0 <= j < n ==> keys@[j] == key_of(reg, rs[j]),
            forall|j: int| 0 <= j < n ==> (slots@[j] is Some <==> key_of(reg, rs[j]) >= k),
            forall|j: int| 0 <= j < n && slots@[j] is Some ==> slots@[j] == Some(rs[j]),
            out@ == in_key_order(rs, reg, k as int),
        decreases m - k,
    {
        take_group(&mut slots, &keys, k, &mut out, Ghost(rs), Ghost(reg));
        k = k + 1;
    }
    take_group(&mut slots, &keys, m, &mut out, Ghost(rs), Ghost(reg));
    out
}

/// Puts a scan together from its results, which must be in the order the providers ran in:
/// results in registry order, overlaps removed, totals added up, and the status cancelled when
/// the scan was.
pub fn finish_session(
    scan_id: &str,
    cancelled: bool,
    started_at: i64,
    finished_at: i64,
    results: Vec<ScanResult>,
    registry: &ProviderRegistry,
) -> (s: ScanSession)
    requires
        results_fit(ordered_results(results@, registry.ordered@)),
        session_fits(ordered_results(results@, registry.ordered@)),
    ensures
        s.id@ == scan_id@,
        s.status == if cancelled { ScanStatus::Cancelled } else { ScanStatus::Completed },
        s.started_at == started_at,
        s.finished_at == Some(finished_at),
        s.results@.len() == results@.len(),
        forall|ri: int|
            0 <= ri < s.results@.len() ==> deduped_result(
                #[trigger] s.results@[ri],
                ordered_results(results@, registry.ordered@)[ri],
                survivors(ordered_results(results@, registry.ordered@), registry.ordered@, ri),
            ),
        s.total_bytes == sum_result_bytes(s.results@),
        s.total_files == sum_result_files(s.results@),
{
    let mut ordered = order_results(results, registry);
    proof {
        lemma_ordered_len(results@, registry.ordered@);
    }
    let ghost before = ordered@;
    dedupe_overlaps(&mut ordered, registry);
    proof {
        lemma_deduped_totals_fit(before, ordered@, registry.ordered@);
    }
    let mut session = ScanSession {
        id: crate::text::owned(scan_id),
        status: if cancelled {
            ScanStatus::Cancelled
        } else {
            ScanStatus::Completed
        },
        started_at,
        finished_at: Some(finished_at),
        results: ordered,
        total_bytes: 0,
        total_files: 0,
    };
    session.recompute_totals();
    session
}

/// Whether the results' totals, added up over the whole scan, fit in 64 bits.
pub open spec fn session_fits(rs: Seq<ScanResult>) -> bool {
    total_targets_bytes(rs) <= u64::MAX && total_targets_files(rs) <= u64::MAX
}

pub open spec fn total_targets_bytes(rs: Seq<ScanResult>) -> nat
    decreases rs.len(),
{
    if rs.len() == 0 {
        0
    } else {
        total_targets_bytes(rs.drop_last()) + sum_sizes(rs.last().targets@)
    }
}

pub open spec fn total_targets_files(rs: Seq<ScanResult>) -> nat
    decreases rs.len(),
{
    if rs.len() == 0 {
        0
    } else {
        total_targets_files(rs.drop_last()) + sum_files(rs.last().targets@)
    }
}

proof fn lemma_key_range(reg: Seq<ProviderEntry>, r: ScanResult)
    ensures
        0 <= key_of(reg, r) <= reg.len(),
{
    crate::providers::registry::lemma_first_position_range(reg, r.provider_id@);
}

proof fn lemma_ordered_len(rs: Seq<ScanResult>, reg: Seq<ProviderEntry>)
    ensures
        ordered_results(rs, reg).len() == rs.len(),
    decreases rs.len(),
{
    if rs.len() == 0 {
        lemma_key_order_empty(rs, reg, reg.len() as int + 1);
    } else {
        lemma_ordered_len(rs.drop_last(), reg);
        lemma_key_range(reg, rs.last());
        lemma_key_order_push_len(rs, reg, reg.len() as int + 1);
    }
}

proof fn lemma_key_order_empty(rs: Seq<ScanResult>, reg: Seq<ProviderEntry>, n: int)
    requires
        rs.len() == 0,
    ensures
        in_key_order(rs, reg, n).len() == 0,
    decreases n,
{
    if n > 0 {
        lemma_key_order_empty(rs, reg, n - 1);
    }
}

/// How the first `n` key groups grow when a result is added at the end.
proof fn lemma_key_order_push_len(rs: Seq<ScanResult>, reg: Seq<ProviderEntry>, n: int)
    requires
        rs.len() > 0,
        0 <= n,
    ensures
        in_key_order(rs, reg, n).len() == in_key_order(rs.drop_last(), reg, n).len() + if key_of(
            reg,
            rs.last(),
        ) < n {
            1int
        } else {
            0int
        },
    decreases n,
{
    if n > 0 {
        lemma_key_order_push_len(rs, reg, n - 1);
        assert(in_key_order(rs, reg, n) == in_key_order(rs, reg, n - 1) + with_key(rs, reg, n - 1));
        assert(in_key_order(rs.drop_last(), reg, n) == in_key_order(rs.drop_last(), reg, n - 1)
            + with_key(rs.drop_last(), reg, n - 1));
        assert(with_key(rs, reg, n - 1).len() == with_key(rs.drop_last(), reg, n - 1).len() + if key_of(reg, rs.last()) == n - 1 { 1int } else { 0int });
        let a = in_key_order(rs, reg, n - 1).len() as int;
        let b = in_key_order(rs.drop_last(), reg, n - 1).len() as int;
        let c = with_key(rs, reg, n - 1).len() as int;
        let d = with_key(rs.drop_last(), reg, n - 1).len() as int;
        assert(in_key_order(rs, reg, n).len() == a + c);
        assert(in_key_order(rs.drop_last(), reg, n).len() == b + d);
    } else {
        lemma_key_range(reg, rs.last());
        assert(in_key_order(rs, reg, n).len() == 0);
        assert(in_key_order(rs.drop_last(), reg, n).len() == 0);
    }
}

proof fn lemma_deduped_totals_fit(before: Seq<ScanResult>, after: Seq<ScanResult>, reg: Seq<ProviderEntry>)
    requires
        results_fit(before),
        session_fits(before),
        after.len() == before.len(),
        forall|ri: int| 0 <= ri < before.len() ==> deduped_result(#[trigger] after[ri], before[ri], survivors(before, reg, ri)),
    ensures
        sum_result_bytes(after) <= u64::MAX,
        sum_result_files(after) <= u64::MAX,
{
    lemma_deduped_prefix(before, after, reg, before.len() as int);
    assert(before.take(before.len() as int) == before);
    assert(after.take(after.len() as int) == after);
}

proof fn lemma_deduped_prefix(before: Seq<ScanResult>, after: Seq<ScanResult>, reg: Seq<ProviderEntry>, n: int)
    requires
        0 <= n <= before.len(),
        after.len() == before.len(),
        forall|ri: int| 0 <= ri < before.len() ==> deduped_result(#[trigger] after[ri], before[ri], survivors(before, reg, ri)),
    ensures
        sum_result_bytes(after.take(n)) <= total_targets_bytes(before.take(n)),
        sum_result_files(after.take(n)) <= total_targets_files(before.take(n)),
    decreases n,
{
    if n > 0 {
        lemma_deduped_prefix(before, after, reg, n - 1);
        assert(after.take(n).drop_last() == after.take(n - 1));
        assert(before.take(n).drop_last() == before.take(n - 1));
        assert(after.take(n).last() == after[n - 1]);
        assert(before.take(n).last() == before[n - 1]);
        assert(deduped_result(after[n - 1], before[n - 1], survivors(before, reg, n - 1)));
        lemma_kept_sums(before, reg, n - 1, before[n - 1].targets@.len() as int);
        lemma_take_all(before[n - 1].targets@);
    }
}

} // verus!
