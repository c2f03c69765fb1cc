//! One line per project, for providers whose targets know the project they belong to.
//!
//! Hundreds of build directories in one list cannot be judged. One line per project, biggest
//! first, with how long since anyone worked on it, can be.

use vstd::prelude::*;

use crate::analyzer::{fits_in_bytes, is_ordering, key_views, largest_first, sorted_by_size, stable_for};
use crate::cli::render::{truncate, truncated};
use crate::models::{sum_sizes, CleanupTarget, ScanResult};
use crate::text::{chars_of, concat, decimal_digits, decimal_text, join_strings, join_with, str_eq, string_views};

verus! {

/// What one project's targets add up to.
#[derive(Debug, Clone)]
pub struct ProjectRow {
    pub label: String,
    pub bytes: u64,
    pub items: usize,
    /// What the project is holding (node_modules, a Rust target, ...), each once, in the
    /// order first met.
    pub kinds: Vec<String>,
    /// When someone last worked in it, in milliseconds since the Unix epoch, when known.
    pub last_active: Option<i64>,
}

impl ProjectRow {
    pub fn copy(&self) -> (r: ProjectRow)
        ensures
            row_view(r) == row_view(*self),
    {
        let kinds = self.kinds.clone();
        proof {
            assert(kinds@ == self.kinds@);
        }
        ProjectRow {
            label: self.label.clone(),
            bytes: self.bytes,
            items: self.items,
            kinds,
            last_active: self.last_active,
        }
    }
}

/// The rows of a scan result: its projects biggest first, and what belongs to none.
#[derive(Debug, Clone)]
pub struct ProjectRows {
    pub projects: Vec<ProjectRow>,
    pub ungrouped_bytes: u64,
    pub ungrouped_items: usize,
}

/// A row as plain values: label, bytes, items, kinds, last activity.
pub type RowView = (Seq<char>, int, int, Seq<Seq<char>>, Option<i64>);

pub open spec fn row_view(r: ProjectRow) -> RowView {
    (r.label@, r.bytes as int, r.items as int, string_views(r.kinds@), r.last_active)
}

/// What a target is holding: its description, or nothing.
pub open spec fn kind_of(t: CleanupTarget) -> Seq<char> {
    match t.description {
        Some(d) => d@,
        None => Seq::empty(),
    }
}

/// Position of the row labelled `label`, or -1.
pub open spec fn row_position(rows: Seq<RowView>, label: Seq<char>) -> int
    decreases rows.len(),
{
    if rows.len() == 0 {
        -1
    } else if row_position(rows.drop_last(), label) >= 0 {
        row_position(rows.drop_last(), label)
    } else if rows.last().0 == label {
        rows.len() - 1
    } else {
        -1
    }
}

/// The rows after one more target.
pub open spec fn rows_after(rows: Seq<RowView>, t: CleanupTarget) -> Seq<RowView> {
    match t.group {
        None => rows,
        Some(g) => {
            let kind = kind_of(t);
            let p = row_position(rows, g.label@);
            if p >= 0 {
                let r = rows[p];
                let kinds = if kind.len() > 0 && !r.3.contains(kind) {
                    r.3.push(kind)
                } else {
                    r.3
                };
                rows.update(p, (r.0, r.1 + t.size_bytes, r.2 + 1, kinds, r.4))
            } else {
                rows.push(
                    (
                        g.label@,
                        t.size_bytes as int,
                        1,
                        if kind.len() > 0 {
                            seq![kind]
                        } else {
                            Seq::empty()
                        },
                        g.last_active_at,
                    ),
                )
            }
        },
    }
}

/// The projects of `ts`, in the order first met.
pub open spec fn rows_of(ts: Seq<CleanupTarget>) -> Seq<RowView>
    decreases ts.len(),
{
    if ts.len() == 0 {
        Seq::empty()
    } else {
        rows_after(rows_of(ts.drop_last()), ts.last())
    }
}

/// Bytes and count of the targets that belong to no project.
pub open spec fn ungrouped(ts: Seq<CleanupTarget>) -> (int, int)
    decreases ts.len(),
{
    if ts.len() == 0 {
        (0, 0)
    } else {
        let u = ungrouped(ts.drop_last());
        if ts.last().group is None {
            (u.0 + ts.last().size_bytes, u.1 + 1)
        } else {
            u
        }
    }
}

pub open spec fn row_keys(rows: Seq<RowView>) -> Seq<(u64, Seq<char>)> {
    rows.map_values(|r: RowView| (r.1 as u64, Seq::<char>::empty()))
}

proof fn lemma_row_position(rows: Seq<RowView>, label: Seq<char>)
    ensures
        -1 <= row_position(rows, label) < rows.len(),
        row_position(rows, label) >= 0 ==> rows[row_position(rows, label)].0 == label,
        row_position(rows, label) >= 0 ==> forall|e: int| 0 <= e < row_position(rows, label) ==> (#[trigger] rows[e]).0 != label,
        row_position(rows, label) == -1 ==> forall|e: int| 0 <= e < rows.len() ==> (#[trigger] rows[e]).0 != label,
    decreases rows.len(),
{
    if rows.len() > 0 {
        lemma_row_position(rows.drop_last(), label);
        assert forall|e: int| 0 <= e < rows.len() - 1 implies rows[e] == rows.drop_last()[e] by {}
    }
}

proof fn lemma_sizes_prefix(ts: Seq<CleanupTarget>, k: int)
    requires
        0 <= k <= ts.len(),
    ensures
        sum_sizes(ts.take(k)) <= sum_sizes(ts),
    decreases ts.len() - k,
{
    if k < ts.len() {
        lemma_sizes_prefix(ts, k + 1);
        assert(ts.take(k + 1).drop_last() =~= ts.take(k));
    } else {
        assert(ts.take(k) =~= ts);
    }
}

/// Where the row labelled `label` stands.
fn find_row(rows: &Vec<ProjectRow>, label: &str) -> (r: Option<usize>)
    ensures
        match r {
            Some(i) => i == row_position(rows@.map_values(|x: ProjectRow| row_view(x)), label@) && i < rows@.len(),
            None => row_position(rows@.map_values(|x: ProjectRow| row_view(x)), label@) == -1,
        },
{
    let ghost rv = rows@.map_values(|x: ProjectRow| row_view(x));
    proof {
        lemma_row_position(rv, label@);
    }
    let mut i: usize = 0;
    while i < rows.len()
        invariant
            i <= rows@.len(),
            rv == rows@.map_values(|x: ProjectRow| row_view(x)),
            -1 <= row_position(rv, label@) < rv.len(),
            row_position(rv, label@) >= 0 ==> rv[row_position(rv, label@)].0 == label@,
            row_position(rv, label@) >= 0 ==> forall|e: int| 0 <= e < row_position(rv, label@) ==> (#[trigger] rv[e]).0 != label@,
            row_position(rv, label@) == -1 ==> forall|e: int| 0 <= e < rv.len() ==> (#[trigger] rv[e]).0 != label@,
            forall|e: int| 0 <= e < i ==> (#[trigger] rv[e]).0 != label@,
        decreases rows@.len() - i,
    {
        assert(rv[i as int].0 == rows@[i as int].label@);
        if str_eq(rows[i].label.as_str(), label) {
            proof {
                let p = row_position(rv, label@);
                if p != i && p > i {
                    assert(rv[i as int].0 != label@);
                }
            }
            return Some(i);
        }
        i = i + 1;
    }
    proof {
        let p = row_position(rv, label@);
        if p >= 0 {
            assert(rv[p].0 == label@);
        }
    }
    None
}

/// Whether `kinds` holds `kind`.
fn has_kind(kinds: &Vec<String>, kind: &str) -> (r: bool)
    ensures
        r == string_views(kinds@).contains(kind@),
{
    let mut i: usize = 0;
    while i < kinds.len()
        invariant
            i <= kinds@.len(),
            forall|e: int| 0 <= e < i ==> (#[trigger] kinds@[e])@ != kind@,
        decreases kinds@.len() - i,
    {
        if str_eq(kinds[i].as_str(), kind) {
            assert(string_views(kinds@)[i as int] == kind@);
            return true;
        }
        i = i + 1;
    }
    proof {
        if string_views(kinds@).contains(kind@) {
            let e = choose|e: int| 0 <= e < string_views(kinds@).len() && string_views(kinds@)[e] == kind@;
            assert(kinds@[e]@ == kind@);
        }
    }
    false
}

/// The projects of a scan result, biggest first (of equal sizes, in the order first met), and
/// what belongs to no project.
pub fn project_rows(result: &ScanResult) -> (r: ProjectRows)
    requires
        sum_sizes(result.targets@) <= u64::MAX,
    ensures
        r.ungrouped_bytes == ungrouped(result.targets@).0,
        r.ungrouped_items == ungrouped(result.targets@).1,
        exists|order: Seq<usize>| {
            &&& #[trigger] is_ordering(order, rows_of(result.targets@).len() as int)
            &&& sorted_by_size(row_keys(rows_of(result.targets@)), order)
            &&& stable_for(row_keys(rows_of(result.targets@)), order)
            &&& r.projects@.len() == rows_of(result.targets@).len()
            &&& forall|k: int| 0 <= k < rows_of(result.targets@).len() ==> row_view(#[trigger] r.projects@[k]) == rows_of(result.targets@)[order[k] as int]
        },
{
    let ghost ts = result.targets@;
    let mut rows: Vec<ProjectRow> = Vec::new();
    let mut loose_bytes: u64 = 0;
    let mut loose_items: usize = 0;
    let mut i: usize = 0;
    while i < result.targets.len()
        invariant
            i <= ts.len(),
            ts == result.targets@,
            sum_sizes(ts) <= u64::MAX,
            rows@.map_values(|x: ProjectRow| row_view(x)) == rows_of(ts.take(i as int)),
            loose_bytes == ungrouped(ts.take(i as int)).0,
            loose_items == ungrouped(ts.take(i as int)).1,
            loose_bytes <= sum_sizes(ts.take(i as int)),
            loose_items <= i,
            forall|e: int| 0 <= e < rows@.len() ==> (#[trigger] rows@[e]).bytes <= sum_sizes(ts.take(i as int)) && rows@[e].items <= i,
        decreases ts.len() - i,
    {
        let ghost before = rows@.map_values(|x: ProjectRow| row_view(x));
        let ghost prev_rows = rows@;
        proof {
            assert(ts.take(i + 1).drop_last() =~= ts.take(i as int));
            assert(ts.take(i + 1).last() == ts[i as int]);
            lemma_sizes_prefix(ts, i + 1);
        }
        let t = &result.targets[i];
        match &t.group {
            None => {
                loose_bytes = loose_bytes + t.size_bytes;
                loose_items = loose_items + 1;
            },
            Some(g) => {
                let kind: &str = match &t.description {
                    Some(d) => d.as_str(),
                    None => "",
                };
                proof {
                    reveal_strlit("");
                    assert(kind@ == kind_of(*t));
                }
                match find_row(&rows, g.label.as_str()) {
                    Some(p) => {
                        let old_row = &rows[p];
                        let mut kinds = old_row.kinds.clone();
                        proof {
                            assert(kinds@ == old_row.kinds@);
                        }
                        let is_new = !kind.is_empty() && !has_kind(&kinds, kind);
                        if is_new {
                            kinds.push(kind.to_string());
                            proof {
                                assert(string_views(kinds@) =~= string_views(old_row.kinds@).push(kind@));
                            }
                        }
                        let row = ProjectRow {
                            label: old_row.label.clone(),
                            bytes: old_row.bytes + t.size_bytes,
                            items: old_row.items + 1,
                            kinds,
                            last_active: old_row.last_active,
                        };
                        rows.set(p, row);
                        proof {
                            assert(before[p as int] == row_view(prev_rows[p as int]));
                            assert(rows@.map_values(|x: ProjectRow| row_view(x)) =~= rows_after(before, *t));
                        }
                    },
                    None => {
                        let mut kinds: Vec<String> = Vec::new();
                        if !kind.is_empty() {
                            kinds.push(kind.to_string());
                        }
                        proof {
                            if kind@.len() > 0 {
                                assert(string_views(kinds@) =~= seq![kind@]);
                            } else {
                                assert(string_views(kinds@) =~= Seq::<Seq<char>>::empty());
                            }
                        }
                        rows.push(ProjectRow {
                            label: g.label.clone(),
                            bytes: t.size_bytes,
                            items: 1,
                            kinds,
                            last_active: g.last_active_at,
                        });
                        proof {
                            assert(rows@.map_values(|x: ProjectRow| row_view(x)) =~= rows_after(before, *t));
                        }
                    },
                }
            },
        }
        proof {
            assert forall|e: int| 0 <= e < rows@.len() implies (#[trigger] rows@[e]).bytes <= sum_sizes(ts.take(i + 1)) && rows@[e].items <= i + 1 by {
                if e < prev_rows.len() {
                    assert(prev_rows[e].bytes <= sum_sizes(ts.take(i as int)));
                }
            }
        }
        i = i + 1;
    }
    proof {
        assert(ts.take(ts.len() as int) =~= ts);
    }
    let ghost rv = rows_of(ts);
    let mut keys: Vec<(u64, String)> = Vec::new();
    let mut k: usize = 0;
    while k < rows.len()
        invariant
            k <= rows@.len(),
            rows@.map_values(|x: ProjectRow| row_view(x)) == rv,
            key_views(keys@) == row_keys(rv).take(k as int),
        decreases rows@.len() - k,
    {
        let ghost prev = keys@;
        keys.push((rows[k].bytes, String::new()));
        proof {
            assert(rv[k as int].1 == rows@[k as int].bytes);
            assert(key_views(keys@) =~= key_views(prev).push((rows@[k as int].bytes, Seq::<char>::empty())));
            assert(row_keys(rv).take(k + 1) =~= row_keys(rv).take(k as int).push((rows@[k as int].bytes, Seq::<char>::empty())));
        }
        k = k + 1;
    }
    proof {
        assert(row_keys(rv).take(k as int) =~= row_keys(rv));
        assert(key_views(keys@).len() == keys@.len());
        assert(rv.len() == rows@.len());
    }
    let order = largest_first(&keys);
    let mut projects: Vec<ProjectRow> = Vec::new();
    let mut k: usize = 0;
    while k < rows.len()
        invariant
            k <= rows@.len(),
            rows@.map_values(|x: ProjectRow| row_view(x)) == rv,
            is_ordering(order@, rows@.len() as int),
            projects@.len() == k,
            forall|a: int| 0 <= a < k ==> row_view(#[trigger] projects@[a]) == rv[order@[a] as int],
        decreases rows@.len() - k,
    {
        let row = rows[order[k]].copy();
        proof {
            assert(row_view(row) == row_view(rows@[order@[k as int] as int]));
        }
        projects.push(row);
        k = k + 1;
    }
    ProjectRows { projects, ungrouped_bytes: loose_bytes, ungrouped_items: loose_items }
}

/// A day, in milliseconds.
pub const DAY_MS: i64 = 86_400_000;

/// Whole days from `at` to `now` (both in milliseconds), none when `at` is later.
pub open spec fn days_between(now: i64, at: i64) -> int {
    if now > at {
        (now - at) / (DAY_MS as int)
    } else {
        0
    }
}

/// How long since the project was worked on, as the row shows it.
pub open spec fn age_words(now: i64, last_active: Option<i64>) -> Seq<char> {
    match last_active {
        Some(at) => decimal_digits(days_between(now, at) as nat) + "d since work"@,
        None => "no repository"@,
    }
}

pub fn age_text(now: i64, last_active: Option<i64>) -> (r: String)
    ensures
        r@ == age_words(now, last_active),
{
    match last_active {
        Some(at) => {
            let days: u64 = if now > at {
                let diff: i128 = now as i128 - at as i128;
                let d: i128 = diff / 86_400_000i128;
                proof {
                    assert(0 <= d <= diff) by (nonlinear_arith)
                        requires
                            diff > 0,
                            d == diff / 86_400_000i128,
                    ;
                }
                d as u64
            } else {
                0
            };
            let n = decimal_text(days);
            proof {
                reveal_strlit("d since work");
            }
            concat(n.as_str(), "d since work")
        },
        None => {
            proof {
                reveal_strlit("no repository");
            }
            "no repository".to_string()
        },
    }
}

/// The widest the kinds column gets, in bytes.
pub const KINDS_WIDTH: usize = 34;

/// The kinds column: the kinds joined by `, `, cut to [`KINDS_WIDTH`] characters when the
/// whole takes more than that many bytes.
pub open spec fn kinds_words(kinds: Seq<Seq<char>>) -> Seq<char> {
    let joined = join_with(kinds, ", "@);
    if crate::platform::windows::rules::utf8_len(joined) > KINDS_WIDTH {
        truncated(joined, KINDS_WIDTH as nat)
    } else {
        joined
    }
}

pub fn kinds_text(kinds: &Vec<String>) -> (r: String)
    ensures
        r@ == kinds_words(string_views(kinds@)),
{
    let joined = join_strings(kinds, ", ");
    let cs = chars_of(joined.as_str());
    if !fits_in_bytes(cs.as_slice(), KINDS_WIDTH as u64) {
        truncate(joined.as_str(), KINDS_WIDTH)
    } else {
        joined
    }
}


/// Whether any target knows the project it belongs to.
pub fn any_grouped(ts: &Vec<CleanupTarget>) -> (r: bool)
    ensures
        r == exists|i: int| 0 <= i < ts@.len() && (#[trigger] ts@[i]).group is Some,
{
    let mut i: usize = 0;
    while i < ts.len()
        invariant
            i <= ts@.len(),
            forall|j: int| 0 <= j < i ==> (#[trigger] ts@[j]).group is None,
        decreases ts@.len() - i,
    {
        if ts[i].group.is_some() {
            return true;
        }
        i = i + 1;
    }
    false
}

pub open spec fn target_keys(ts: Seq<CleanupTarget>) -> Seq<(u64, Seq<char>)> {
    ts.map_values(|t: CleanupTarget| (t.size_bytes, Seq::<char>::empty()))
}

/// The positions of the targets, biggest first; targets of equal size keep their order.
pub fn targets_by_size(ts: &Vec<CleanupTarget>) -> (order: Vec<usize>)
    ensures
        is_ordering(order@, ts@.len() as int),
        sorted_by_size(target_keys(ts@), order@),
        stable_for(target_keys(ts@), order@),
{
    let mut keys: Vec<(u64, String)> = Vec::new();
    let mut k: usize = 0;
    while k < ts.len()
        invariant
            k <= ts@.len(),
            key_views(keys@) == target_keys(ts@).take(k as int),
        decreases ts@.len() - k,
    {
        let ghost prev = keys@;
        keys.push((ts[k].size_bytes, String::new()));
        proof {
            assert(key_views(keys@) =~= key_views(prev).push((ts@[k as int].size_bytes, Seq::<char>::empty())));
            assert(target_keys(ts@).take(k + 1) =~= target_keys(ts@).take(k as int).push((ts@[k as int].size_bytes, Seq::<char>::empty())));
        }
        k = k + 1;
    }
    proof {
        assert(target_keys(ts@).take(k as int) =~= target_keys(ts@));
        assert(key_views(keys@).len() == keys@.len());
    }
    largest_first(&keys)
}

} // verus!
