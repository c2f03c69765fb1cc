//! Docker, which on a developer machine is often the single largest thing on disk.
//!
//! Docker is the one target Prune cannot treat as files: images, containers and build cache
//! live inside a disk image the daemon owns. So Prune asks the Docker CLI what is reclaimable
//! and, when the user agrees, asks Docker to reclaim it. Only the two conservative commands are
//! offered: `docker system prune` without `-a`, and never `--volumes`.
//!
//! Running the CLI is the caller's part. This module decides what to run and what the answer
//! means.

use vstd::prelude::*;

pub mod parse;

pub use parse::parse_size;

use crate::error::PruneError;
use crate::text::{
    chars_of, concat, find_pattern, first_occurrence, join_strs, join_with, owned, split_chars,
    split_on, str_views, string_of_range, trim_seq, trimmed_chars, views_of,
};
use parse::{digits_value, is_digit, size_of_text};

verus! {

/// What kind of data Docker is holding.
#[derive(Debug, Clone, Copy, PartialEq, Eq, Structural)]
pub enum DockerKind {
    Images,
    Containers,
    Volumes,
    BuildCache,
}

pub open spec fn kind_label(k: DockerKind) -> Seq<char> {
    match k {
        DockerKind::Images => "Images"@,
        DockerKind::Containers => "Containers"@,
        DockerKind::Volumes => "Volumes"@,
        DockerKind::BuildCache => "Build cache"@,
    }
}

pub open spec fn kind_note(k: DockerKind) -> Seq<char> {
    match k {
        DockerKind::Images => "Unused images are re-pulled or rebuilt when needed."@,
        DockerKind::Containers => "Stopped containers. Running ones are never touched."@,
        DockerKind::Volumes => "Volumes hold data such as databases. Prune never removes these."@,
        DockerKind::BuildCache => "Layers from past builds. The next build is slower."@,
    }
}

impl DockerKind {
    pub fn label(self) -> (r: &'static str)
        ensures
            r@ == kind_label(self),
    {
        match self {
            DockerKind::Images => "Images",
            DockerKind::Containers => "Containers",
            DockerKind::Volumes => "Volumes",
            DockerKind::BuildCache => "Build cache",
        }
    }

    /// What removing this would cost, in plain terms.
    pub fn note(self) -> (r: &'static str)
        ensures
            r@ == kind_note(self),
    {
        match self {
            DockerKind::Images => "Unused images are re-pulled or rebuilt when needed.",
            DockerKind::Containers => "Stopped containers. Running ones are never touched.",
            DockerKind::Volumes => "Volumes hold data such as databases. Prune never removes these.",
            DockerKind::BuildCache => "Layers from past builds. The next build is slower.",
        }
    }

    /// Whether Prune's own actions can reclaim this. Volumes are deliberately excluded.
    pub fn reclaimable_by_prune(self) -> (r: bool)
        ensures
            r == (self != DockerKind::Volumes),
    {
        !matches!(self, DockerKind::Volumes)
    }
}

/// The kind a `Type` column names, compared without case or surrounding space.
pub open spec fn kind_named(name: Seq<char>) -> Option<DockerKind> {
    let n = crate::text::lower_seq(trim_seq(name));
    if n == "images"@ {
        Some(DockerKind::Images)
    } else if n == "containers"@ {
        Some(DockerKind::Containers)
    } else if n == "local volumes"@ || n == "volumes"@ {
        Some(DockerKind::Volumes)
    } else if n == "build cache"@ {
        Some(DockerKind::BuildCache)
    } else {
        None
    }
}

/// Every kind of data Docker reports is recognised from the `Type` Docker prints for it, in
/// any case and with surrounding space, and from the label this library shows for it.
pub proof fn lemma_every_kind_is_recognised(name: Seq<char>)
    ensures
        crate::text::lower_seq(trim_seq(name)) == "images"@ ==> kind_named(name) == Some(DockerKind::Images),
        crate::text::lower_seq(trim_seq(name)) == "containers"@ ==> kind_named(name) == Some(DockerKind::Containers),
        crate::text::lower_seq(trim_seq(name)) == "local volumes"@ ==> kind_named(name) == Some(DockerKind::Volumes),
        crate::text::lower_seq(trim_seq(name)) == "volumes"@ ==> kind_named(name) == Some(DockerKind::Volumes),
        crate::text::lower_seq(trim_seq(name)) == "build cache"@ ==> kind_named(name) == Some(DockerKind::BuildCache),
        kind_named("Images"@) == Some(DockerKind::Images),
        kind_named("Containers"@) == Some(DockerKind::Containers),
        kind_named("Local Volumes"@) == Some(DockerKind::Volumes),
        kind_named("Build Cache"@) == Some(DockerKind::BuildCache),
        forall|k: DockerKind| kind_named(#[trigger] kind_label(k)) == Some(k),
{
    reveal_strlit("images");
    reveal_strlit("containers");
    reveal_strlit("local volumes");
    reveal_strlit("volumes");
    reveal_strlit("build cache");
    reveal_strlit("Images");
    reveal_strlit("Containers");
    reveal_strlit("Local Volumes");
    reveal_strlit("Volumes");
    reveal_strlit("Build Cache");
    reveal_strlit("Build cache");
    crate::text::lemma_reads_as("Images"@, "images"@);
    crate::text::lemma_reads_as("Containers"@, "containers"@);
    crate::text::lemma_reads_as("Local Volumes"@, "local volumes"@);
    crate::text::lemma_reads_as("Volumes"@, "volumes"@);
    crate::text::lemma_reads_as("Build Cache"@, "build cache"@);
    crate::text::lemma_reads_as("Build cache"@, "build cache"@);
    assert("images"@.len() == 6 && "containers"@.len() == 10 && "local volumes"@.len() == 13);
    assert("volumes"@.len() == 7 && "build cache"@.len() == 11);
    assert("containers"@ != "images"@);
    assert("local volumes"@ != "images"@ && "local volumes"@ != "containers"@);
    assert("volumes"@ != "images"@ && "volumes"@ != "containers"@ && "volumes"@ != "local volumes"@);
    assert("build cache"@ != "images"@ && "build cache"@ != "containers"@);
    assert("build cache"@ != "local volumes"@ && "build cache"@ != "volumes"@);
    assert forall|k: DockerKind| kind_named(#[trigger] kind_label(k)) == Some(k) by {
        match k {
            DockerKind::Images => {},
            DockerKind::Containers => {},
            DockerKind::Volumes => {},
            DockerKind::BuildCache => {},
        }
    }
}

/// The kind a `Type` column names.
pub fn kind_of(name: &str) -> (r: Option<DockerKind>)
    ensures
        r == kind_named(name@),
{
    let t = trimmed_chars(name);
    let lowered = crate::text::ascii_lower(t.as_slice());
    let n = crate::text::string_from(lowered.as_slice());
    if crate::text::str_eq(n.as_str(), "images") {
        Some(DockerKind::Images)
    } else if crate::text::str_eq(n.as_str(), "containers") {
        Some(DockerKind::Containers)
    } else if crate::text::str_eq(n.as_str(), "local volumes") || crate::text::str_eq(
        n.as_str(),
        "volumes",
    ) {
        Some(DockerKind::Volumes)
    } else if crate::text::str_eq(n.as_str(), "build cache") {
        Some(DockerKind::BuildCache)
    } else {
        None
    }
}

/// One line of `docker system df --format "{{json .}}"`, every field as the string Docker
/// printed (an absent field is empty).
#[derive(Debug, Clone)]
pub struct DockerRow {
    pub kind: String,
    pub total_count: String,
    pub active: String,
    pub size: String,
    pub reclaimable: String,
}

/// One row of `docker system df`.
#[derive(Debug, Clone, PartialEq, Eq)]
pub struct DockerEntry {
    pub kind: DockerKind,
    pub label: String,
    pub note: String,
    pub total_count: u64,
    pub active_count: u64,
    pub size_bytes: u64,
    pub reclaimable_bytes: u64,
    pub reclaimable_by_prune: bool,
}

#[derive(Debug, Clone, PartialEq, Eq)]
pub struct DockerUsage {
    pub entries: Vec<DockerEntry>,
    pub total_bytes: u64,
    /// Reclaimable by the actions Prune offers, so volumes are excluded.
    pub reclaimable_bytes: u64,
}

impl Default for DockerUsage {
    fn default() -> (r: Self)
        ensures
            r.entries@.len() == 0,
            r.total_bytes == 0,
            r.reclaimable_bytes == 0,
    {
        DockerUsage { entries: Vec::new(), total_bytes: 0, reclaimable_bytes: 0 }
    }
}

pub open spec fn all_digits(d: Seq<char>) -> bool {
    forall|k: int| 0 <= k < d.len() ==> is_digit(#[trigger] d[k])
}

/// A count as `str::parse::<u64>` reads it: an optional `+` and at least one digit, with a
/// value that fits; anything else reads as nothing.
pub open spec fn count_syntax(t: Seq<char>) -> Option<Seq<char>> {
    let digits = if t.len() > 0 && t[0] == '+' {
        t.drop_first()
    } else {
        t
    };
    if digits.len() > 0 && all_digits(digits) {
        Some(digits)
    } else {
        None
    }
}

/// What a count column reads as once trimmed; 0 where it is not a count.
pub open spec fn count_of_text(text: Seq<char>) -> nat {
    match count_syntax(trim_seq(text)) {
        Some(d) => if digits_value(d) <= u64::MAX {
            digits_value(d)
        } else {
            0
        },
        None => 0,
    }
}

/// Reads a count column, or 0 where it holds something else.
pub fn parse_count(text: &str) -> (r: u64)
    ensures
        r == count_of_text(text@),
{
    let t = trimmed_chars(text);
    let start: usize = if t.len() > 0 && t[0] == '+' {
        1
    } else {
        0
    };
    if start >= t.len() {
        assert(count_syntax(t@) is None);
        return 0;
    }
    let ghost digits = t@.subrange(start as int, t@.len() as int);
    assert(digits == if t@.len() > 0 && t@[0] == '+' { t@.drop_first() } else { t@ });
    let mut v: u64 = 0;
    let mut i: usize = start;
    while i < t.len()
        invariant
            start <= i <= t@.len(),
            t@ == trim_seq(text@),
            digits == t@.subrange(start as int, t@.len() as int),
            digits == if t@.len() > 0 && t@[0] == '+' { t@.drop_first() } else { t@ },
            forall|k: int| start <= k < i ==> is_digit(#[trigger] t@[k]),
            v == digits_value(t@.subrange(start as int, i as int)),
        decreases t@.len() - i,
    {
        let c = t[i];
        if !('0' <= c && c <= '9') {
            assert(digits[i - start] == c);
            assert(!is_digit(digits[i - start]));
            assert(!all_digits(digits));
            assert(count_syntax(t@) is None);
            return 0;
        }
        proof {
            assert(t@.subrange(start as int, i + 1).drop_last() == t@.subrange(start as int, i as int));
            assert(t@.subrange(start as int, i + 1).last() == c);
        }
        let d: u64 = (c as u32 - '0' as u32) as u64;
        if v > (u64::MAX - d) / 10 {
            proof {
                assert(v * 10 + d > u64::MAX) by (nonlinear_arith)
                    requires
                        v > (u64::MAX - d) / 10,
                        d <= 9,
                ;
                let pre = t@.subrange(start as int, i + 1);
                assert(digits_value(pre) == digits_value(pre.drop_last()) * 10
                    + crate::docker::parse::digit_val(pre.last()));
                lemma_digits_grow(digits, i + 1 - start);
                assert(digits.take(i + 1 - start) == pre);
                if count_syntax(trim_seq(text@)) is Some {
                    assert(count_syntax(trim_seq(text@)) == Some(digits));
                }
            }
            return 0;
        }
        v = v * 10 + d;
        i = i + 1;
    }
    assert(t@.subrange(start as int, t@.len() as int) == digits);
    assert forall|k: int| 0 <= k < digits.len() implies is_digit(#[trigger] digits[k]) by {
        assert(digits[k] == t@[start + k]);
    }
    v
}

/// A longer run of digits never reads smaller.
proof fn lemma_digits_grow(s: Seq<char>, n: int)
    requires
        0 <= n <= s.len(),
    ensures
        digits_value(s.take(n)) <= digits_value(s),
    decreases s.len() - n,
{
    if n < s.len() {
        lemma_digits_grow(s, n + 1);
        assert(s.take(n + 1).drop_last() == s.take(n));
        assert(digits_value(s.take(n + 1)) == digits_value(s.take(n + 1).drop_last()) * 10
            + crate::docker::parse::digit_val(s.take(n + 1).last()));
    } else {
        assert(s.take(n) == s);
    }
}

/// The rows Docker printed that name a kind Prune knows, with that kind.
#[verifier::opaque]
pub open spec fn recognized(rows: Seq<DockerRow>) -> Seq<(DockerKind, DockerRow)>
    decreases rows.len(),
{
    if rows.len() == 0 {
        Seq::empty()
    } else {
        let prev = recognized(rows.drop_last());
        match kind_named(rows.last().kind@) {
            Some(k) => prev.push((k, rows.last())),
            None => prev,
        }
    }
}

/// `Reclaimable` arrives as `9.1GB (73%)`; only the size before the bracket matters.
pub open spec fn reclaimable_of_text(text: Seq<char>) -> nat {
    size_of_text(split_on(text, '(')[0])
}

/// The entry Prune shows for a row of the given kind.
pub open spec fn entry_for(e: DockerEntry, k: DockerKind, row: DockerRow) -> bool {
    &&& e.kind == k
    &&& e.label@ == kind_label(k)
    &&& e.note@ == kind_note(k)
    &&& e.total_count == count_of_text(row.total_count@)
    &&& e.active_count == count_of_text(row.active@)
    &&& e.size_bytes == size_of_text(row.size@)
    &&& e.reclaimable_bytes == reclaimable_of_text(row.reclaimable@)
    &&& e.reclaimable_by_prune == (k != DockerKind::Volumes)
}

#[verifier::opaque]
pub open spec fn total_size(rs: Seq<(DockerKind, DockerRow)>) -> nat
    decreases rs.len(),
{
    if rs.len() == 0 {
        0
    } else {
        total_size(rs.drop_last()) + size_of_text(rs.last().1.size@)
    }
}

#[verifier::opaque]
pub open spec fn offered_size(rs: Seq<(DockerKind, DockerRow)>) -> nat
    decreases rs.len(),
{
    if rs.len() == 0 {
        0
    } else {
        offered_size(rs.drop_last()) + if rs.last().0 != DockerKind::Volumes {
            reclaimable_of_text(rs.last().1.reclaimable@)
        } else {
            0
        }
    }
}

/// The usage summary that the rows add up to.
pub open spec fn usage_of(u: DockerUsage, rows: Seq<DockerRow>) -> bool {
    let rs = recognized(rows);
    &&& u.entries@.len() == rs.len()
    &&& forall|i: int| 0 <= i < rs.len() ==> entry_for(#[trigger] u.entries@[i], rs[i].0, rs[i].1)
    &&& u.total_bytes == total_size(rs)
    &&& u.reclaimable_bytes == offered_size(rs)
}

/// Whether the totals of the rows fit in 64 bits.
pub open spec fn usage_fits(rows: Seq<DockerRow>) -> bool {
    total_size(recognized(rows)) <= u64::MAX && offered_size(recognized(rows)) <= u64::MAX
}

proof fn lemma_totals_prefix(rs: Seq<(DockerKind, DockerRow)>, n: int)
    requires
        0 <= n <= rs.len(),
    ensures
        total_size(rs.take(n)) <= total_size(rs),
        offered_size(rs.take(n)) <= offered_size(rs),
    decreases rs.len() - n,
{
    reveal(total_size);
    reveal(offered_size);
    if n < rs.len() {
        lemma_totals_prefix(rs, n + 1);
        let a = rs.take(n + 1);
        assert(a.drop_last() == rs.take(n));
        assert(total_size(a) == total_size(a.drop_last()) + size_of_text(a.last().1.size@));
        assert(offered_size(a) >= offered_size(a.drop_last()));
    } else {
        assert(rs.take(n) == rs);
    }
}

/// How recognizing one more row changes the running result, and that the running totals stay
/// within those of all rows.
proof fn lemma_recognized_step(rows: Seq<DockerRow>, i: int)
    requires
        0 <= i < rows.len(),
    ensures
        recognized(rows.take(i + 1)) == match kind_named(rows[i].kind@) {
            Some(k) => recognized(rows.take(i)).push((k, rows[i])),
            None => recognized(rows.take(i)),
        },
        total_size(recognized(rows.take(i + 1))) == total_size(recognized(rows.take(i))) + match kind_named(rows[i].kind@) {
            Some(k) => size_of_text(rows[i].size@),
            None => 0,
        },
        offered_size(recognized(rows.take(i + 1))) == offered_size(recognized(rows.take(i))) + match kind_named(rows[i].kind@) {
            Some(k) => if k != DockerKind::Volumes { reclaimable_of_text(rows[i].reclaimable@) } else { 0 },
            None => 0,
        },
        total_size(recognized(rows.take(i + 1))) <= total_size(recognized(rows)),
        offered_size(recognized(rows.take(i + 1))) <= offered_size(recognized(rows)),
{
    reveal(recognized);
    reveal(total_size);
    reveal(offered_size);
    assert(rows.take(i + 1).drop_last() == rows.take(i));
    assert(rows.take(i + 1).last() == rows[i]);
    let rs = recognized(rows.take(i + 1));
    if let Some(k) = kind_named(rows[i].kind@) {
        assert(rs.drop_last() == recognized(rows.take(i)));
    }
    lemma_recognized_prefix(rows, i + 1);
    lemma_totals_prefix(recognized(rows), recognized(rows.take(i + 1)).len() as int);
}

proof fn lemma_recognized_none(rows: Seq<DockerRow>)
    ensures
        recognized(rows.take(0)).len() == 0,
        total_size(recognized(rows.take(0))) == 0,
        offered_size(recognized(rows.take(0))) == 0,
{
    reveal(recognized);
    reveal(total_size);
    reveal(offered_size);
    assert(rows.take(0).len() == 0);
}

/// Reads the `Reclaimable` column.
pub fn parse_reclaimable(text: &str) -> (r: u64)
    ensures
        r == reclaimable_of_text(text@),
{
    let v = chars_of(text);
    let pieces = split_chars(v.as_slice(), '(');
    proof {
        crate::text::lemma_split_nonempty(v@, '(');
        assert(views_of(pieces@)[0] == pieces@[0]@);
    }
    let first = crate::text::string_from(pieces[0].as_slice());
    parse_size(first.as_str())
}

fn entry_of(kind: DockerKind, row: &DockerRow) -> (e: DockerEntry)
    ensures
        entry_for(e, kind, *row),
{
    DockerEntry {
        kind,
        label: owned(kind.label()),
        note: owned(kind.note()),
        total_count: parse_count(row.total_count.as_str()),
        active_count: parse_count(row.active.as_str()),
        size_bytes: parse_size(row.size.as_str()),
        reclaimable_bytes: parse_reclaimable(row.reclaimable.as_str()),
        reclaimable_by_prune: kind.reclaimable_by_prune(),
    }
}

/// Builds the usage summary from the rows `docker system df` printed. Rows of a kind Prune
/// does not know are skipped; the headline reclaimable figure leaves volumes out.
#[verifier::rlimit(40)]
pub fn usage_from_rows(rows: &Vec<DockerRow>) -> (u: DockerUsage)
    requires
        usage_fits(rows@),
    ensures
        usage_of(u, rows@),
{
    let mut entries: Vec<DockerEntry> = Vec::new();
    let mut total: u64 = 0;
    let mut offered: u64 = 0;
    let mut i: usize = 0;
    proof {
        lemma_recognized_none(rows@);
    }
    while i < rows.len()
        invariant
            i <= rows@.len(),
            usage_fits(rows@),
            ({
                let rs = recognized(rows@.take(i as int));
                &&& entries@.len() == rs.len()
                &&& forall|j: int|
                    0 <= j < rs.len() ==> entry_for(#[trigger] entries@[j], rs[j].0, rs[j].1)
                &&& total == total_size(rs)
                &&& offered == offered_size(rs)
            }),
        decreases rows@.len() - i,
    {
        let row = &rows[i];
        proof {
            lemma_recognized_step(rows@, i as int);
        }
        match kind_of(row.kind.as_str()) {
            Some(kind) => {
                let e = entry_of(kind, row);
                total = total + e.size_bytes;
                if e.reclaimable_by_prune {
                    offered = offered + e.reclaimable_bytes;
                }
                entries.push(e);
            },
            None => {},
        }
        i = i + 1;
    }
    assert(rows@.take(rows@.len() as int) == rows@);
    DockerUsage { entries, total_bytes: total, reclaimable_bytes: offered }
}

/// The rows recognized among a prefix are a prefix of those recognized among all rows.
proof fn lemma_recognized_prefix(rows: Seq<DockerRow>, n: int)
    requires
        0 <= n <= rows.len(),
    ensures
        recognized(rows.take(n)) == recognized(rows).take(recognized(rows.take(n)).len() as int),
        recognized(rows.take(n)).len() <= recognized(rows).len(),
    decreases rows.len() - n,
{
    reveal(recognized);
    if n < rows.len() {
        lemma_recognized_prefix(rows, n + 1);
        assert(rows.take(n + 1).drop_last() == rows.take(n));
    } else {
        assert(rows.take(n) == rows);
    }
}

/// Whether the totals of the rows fit in 64 bits, so that `usage_from_rows` can add them up.
#[verifier::rlimit(40)]
pub fn usage_fits_rows(rows: &Vec<DockerRow>) -> (r: bool)
    ensures
        r == usage_fits(rows@),
{
    let mut total: u128 = 0;
    let mut offered: u128 = 0;
    let mut i: usize = 0;
    proof {
        lemma_recognized_none(rows@);
    }
    while i < rows.len()
        invariant
            i <= rows@.len(),
            total == if total_size(recognized(rows@.take(i as int))) > u64::MAX {
                u64::MAX as nat + 1
            } else {
                total_size(recognized(rows@.take(i as int)))
            },
            offered == if offered_size(recognized(rows@.take(i as int))) > u64::MAX {
                u64::MAX as nat + 1
            } else {
                offered_size(recognized(rows@.take(i as int)))
            },
        decreases rows@.len() - i,
    {
        let row = &rows[i];
        proof {
            lemma_recognized_step(rows@, i as int);
        }
        match kind_of(row.kind.as_str()) {
            Some(kind) => {
                let s = parse_size(row.size.as_str()) as u128;
                total = total + s;
                if total > u64::MAX as u128 {
                    total = u64::MAX as u128 + 1;
                }
                if kind.reclaimable_by_prune() {
                    let c = parse_reclaimable(row.reclaimable.as_str()) as u128;
                    offered = offered + c;
                    if offered > u64::MAX as u128 {
                        offered = u64::MAX as u128 + 1;
                    }
                }
            },
            None => {},
        }
        i = i + 1;
    }
    assert(rows@.take(rows@.len() as int) == rows@);
    total <= u64::MAX as u128 && offered <= u64::MAX as u128
}

/// The lines of `stdout` that hold something, trimmed: what is worth handing to a JSON reader.
pub open spec fn filled_lines(lines: Seq<Seq<char>>) -> Seq<Seq<char>>
    decreases lines.len(),
{
    if lines.len() == 0 {
        Seq::empty()
    } else {
        let prev = filled_lines(lines.drop_last());
        let t = trim_seq(lines.last());
        if t.len() > 0 {
            prev.push(t)
        } else {
            prev
        }
    }
}

/// The non-empty lines of what `docker system df` printed, trimmed.
pub fn usage_lines(stdout: &str) -> (r: Vec<String>)
    ensures
        crate::text::string_views(r@) == filled_lines(split_on(stdout@, '\n')),
{
    let v = chars_of(stdout);
    let lines = split_chars(v.as_slice(), '\n');
    let mut out: Vec<String> = Vec::new();
    let mut i: usize = 0;
    while i < lines.len()
        invariant
            i <= lines@.len(),
            views_of(lines@) == split_on(v@, '\n'),
            crate::text::string_views(out@) == filled_lines(views_of(lines@).take(i as int)),
        decreases lines@.len() - i,
    {
        let (a, b) = crate::text::trim_bounds(lines[i].as_slice());
        proof {
            assert(views_of(lines@).take(i + 1).drop_last() == views_of(lines@).take(i as int));
            assert(views_of(lines@).take(i + 1).last() == lines@[i as int]@);
        }
        if a < b {
            let t = string_of_range(lines[i].as_slice(), a, b);
            out.push(t);
        }
        i = i + 1;
    }
    assert(views_of(lines@).take(lines@.len() as int) == views_of(lines@));
    out
}

/// The last line that holds `pat`, counting from the end, among the first `n` lines.
pub open spec fn last_line_with(lines: Seq<Seq<char>>, pat: Seq<char>, n: int) -> Option<int>
    decreases n,
{
    if n <= 0 {
        None
    } else if first_occurrence(lines[n - 1], pat) is Some {
        Some(n - 1)
    } else {
        last_line_with(lines, pat, n - 1)
    }
}

pub open spec fn footer_marker() -> Seq<char> {
    "Total reclaimed space:"@
}

/// What `reclaimed_total` reads: the size after the marker on the last line that has one, or 0.
pub open spec fn reclaimed_of_text(stdout: Seq<char>) -> nat {
    let lines = split_on(stdout, '\n');
    match last_line_with(lines, footer_marker(), lines.len() as int) {
        None => 0,
        Some(i) => {
            let p = first_occurrence(lines[i], footer_marker())->0;
            size_of_text(lines[i].subrange(p + footer_marker().len(), lines[i].len() as int))
        },
    }
}

/// The last of `lines` that holds `pat`, with where `pat` first occurs in it.
fn last_marked_line(lines: &Vec<Vec<char>>, pat: &[char]) -> (r: Option<(usize, usize)>)
    ensures
        r is None ==> last_line_with(views_of(lines@), pat@, lines@.len() as int) is None,
        r matches Some((i, p)) ==> {
            &&& last_line_with(views_of(lines@), pat@, lines@.len() as int) == Some(i as int)
            &&& i < lines@.len()
            &&& first_occurrence(lines@[i as int]@, pat@) == Some(p as int)
            &&& p + pat@.len() <= lines@[i as int]@.len()
        },
{
    let ghost ls = views_of(lines@);
    let mut n: usize = lines.len();
    while n > 0
        invariant
            n <= lines@.len(),
            ls == views_of(lines@),
            last_line_with(ls, pat@, lines@.len() as int) == last_line_with(ls, pat@, n as int),
        decreases n,
    {
        let line = &lines[n - 1];
        assert(ls[n - 1] == line@);
        match find_pattern(line.as_slice(), pat) {
            Some(p) => {
                assert(crate::text::occurs_at(line@, pat@, p as int));
                return Some((n - 1, p));
            },
            None => {},
        }
        n = n - 1;
    }
    None
}

/// Pulls the figure out of Docker's `Total reclaimed space: 9.1GB` footer.
#[verifier::spinoff_prover]
#[verifier::rlimit(40)]
pub fn reclaimed_total(stdout: &str) -> (r: u64)
    ensures
        r == reclaimed_of_text(stdout@),
{
    let v = chars_of(stdout);
    let lines = split_chars(v.as_slice(), '\n');
    let marker = chars_of("Total reclaimed space:");
    match last_marked_line(&lines, marker.as_slice()) {
        None => 0,
        Some((i, p)) => {
            let line = &lines[i];
            assert(views_of(lines@)[i as int] == line@);
            assert(line@.len() == line.len());
            assert(marker@.len() == marker.len());
            let rest = string_of_range(line.as_slice(), p + marker.len(), line.len());
            parse_size(rest.as_str())
        },
    }
}

/// The only two things Prune will ask Docker to remove.
#[derive(Debug, Clone, Copy, PartialEq, Eq, Structural)]
pub enum DockerAction {
    /// `docker system prune --force`: stopped containers, unused networks, dangling images and
    /// build cache. Not `-a`, and never `--volumes`.
    SystemPrune,
    /// `docker builder prune --force`: build cache only.
    BuilderPrune,
}

pub open spec fn action_words(a: DockerAction) -> Seq<Seq<char>> {
    match a {
        DockerAction::SystemPrune => seq!["system"@, "prune"@, "--force"@],
        DockerAction::BuilderPrune => seq!["builder"@, "prune"@, "--force"@],
    }
}

pub open spec fn action_label(a: DockerAction) -> Seq<char> {
    match a {
        DockerAction::SystemPrune => "Remove unused data"@,
        DockerAction::BuilderPrune => "Remove build cache"@,
    }
}

pub open spec fn action_description(a: DockerAction) -> Seq<char> {
    match a {
        DockerAction::SystemPrune => "Stopped containers, unused networks, dangling images and build cache. Images still in use and all volumes are kept."@,
        DockerAction::BuilderPrune => "Layers cached from past builds. Images and containers are untouched."@,
    }
}

/// The command line as it is shown before it runs.
pub open spec fn action_display(a: DockerAction) -> Seq<char> {
    "docker "@ + join_with(action_words(a), " "@)
}

impl DockerAction {
    /// The arguments to `docker`, exactly, so the UI can show them before running them.
    pub fn command(self) -> (r: Vec<&'static str>)
        ensures
            str_views(r@) == action_words(self),
    {
        let mut v: Vec<&'static str> = Vec::new();
        match self {
            DockerAction::SystemPrune => {
                v.push("system");
            },
            DockerAction::BuilderPrune => {
                v.push("builder");
            },
        }
        v.push("prune");
        v.push("--force");
        assert(str_views(v@) =~= action_words(self));
        v
    }

    pub fn display(self) -> (r: String)
        ensures
            r@ == action_display(self),
    {
        let words = self.command();
        let joined = join_strs(words.as_slice(), " ");
        concat("docker ", joined.as_str())
    }

    pub fn label(self) -> (r: &'static str)
        ensures
            r@ == action_label(self),
    {
        match self {
            DockerAction::SystemPrune => "Remove unused data",
            DockerAction::BuilderPrune => "Remove build cache",
        }
    }

    pub fn description(self) -> (r: &'static str)
        ensures
            r@ == action_description(self),
    {
        match self {
            DockerAction::SystemPrune => "Stopped containers, unused networks, dangling images and build cache. Images still in use and all volumes are kept.",
            DockerAction::BuilderPrune => "Layers cached from past builds. Images and containers are untouched.",
        }
    }
}

/// Whether Docker can be asked anything at all.
#[derive(Debug, Clone, PartialEq, Eq)]
pub enum DockerState {
    /// No `docker` on the path.
    NotInstalled,
    /// Installed, but the daemon did not answer.
    NotRunning { message: String },
    Ready { usage: DockerUsage },
}

#[derive(Debug, Clone)]
pub struct DockerPruneResult {
    pub action: DockerAction,
    pub command: String,
    pub reclaimed_bytes: u64,
    /// What Docker printed, shown verbatim because Prune cannot verify it.
    pub output: String,
}

/// How running the Docker CLI went.
#[derive(Debug, Clone)]
pub enum RunOutcome {
    /// There is no `docker` to run; the message is what the system said.
    NotFound { message: String },
    /// It could not be started for another reason.
    Failed { message: String },
    /// It ran and exited.
    Exited { success: bool, stdout: Vec<u8>, stderr: Vec<u8> },
}

/// The text of what a command printed, with invalid UTF-8 replaced.
pub uninterp spec fn lossy_text(bytes: Seq<u8>) -> Seq<char>;

/// `String::from_utf8_lossy`: the bytes read as UTF-8, each invalid sequence replaced by
/// U+FFFD. ASCII bytes are valid UTF-8 and read as the same characters; beyond that, what the
/// text is, byte by byte, is left to the name `lossy_text`.
#[verifier::external_body]
pub(crate) fn text_of_bytes(bytes: &Vec<u8>) -> (s: String)
    ensures
        s@ == lossy_text(bytes@),
        (forall|i: int| 0 <= i < bytes@.len() ==> bytes@[i] < 128) ==> s@ == bytes@.map_values(|b: u8| b as char),
{
    String::from_utf8_lossy(bytes.as_slice()).into_owned()
}

/// What `status` reports for a stopped daemon.
pub open spec fn not_running_message(stderr: Seq<u8>) -> Seq<char> {
    let m = trim_seq(lossy_text(stderr));
    if m.len() == 0 {
        "Docker did not answer."@
    } else {
        m
    }
}

/// What Docker's answer to `docker system df` means. `rows` are the lines of its output that
/// read as rows (see `usage_lines`); they are only looked at when it succeeded.
///
/// Never fails: "no Docker" and "Docker is not running" are ordinary answers for a machine
/// that does not use it, not errors to show the user.
pub fn status_of(outcome: &RunOutcome, rows: &Vec<DockerRow>) -> (r: DockerState)
    requires
        outcome matches RunOutcome::Exited { success: true, .. } ==> usage_fits(rows@),
    ensures
        outcome is NotFound ==> r is NotInstalled,
        outcome matches RunOutcome::Failed { message } ==> r matches DockerState::NotRunning {
            message: m,
        } && m@ == message@,
        outcome matches RunOutcome::Exited { success: false, stderr, .. } ==> r matches DockerState::NotRunning { message: m } && m@ == not_running_message(stderr@),
        outcome matches RunOutcome::Exited { success: true, .. } ==> r matches DockerState::Ready {
            usage,
        } && usage_of(usage, rows@),
{
    match outcome {
        RunOutcome::NotFound { .. } => DockerState::NotInstalled,
        RunOutcome::Failed { message } => DockerState::NotRunning { message: message.clone() },
        RunOutcome::Exited { success, stderr, .. } => {
            if !*success {
                let text = text_of_bytes(stderr);
                let t = trimmed_chars(text.as_str());
                let message = if t.len() == 0 {
                    owned("Docker did not answer.")
                } else {
                    crate::text::string_from(t.as_slice())
                };
                DockerState::NotRunning { message }
            } else {
                DockerState::Ready { usage: usage_from_rows(rows) }
            }
        },
    }
}

/// The arguments `status` runs `docker` with.
pub fn status_command() -> (r: Vec<&'static str>)
    ensures
        str_views(r@) == seq!["system"@, "df"@, "--format"@, "{{json .}}"@],
{
    let mut v: Vec<&'static str> = Vec::new();
    v.push("system");
    v.push("df");
    v.push("--format");
    v.push("{{json .}}");
    assert(str_views(v@) =~= seq!["system"@, "df"@, "--format"@, "{{json .}}"@]);
    v
}

/// What a prune reports when Docker exits with an error.
pub open spec fn prune_failure(a: DockerAction, stderr: Seq<u8>) -> Seq<char> {
    let m = trim_seq(lossy_text(stderr));
    if m.len() == 0 {
        action_display(a) + " failed"@
    } else {
        m
    }
}

/// What Docker's answer to a prune means: what it reclaimed, or why it did not.
pub fn prune_outcome(action: DockerAction, outcome: &RunOutcome) -> (r: Result<
    DockerPruneResult,
    PruneError,
>)
    ensures
        outcome matches RunOutcome::NotFound { message } ==> r matches Err(PruneError::Other(m))
            && m@ == "could not run Docker: "@ + message@,
        outcome matches RunOutcome::Failed { message } ==> r matches Err(PruneError::Other(m))
            && m@ == "could not run Docker: "@ + message@,
        outcome matches RunOutcome::Exited { success: false, stderr, .. } ==> r matches Err(
            PruneError::Other(m),
        ) && m@ == prune_failure(action, stderr@),
        outcome matches RunOutcome::Exited { success: true, stdout, .. } ==> r matches Ok(res) && {
            let out = trim_seq(lossy_text(stdout@));
            &&& res.action == action
            &&& res.command@ == action_display(action)
            &&& res.output@ == out
            &&& res.reclaimed_bytes == reclaimed_of_text(out)
        },
{
    match outcome {
        RunOutcome::NotFound { message } | RunOutcome::Failed { message } => {
            Err(PruneError::Other(concat("could not run Docker: ", message.as_str())))
        },
        RunOutcome::Exited { success, stdout, stderr } => {
            let out_text = text_of_bytes(stdout);
            let out_t = trimmed_chars(out_text.as_str());
            let out = crate::text::string_from(out_t.as_slice());
            if !*success {
                let err_text = text_of_bytes(stderr);
                let err_t = trimmed_chars(err_text.as_str());
                let message = if err_t.len() == 0 {
                    let shown = action.display();
                    concat(shown.as_str(), " failed")
                } else {
                    crate::text::string_from(err_t.as_slice())
                };
                return Err(PruneError::Other(message));
            }
            let reclaimed = reclaimed_total(out.as_str());
            Ok(DockerPruneResult { action, command: action.display(), reclaimed_bytes: reclaimed, output: out })
        },
    }
}

} // verus!
