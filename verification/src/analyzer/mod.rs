//! Disk analysis: one walk over a directory tree gives
//!
//! * a directory tree with aggregated sizes (every directory, no files),
//! * the largest files,
//! * per-extension statistics.
//!
//! Read-only. Removal of large files goes through the normal cleanup pipeline: the analysis
//! hands them out as cleanup targets, so planning and execution apply unchanged.
//!
//! The walk itself belongs to the caller: it reports each entry to a [`DiskWalk`], which keeps
//! every count, and turns the walk into a [`DiskAnalysis`] at the end.

pub mod tree;

use vstd::prelude::*;

use crate::models::{make_id_spec, Category, CleanupTarget, RiskLevel, ScanIssue, ScanResult, TargetKind};
use vstd::utf8::encode_utf8;
use crate::paths::{extension, extension_of, file_name, file_name_spec, parse};
use crate::platform::windows::rules::{lemma_utf8_len_grows, utf8_len};
use crate::safety::{verdict, PathFacts, SafetyPolicy};
use crate::text::{ascii_lower, chars_of, lower_seq, seq_less, str_less, string_from};
use crate::text::{lemma_less_asymmetric, lemma_less_irreflexive, lemma_less_total, lemma_less_transitive};
use self::tree::{under, Tree};

verus! {

/// Provider id used for large-file targets so they flow through the cleanup pipeline.
pub const LARGE_FILES_PROVIDER: &'static str = "large_files";

/// How many of the largest files are kept.
pub const LARGE_FILE_CAPACITY: usize = 2000;

/// How many extensions the summary lists.
pub const TOP_EXTENSIONS: usize = 40;

/// A progress report goes out after this many files.
pub const PROGRESS_EVERY: u64 = 2048;

/// The cancel flag is looked at before every entry that comes after this many files.
pub const CANCEL_EVERY: u64 = 64;

/// Extensions longer than this many bytes are counted as having none.
pub const MAX_EXTENSION_BYTES: u64 = 12;

/// One directory in the analyzed tree.
#[derive(Debug, Clone)]
pub struct DiskNode {
    pub name: String,
    pub path: String,
    pub size_bytes: u64,
    pub file_count: u64,
    pub dir_count: u64,
    /// Number of direct child directories.
    pub child_dirs: usize,
    /// Bytes held by files directly inside this directory (not in subdirectories).
    pub own_file_bytes: u64,
}

/// A node plus its direct children, sorted by size descending.
#[derive(Debug, Clone)]
pub struct DiskNodeView {
    pub node: DiskNode,
    pub children: Vec<DiskNode>,
    /// Ancestors from the scan root down to (excluding) this node.
    pub breadcrumbs: Vec<DiskNode>,
}

#[derive(Debug, Clone)]
pub struct LargeFile {
    /// Id of the cleanup target this file becomes.
    pub target_id: String,
    pub path: String,
    pub name: String,
    pub size_bytes: u64,
    /// Last modification, in milliseconds since the Unix epoch, when known.
    pub modified_at: Option<i64>,
    pub extension: String,
    pub risk: RiskLevel,
}

#[derive(Debug, Clone)]
pub struct ExtensionStat {
    pub extension: String,
    pub bytes: u64,
    pub count: u64,
}

#[derive(Debug, Clone, Copy, PartialEq, Eq, Structural)]
pub enum DiskScanStatus {
    Running,
    Completed,
    Cancelled,
}

#[derive(Debug, Clone)]
pub struct DiskProgress {
    pub scan_id: String,
    pub files: u64,
    pub bytes: u64,
    pub dirs: u64,
    pub current_path: Option<String>,
}

#[derive(Debug, Clone)]
pub struct DiskSummary {
    pub scan_id: String,
    pub root: String,
    pub status: DiskScanStatus,
    pub total_bytes: u64,
    pub file_count: u64,
    pub dir_count: u64,
    pub duration_ms: u64,
    pub large_file_count: usize,
    pub issue_count: usize,
    pub top_extensions: Vec<ExtensionStat>,
    /// When the walk started, in milliseconds since the Unix epoch.
    pub started_at: i64,
}

// ----- ordering: biggest first, then by name -----

/// `a` comes before `b`: it is bigger, or as big with a smaller name.
pub open spec fn comes_before(a: (u64, Seq<char>), b: (u64, Seq<char>)) -> bool {
    a.0 > b.0 || (a.0 == b.0 && seq_less(a.1, b.1))
}

pub open spec fn key_views(keys: Seq<(u64, String)>) -> Seq<(u64, Seq<char>)> {
    keys.map_values(|k: (u64, String)| (k.0, k.1@))
}

/// `order` lists positions of `keys` so that no later entry comes before an earlier one.
pub open spec fn sorted_by_size(keys: Seq<(u64, Seq<char>)>, order: Seq<usize>) -> bool {
    forall|i: int, j: int|
        0 <= i < j < order.len() ==> !comes_before(
            #[trigger] keys[order[j] as int],
            #[trigger] keys[order[i] as int],
        )
}

/// Positions with equal keys keep their order.
pub open spec fn stable_for(keys: Seq<(u64, Seq<char>)>, order: Seq<usize>) -> bool {
    forall|i: int, j: int|
        0 <= i < j < order.len() && keys[order[i] as int] == keys[order[j] as int] ==> (#[trigger] order[i]) < (#[trigger] order[j])
}

/// `order` lists every position below `n` exactly once.
pub open spec fn is_ordering(order: Seq<usize>, n: int) -> bool {
    &&& order.len() == n
    &&& forall|i: int| 0 <= i < order.len() ==> #[trigger] order[i] < n
    &&& forall|i: int, j: int| 0 <= i < j < order.len() ==> order[i] != order[j]
}

proof fn lemma_before_transitive(a: (u64, Seq<char>), b: (u64, Seq<char>), c: (u64, Seq<char>))
    requires
        comes_before(a, b),
        comes_before(b, c),
    ensures
        comes_before(a, c),
{
    if a.0 == b.0 && b.0 == c.0 {
        lemma_less_transitive(a.1, b.1, c.1);
    }
}

proof fn lemma_before_asymmetric(a: (u64, Seq<char>), b: (u64, Seq<char>))
    requires
        comes_before(a, b),
    ensures
        !comes_before(b, a),
{
    if a.0 == b.0 {
        lemma_less_asymmetric(a.1, b.1);
    }
}

fn key_before(a: &(u64, String), b: &(u64, String)) -> (r: bool)
    ensures
        r == comes_before((a.0, a.1@), (b.0, b.1@)),
{
    a.0 > b.0 || (a.0 == b.0 && str_less(a.1.as_str(), b.1.as_str()))
}

/// The positions of `keys`, biggest first and, among equal sizes, by name; equal keys keep
/// their order.
pub fn largest_first(keys: &Vec<(u64, String)>) -> (order: Vec<usize>)
    ensures
        is_ordering(order@, keys@.len() as int),
        sorted_by_size(key_views(keys@), order@),
        stable_for(key_views(keys@), order@),
{
    let ghost kv = key_views(keys@);
    let mut order: Vec<usize> = Vec::new();
    let mut i: usize = 0;
    while i < keys.len()
        invariant
            i <= keys@.len(),
            kv == key_views(keys@),
            order@.len() == i,
            forall|a: int| 0 <= a < order@.len() ==> #[trigger] order@[a] < i,
            forall|a: int, b: int| 0 <= a < b < order@.len() ==> order@[a] != order@[b],
            sorted_by_size(kv, order@),
            stable_for(kv, order@),
        decreases keys@.len() - i,
    {
        let mut p: usize = 0;
        while p < order.len() && !key_before(&keys[i], &keys[order[p]])
            invariant
                i < keys@.len(),
                kv == key_views(keys@),
                p <= order@.len(),
                forall|a: int| 0 <= a < order@.len() ==> #[trigger] order@[a] < i,
                forall|q: int| 0 <= q < p ==> !comes_before(kv[i as int], #[trigger] kv[order@[q] as int]),
            decreases order@.len() - p,
        {
            p = p + 1;
        }
        let ghost before = order@;
        order.insert(p, i);
        proof {
            assert(order@ == before.insert(p as int, i));
            assert forall|a: int, b: int| 0 <= a < b < order@.len() implies !comes_before(
                #[trigger] kv[order@[b] as int],
                #[trigger] kv[order@[a] as int],
            ) by {
                if b < p {
                    assert(order@[a] == before[a] && order@[b] == before[b]);
                } else if b == p {
                    assert(order@[a] == before[a]);
                } else if a == p {
                    assert(order@[b] == before[b - 1]);
                    assert(p < before.len());
                    assert(comes_before(kv[i as int], kv[before[p as int] as int]));
                    if comes_before(kv[before[b - 1] as int], kv[i as int]) {
                        if b - 1 == p {
                            lemma_before_asymmetric(kv[i as int], kv[before[p as int] as int]);
                        } else {
                            lemma_before_transitive(kv[before[b - 1] as int], kv[i as int], kv[before[p as int] as int]);
                        }
                    }
                } else if a < p {
                    assert(order@[a] == before[a] && order@[b] == before[b - 1]);
                } else {
                    assert(order@[a] == before[a - 1] && order@[b] == before[b - 1]);
                }
            }
            assert forall|a: int, b: int| 0 <= a < b < order@.len() implies order@[a] != order@[b] by {
                if b < p {
                    assert(order@[a] == before[a] && order@[b] == before[b]);
                } else if b == p {
                    assert(order@[a] == before[a]);
                } else if a == p {
                    assert(order@[b] == before[b - 1]);
                } else if a < p {
                    assert(order@[a] == before[a] && order@[b] == before[b - 1]);
                } else {
                    assert(order@[a] == before[a - 1] && order@[b] == before[b - 1]);
                }
            }
            assert forall|a: int, b: int| 0 <= a < b < order@.len() && kv[order@[a] as int] == kv[order@[b] as int] implies (#[trigger] order@[a]) < (#[trigger] order@[b]) by {
                if b < p {
                    assert(order@[a] == before[a] && order@[b] == before[b]);
                } else if b == p {
                    assert(order@[a] == before[a]);
                } else if a == p {
                    assert(order@[b] == before[b - 1]);
                    assert(comes_before(kv[i as int], kv[before[p as int] as int]));
                    if b - 1 > p {
                        assert(!comes_before(kv[before[b - 1] as int], kv[before[p as int] as int]));
                    }
                } else if a < p {
                    assert(order@[a] == before[a] && order@[b] == before[b - 1]);
                } else {
                    assert(order@[a] == before[a - 1] && order@[b] == before[b - 1]);
                }
            }
            assert forall|a: int| 0 <= a < order@.len() implies #[trigger] order@[a] < i + 1 by {
                if a < p {
                    assert(order@[a] == before[a]);
                } else if a > p {
                    assert(order@[a] == before[a - 1]);
                }
            }
        }
        i = i + 1;
    }
    order
}

// ----- extensions -----

/// What an extension counts as: lower-cased, or `(none)` when there is none or it is longer
/// than twelve bytes.
pub open spec fn extension_key(path: Seq<char>) -> Seq<char> {
    match file_name_spec(path) {
        Some(name) => match extension_of(name) {
            Some(e) => if utf8_len(lower_seq(e)) <= MAX_EXTENSION_BYTES {
                lower_seq(e)
            } else {
                "(none)"@
            },
            None => "(none)"@,
        },
        None => "(none)"@,
    }
}

/// The lower-cased extension a large file shows, or nothing.
pub open spec fn shown_extension(path: Seq<char>) -> Seq<char> {
    match file_name_spec(path) {
        Some(name) => match extension_of(name) {
            Some(e) => lower_seq(e),
            None => Seq::empty(),
        },
        None => Seq::empty(),
    }
}

/// Whether `s` takes at most `limit` bytes in UTF-8.
pub fn fits_in_bytes(s: &[char], limit: u64) -> (r: bool)
    ensures
        r == (utf8_len(s@) <= limit),
{
    let mut total: u64 = 0;
    let mut i: usize = 0;
    while i < s.len()
        invariant
            i <= s@.len(),
            total == utf8_len(s@.take(i as int)),
            total <= limit,
        decreases s@.len() - i,
    {
        let c = s[i] as u32;
        let w: u64 = if c < 0x80 {
            1
        } else if c < 0x800 {
            2
        } else if c < 0x10000 {
            3
        } else {
            4
        };
        proof {
            assert(s@.take(i + 1).drop_last() == s@.take(i as int));
            assert(s@.take(i + 1).last() == s@[i as int]);
        }
        if w > limit - total {
            proof {
                lemma_utf8_len_grows(s@, i + 1);
            }
            return false;
        }
        total = total + w;
        i = i + 1;
    }
    assert(s@.take(s@.len() as int) == s@);
    true
}

/// The lower-cased extension of the file at `path`, if it has one.
fn lower_extension(path: &str) -> (r: Option<Vec<char>>)
    ensures
        match r {
            Some(e) => file_name_spec(path@) matches Some(name) && extension_of(name) matches Some(x) && e@ == lower_seq(x),
            None => !(file_name_spec(path@) matches Some(name) && extension_of(name) is Some),
        },
{
    match file_name(path) {
        Some(name) => match extension(name.as_str()) {
            Some(e) => {
                let cs = chars_of(e.as_str());
                Some(ascii_lower(cs.as_slice()))
            },
            None => None,
        },
        None => None,
    }
}

/// The key a file's bytes are counted under in the extension statistics.
pub fn extension_key_of(path: &str) -> (r: String)
    ensures
        r@ == extension_key(path@),
{
    let none = string_from(&['(', 'n', 'o', 'n', 'e', ')']);
    proof {
        reveal_strlit("(none)");
        assert(none@ =~= "(none)"@);
    }
    match lower_extension(path) {
        Some(e) => if fits_in_bytes(e.as_slice(), MAX_EXTENSION_BYTES) {
            string_from(e.as_slice())
        } else {
            none
        },
        None => none,
    }
}

/// The extension a large file shows: lower-cased, or empty.
pub fn shown_extension_of(path: &str) -> (r: String)
    ensures
        r@ == shown_extension(path@),
{
    match lower_extension(path) {
        Some(e) => string_from(e.as_slice()),
        None => String::new(),
    }
}



// ----- sums of candidate sizes -----

/// Bytes of all the candidates.
pub open spec fn cand_sum(cs: Seq<Candidate>) -> nat
    decreases cs.len(),
{
    if cs.len() == 0 {
        0
    } else {
        cand_sum(cs.drop_last()) + cs.last().size as nat
    }
}

/// Bytes of the candidates at the positions `order` lists.
pub open spec fn sum_at(cs: Seq<Candidate>, order: Seq<usize>) -> nat
    decreases order.len(),
{
    if order.len() == 0 {
        0
    } else {
        sum_at(cs, order.drop_last()) + cs[order.last() as int].size as nat
    }
}

proof fn lemma_cand_sum_update(cs: Seq<Candidate>, m: int, x: Candidate)
    requires
        0 <= m < cs.len(),
    ensures
        cand_sum(cs.update(m, x)) + cs[m].size == cand_sum(cs) + x.size,
    decreases cs.len(),
{
    if m == cs.len() - 1 {
        assert(cs.update(m, x).drop_last() =~= cs.drop_last());
    } else {
        assert(cs.update(m, x).drop_last() =~= cs.drop_last().update(m, x));
        lemma_cand_sum_update(cs.drop_last(), m, x);
    }
}

proof fn lemma_sum_at_remove(cs: Seq<Candidate>, order: Seq<usize>, p: int)
    requires
        0 <= p < order.len(),
    ensures
        sum_at(cs, order) == sum_at(cs, order.remove(p)) + cs[order[p] as int].size,
    decreases order.len(),
{
    if p == order.len() - 1 {
        assert(order.remove(p) =~= order.drop_last());
    } else {
        assert(order.remove(p).drop_last() =~= order.drop_last().remove(p));
        assert(order.remove(p).last() == order.last());
        lemma_sum_at_remove(cs, order.drop_last(), p);
    }
}

proof fn lemma_sum_at_shorter(cs: Seq<Candidate>, order: Seq<usize>)
    requires
        cs.len() > 0,
        forall|k: int| 0 <= k < order.len() ==> #[trigger] order[k] < cs.len() - 1,
    ensures
        sum_at(cs, order) == sum_at(cs.drop_last(), order),
    decreases order.len(),
{
    if order.len() > 0 {
        lemma_sum_at_shorter(cs, order.drop_last());
        assert(order[order.len() - 1] < cs.len() - 1);
    }
}

/// Distinct positions never add up to more than all the candidates.
proof fn lemma_sum_at_bounded(cs: Seq<Candidate>, order: Seq<usize>)
    requires
        forall|k: int| 0 <= k < order.len() ==> #[trigger] order[k] < cs.len(),
        forall|a: int, b: int| 0 <= a < b < order.len() ==> order[a] != order[b],
    ensures
        sum_at(cs, order) <= cand_sum(cs),
    decreases cs.len(),
{
    if cs.len() == 0 {
        if order.len() > 0 {
            assert(order[0] < cs.len());
        }
    } else {
        let last = cs.len() - 1;
        if exists|p: int| 0 <= p < order.len() && order[p] as int == last {
            let p = choose|p: int| 0 <= p < order.len() && order[p] as int == last;
            lemma_sum_at_remove(cs, order, p);
            let rest = order.remove(p);
            assert forall|k: int| 0 <= k < rest.len() implies #[trigger] rest[k] < cs.len() - 1 by {
                if k < p {
                    assert(rest[k] == order[k]);
                } else {
                    assert(rest[k] == order[k + 1]);
                }
            }
            assert forall|a: int, b: int| 0 <= a < b < rest.len() implies rest[a] != rest[b] by {
                if b < p {
                } else if a < p {
                    assert(rest[b] == order[b + 1]);
                } else {
                    assert(rest[a] == order[a + 1]);
                    assert(rest[b] == order[b + 1]);
                }
            }
            lemma_sum_at_shorter(cs, rest);
            assert forall|k: int| 0 <= k < rest.len() implies #[trigger] rest[k] < cs.drop_last().len() by {}
            lemma_sum_at_bounded(cs.drop_last(), rest);
        } else {
            assert forall|k: int| 0 <= k < order.len() implies #[trigger] order[k] < cs.len() - 1 by {
                if order[k] as int == last {
                    assert(order[k] as int == last);
                }
            }
            lemma_sum_at_shorter(cs, order);
            assert forall|k: int| 0 <= k < order.len() implies #[trigger] order[k] < cs.drop_last().len() by {}
            lemma_sum_at_bounded(cs.drop_last(), order);
        }
    }
}

// ----- the walk -----

/// Statistics as plain values: key, bytes, files.
pub open spec fn stat_views(s: Seq<ExtensionStat>) -> Seq<(Seq<char>, u64, u64)> {
    s.map_values(|e: ExtensionStat| (e.extension@, e.bytes, e.count))
}

/// Position of the statistic for `key`, or -1.
pub open spec fn stat_position(s: Seq<(Seq<char>, u64, u64)>, key: Seq<char>) -> int
    decreases s.len(),
{
    if s.len() == 0 {
        -1
    } else if stat_position(s.drop_last(), key) >= 0 {
        stat_position(s.drop_last(), key)
    } else if s.last().0 == key {
        s.len() - 1
    } else {
        -1
    }
}

/// The statistics after one more file of `size` bytes under `key`.
pub open spec fn stats_after(s: Seq<(Seq<char>, u64, u64)>, key: Seq<char>, size: u64) -> Seq<(Seq<char>, u64, u64)> {
    let e = stat_position(s, key);
    if e >= 0 {
        s.update(e, (key, (s[e].1 + size) as u64, (s[e].2 + 1) as u64))
    } else {
        s.push((key, size, 1u64))
    }
}

proof fn lemma_stat_position(s: Seq<(Seq<char>, u64, u64)>, key: Seq<char>)
    ensures
        -1 <= stat_position(s, key) < s.len(),
        stat_position(s, key) >= 0 ==> s[stat_position(s, key)].0 == key,
        stat_position(s, key) == -1 ==> forall|e: int| 0 <= e < s.len() ==> (#[trigger] s[e]).0 != key,
        stat_position(s, key) >= 0 ==> forall|e: int| 0 <= e < stat_position(s, key) ==> (#[trigger] s[e]).0 != key,
    decreases s.len(),
{
    if s.len() > 0 {
        lemma_stat_position(s.drop_last(), key);
        assert forall|e: int| 0 <= e < s.len() - 1 implies s[e] == s.drop_last()[e] by {}
    }
}

/// The file counted under `size` bytes: nothing when it is a further link to a file already
/// counted.
pub open spec fn counted_size(seen: Seq<(u64, u64)>, link: Option<(u64, u64)>, size: u64) -> u64 {
    match link {
        Some(l) => if seen.contains(l) { 0 } else { size },
        None => size,
    }
}

/// The directory a file or directory met at `depth` sits in.
pub open spec fn parent_at(stack: Seq<usize>, depth: int) -> usize {
    stack[if depth < stack.len() { depth - 1 } else { stack.len() - 1 }]
}

/// A file that may be among the largest.
#[derive(Debug, Clone)]
pub struct Candidate {
    pub path: String,
    pub size: u64,
    /// Last modification, in milliseconds since the Unix epoch, when known.
    pub modified_at: Option<i64>,
    /// The directory it sits in.
    pub dir: usize,
    /// Which file of the walk it is (its place in the tree's log).
    pub entry: u64,
}

/// Where a file stands when the largest are picked: by size, and among equal sizes the one
/// met first goes first.
pub open spec fn lighter(a: (u64, int), b: (u64, int)) -> bool {
    a.0 < b.0 || (a.0 == b.0 && a.1 <= b.1)
}

/// Which of the directories a filesystem root holds a walk leaves out, on a host of the
/// given kind: other mounts and mirrors that would be counted twice.
#[derive(Debug, Clone, Copy, PartialEq, Eq, Structural)]
pub enum HostKind {
    MacOs,
    Windows,
    Other,
}

pub open spec fn skipped_under_root(host: HostKind) -> Seq<Seq<char>> {
    match host {
        HostKind::MacOs => seq!["/Volumes"@, "/System/Volumes"@, "/dev"@, "/private/var/vm"@, "/Network"@],
        HostKind::Windows => Seq::empty(),
        HostKind::Other => seq!["/proc"@, "/sys"@, "/dev"@, "/run"@, "/mnt"@, "/media"@],
    }
}

/// Whether the walk of `root` leaves `path` out: only a walk of a filesystem root does, and
/// only the directories listed for the host.
pub open spec fn skip_when_root_spec(root: Seq<char>, path: Seq<char>, host: HostKind) -> bool {
    crate::paths::parent_view(crate::paths::path_view(root)) is None && exists|i: int|
        0 <= i < skipped_under_root(host).len() && crate::paths::same_path(
            path,
            #[trigger] skipped_under_root(host)[i],
        )
}

fn skipped_list(host: HostKind) -> (r: Vec<&'static str>)
    ensures
        r@.map_values(|s: &'static str| s@) == skipped_under_root(host),
{
    let mut v: Vec<&'static str> = Vec::new();
    match host {
        HostKind::MacOs => {
            v.push("/Volumes");
            v.push("/System/Volumes");
            v.push("/dev");
            v.push("/private/var/vm");
            v.push("/Network");
        },
        HostKind::Windows => {},
        HostKind::Other => {
            v.push("/proc");
            v.push("/sys");
            v.push("/dev");
            v.push("/run");
            v.push("/mnt");
            v.push("/media");
        },
    }
    assert(v@.map_values(|s: &'static str| s@) =~= skipped_under_root(host));
    v
}

/// Whether the walk of `root` leaves the directory `path` out.
pub fn skip_when_root(root: &str, path: &str, host: HostKind) -> (r: bool)
    ensures
        r == skip_when_root_spec(root@, path@, host),
{
    let r = parse(root);
    if r.parts.len() > 0 || r.cur_dir {
        proof {
            assert(r@.parts.len() == r.parts@.len());
        }
        return false;
    }
    proof {
        assert(r@.parts.len() == r.parts@.len());
        assert(crate::paths::parent_view(crate::paths::path_view(root@)) is None);
    }
    let list = skipped_list(host);
    let ghost views = list@.map_values(|s: &'static str| s@);
    let mut i: usize = 0;
    while i < list.len()
        invariant
            i <= list@.len(),
            views == list@.map_values(|s: &'static str| s@),
            views == skipped_under_root(host),
            crate::paths::parent_view(crate::paths::path_view(root@)) is None,
            forall|j: int| 0 <= j < i ==> !crate::paths::same_path(path@, #[trigger] views[j]),
        decreases list@.len() - i,
    {
        if crate::paths::same(path, list[i]) {
            assert(views[i as int] == list@[i as int]@);
            assert(crate::paths::same_path(path@, skipped_under_root(host)[i as int]));
            return true;
        }
        assert(views[i as int] == list@[i as int]@);
        i = i + 1;
    }
    false
}

/// Where the statistic for `key` stands.
fn find_stat(stats: &Vec<ExtensionStat>, key: &str) -> (r: Option<usize>)
    ensures
        match r {
            Some(i) => i == stat_position(stat_views(stats@), key@) && i < stats@.len(),
            None => stat_position(stat_views(stats@), key@) == -1,
        },
{
    let ghost sv = stat_views(stats@);
    proof {
        lemma_stat_position(sv, key@);
    }
    let mut i: usize = 0;
    while i < stats.len()
        invariant
            i <= stats@.len(),
            sv == stat_views(stats@),
            -1 <= stat_position(sv, key@) < sv.len(),
            stat_position(sv, key@) >= 0 ==> sv[stat_position(sv, key@)].0 == key@,
            stat_position(sv, key@) >= 0 ==> forall|e: int| 0 <= e < stat_position(sv, key@) ==> (#[trigger] sv[e]).0 != key@,
            stat_position(sv, key@) == -1 ==> forall|e: int| 0 <= e < sv.len() ==> (#[trigger] sv[e]).0 != key@,
            forall|e: int| 0 <= e < i ==> (#[trigger] sv[e]).0 != key@,
        decreases stats@.len() - i,
    {
        assert(sv[i as int].0 == stats@[i as int].extension@);
        if crate::text::str_eq(stats[i].extension.as_str(), key) {
            proof {
                let p = stat_position(sv, key@);
                if p != i {
                    if p == -1 {
                    } else if p < i {
                    } else {
                        assert(sv[i as int].0 != key@);
                    }
                }
            }
            return Some(i);
        }
        i = i + 1;
    }
    proof {
        let p = stat_position(sv, key@);
        if p >= 0 {
            assert(sv[p].0 == key@);
        }
    }
    None
}

/// The candidates are the largest files of the walk so far: each is a file of the log; each
/// file of the log is a candidate (`slots` says which) or, when the candidates are full, no
/// bigger than the smallest of them; and `smallest` is the smallest, of equals the one met
/// first.
pub open spec fn picks_largest(cs: Seq<Candidate>, smallest: usize, slots: Seq<int>, log: Seq<(int, nat)>) -> bool {
    &&& cs.len() <= LARGE_FILE_CAPACITY
    &&& forall|c: int| 0 <= c < cs.len() ==> (#[trigger] cs[c]).entry < log.len() && log[cs[c].entry as int] == (
        cs[c].dir as int,
        cs[c].size as nat,
    )
    &&& forall|c: int, d: int| 0 <= c < d < cs.len() ==> (#[trigger] cs[c]).entry != (#[trigger] cs[d]).entry
    &&& cs.len() > 0 ==> smallest < cs.len() && forall|c: int| 0 <= c < cs.len() ==> lighter(
        (cs[smallest as int].size, cs[smallest as int].entry as int),
        ((#[trigger] cs[c]).size, cs[c].entry as int),
    )
    &&& slots.len() == log.len()
    &&& forall|c: int| 0 <= c < cs.len() ==> slots[(#[trigger] cs[c]).entry as int] == c
    &&& forall|k: int| 0 <= k < log.len() ==> if #[trigger] slots[k] == -1 {
        cs.len() == LARGE_FILE_CAPACITY && log[k].1 <= cs[smallest as int].size
    } else {
        0 <= slots[k] < cs.len() && cs[slots[k]].entry == k
    }
}

proof fn lemma_pick_push(cs: Seq<Candidate>, smallest: usize, slots: Seq<int>, log: Seq<(int, nat)>, fresh: Candidate, next: usize)
    requires
        picks_largest(cs, smallest, slots, log),
        cs.len() < LARGE_FILE_CAPACITY,
        fresh.entry == log.len(),
        next == if cs.len() == 0 || fresh.size < cs[smallest as int].size { cs.len() as usize } else { smallest },
    ensures
        picks_largest(cs.push(fresh), next, slots.push(cs.len() as int), log.push((fresh.dir as int, fresh.size as nat))),
{
    let cs2 = cs.push(fresh);
    let slots2 = slots.push(cs.len() as int);
    let log2 = log.push((fresh.dir as int, fresh.size as nat));
    assert forall|c: int| 0 <= c < cs2.len() implies (#[trigger] cs2[c]).entry < log2.len() && log2[cs2[c].entry as int] == (
        cs2[c].dir as int,
        cs2[c].size as nat,
    ) by {
        if c < cs.len() {
            assert(cs2[c] == cs[c]);
        }
    }
    assert forall|c: int, d: int| 0 <= c < d < cs2.len() implies (#[trigger] cs2[c]).entry != (#[trigger] cs2[d]).entry by {
        assert(cs2[c] == cs[c]);
        if d < cs.len() {
            assert(cs2[d] == cs[d]);
        }
    }
    assert forall|c: int| 0 <= c < cs2.len() implies lighter(
        (cs2[next as int].size, cs2[next as int].entry as int),
        ((#[trigger] cs2[c]).size, cs2[c].entry as int),
    ) by {
        if c < cs.len() {
            assert(cs2[c] == cs[c]);
            assert(lighter((cs[smallest as int].size, cs[smallest as int].entry as int), (cs[c].size, cs[c].entry as int)));
        }
        if next < cs.len() {
            assert(cs2[next as int] == cs[next as int]);
            assert(cs[smallest as int].entry < log.len());
        }
    }
    assert forall|c: int| 0 <= c < cs2.len() implies slots2[(#[trigger] cs2[c]).entry as int] == c by {
        if c < cs.len() {
            assert(cs2[c] == cs[c]);
        }
    }
    assert forall|k: int| 0 <= k < log2.len() implies if #[trigger] slots2[k] == -1 {
        cs2.len() == LARGE_FILE_CAPACITY && log2[k].1 <= cs2[next as int].size
    } else {
        0 <= slots2[k] < cs2.len() && cs2[slots2[k]].entry == k
    } by {
        if k < log.len() {
            assert(slots2[k] == slots[k]);
            if slots[k] != -1 {
                assert(cs2[slots[k]] == cs[slots[k]]);
            }
        }
    }
}

proof fn lemma_pick_replace(cs: Seq<Candidate>, smallest: usize, slots: Seq<int>, log: Seq<(int, nat)>, fresh: Candidate, next: usize)
    requires
        picks_largest(cs, smallest, slots, log),
        cs.len() == LARGE_FILE_CAPACITY,
        fresh.entry == log.len(),
        fresh.size > cs[smallest as int].size,
        next < cs.len(),
        forall|c: int| 0 <= c < cs.len() ==> lighter(
            (cs.update(smallest as int, fresh)[next as int].size, cs.update(smallest as int, fresh)[next as int].entry as int),
            ((#[trigger] cs.update(smallest as int, fresh)[c]).size, cs.update(smallest as int, fresh)[c].entry as int),
        ),
    ensures
        picks_largest(
            cs.update(smallest as int, fresh),
            next,
            slots.update(cs[smallest as int].entry as int, -1).push(smallest as int),
            log.push((fresh.dir as int, fresh.size as nat)),
        ),
{
    let m = smallest as int;
    let gone = cs[m].entry as int;
    let cs2 = cs.update(m, fresh);
    let slots2 = slots.update(gone, -1).push(m);
    let log2 = log.push((fresh.dir as int, fresh.size as nat));
    assert(lighter((cs[m].size, cs[m].entry as int), (cs[m].size, cs[m].entry as int)));
    assert forall|c: int| 0 <= c < cs2.len() implies (#[trigger] cs2[c]).entry < log2.len() && log2[cs2[c].entry as int] == (
        cs2[c].dir as int,
        cs2[c].size as nat,
    ) by {
        if c != m {
            assert(cs2[c] == cs[c]);
        }
    }
    assert forall|c: int, d: int| 0 <= c < d < cs2.len() implies (#[trigger] cs2[c]).entry != (#[trigger] cs2[d]).entry by {
        if c != m && d != m {
            assert(cs2[c] == cs[c]);
            assert(cs2[d] == cs[d]);
        } else if c == m {
            assert(cs2[d] == cs[d]);
        } else {
            assert(cs2[c] == cs[c]);
        }
    }
    // every candidate now is at least as big as the one that left
    assert forall|c: int| 0 <= c < cs2.len() implies cs[m].size <= #[trigger] cs2[c].size by {
        if c != m {
            assert(cs2[c] == cs[c]);
            assert(lighter((cs[m].size, cs[m].entry as int), (cs[c].size, cs[c].entry as int)));
        }
    }
    assert(cs[m].size <= cs2[next as int].size);
    assert forall|c: int| 0 <= c < cs2.len() implies slots2[(#[trigger] cs2[c]).entry as int] == c by {
        if c != m {
            assert(cs2[c] == cs[c]);
            assert(cs[c].entry != gone);
        }
    }
    assert forall|k: int| 0 <= k < log2.len() implies if #[trigger] slots2[k] == -1 {
        cs2.len() == LARGE_FILE_CAPACITY && log2[k].1 <= cs2[next as int].size
    } else {
        0 <= slots2[k] < cs2.len() && cs2[slots2[k]].entry == k
    } by {
        if k < log.len() {
            assert(log2[k] == log[k]);
            if k == gone {
                assert(slots2[k] == -1);
                assert(log[k].1 == cs[m].size);
            } else {
                assert(slots2[k] == slots[k]);
                if slots[k] != -1 {
                    assert(slots[k] != m);
                    assert(cs2[slots[k]] == cs[slots[k]]);
                }
            }
        }
    }
}

proof fn lemma_pick_skip(cs: Seq<Candidate>, smallest: usize, slots: Seq<int>, log: Seq<(int, nat)>, dir: int, size: u64)
    requires
        picks_largest(cs, smallest, slots, log),
        cs.len() == LARGE_FILE_CAPACITY,
        size <= cs[smallest as int].size,
    ensures
        picks_largest(cs, smallest, slots.push(-1), log.push((dir, size as nat))),
{
    let slots2 = slots.push(-1);
    let log2 = log.push((dir, size as nat));
    assert forall|k: int| 0 <= k < log2.len() implies if #[trigger] slots2[k] == -1 {
        cs.len() == LARGE_FILE_CAPACITY && log2[k].1 <= cs[smallest as int].size
    } else {
        0 <= slots2[k] < cs.len() && cs[slots2[k]].entry == k
    } by {
        if k < log.len() {
            assert(slots2[k] == slots[k]);
            assert(log2[k] == log[k]);
        }
    }
    assert forall|c: int| 0 <= c < cs.len() implies slots2[(#[trigger] cs[c]).entry as int] == c by {}
}

/// One more file of `size` bytes keeps every statistic within the totals.
proof fn lemma_stats_bounded(s: Seq<(Seq<char>, u64, u64)>, key: Seq<char>, size: u64, bytes: int, files: int)
    requires
        forall|e: int| 0 <= e < s.len() ==> (#[trigger] s[e]).1 <= bytes && s[e].2 <= files,
        bytes + size <= u64::MAX,
        files + 1 <= u64::MAX,
        0 <= bytes,
        0 <= files,
    ensures
        forall|e: int| 0 <= e < stats_after(s, key, size).len() ==> (#[trigger] stats_after(s, key, size)[e]).1 <= bytes + size
            && stats_after(s, key, size)[e].2 <= files + 1,
{
    lemma_stat_position(s, key);
}

/// The candidate a bigger file replaces: the smallest, and of equals the one met first.
fn find_smallest(cands: &Vec<Candidate>) -> (m: usize)
    requires
        cands@.len() > 0,
    ensures
        m < cands@.len(),
        forall|c: int| 0 <= c < cands@.len() ==> lighter(
            (cands@[m as int].size, cands@[m as int].entry as int),
            ((#[trigger] cands@[c]).size, cands@[c].entry as int),
        ),
{
    let mut m: usize = 0;
    let mut i: usize = 1;
    while i < cands.len()
        invariant
            1 <= i <= cands@.len(),
            m < i,
            forall|c: int| 0 <= c < i ==> lighter(
                (cands@[m as int].size, cands@[m as int].entry as int),
                ((#[trigger] cands@[c]).size, cands@[c].entry as int),
            ),
        decreases cands@.len() - i,
    {
        let a = &cands[i];
        let b = &cands[m];
        if a.size < b.size || (a.size == b.size && a.entry < b.entry) {
            m = i;
        }
        i = i + 1;
    }
    m
}

/// What a walk has counted so far.
pub struct DiskWalk {
    pub scan_id: String,
    pub root: String,
    pub tree: Tree,
    /// The largest files so far, in no particular order.
    pub candidates: Vec<Candidate>,
    /// For each file of the walk, the candidate it is, or -1.
    pub slots: Ghost<Seq<int>>,
    /// The candidate a bigger file replaces: the smallest, and of equals the one met first.
    pub smallest: usize,
    /// The (device, inode) pairs of the hard-linked files counted so far.
    pub links_seen: Vec<(u64, u64)>,
    /// Bytes and files per extension key, in the order the keys were first met.
    pub extensions: Vec<ExtensionStat>,
    pub issues: Vec<ScanIssue>,
}

/// A walk whose counts did not change keeps its shape.
proof fn lemma_walk_frame(a: DiskWalk, b: DiskWalk)
    requires
        a.wf(),
        b.tree == a.tree,
        b.candidates@ == a.candidates@,
        b.slots@ == a.slots@,
        b.smallest == a.smallest,
        b.extensions@ == a.extensions@,
    ensures
        b.wf(),
{
}

impl DiskWalk {
    pub open spec fn wf(&self) -> bool {
        let log = self.tree.log@;
        let cs = self.candidates@;
        &&& self.tree.wf()
        &&& picks_largest(cs, self.smallest, self.slots@, log)
        &&& cand_sum(cs) <= self.tree.total_bytes
        &&& forall|e: int| 0 <= e < self.extensions@.len() ==> (#[trigger] self.extensions@[e]).bytes
            <= self.tree.total_bytes && self.extensions@[e].count <= self.tree.total_files
        &&& forall|e: int, f: int| 0 <= e < f < self.extensions@.len() ==> (#[trigger] self.extensions@[e]).extension@
            != (#[trigger] self.extensions@[f]).extension@
    }

    /// A walk that has met only its root.
    pub fn new(scan_id: &str, root: &str) -> (r: Self)
        ensures
            r.wf(),
            r.scan_id@ == scan_id@,
            r.root@ == root@,
            r.tree.parents@ == seq![None::<usize>],
            r.tree.paths@.len() == 1,
            r.tree.paths@[0]@ == root@,
            r.tree.names@[0]@ == match file_name_spec(root@) {
                Some(n) => n,
                None => root@,
            },
            r.candidates@.len() == 0,
            r.extensions@.len() == 0,
            r.issues@.len() == 0,
    {
        let name = match file_name(root) {
            Some(n) => n,
            None => root.to_string(),
        };
        let tree = Tree::new(name, root.to_string());
        DiskWalk {
            scan_id: scan_id.to_string(),
            root: root.to_string(),
            tree,
            candidates: Vec::new(),
            slots: Ghost(Seq::empty()),
            smallest: 0,
            links_seen: Vec::new(),
            extensions: Vec::new(),
            issues: Vec::new(),
        }
    }

    /// Whether the cancel flag is to be looked at before the next entry.
    pub fn cancel_due(&self) -> (r: bool)
        ensures
            r == (self.tree.total_files % CANCEL_EVERY == 0),
    {
        self.tree.total_files % CANCEL_EVERY == 0
    }

    /// An entry that could not be read.
    pub fn add_issue(&mut self, path: String, message: String)
        requires
            old(self).wf(),
        ensures
            final(self).wf(),
            final(self).issues@ == old(self).issues@.push(ScanIssue { path, message }),
            final(self).tree == old(self).tree,
            final(self).candidates == old(self).candidates,
            final(self).extensions == old(self).extensions,
    {
        self.issues.push(ScanIssue { path, message });
        proof {
            lemma_walk_frame(*old(self), *self);
        }
    }

    /// A directory met at `depth` below the root.
    pub fn add_dir(&mut self, depth: usize, name: String, path: String)
        requires
            old(self).wf(),
            depth >= 1,
            old(self).tree.parents@.len() < usize::MAX,
        ensures
            final(self).wf(),
            final(self).tree.parents@ == old(self).tree.parents@.push(Some(old(self).tree.stack@[if depth < old(self).tree.stack@.len() { depth - 1 } else { old(self).tree.stack@.len() - 1 }])),
            final(self).tree.names@ == old(self).tree.names@.push(name),
            final(self).tree.paths@ == old(self).tree.paths@.push(path),
            final(self).tree.log@ == old(self).tree.log@,
            final(self).candidates == old(self).candidates,
            final(self).extensions == old(self).extensions,
            final(self).issues == old(self).issues,
    {
        self.tree.add_dir(depth, name, path);
    }

    /// Counts one more file of `size` bytes under `key`.
    fn count_extension(&mut self, key: String, size: u64)
        requires
            forall|e: int| 0 <= e < old(self).extensions@.len() ==> (#[trigger] old(self).extensions@[e]).bytes + size
                <= u64::MAX && old(self).extensions@[e].count < u64::MAX,
            forall|e: int, f: int| 0 <= e < f < old(self).extensions@.len() ==> (#[trigger] old(self).extensions@[e]).extension@
                != (#[trigger] old(self).extensions@[f]).extension@,
        ensures
            stat_views(final(self).extensions@) == stats_after(stat_views(old(self).extensions@), key@, size),
            forall|e: int, f: int| 0 <= e < f < final(self).extensions@.len() ==> (#[trigger] final(self).extensions@[e]).extension@
                != (#[trigger] final(self).extensions@[f]).extension@,
            final(self).tree == old(self).tree,
            final(self).candidates == old(self).candidates,
            final(self).slots == old(self).slots,
            final(self).smallest == old(self).smallest,
            final(self).links_seen == old(self).links_seen,
            final(self).issues == old(self).issues,
            final(self).scan_id == old(self).scan_id,
            final(self).root == old(self).root,
    {
        let ghost sv = stat_views(self.extensions@);
        proof {
            lemma_stat_position(sv, key@);
        }
        match find_stat(&self.extensions, key.as_str()) {
            Some(i) => {
                let b = self.extensions[i].bytes;
                let c = self.extensions[i].count;
                let stat = ExtensionStat { extension: key, bytes: b + size, count: c + 1 };
                self.extensions.set(i, stat);
                proof {
                    assert(stat_views(self.extensions@) =~= sv.update(i as int, (key@, (sv[i as int].1 + size) as u64, (sv[i as int].2 + 1) as u64)));
                    assert forall|e: int, f: int| 0 <= e < f < self.extensions@.len() implies (#[trigger] self.extensions@[e]).extension@
                        != (#[trigger] self.extensions@[f]).extension@ by {
                        if e != i && f != i {
                            assert(self.extensions@[e] == old(self).extensions@[e]);
                            assert(self.extensions@[f] == old(self).extensions@[f]);
                        } else if e == i {
                            assert(self.extensions@[f] == old(self).extensions@[f]);
                            assert(sv[f].0 == old(self).extensions@[f].extension@);
                        } else {
                            assert(self.extensions@[e] == old(self).extensions@[e]);
                            assert(sv[e].0 == old(self).extensions@[e].extension@);
                        }
                    }
                }
            },
            None => {
                self.extensions.push(ExtensionStat { extension: key, bytes: size, count: 1 });
                proof {
                    assert(stat_views(self.extensions@) =~= sv.push((key@, size, 1u64)));
                    assert forall|e: int, f: int| 0 <= e < f < self.extensions@.len() implies (#[trigger] self.extensions@[e]).extension@
                        != (#[trigger] self.extensions@[f]).extension@ by {
                        if f < sv.len() {
                            assert(self.extensions@[e] == old(self).extensions@[e]);
                            assert(self.extensions@[f] == old(self).extensions@[f]);
                        } else {
                            assert(self.extensions@[e] == old(self).extensions@[e]);
                            assert(sv[e].0 == old(self).extensions@[e].extension@);
                        }
                    }
                }
            },
        }
    }

    /// A file met at `depth` below the root, `size` bytes long. `link` is its (device, inode)
    /// pair when it has further hard links: a link to a file already counted adds no bytes.
    /// Every [`PROGRESS_EVERY`] files a progress report comes back.
    pub fn add_file(
        &mut self,
        depth: usize,
        path: String,
        size: u64,
        link: Option<(u64, u64)>,
        modified_at: Option<i64>,
    ) -> (progress: Option<DiskProgress>)
        requires
            old(self).wf(),
            depth >= 1,
            old(self).tree.total_bytes + size <= u64::MAX,
            old(self).tree.total_files < u64::MAX,
        ensures
            final(self).wf(),
            ({
                let counted = counted_size(old(self).links_seen@, link, size);
                let dir = parent_at(old(self).tree.stack@, depth as int);
                let n = old(self).candidates@.len();
                let fresh = Candidate { path, size: counted, modified_at, dir, entry: old(self).tree.total_files };
                &&& final(self).tree.log@ == old(self).tree.log@.push((dir as int, counted as nat))
                &&& stat_views(final(self).extensions@) == stats_after(
                    stat_views(old(self).extensions@),
                    extension_key(path@),
                    counted,
                )
                &&& if n < LARGE_FILE_CAPACITY {
                    final(self).candidates@ == old(self).candidates@.push(fresh)
                } else if counted > old(self).candidates@[old(self).smallest as int].size {
                    final(self).candidates@ == old(self).candidates@.update(old(self).smallest as int, fresh)
                } else {
                    final(self).candidates@ == old(self).candidates@
                }
                &&& (final(self).tree.total_files % PROGRESS_EVERY == 0 ==> progress is Some)
                &&& (final(self).tree.total_files % PROGRESS_EVERY != 0 ==> progress is None)
                &&& (progress matches Some(p) ==> {
                    &&& p.scan_id@ == old(self).scan_id@
                    &&& p.files == final(self).tree.total_files
                    &&& p.bytes == final(self).tree.total_bytes
                    &&& p.dirs == final(self).tree.parents@.len() - 1
                    &&& p.current_path == Some(path)
                })
            }),
            final(self).tree.total_files == old(self).tree.total_files + 1,
            final(self).tree.parents@ == old(self).tree.parents@,
            final(self).tree.names@ == old(self).tree.names@,
            final(self).tree.paths@ == old(self).tree.paths@,
            final(self).issues == old(self).issues,
            final(self).scan_id == old(self).scan_id,
            final(self).root == old(self).root,
    {
        let ghost old_log = self.tree.log@;
        let ghost old_slots = self.slots@;
        let ghost old_cands = self.candidates@;
        let ghost old_smallest = self.smallest;
        let ghost old_exts = self.extensions@;
        let ghost old_tb = self.tree.total_bytes;
        let ghost old_tf = self.tree.total_files;
        let entry = self.tree.total_files;
        let counted = match link {
            Some(l) => if crate::fs::first_visit(&mut self.links_seen, l) {
                size
            } else {
                0
            },
            None => size,
        };
        let key = extension_key_of(path.as_str());
        proof {
            assert forall|e: int| 0 <= e < self.extensions@.len() implies (#[trigger] self.extensions@[e]).bytes + counted
                <= u64::MAX && self.extensions@[e].count < u64::MAX by {}
        }
        self.count_extension(key, counted);
        let dir = self.tree.add_file(depth, counted);
        let ghost log = self.tree.log@;
        proof {
            assert(log == old_log.push((dir as int, counted as nat)));
            assert(entry == old_log.len());
        }
        let n = self.candidates.len();
        if n < LARGE_FILE_CAPACITY {
            let fresh = Candidate { path: path.clone(), size: counted, modified_at, dir, entry };
            let ghost g = fresh;
            self.candidates.push(fresh);
            self.slots = Ghost(old_slots.push(n as int));
            if n == 0 || counted < self.candidates[self.smallest].size {
                self.smallest = n;
            }
            proof {
                lemma_pick_push(old_cands, old_smallest, old_slots, old_log, g, self.smallest);
                assert(self.candidates@.drop_last() =~= old_cands);
            }
        } else if counted > self.candidates[self.smallest].size {
            let m = self.smallest;
            let gone = self.candidates[m].entry;
            let fresh = Candidate { path: path.clone(), size: counted, modified_at, dir, entry };
            let ghost g = fresh;
            self.candidates.set(m, fresh);
            self.slots = Ghost(old_slots.update(gone as int, -1).push(m as int));
            self.smallest = find_smallest(&self.candidates);
            proof {
                lemma_pick_replace(old_cands, old_smallest, old_slots, old_log, g, self.smallest);
                lemma_cand_sum_update(old_cands, old_smallest as int, g);
            }
        } else {
            self.slots = Ghost(old_slots.push(-1));
            proof {
                lemma_pick_skip(old_cands, old_smallest, old_slots, old_log, dir as int, counted);
            }
        }
        proof {
            let sv = stat_views(old_exts);
            assert forall|e: int| 0 <= e < sv.len() implies (#[trigger] sv[e]).1 <= old_tb && sv[e].2 <= old_tf by {
                assert(sv[e].1 == old_exts[e].bytes);
            }
            lemma_stats_bounded(sv, extension_key(path@), counted, old_tb as int, old_tf as int);
            assert(log.drop_last() =~= old_log);
            assert(self.tree.total_bytes == old_tb + counted);
            assert(self.tree.total_files == old_tf + 1);
            assert(cand_sum(self.candidates@) <= self.tree.total_bytes);
            assert forall|e: int| 0 <= e < self.extensions@.len() implies (#[trigger] self.extensions@[e]).bytes
                <= self.tree.total_bytes && self.extensions@[e].count <= self.tree.total_files by {
                assert(stat_views(self.extensions@)[e].1 == self.extensions@[e].bytes);
                assert(stat_views(self.extensions@)[e].2 == self.extensions@[e].count);
                assert(stats_after(sv, extension_key(path@), counted)[e] == stat_views(self.extensions@)[e]);
            }
        }
        let files = self.tree.total_files;
        if files % PROGRESS_EVERY == 0 {
            let dirs = (self.tree.parents.len() - 1) as u64;
            Some(DiskProgress {
                scan_id: self.scan_id.clone(),
                files,
                bytes: self.tree.total_bytes,
                dirs,
                current_path: Some(path),
            })
        } else {
            None
        }
    }

}


// ----- the finished analysis -----

pub open spec fn cand_keys(cs: Seq<Candidate>) -> Seq<(u64, Seq<char>)> {
    cs.map_values(|c: Candidate| (c.size, c.path@))
}

pub open spec fn stat_keys(s: Seq<ExtensionStat>) -> Seq<(u64, Seq<char>)> {
    s.map_values(|e: ExtensionStat| (e.bytes, e.extension@))
}

/// Bytes of all the large files.
pub open spec fn large_sum(fs: Seq<LargeFile>) -> nat
    decreases fs.len(),
{
    if fs.len() == 0 {
        0
    } else {
        large_sum(fs.drop_last()) + fs.last().size_bytes as nat
    }
}

/// The name a file shows: the last component of its path, or nothing.
pub open spec fn shown_name(path: Seq<char>) -> Seq<char> {
    match file_name_spec(path) {
        Some(n) => n,
        None => Seq::empty(),
    }
}

/// `f` is what candidate `c` becomes; `protected` says whether the safety policy refuses it.
pub open spec fn describes(f: LargeFile, c: Candidate, protected: bool) -> bool {
    &&& f.target_id@ == make_id_spec(encode_utf8(LARGE_FILES_PROVIDER@), encode_utf8(c.path@))
    &&& f.path@ == c.path@
    &&& f.name@ == shown_name(c.path@)
    &&& f.size_bytes == c.size
    &&& f.modified_at == c.modified_at
    &&& f.extension@ == shown_extension(c.path@)
    &&& f.risk == if protected {
        RiskLevel::Protected
    } else {
        RiskLevel::Medium
    }
}

/// The result of a walk, kept in memory for drill-down queries.
pub struct DiskAnalysis {
    pub scan_id: String,
    pub root: String,
    pub status: DiskScanStatus,
    /// When the walk started, in milliseconds since the Unix epoch.
    pub started_at: i64,
    pub duration_ms: u64,
    pub tree: Tree,
    /// The largest files, biggest first.
    pub large_files: Vec<LargeFile>,
    /// The directory each large file sits in.
    pub large_dirs: Vec<usize>,
    /// Which file of the walk each large file is.
    pub large_entries: Vec<u64>,
    /// Bytes and files per extension, most bytes first.
    pub extensions: Vec<ExtensionStat>,
    pub issues: Vec<ScanIssue>,
}

impl DiskAnalysis {
    /// Every large file is a file of the walk, each a different one, in the directory it was
    /// met in; the tree's counts are those of the walk.
    pub open spec fn wf(&self) -> bool {
        let log = self.tree.log@;
        let fs = self.large_files@;
        &&& self.tree.wf()
        &&& self.large_dirs@.len() == fs.len()
        &&& self.large_entries@.len() == fs.len()
        &&& forall|j: int| 0 <= j < fs.len() ==> (#[trigger] self.large_entries@[j]) < log.len() && log[self.large_entries@[j] as int] == (
            self.large_dirs@[j] as int,
            fs[j].size_bytes as nat,
        )
        &&& forall|a: int, b: int| 0 <= a < b < fs.len() ==> (#[trigger] self.large_entries@[a]) != (#[trigger] self.large_entries@[b])
        &&& large_sum(fs) <= u64::MAX
    }
}

/// The candidates' sort keys: size and path.
fn candidate_keys(cs: &Vec<Candidate>) -> (r: Vec<(u64, String)>)
    ensures
        key_views(r@) == cand_keys(cs@),
{
    let mut r: Vec<(u64, String)> = Vec::new();
    let mut i: usize = 0;
    while i < cs.len()
        invariant
            i <= cs@.len(),
            key_views(r@) == cand_keys(cs@).take(i as int),
        decreases cs@.len() - i,
    {
        let ghost prev = r@;
        r.push((cs[i].size, cs[i].path.clone()));
        proof {
            assert(r@ == prev.push((cs@[i as int].size, cs@[i as int].path)));
            assert(key_views(r@) =~= key_views(prev).push((cs@[i as int].size, cs@[i as int].path@)));
            assert(cand_keys(cs@).take(i + 1) =~= cand_keys(cs@).take(i as int).push((cs@[i as int].size, cs@[i as int].path@)));
        }
        i = i + 1;
    }
    assert(cand_keys(cs@).take(i as int) =~= cand_keys(cs@));
    r
}

/// The statistics' sort keys: bytes and extension.
fn stat_sort_keys(es: &Vec<ExtensionStat>) -> (r: Vec<(u64, String)>)
    ensures
        key_views(r@) == stat_keys(es@),
{
    let mut r: Vec<(u64, String)> = Vec::new();
    let mut i: usize = 0;
    while i < es.len()
        invariant
            i <= es@.len(),
            key_views(r@) == stat_keys(es@).take(i as int),
        decreases es@.len() - i,
    {
        let ghost prev = r@;
        r.push((es[i].bytes, es[i].extension.clone()));
        proof {
            assert(r@ == prev.push((es@[i as int].bytes, es@[i as int].extension)));
            assert(key_views(r@) =~= key_views(prev).push((es@[i as int].bytes, es@[i as int].extension@)));
            assert(stat_keys(es@).take(i + 1) =~= stat_keys(es@).take(i as int).push((es@[i as int].bytes, es@[i as int].extension@)));
        }
        i = i + 1;
    }
    assert(stat_keys(es@).take(i as int) =~= stat_keys(es@));
    r
}

/// The statistics with most bytes first (of equal bytes, by extension), at most
/// [`TOP_EXTENSIONS`] of them.
fn top_extensions(es: &Vec<ExtensionStat>) -> (r: Vec<ExtensionStat>)
    ensures
        exists|order: Seq<usize>| {
            &&& is_ordering(order, es@.len() as int)
            &&& sorted_by_size(stat_keys(es@), order)
            &&& r@.len() == if es@.len() < TOP_EXTENSIONS { es@.len() } else { TOP_EXTENSIONS as nat }
            &&& forall|j: int| 0 <= j < r@.len() ==> #[trigger] stat_views(r@)[j] == stat_views(es@)[order[j] as int]
        },
{
    let keys = stat_sort_keys(es);
    let order = largest_first(&keys);
    proof {
        assert(key_views(keys@).len() == keys@.len());
        assert(stat_keys(es@).len() == es@.len());
    }
    let n = if es.len() < TOP_EXTENSIONS { es.len() } else { TOP_EXTENSIONS };
    let mut r: Vec<ExtensionStat> = Vec::new();
    let mut j: usize = 0;
    while j < n
        invariant
            j <= n,
            n <= es@.len(),
            is_ordering(order@, es@.len() as int),
            r@.len() == j,
            forall|k: int| 0 <= k < j ==> #[trigger] stat_views(r@)[k] == stat_views(es@)[order@[k] as int],
        decreases n - j,
    {
        let e = &es[order[j]];
        let ghost prev = r@;
        r.push(ExtensionStat { extension: e.extension.clone(), bytes: e.bytes, count: e.count });
        proof {
            assert forall|k: int| 0 <= k < j + 1 implies #[trigger] stat_views(r@)[k] == stat_views(es@)[order@[k] as int] by {
                if k < j {
                    assert(r@[k] == prev[k]);
                    assert(stat_views(prev)[k] == stat_views(es@)[order@[k] as int]);
                }
            }
        }
        j = j + 1;
    }
    proof {
        assert(stat_keys(es@) == key_views(keys@));
    }
    r
}


impl DiskWalk {
    /// The candidates' paths, in the order [`DiskWalk::finish`] takes their facts.
    pub fn candidate_paths(&self) -> (r: Vec<String>)
        ensures
            r@.len() == self.candidates@.len(),
            forall|k: int| 0 <= k < r@.len() ==> (#[trigger] r@[k])@ == self.candidates@[k].path@,
    {
        let mut r: Vec<String> = Vec::new();
        let mut i: usize = 0;
        while i < self.candidates.len()
            invariant
                i <= self.candidates@.len(),
                r@.len() == i,
                forall|k: int| 0 <= k < i ==> (#[trigger] r@[k])@ == self.candidates@[k].path@,
            decreases self.candidates@.len() - i,
        {
            r.push(self.candidates[i].path.clone());
            i = i + 1;
        }
        r
    }

    /// The walk is over: the candidates become the large files, biggest first (of equal
    /// sizes, by path), each with its risk from the safety policy and the facts of its path
    /// (`facts[k]` for candidate `k`); the statistics are ordered, most bytes first.
    pub fn finish(
        self,
        cancelled: bool,
        started_at: i64,
        duration_ms: u64,
        policy: &SafetyPolicy,
        facts: &Vec<PathFacts>,
    ) -> (r: DiskAnalysis)
        requires
            self.wf(),
            facts@.len() == self.candidates@.len(),
        ensures
            r.wf(),
            r.scan_id == self.scan_id,
            r.root == self.root,
            r.tree == self.tree,
            r.issues == self.issues,
            r.started_at == started_at,
            r.duration_ms == duration_ms,
            r.status == if cancelled {
                DiskScanStatus::Cancelled
            } else {
                DiskScanStatus::Completed
            },
            exists|order: Seq<usize>| {
                &&& is_ordering(order, self.candidates@.len() as int)
                &&& sorted_by_size(cand_keys(self.candidates@), order)
                &&& r.large_files@.len() == order.len()
                &&& forall|j: int| 0 <= j < order.len() ==> describes(
                    #[trigger] r.large_files@[j],
                    self.candidates@[order[j] as int],
                    !(verdict(policy@, self.candidates@[order[j] as int].path@, facts@[order[j] as int]) is Allowed),
                )
            },
            exists|order: Seq<usize>| {
                &&& is_ordering(order, self.extensions@.len() as int)
                &&& sorted_by_size(stat_keys(self.extensions@), order)
                &&& r.extensions@.len() == if self.extensions@.len() < TOP_EXTENSIONS { self.extensions@.len() } else { TOP_EXTENSIONS as nat }
                &&& forall|j: int| 0 <= j < r.extensions@.len() ==> #[trigger] stat_views(r.extensions@)[j] == stat_views(self.extensions@)[order[j] as int]
            },
    {
        let ghost cs = self.candidates@;
        let ghost log = self.tree.log@;
        let keys = candidate_keys(&self.candidates);
        let order = largest_first(&keys);
        proof {
            assert(key_views(keys@).len() == keys@.len());
            assert(cand_keys(cs).len() == cs.len());
        }
        let n = self.candidates.len();
        let mut large: Vec<LargeFile> = Vec::new();
        let mut dirs: Vec<usize> = Vec::new();
        let mut entries: Vec<u64> = Vec::new();
        let mut j: usize = 0;
        while j < n
            invariant
                j <= n,
                n == cs.len(),
                cs == self.candidates@,
                facts@.len() == n,
                is_ordering(order@, n as int),
                large@.len() == j,
                dirs@.len() == j,
                entries@.len() == j,
                forall|k: int| 0 <= k < j ==> describes(
                    #[trigger] large@[k],
                    cs[order@[k] as int],
                    !(verdict(policy@, cs[order@[k] as int].path@, facts@[order@[k] as int]) is Allowed),
                ),
                forall|k: int| 0 <= k < j ==> #[trigger] dirs@[k] == cs[order@[k] as int].dir,
                forall|k: int| 0 <= k < j ==> #[trigger] entries@[k] == cs[order@[k] as int].entry,
                large_sum(large@) == sum_at(cs, order@.take(j as int)),
            decreases n - j,
        {
            let c = &self.candidates[order[j]];
            let protected = policy.is_protected(c.path.as_str(), &facts[order[j]]);
            let name = match file_name(c.path.as_str()) {
                Some(nm) => nm,
                None => String::new(),
            };
            let file = LargeFile {
                target_id: CleanupTarget::make_id(LARGE_FILES_PROVIDER, c.path.as_str()),
                path: c.path.clone(),
                name,
                size_bytes: c.size,
                modified_at: c.modified_at,
                extension: shown_extension_of(c.path.as_str()),
                risk: if protected {
                    RiskLevel::Protected
                } else {
                    RiskLevel::Medium
                },
            };
            let ghost prev = large@;
            large.push(file);
            dirs.push(c.dir);
            entries.push(c.entry);
            proof {
                assert(large@.drop_last() =~= prev);
                assert(order@.take(j + 1).drop_last() =~= order@.take(j as int));
                assert(order@.take(j + 1).last() == order@[j as int]);
            }
            j = j + 1;
        }
        let exts = top_extensions(&self.extensions);
        proof {
            assert(order@.take(n as int) =~= order@);
            lemma_sum_at_bounded(cs, order@);
            assert forall|k: int| 0 <= k < large@.len() implies (#[trigger] entries@[k]) < log.len() && log[entries@[k] as int] == (
                dirs@[k] as int,
                large@[k].size_bytes as nat,
            ) by {
                assert(cs[order@[k] as int] == cs[order@[k] as int]);
            }
            assert forall|a: int, b: int| 0 <= a < b < large@.len() implies (#[trigger] entries@[a]) != (#[trigger] entries@[b]) by {
                let x = order@[a] as int;
                let y = order@[b] as int;
                if x < y {
                    assert(cs[x].entry != cs[y].entry);
                } else {
                    assert(cs[y].entry != cs[x].entry);
                }
            }
        }
        DiskAnalysis {
            scan_id: self.scan_id,
            root: self.root,
            status: if cancelled {
                DiskScanStatus::Cancelled
            } else {
                DiskScanStatus::Completed
            },
            started_at,
            duration_ms,
            tree: self.tree,
            large_files: large,
            large_dirs: dirs,
            large_entries: entries,
            extensions: exts,
            issues: self.issues,
        }
    }
}


// ----- queries -----

/// `n` shows directory `i` of the tree.
pub open spec fn shows(n: DiskNode, t: Tree, i: int) -> bool {
    &&& n.name@ == t.names@[i]@
    &&& n.path@ == t.paths@[i]@
    &&& n.size_bytes == t.sizes@[i]
    &&& n.file_count == t.files@[i]
    &&& n.dir_count == t.dirs@[i]
    &&& n.child_dirs == t.child_dirs@[i]
    &&& n.own_file_bytes == t.own@[i]
}

/// The directories that hang directly from `i`, among the first `n`, in the order they were
/// met.
pub open spec fn child_list(ps: Seq<Option<usize>>, i: int, n: int) -> Seq<int>
    decreases n,
{
    if n <= 0 {
        Seq::empty()
    } else if ps[n - 1] matches Some(p) && p as int == i {
        child_list(ps, i, n - 1).push(n - 1)
    } else {
        child_list(ps, i, n - 1)
    }
}

/// The directories above `i`, from the root down.
pub open spec fn ancestors(ps: Seq<Option<usize>>, i: int) -> Seq<int>
    decreases i,
{
    if 0 <= i < ps.len() {
        match ps[i] {
            Some(p) => if p < i {
                ancestors(ps, p as int).push(p as int)
            } else {
                Seq::empty()
            },
            None => Seq::empty(),
        }
    } else {
        Seq::empty()
    }
}

pub open spec fn ancestors_from(ps: Seq<Option<usize>>, cur: Option<usize>) -> Seq<int> {
    match cur {
        Some(p) => ancestors(ps, p as int).push(p as int),
        None => Seq::empty(),
    }
}

/// The sort keys of directories: size and name.
pub open spec fn dir_keys(t: Tree, list: Seq<int>) -> Seq<(u64, Seq<char>)> {
    list.map_values(|c: int| (t.sizes@[c], t.names@[c]@))
}

/// `v` shows directory `i`: the directory itself, its children biggest first (of equal sizes,
/// by name), and the directories above it from the root down.
pub open spec fn shows_view(v: DiskNodeView, t: Tree, i: int) -> bool {
    let cl = child_list(t.parents@, i, t.parents@.len() as int);
    let up = ancestors(t.parents@, i);
    &&& shows(v.node, t, i)
    &&& exists|order: Seq<usize>| {
        &&& is_ordering(order, cl.len() as int)
        &&& sorted_by_size(dir_keys(t, cl), order)
        &&& v.children@.len() == cl.len()
        &&& forall|k: int| 0 <= k < cl.len() ==> shows(#[trigger] v.children@[k], t, cl[order[k] as int])
    }
    &&& v.breadcrumbs@.len() == up.len()
    &&& forall|k: int| 0 <= k < up.len() ==> shows(#[trigger] v.breadcrumbs@[k], t, up[k])
}

/// Position of the first directory whose path is `p`, or -1.
pub open spec fn path_position(paths: Seq<String>, p: Seq<char>) -> int
    decreases paths.len(),
{
    if paths.len() == 0 {
        -1
    } else if path_position(paths.drop_last(), p) >= 0 {
        path_position(paths.drop_last(), p)
    } else if crate::paths::same_path(paths.last()@, p) {
        paths.len() - 1
    } else {
        -1
    }
}

proof fn lemma_path_position(paths: Seq<String>, p: Seq<char>)
    ensures
        -1 <= path_position(paths, p) < paths.len(),
        path_position(paths, p) >= 0 ==> crate::paths::same_path(paths[path_position(paths, p)]@, p),
        path_position(paths, p) >= 0 ==> forall|e: int| 0 <= e < path_position(paths, p) ==> !crate::paths::same_path((#[trigger] paths[e])@, p),
        path_position(paths, p) == -1 ==> forall|e: int| 0 <= e < paths.len() ==> !crate::paths::same_path((#[trigger] paths[e])@, p),
    decreases paths.len(),
{
    if paths.len() > 0 {
        lemma_path_position(paths.drop_last(), p);
        assert forall|e: int| 0 <= e < paths.len() - 1 implies paths[e] == paths.drop_last()[e] by {}
    }
}

/// Large files of at least `min` bytes, in order.
pub open spec fn at_least(fs: Seq<LargeFile>, min: u64) -> Seq<LargeFile>
    decreases fs.len(),
{
    if fs.len() == 0 {
        Seq::empty()
    } else if fs.last().size_bytes >= min {
        at_least(fs.drop_last(), min).push(fs.last())
    } else {
        at_least(fs.drop_last(), min)
    }
}

impl LargeFile {
    pub fn copy(&self) -> (r: LargeFile)
        ensures
            r == *self,
    {
        LargeFile {
            target_id: self.target_id.clone(),
            path: self.path.clone(),
            name: self.name.clone(),
            size_bytes: self.size_bytes,
            modified_at: self.modified_at,
            extension: self.extension.clone(),
            risk: self.risk,
        }
    }
}

/// A copy of the statistics.
fn copy_stats(es: &Vec<ExtensionStat>) -> (r: Vec<ExtensionStat>)
    ensures
        stat_views(r@) == stat_views(es@),
{
    let mut r: Vec<ExtensionStat> = Vec::new();
    let mut i: usize = 0;
    while i < es.len()
        invariant
            i <= es@.len(),
            stat_views(r@) == stat_views(es@.take(i as int)),
        decreases es@.len() - i,
    {
        let e = &es[i];
        let ghost prev = r@;
        let copy = ExtensionStat { extension: e.extension.clone(), bytes: e.bytes, count: e.count };
        r.push(copy);
        proof {
            let v = (es@[i as int].extension@, es@[i as int].bytes, es@[i as int].count);
            assert(es@.take(i + 1) =~= es@.take(i as int).push(es@[i as int]));
            assert(stat_views(r@) =~= stat_views(prev).push(v));
            assert(stat_views(es@.take(i + 1)) =~= stat_views(es@.take(i as int)).push(v));
        }
        i = i + 1;
    }
    assert(es@.take(es@.len() as int) =~= es@);
    r
}

impl DiskAnalysis {
    /// Directory `i` as a node.
    fn view_of(&self, i: usize) -> (r: DiskNode)
        requires
            self.tree.wf(),
            i < self.tree.parents@.len(),
        ensures
            shows(r, self.tree, i as int),
    {
        DiskNode {
            name: self.tree.names[i].clone(),
            path: self.tree.paths[i].clone(),
            size_bytes: self.tree.sizes[i],
            file_count: self.tree.files[i],
            dir_count: self.tree.dirs[i],
            child_dirs: self.tree.child_dirs[i],
            own_file_bytes: self.tree.own[i],
        }
    }

    /// The directory at `path` (the root when no path is given) with its children and the
    /// directories above it; `None` when no directory of the walk is at `path`.
    pub fn node(&self, path: Option<&str>) -> (r: Option<DiskNodeView>)
        requires
            self.wf(),
        ensures
            match path {
                None => r matches Some(v) && shows_view(v, self.tree, 0),
                Some(p) => {
                    let at = path_position(self.tree.paths@, p@);
                    if at < 0 {
                        r is None
                    } else {
                        r matches Some(v) && shows_view(v, self.tree, at)
                    }
                },
            },
    {
        let ghost t = self.tree;
        let ghost ps = self.tree.parents@;
        let n = self.tree.parents.len();
        let idx: usize = match path {
            None => 0,
            Some(p) => {
                proof {
                    lemma_path_position(self.tree.paths@, p@);
                }
                let mut i: usize = 0;
                let mut found: Option<usize> = None;
                while i < n
                    invariant_except_break
                        found is None,
                    invariant
                        i <= n,
                        n == self.tree.paths@.len(),
                        forall|e: int| 0 <= e < i ==> !crate::paths::same_path((#[trigger] self.tree.paths@[e])@, p@),
                    ensures
                        found matches Some(f) ==> f < n && crate::paths::same_path(self.tree.paths@[f as int]@, p@)
                            && forall|e: int| 0 <= e < f ==> !crate::paths::same_path((#[trigger] self.tree.paths@[e])@, p@),
                        found is None ==> forall|e: int| 0 <= e < n ==> !crate::paths::same_path((#[trigger] self.tree.paths@[e])@, p@),
                    decreases n - i,
                {
                    if crate::paths::same(self.tree.paths[i].as_str(), p) {
                        found = Some(i);
                        break;
                    }
                    i = i + 1;
                }
                match found {
                    Some(f) => {
                        proof {
                            let at = path_position(self.tree.paths@, p@);
                            if at != f {
                                if at >= 0 && at < f {
                                } else if at > f {
                                } else {
                                }
                            }
                        }
                        f
                    },
                    None => {
                        proof {
                            let at = path_position(self.tree.paths@, p@);
                            if at >= 0 {
                                assert(!crate::paths::same_path(self.tree.paths@[at]@, p@));
                            }
                        }
                        return None;
                    },
                }
            },
        };
        // children, in the order they were met
        let mut cl: Vec<usize> = Vec::new();
        let mut j: usize = 0;
        while j < n
            invariant
                j <= n,
                n == ps.len(),
                ps == self.tree.parents@,
                cl@.map_values(|x: usize| x as int) == child_list(ps, idx as int, j as int),
                forall|k: int| 0 <= k < cl@.len() ==> #[trigger] cl@[k] < j,
            decreases n - j,
        {
            let ghost prev = cl@;
            if let Some(q) = self.tree.parents[j] {
                if q == idx {
                    cl.push(j);
                    proof {
                        assert(cl@.map_values(|x: usize| x as int) =~= prev.map_values(|x: usize| x as int).push(j as int));
                    }
                }
            }
            j = j + 1;
        }
        let ghost cl_view = child_list(ps, idx as int, n as int);
        let mut keys: Vec<(u64, String)> = Vec::new();
        let mut k: usize = 0;
        while k < cl.len()
            invariant
                k <= cl@.len(),
                n == ps.len(),
                self.tree.wf(),
                t == self.tree,
                ps == self.tree.parents@,
                cl@.map_values(|x: usize| x as int) == cl_view,
                forall|a: int| 0 <= a < cl@.len() ==> #[trigger] cl@[a] < n,
                key_views(keys@) == dir_keys(t, cl_view).take(k as int),
            decreases cl@.len() - k,
        {
            let c = cl[k];
            let ghost prev = keys@;
            keys.push((self.tree.sizes[c], self.tree.names[c].clone()));
            proof {
                assert(cl_view[k as int] == c as int);
                assert(key_views(keys@) =~= key_views(prev).push((t.sizes@[c as int], t.names@[c as int]@)));
                assert(dir_keys(t, cl_view).take(k + 1) =~= dir_keys(t, cl_view).take(k as int).push((t.sizes@[c as int], t.names@[c as int]@)));
            }
            k = k + 1;
        }
        proof {
            assert(dir_keys(t, cl_view).take(k as int) =~= dir_keys(t, cl_view));
            assert(key_views(keys@).len() == keys@.len());
        }
        let order = largest_first(&keys);
        let mut children: Vec<DiskNode> = Vec::new();
        let mut k: usize = 0;
        while k < cl.len()
            invariant
                k <= cl@.len(),
                self.tree.wf(),
                t == self.tree,
                n == ps.len(),
                ps == self.tree.parents@,
                cl@.map_values(|x: usize| x as int) == cl_view,
                forall|a: int| 0 <= a < cl@.len() ==> #[trigger] cl@[a] < n,
                is_ordering(order@, cl@.len() as int),
                children@.len() == k,
                forall|a: int| 0 <= a < k ==> shows(#[trigger] children@[a], t, cl_view[order@[a] as int]),
            decreases cl@.len() - k,
        {
            let c = cl[order[k]];
            let v = self.view_of(c);
            children.push(v);
            proof {
                assert(cl_view[order@[k as int] as int] == c as int);
            }
            k = k + 1;
        }
        // the directories above, from the parent up
        let mut up: Vec<usize> = Vec::new();
        let mut cur: Option<usize> = self.tree.parents[idx];
        proof {
            if let Some(q) = ps[idx as int] {
                assert(ps[idx as int] matches Some(q2) && q2 < idx);
            }
        }
        while cur.is_some()
            invariant
                self.tree.wf(),
                ps == self.tree.parents@,
                idx < ps.len(),
                cur matches Some(c) ==> c < ps.len(),
                ancestors_from(ps, cur) + up@.map_values(|x: usize| x as int).reverse() == ancestors(ps, idx as int),
                forall|a: int| 0 <= a < up@.len() ==> #[trigger] up@[a] < ps.len(),
            decreases match cur {
                Some(c) => c + 1,
                None => 0,
            },
        {
            let c = cur.unwrap();
            let ghost prev = up@;
            up.push(c);
            let next = self.tree.parents[c];
            proof {
                assert(up@.map_values(|x: usize| x as int).reverse() =~= seq![c as int] + prev.map_values(|x: usize| x as int).reverse());
                if c > 0 {
                    assert(ps[c as int] matches Some(q) && q < c);
                }
                assert(ancestors_from(ps, next) == ancestors(ps, c as int));
            }
            cur = next;
        }
        let m = up.len();
        let mut crumbs: Vec<DiskNode> = Vec::new();
        let mut k: usize = 0;
        proof {
            assert(up@.map_values(|x: usize| x as int).reverse() =~= ancestors(ps, idx as int));
        }
        while k < m
            invariant
                k <= m,
                m == up@.len(),
                self.tree.wf(),
                t == self.tree,
                ps == self.tree.parents@,
                up@.map_values(|x: usize| x as int).reverse() == ancestors(ps, idx as int),
                forall|a: int| 0 <= a < up@.len() ==> #[trigger] up@[a] < ps.len(),
                crumbs@.len() == k,
                forall|a: int| 0 <= a < k ==> shows(#[trigger] crumbs@[a], t, ancestors(ps, idx as int)[a]),
            decreases m - k,
        {
            let c = up[m - 1 - k];
            let v = self.view_of(c);
            crumbs.push(v);
            proof {
                assert(up@.map_values(|x: usize| x as int).reverse()[k as int] == c as int);
            }
            k = k + 1;
        }
        let node = self.view_of(idx);
        let view = DiskNodeView { node, children, breadcrumbs: crumbs };
        proof {
            assert(key_views(keys@) == dir_keys(t, cl_view));
            assert(cl@.len() == cl_view.len());
        }
        Some(view)
    }

    /// The large files of at least `min_bytes`, biggest first, at most `limit` of them.
    pub fn large_files(&self, min_bytes: u64, limit: usize) -> (r: Vec<LargeFile>)
        ensures
            r@ == at_least(self.large_files@, min_bytes).take(
                if limit < at_least(self.large_files@, min_bytes).len() { limit as int } else { at_least(self.large_files@, min_bytes).len() as int },
            ),
    {
        let ghost fs = self.large_files@;
        let mut r: Vec<LargeFile> = Vec::new();
        let mut i: usize = 0;
        while i < self.large_files.len()
            invariant
                i <= fs.len(),
                fs == self.large_files@,
                r@ == at_least(fs.take(i as int), min_bytes).take(
                    if limit < at_least(fs.take(i as int), min_bytes).len() { limit as int } else { at_least(fs.take(i as int), min_bytes).len() as int },
                ),
            decreases fs.len() - i,
        {
            let ghost before = at_least(fs.take(i as int), min_bytes);
            proof {
                assert(fs.take(i + 1).drop_last() =~= fs.take(i as int));
            }
            if self.large_files[i].size_bytes >= min_bytes && r.len() < limit {
                r.push(self.large_files[i].copy());
                proof {
                    assert(at_least(fs.take(i + 1), min_bytes) == before.push(fs[i as int]));
                    assert(r@ =~= before.push(fs[i as int]).take(r@.len() as int));
                }
            } else if self.large_files[i].size_bytes >= min_bytes {
                proof {
                    assert(at_least(fs.take(i + 1), min_bytes) == before.push(fs[i as int]));
                    assert(before.push(fs[i as int]).take(limit as int) =~= before.take(limit as int));
                }
            }
            i = i + 1;
        }
        proof {
            assert(fs.take(fs.len() as int) =~= fs);
        }
        r
    }

    /// What the walk found, in figures.
    pub fn summary(&self) -> (r: DiskSummary)
        requires
            self.wf(),
        ensures
            r.scan_id@ == self.scan_id@,
            r.root@ == self.root@,
            r.status == self.status,
            r.total_bytes == self.tree.sizes@[0],
            r.file_count == self.tree.files@[0],
            r.dir_count == self.tree.dirs@[0],
            r.duration_ms == self.duration_ms,
            r.large_file_count == self.large_files@.len(),
            r.issue_count == self.issues@.len(),
            stat_views(r.top_extensions@) == stat_views(self.extensions@),
            r.started_at == self.started_at,
    {
        DiskSummary {
            scan_id: self.scan_id.clone(),
            root: self.root.clone(),
            status: self.status,
            total_bytes: self.tree.sizes[0],
            file_count: self.tree.files[0],
            dir_count: self.tree.dirs[0],
            duration_ms: self.duration_ms,
            large_file_count: self.large_files.len(),
            issue_count: self.issues.len(),
            top_extensions: copy_stats(&self.extensions),
            started_at: self.started_at,
        }
    }
}


// ----- large files as cleanup targets, and forgetting removed ones -----

/// `t` is the cleanup target that large file `f` becomes.
pub open spec fn target_of(t: CleanupTarget, f: LargeFile) -> bool {
    &&& t.id@ == f.target_id@
    &&& t.provider_id@ == LARGE_FILES_PROVIDER@
    &&& t.path@ == f.path@
    &&& t.kind == TargetKind::File
    &&& t.size_bytes == f.size_bytes
    &&& t.file_count == 1
    &&& t.risk == f.risk
    &&& t.label@ == f.name@
    &&& t.description matches Some(d) && d@ == f.extension@
    &&& t.modified_at == f.modified_at
    &&& !t.permanent_only
    &&& t.group is None
}

/// Whether `id` is one of `ids`.
pub open spec fn listed(ids: Seq<String>, id: Seq<char>) -> bool
    decreases ids.len(),
{
    ids.len() > 0 && (ids.last()@ == id || listed(ids.drop_last(), id))
}

/// The large files whose ids are not listed, in order.
pub open spec fn kept_files(fs: Seq<LargeFile>, ids: Seq<String>) -> Seq<LargeFile>
    decreases fs.len(),
{
    if fs.len() == 0 {
        Seq::empty()
    } else if listed(ids, fs.last().target_id@) {
        kept_files(fs.drop_last(), ids)
    } else {
        kept_files(fs.drop_last(), ids).push(fs.last())
    }
}

/// The walk's log once every listed large file has left its directory.
pub open spec fn forget_log(log: Seq<(int, nat)>, es: Seq<u64>, fs: Seq<LargeFile>, ids: Seq<String>) -> Seq<(int, nat)>
    decreases fs.len(),
{
    if fs.len() == 0 || es.len() == 0 {
        log
    } else {
        let l = forget_log(log, es.drop_last(), fs.drop_last(), ids);
        if listed(ids, fs.last().target_id@) {
            l.update(es.last() as int, (-1int, l[es.last() as int].1))
        } else {
            l
        }
    }
}

fn is_listed(ids: &[String], id: &str) -> (r: bool)
    ensures
        r == listed(ids@, id@),
{
    let mut i: usize = 0;
    while i < ids.len()
        invariant
            i <= ids@.len(),
            listed(ids@.take(i as int), id@) == false,
        decreases ids@.len() - i,
    {
        proof {
            assert(ids@.take(i + 1).drop_last() =~= ids@.take(i as int));
        }
        if crate::text::str_eq(ids[i].as_str(), id) {
            proof {
                lemma_listed_prefix(ids@, i + 1, id@);
            }
            return true;
        }
        i = i + 1;
    }
    assert(ids@.take(ids@.len() as int) =~= ids@);
    false
}

proof fn lemma_listed_prefix(ids: Seq<String>, k: int, id: Seq<char>)
    requires
        0 <= k <= ids.len(),
        listed(ids.take(k), id),
    ensures
        listed(ids, id),
    decreases ids.len() - k,
{
    if k < ids.len() {
        assert(ids.take(k + 1).drop_last() =~= ids.take(k));
        lemma_listed_prefix(ids, k + 1, id);
    } else {
        assert(ids.take(k) =~= ids);
    }
}

proof fn lemma_large_sum_prefix(fs: Seq<LargeFile>, k: int)
    requires
        0 <= k <= fs.len(),
    ensures
        large_sum(fs.take(k)) <= large_sum(fs),
    decreases fs.len() - k,
{
    if k < fs.len() {
        lemma_large_sum_prefix(fs, k + 1);
        assert(fs.take(k + 1).drop_last() =~= fs.take(k));
    } else {
        assert(fs.take(k) =~= fs);
    }
}

impl DiskAnalysis {
    /// The large files as a scan result of their own, so they can be planned and removed
    /// through the regular safety pipeline.
    pub fn large_files_result(&self) -> (r: ScanResult)
        requires
            self.wf(),
        ensures
            r.provider_id@ == LARGE_FILES_PROVIDER@,
            r.provider_name@ == "Large Files"@,
            r.category == Category::LargeFiles,
            r.targets@.len() == self.large_files@.len(),
            forall|j: int| 0 <= j < r.targets@.len() ==> target_of(#[trigger] r.targets@[j], self.large_files@[j]),
            r.total_bytes == large_sum(self.large_files@),
            r.total_files == self.large_files@.len(),
            r.duration_ms == self.duration_ms,
            r.issues@.len() == 0,
    {
        let ghost fs = self.large_files@;
        let mut targets: Vec<CleanupTarget> = Vec::new();
        let mut i: usize = 0;
        while i < self.large_files.len()
            invariant
                i <= fs.len(),
                fs == self.large_files@,
                targets@.len() == i,
                forall|j: int| 0 <= j < i ==> target_of(#[trigger] targets@[j], fs[j]),
                crate::models::sum_sizes(targets@) == large_sum(fs.take(i as int)),
                crate::models::sum_files(targets@) == i,
            decreases fs.len() - i,
        {
            let f = &self.large_files[i];
            let ghost prev = targets@;
            targets.push(CleanupTarget {
                id: f.target_id.clone(),
                provider_id: LARGE_FILES_PROVIDER.to_string(),
                path: f.path.clone(),
                kind: TargetKind::File,
                size_bytes: f.size_bytes,
                file_count: 1,
                risk: f.risk,
                label: f.name.clone(),
                description: Some(f.extension.clone()),
                modified_at: f.modified_at,
                permanent_only: false,
                group: None,
            });
            proof {
                assert(targets@.drop_last() =~= prev);
                assert(fs.take(i + 1).drop_last() =~= fs.take(i as int));
            }
            i = i + 1;
        }
        proof {
            assert(fs.take(fs.len() as int) =~= fs);
        }
        let mut r = ScanResult {
            provider_id: LARGE_FILES_PROVIDER.to_string(),
            provider_name: "Large Files".to_string(),
            category: Category::LargeFiles,
            targets,
            total_bytes: 0,
            total_files: 0,
            duration_ms: self.duration_ms,
            issues: Vec::new(),
        };
        r.recompute_totals();
        r
    }

    /// Forgets the large files whose target ids are listed, once they were removed, so later
    /// queries reflect what is on disk: each leaves its directory and every directory above it.
    pub fn forget_removed(&mut self, target_ids: &[String])
        requires
            old(self).wf(),
        ensures
            final(self).wf(),
            final(self).large_files@ == kept_files(old(self).large_files@, target_ids@),
            final(self).tree.log@ == forget_log(
                old(self).tree.log@,
                old(self).large_entries@,
                old(self).large_files@,
                target_ids@,
            ),
            final(self).tree.parents@ == old(self).tree.parents@,
            final(self).tree.names@ == old(self).tree.names@,
            final(self).tree.paths@ == old(self).tree.paths@,
            final(self).scan_id == old(self).scan_id,
            final(self).root == old(self).root,
            final(self).status == old(self).status,
            final(self).started_at == old(self).started_at,
            final(self).duration_ms == old(self).duration_ms,
            final(self).extensions == old(self).extensions,
            final(self).issues == old(self).issues,
    {
        let ghost fs0 = self.large_files@;
        let ghost es0 = self.large_entries@;
        let ghost ds0 = self.large_dirs@;
        let ghost log0 = self.tree.log@;
        let ghost ps0 = self.tree.parents@;
        let ghost names0 = self.tree.names@;
        let ghost paths0 = self.tree.paths@;
        let ghost before = *self;
        let n = self.large_files.len();
        let mut kept: Vec<LargeFile> = Vec::new();
        let mut kept_dirs: Vec<usize> = Vec::new();
        let mut kept_entries: Vec<u64> = Vec::new();
        let ghost mut src: Seq<int> = Seq::empty();
        let mut j: usize = 0;
        while j < n
            invariant
                j <= n,
                n == fs0.len(),
                fs0 == self.large_files@,
                es0 == self.large_entries@,
                ds0 == self.large_dirs@,
                es0.len() == n,
                ds0.len() == n,
                self.tree.wf(),
                self.tree.parents@ == ps0,
                self.tree.names@ == names0,
                self.tree.paths@ == paths0,
                self.tree.log@.len() == log0.len(),
                forall|k: int| 0 <= k < n ==> (#[trigger] es0[k]) < log0.len() && log0[es0[k] as int] == (ds0[k] as int, fs0[k].size_bytes as nat),
                forall|a: int, b: int| 0 <= a < b < n ==> (#[trigger] es0[a]) != (#[trigger] es0[b]),
                large_sum(fs0) <= u64::MAX,
                self.tree.log@ == forget_log(log0, es0.take(j as int), fs0.take(j as int), target_ids@),
                forall|k: int| j <= k < n ==> self.tree.log@[#[trigger] es0[k] as int] == log0[es0[k] as int],
                kept@ == kept_files(fs0.take(j as int), target_ids@),
                kept_dirs@.len() == kept@.len(),
                kept_entries@.len() == kept@.len(),
                src.len() == kept@.len(),
                forall|a: int| 0 <= a < src.len() ==> 0 <= #[trigger] src[a] < j && kept_entries@[a] == es0[src[a]]
                    && kept_dirs@[a] == ds0[src[a]] && kept@[a] == fs0[src[a]],
                forall|a: int, b: int| 0 <= a < b < src.len() ==> #[trigger] src[a] < #[trigger] src[b],
                large_sum(kept@) <= large_sum(fs0.take(j as int)),
                forall|a: int| 0 <= a < src.len() ==> !listed(target_ids@, fs0[#[trigger] src[a]].target_id@),
                self.scan_id == before.scan_id,
                self.root == before.root,
                self.status == before.status,
                self.started_at == before.started_at,
                self.duration_ms == before.duration_ms,
                self.extensions == before.extensions,
                self.issues == before.issues,
            decreases n - j,
        {
            let ghost lj = self.tree.log@;
            proof {
                assert(fs0.take(j + 1).drop_last() =~= fs0.take(j as int));
                assert(es0.take(j + 1).drop_last() =~= es0.take(j as int));
                assert(fs0.take(j + 1).last() == fs0[j as int]);
                assert(es0.take(j + 1).last() == es0[j as int]);
            }
            if is_listed(target_ids, self.large_files[j].target_id.as_str()) {
                let e = self.large_entries[j];
                let d = self.large_dirs[j];
                let size = self.large_files[j].size_bytes;
                self.tree.forget_file(Ghost(e as int), d, size);
                proof {
                    assert forall|k: int| j + 1 <= k < n implies self.tree.log@[#[trigger] es0[k] as int] == log0[es0[k] as int] by {
                        assert(es0[j as int] != es0[k]);
                    }
                }
            } else {
                let ghost prev = kept@;
                kept.push(self.large_files[j].copy());
                kept_dirs.push(self.large_dirs[j]);
                kept_entries.push(self.large_entries[j]);
                proof {
                    src = src.push(j as int);
                    assert(kept@ =~= prev.push(fs0[j as int]));
                    assert(kept@.drop_last() =~= prev);
                    assert forall|a: int| 0 <= a < src.len() implies 0 <= #[trigger] src[a] < j + 1 && kept_entries@[a] == es0[src[a]]
                        && kept_dirs@[a] == ds0[src[a]] && kept@[a] == fs0[src[a]] by {}
                }
            }
            j = j + 1;
        }
        proof {
            assert(fs0.take(n as int) =~= fs0);
            assert(es0.take(n as int) =~= es0);
            lemma_large_sum_prefix(fs0, n as int);
            // every kept file is still where it was: only listed files moved
            assert forall|a: int| 0 <= a < kept@.len() implies (#[trigger] kept_entries@[a]) < self.tree.log@.len()
                && self.tree.log@[kept_entries@[a] as int] == (kept_dirs@[a] as int, kept@[a].size_bytes as nat) by {
                lemma_forget_log_keeps(log0, es0, fs0, target_ids@, src[a]);
            }
            assert forall|a: int, b: int| 0 <= a < b < kept@.len() implies (#[trigger] kept_entries@[a]) != (#[trigger] kept_entries@[b]) by {
                assert(src[a] < src[b]);
            }
        }
        self.large_files = kept;
        self.large_dirs = kept_dirs;
        self.large_entries = kept_entries;
    }
}

/// A file that was not listed keeps its place in the log.
proof fn lemma_forget_log_keeps(log: Seq<(int, nat)>, es: Seq<u64>, fs: Seq<LargeFile>, ids: Seq<String>, k: int)
    requires
        es.len() == fs.len(),
        0 <= k < fs.len(),
        !listed(ids, fs[k].target_id@),
        forall|a: int, b: int| 0 <= a < b < es.len() ==> (#[trigger] es[a]) != (#[trigger] es[b]),
        forall|a: int| 0 <= a < es.len() ==> (#[trigger] es[a]) < log.len(),
    ensures
        forget_log(log, es, fs, ids)[es[k] as int] == log[es[k] as int],
        forget_log(log, es, fs, ids).len() == log.len(),
    decreases fs.len(),
{
    lemma_forget_log_len(log, es, fs, ids);
    assert forall|a: int| 0 <= a < es.drop_last().len() implies (#[trigger] es.drop_last()[a]) < log.len() by {
        assert(es.drop_last()[a] == es[a]);
    }
    assert forall|a: int, b: int| 0 <= a < b < es.drop_last().len() implies (#[trigger] es.drop_last()[a]) != (#[trigger] es.drop_last()[b]) by {
        assert(es.drop_last()[a] == es[a]);
        assert(es.drop_last()[b] == es[b]);
    }
    lemma_forget_log_len(log, es.drop_last(), fs.drop_last(), ids);
    if k < fs.len() - 1 {
        assert(es.drop_last()[k] == es[k]);
        assert(fs.drop_last()[k] == fs[k]);
        lemma_forget_log_keeps(log, es.drop_last(), fs.drop_last(), ids, k);
        assert(es[es.len() - 1] != es[k]);
    } else {
        assert forall|a: int| 0 <= a < es.drop_last().len() implies (#[trigger] es.drop_last()[a]) as int != es[k] as int by {
            assert(es.drop_last()[a] == es[a]);
        }
        lemma_forget_log_untouched(log, es.drop_last(), fs.drop_last(), ids, es[k] as int);
    }
}

proof fn lemma_forget_log_len(log: Seq<(int, nat)>, es: Seq<u64>, fs: Seq<LargeFile>, ids: Seq<String>)
    requires
        forall|a: int| 0 <= a < es.len() ==> (#[trigger] es[a]) < log.len(),
    ensures
        forget_log(log, es, fs, ids).len() == log.len(),
    decreases fs.len(),
{
    if fs.len() > 0 && es.len() > 0 {
        assert forall|a: int| 0 <= a < es.drop_last().len() implies (#[trigger] es.drop_last()[a]) < log.len() by {
            assert(es.drop_last()[a] == es[a]);
        }
        lemma_forget_log_len(log, es.drop_last(), fs.drop_last(), ids);
        assert(es[es.len() - 1] < log.len());
    }
}

/// A place that no listed file holds keeps its entry.
proof fn lemma_forget_log_untouched(log: Seq<(int, nat)>, es: Seq<u64>, fs: Seq<LargeFile>, ids: Seq<String>, x: int)
    requires
        es.len() == fs.len(),
        0 <= x < log.len(),
        forall|a: int| 0 <= a < es.len() ==> (#[trigger] es[a]) as int != x,
        forall|a: int| 0 <= a < es.len() ==> (#[trigger] es[a]) < log.len(),
    ensures
        forget_log(log, es, fs, ids)[x] == log[x],
    decreases fs.len(),
{
    if fs.len() > 0 {
        assert forall|a: int| 0 <= a < es.drop_last().len() implies (#[trigger] es.drop_last()[a]) as int != x by {
            assert(es.drop_last()[a] == es[a]);
        }
        assert forall|a: int| 0 <= a < es.drop_last().len() implies (#[trigger] es.drop_last()[a]) < log.len() by {
            assert(es.drop_last()[a] == es[a]);
        }
        lemma_forget_log_untouched(log, es.drop_last(), fs.drop_last(), ids, x);
        lemma_forget_log_len(log, es.drop_last(), fs.drop_last(), ids);
        assert(es[es.len() - 1] as int != x);
    }
}

} // verus!
