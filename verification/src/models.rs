//! Data shared between the library and its callers: risk levels, targets, scan results,
//! plans and operation records.
//!
//! Times are milliseconds since the Unix epoch.

use vstd::prelude::*;

use vstd::string::StringSliceAdditionalSpecFns;
use vstd::utf8::encode_utf8;

use crate::text::{push_char, str_eq};

verus! {

/// How dangerous it is to remove something, ordered from safest to most dangerous.
#[derive(Debug, Clone, Copy, PartialEq, Eq, PartialOrd, Ord, Hash, Structural)]
pub enum RiskLevel {
    /// Regenerated automatically, no user data. Browser caches, npm cache, logs.
    Safe,
    /// Cheap to rebuild but takes time. `node_modules`, build directories.
    Low,
    /// May contain state the user cares about. Application data, Xcode archives.
    Medium,
    /// Removal is likely to break something. Shown but never pre-selected.
    High,
    /// Never removable through Prune.
    Protected,
}


impl RiskLevel {
    /// Whether targets of this level may be pre-selected in a "recommended" cleanup.
    pub fn preselect(self) -> (r: bool)
        ensures
            r == (self == RiskLevel::Safe),
    {
        matches!(self, RiskLevel::Safe)
    }

    /// Everything but `Protected` can be removed.
    pub fn is_removable(self) -> (r: bool)
        ensures
            r == (self != RiskLevel::Protected),
    {
        !matches!(self, RiskLevel::Protected)
    }
}

/// High-level grouping used by the Cleaner UI.
#[derive(Debug, Clone, Copy, PartialEq, Eq, Hash, Structural)]
pub enum Category {
    SystemCache,
    ApplicationCache,
    BrowserCache,
    Logs,
    TemporaryFiles,
    Trash,
    DeveloperFiles,
    OldInstallers,
    LargeFiles,
    Applications,
}

pub open spec fn category_label(c: Category) -> Seq<char> {
    match c {
        Category::SystemCache => "System Cache"@,
        Category::ApplicationCache => "Application Cache"@,
        Category::BrowserCache => "Browser Cache"@,
        Category::Logs => "Logs"@,
        Category::TemporaryFiles => "Temporary Files"@,
        Category::Trash => "Trash"@,
        Category::DeveloperFiles => "Developer Files"@,
        Category::OldInstallers => "Old Installers"@,
        Category::LargeFiles => "Large Files"@,
        Category::Applications => "Applications"@,
    }
}

impl Category {
    pub fn label(self) -> (r: &'static str)
        ensures
            r@ == category_label(self),
    {
        match self {
            Category::SystemCache => "System Cache",
            Category::ApplicationCache => "Application Cache",
            Category::BrowserCache => "Browser Cache",
            Category::Logs => "Logs",
            Category::TemporaryFiles => "Temporary Files",
            Category::Trash => "Trash",
            Category::DeveloperFiles => "Developer Files",
            Category::OldInstallers => "Old Installers",
            Category::LargeFiles => "Large Files",
            Category::Applications => "Applications",
        }
    }
}

/// How a target gets removed.
#[derive(Debug, Clone, Copy, PartialEq, Eq, Hash, Structural)]
pub enum DeleteMode {
    /// Move to the OS trash / recycle bin (recoverable). The default.
    Trash,
    /// Remove immediately. Not recoverable.
    Permanent,
}

impl Default for DeleteMode {
    fn default() -> (r: Self)
        ensures
            r == DeleteMode::Trash,
    {
        DeleteMode::Trash
    }
}

/// Whether a target is a single file or a directory tree.
#[derive(Debug, Clone, Copy, PartialEq, Eq, Structural)]
pub enum TargetKind {
    File,
    Directory,
}

/// The project an artifact belongs to.
#[derive(Debug, Clone, PartialEq, Eq)]
pub struct TargetGroup {
    /// Path of the project directory.
    pub key: String,
    /// Its folder name.
    pub label: String,
    /// When someone last worked in it, when that is known.
    pub last_active_at: Option<i64>,
}

/// A single removable item discovered by a provider.
#[derive(Debug, Clone, PartialEq, Eq)]
pub struct CleanupTarget {
    /// Stable id derived from `provider_id` + `path` (see [`CleanupTarget::make_id`]). Used to
    /// refer to this target without ever sending the path back to the engine.
    pub id: String,
    pub provider_id: String,
    pub path: String,
    pub kind: TargetKind,
    pub size_bytes: u64,
    pub file_count: u64,
    pub risk: RiskLevel,
    /// Short display name, e.g. `Google Chrome` or `my-project/node_modules`.
    pub label: String,
    pub description: Option<String>,
    pub modified_at: Option<i64>,
    /// `true` when the item cannot be moved to the trash (e.g. it already *is* trash).
    pub permanent_only: bool,
    /// The project this target belongs to, for providers that know.
    pub group: Option<TargetGroup>,
}

pub fn copy_opt_string(s: &Option<String>) -> (r: Option<String>)
    ensures
        r == *s,
{
    match s {
        Some(v) => Some(v.clone()),
        None => None,
    }
}

impl TargetGroup {
    pub fn copy(&self) -> (r: TargetGroup)
        ensures
            r == *self,
    {
        TargetGroup {
            key: self.key.clone(),
            label: self.label.clone(),
            last_active_at: self.last_active_at,
        }
    }
}

impl CleanupTarget {
    /// Deterministic id: FNV-1a 64 of `provider_id\0path`, as sixteen hex digits.
    pub fn make_id(provider_id: &str, path: &str) -> (r: String)
        ensures
            r@ == make_id_spec(encode_utf8(provider_id@), encode_utf8(path@)),
    {
        let h0 = fnv_extend(FNV_OFFSET, provider_id.as_bytes());
        let zero: [u8; 1] = [0u8];
        let h1 = fnv_extend(h0, &zero);
        let h = fnv_extend(h1, path.as_bytes());
        proof {
            assert(zero@ == seq![0u8]);
            lemma_fnv_append(FNV_OFFSET, provider_id.spec_bytes(), seq![0u8]);
            lemma_fnv_append(FNV_OFFSET, provider_id.spec_bytes() + seq![0u8], path.spec_bytes());
        }
        let mut s = String::new();
        let mut i: u64 = 0;
        while i < 16
            invariant
                i <= 16,
                s@ == hex16(h).take(i as int),
            decreases 16 - i,
        {
            let shift: u64 = 60 - 4 * i;
            let nib: u64 = (h >> shift) & 0xf;
            assert(nib < 16) by (bit_vector)
                requires
                    nib == (h >> shift) & 0xf,
            ;
            let c = hex_char(nib);
            push_char(&mut s, c);
            assert(hex16(h).take(i + 1) == hex16(h).take(i as int).push(hex16(h)[i as int]));
            i = i + 1;
        }
        assert(hex16(h).take(16) == hex16(h));
        s
    }

    /// A field-for-field copy.
    pub fn copy(&self) -> (r: CleanupTarget)
        ensures
            r == *self,
    {
        CleanupTarget {
            id: self.id.clone(),
            provider_id: self.provider_id.clone(),
            path: self.path.clone(),
            kind: self.kind,
            size_bytes: self.size_bytes,
            file_count: self.file_count,
            risk: self.risk,
            label: self.label.clone(),
            description: copy_opt_string(&self.description),
            modified_at: self.modified_at,
            permanent_only: self.permanent_only,
            group: match &self.group {
                Some(g) => Some(g.copy()),
                None => None,
            },
        }
    }
}

pub const FNV_OFFSET: u64 = 0xcbf2_9ce4_8422_2325;
pub const FNV_PRIME: u64 = 0x0100_0000_01b3;

/// FNV-1a 64 over `bytes`, starting from `h`.
pub open spec fn fnv1a(h: u64, bytes: Seq<u8>) -> u64
    decreases bytes.len(),
{
    if bytes.len() == 0 {
        h
    } else {
        vstd::wrapping::u64_specs::wrapping_mul(
            fnv1a(h, bytes.drop_last()) ^ (bytes.last() as u64),
            FNV_PRIME,
        )
    }
}

/// The lower-case hexadecimal digit for `n < 16`.
pub open spec fn hex_digit(n: u64) -> char {
    if n < 10 {
        (('0' as u64) + n) as char
    } else {
        (('a' as u64) + n - 10) as char
    }
}

/// `h` as sixteen lower-case hexadecimal digits, most significant first (`{:016x}`).
pub open spec fn hex16(h: u64) -> Seq<char> {
    Seq::new(16, |i: int| hex_digit((h >> ((60 - 4 * i) as u64)) & 0xf))
}

/// The bytes a target id is computed from: the provider id, a zero byte, then the path.
pub open spec fn id_input(provider_id: Seq<u8>, path: Seq<u8>) -> Seq<u8> {
    provider_id + seq![0u8] + path
}

pub open spec fn make_id_spec(provider_id: Seq<u8>, path: Seq<u8>) -> Seq<char> {
    hex16(fnv1a(FNV_OFFSET, id_input(provider_id, path)))
}

fn hex_char(n: u64) -> (c: char)
    requires
        n < 16,
    ensures
        c == hex_digit(n),
{
    if n < 10 {
        let b: u8 = 48u8 + (n as u8);
        b as char
    } else {
        let b: u8 = 97u8 + (n as u8) - 10;
        b as char
    }
}

fn fnv_extend(h: u64, bytes: &[u8]) -> (r: u64)
    ensures
        r == fnv1a(h, bytes@),
{
    let mut acc = h;
    let mut i: usize = 0;
    while i < bytes.len()
        invariant
            i <= bytes@.len(),
            acc == fnv1a(h, bytes@.take(i as int)),
        decreases bytes@.len() - i,
    {
        assert(bytes@.take(i + 1).drop_last() == bytes@.take(i as int));
        acc = (acc ^ (bytes[i] as u64)).wrapping_mul(FNV_PRIME);
        i = i + 1;
    }
    assert(bytes@.take(bytes@.len() as int) == bytes@);
    acc
}

proof fn lemma_fnv_append(h: u64, a: Seq<u8>, b: Seq<u8>)
    ensures
        fnv1a(h, a + b) == fnv1a(fnv1a(h, a), b),
    decreases b.len(),
{
    if b.len() == 0 {
        assert(a + b == a);
    } else {
        assert((a + b).drop_last() == a + b.drop_last());
        lemma_fnv_append(h, a, b.drop_last());
    }
}

/// Non-fatal problem encountered while scanning (permission denied, vanished file, ...).
#[derive(Debug, Clone, PartialEq, Eq)]
pub struct ScanIssue {
    pub path: String,
    pub message: String,
}

impl ScanIssue {
    pub fn copy(&self) -> (r: ScanIssue)
        ensures
            r == *self,
    {
        ScanIssue { path: self.path.clone(), message: self.message.clone() }
    }
}

/// Sum of the sizes of `ts`.
pub open spec fn sum_sizes(ts: Seq<CleanupTarget>) -> nat
    decreases ts.len(),
{
    if ts.len() == 0 {
        0
    } else {
        sum_sizes(ts.drop_last()) + ts.last().size_bytes as nat
    }
}

/// Sum of the file counts of `ts`.
pub open spec fn sum_files(ts: Seq<CleanupTarget>) -> nat
    decreases ts.len(),
{
    if ts.len() == 0 {
        0
    } else {
        sum_files(ts.drop_last()) + ts.last().file_count as nat
    }
}

/// Result of a single provider run.
#[derive(Debug, Clone)]
pub struct ScanResult {
    pub provider_id: String,
    pub provider_name: String,
    pub category: Category,
    pub targets: Vec<CleanupTarget>,
    pub total_bytes: u64,
    pub total_files: u64,
    pub duration_ms: u64,
    pub issues: Vec<ScanIssue>,
}

/// Adds up sizes and file counts of `ts`.
pub fn target_totals(ts: &Vec<CleanupTarget>) -> (r: (u64, u64))
    requires
        sum_sizes(ts@) <= u64::MAX,
        sum_files(ts@) <= u64::MAX,
    ensures
        r.0 == sum_sizes(ts@),
        r.1 == sum_files(ts@),
{
    let mut bytes: u64 = 0;
    let mut files: u64 = 0;
    let mut i: usize = 0;
    while i < ts.len()
        invariant
            i <= ts@.len(),
            bytes == sum_sizes(ts@.take(i as int)),
            files == sum_files(ts@.take(i as int)),
            sum_sizes(ts@) <= u64::MAX,
            sum_files(ts@) <= u64::MAX,
        decreases ts@.len() - i,
    {
        proof {
            assert(ts@.take(i + 1).drop_last() == ts@.take(i as int));
            lemma_sums_prefix_bounded(ts@, i + 1);
        }
        bytes = bytes + ts[i].size_bytes;
        files = files + ts[i].file_count;
        i = i + 1;
    }
    assert(ts@.take(ts@.len() as int) == ts@);
    (bytes, files)
}

/// A prefix never adds up to more than the whole.
pub proof fn lemma_sums_prefix_bounded(ts: Seq<CleanupTarget>, k: int)
    requires
        0 <= k <= ts.len(),
    ensures
        sum_sizes(ts.take(k)) <= sum_sizes(ts),
        sum_files(ts.take(k)) <= sum_files(ts),
    decreases ts.len() - k,
{
    if k < ts.len() {
        lemma_sums_prefix_bounded(ts, k + 1);
        assert(ts.take(k + 1).drop_last() == ts.take(k));
    } else {
        assert(ts.take(k) == ts);
    }
}

/// A copy of the targets.
pub fn copy_targets(v: &Vec<CleanupTarget>) -> (r: Vec<CleanupTarget>)
    ensures
        r@ == v@,
{
    let mut out: Vec<CleanupTarget> = Vec::new();
    let mut i: usize = 0;
    while i < v.len()
        invariant
            i <= v@.len(),
            out@ == v@.take(i as int),
        decreases v@.len() - i,
    {
        out.push(v[i].copy());
        i = i + 1;
        assert(out@ =~= v@.take(i as int));
    }
    assert(v@.take(v@.len() as int) =~= v@);
    out
}

/// A copy of the issues.
pub fn copy_issues(v: &Vec<ScanIssue>) -> (r: Vec<ScanIssue>)
    ensures
        r@ == v@,
{
    let mut out: Vec<ScanIssue> = Vec::new();
    let mut i: usize = 0;
    while i < v.len()
        invariant
            i <= v@.len(),
            out@ == v@.take(i as int),
        decreases v@.len() - i,
    {
        out.push(v[i].copy());
        i = i + 1;
        assert(out@ =~= v@.take(i as int));
    }
    assert(v@.take(v@.len() as int) =~= v@);
    out
}

impl ScanResult {
    pub fn copy(&self) -> (r: ScanResult)
        ensures
            r.provider_id == self.provider_id,
            r.provider_name == self.provider_name,
            r.category == self.category,
            r.targets@ == self.targets@,
            r.total_bytes == self.total_bytes,
            r.total_files == self.total_files,
            r.duration_ms == self.duration_ms,
            r.issues@ == self.issues@,
    {
        ScanResult {
            provider_id: self.provider_id.clone(),
            provider_name: self.provider_name.clone(),
            category: self.category,
            targets: copy_targets(&self.targets),
            total_bytes: self.total_bytes,
            total_files: self.total_files,
            duration_ms: self.duration_ms,
            issues: copy_issues(&self.issues),
        }
    }

    /// Sets the totals to what the targets add up to.
    pub fn recompute_totals(&mut self)
        requires
            sum_sizes(old(self).targets@) <= u64::MAX,
            sum_files(old(self).targets@) <= u64::MAX,
        ensures
            final(self).total_bytes == sum_sizes(old(self).targets@),
            final(self).total_files == sum_files(old(self).targets@),
            final(self).targets == old(self).targets,
            final(self).provider_id == old(self).provider_id,
            final(self).provider_name == old(self).provider_name,
            final(self).category == old(self).category,
            final(self).duration_ms == old(self).duration_ms,
            final(self).issues == old(self).issues,
    {
        let (bytes, files) = target_totals(&self.targets);
        self.total_bytes = bytes;
        self.total_files = files;
    }
}

/// Lifecycle of a scan session.
#[derive(Debug, Clone, Copy, PartialEq, Eq, Structural)]
pub enum ScanStatus {
    Running,
    Completed,
    Cancelled,
    Failed,
}

/// Progress event emitted while a scan runs.
#[derive(Debug, Clone)]
pub struct ScanProgress {
    pub scan_id: String,
    pub provider_id: String,
    /// Files visited so far by this provider.
    pub scanned_files: u64,
    /// Bytes discovered so far by this provider.
    pub discovered_bytes: u64,
    pub current_path: Option<String>,
    pub providers_done: usize,
    pub providers_total: usize,
}

/// A complete scan: one result per provider.
#[derive(Debug, Clone)]
pub struct ScanSession {
    pub id: String,
    pub status: ScanStatus,
    pub started_at: i64,
    pub finished_at: Option<i64>,
    pub results: Vec<ScanResult>,
    pub total_bytes: u64,
    pub total_files: u64,
}

/// Every target of a session, result by result.
pub open spec fn session_targets(results: Seq<ScanResult>) -> Seq<CleanupTarget>
    decreases results.len(),
{
    if results.len() == 0 {
        Seq::empty()
    } else {
        session_targets(results.drop_last()) + results.last().targets@
    }
}

/// The first target of `ts` whose id is `id`.
pub open spec fn first_with_id(ts: Seq<CleanupTarget>, id: Seq<char>) -> Option<CleanupTarget>
    decreases ts.len(),
{
    if ts.len() == 0 {
        None
    } else if ts[0].id@ == id {
        Some(ts[0])
    } else {
        first_with_id(ts.drop_first(), id)
    }
}

/// Sum of the recorded result totals.
pub open spec fn sum_result_bytes(rs: Seq<ScanResult>) -> nat
    decreases rs.len(),
{
    if rs.len() == 0 {
        0
    } else {
        sum_result_bytes(rs.drop_last()) + rs.last().total_bytes as nat
    }
}

pub open spec fn sum_result_files(rs: Seq<ScanResult>) -> nat
    decreases rs.len(),
{
    if rs.len() == 0 {
        0
    } else {
        sum_result_files(rs.drop_last()) + rs.last().total_files as nat
    }
}

proof fn lemma_first_with_id_append(a: Seq<CleanupTarget>, b: Seq<CleanupTarget>, id: Seq<char>)
    ensures
        first_with_id(a + b, id) == (match first_with_id(a, id) {
            Some(t) => Some(t),
            None => first_with_id(b, id),
        }),
    decreases a.len(),
{
    if a.len() > 0 {
        assert((a + b).drop_first() == a.drop_first() + b);
        lemma_first_with_id_append(a.drop_first(), b, id);
    } else {
        assert(a + b == b);
    }
}

/// The first target of `ts` with id `id`, searching from the front.
fn find_in(ts: &Vec<CleanupTarget>, id: &str) -> (r: Option<usize>)
    ensures
        match r {
            Some(i) => i < ts@.len() && first_with_id(ts@, id@) == Some(ts@[i as int]),
            None => first_with_id(ts@, id@) is None,
        },
{
    let mut i: usize = 0;
    assert(ts@.skip(0) == ts@);
    while i < ts.len()
        invariant
            i <= ts@.len(),
            first_with_id(ts@, id@) == first_with_id(ts@.skip(i as int), id@),
        decreases ts@.len() - i,
    {
        assert(ts@.skip(i as int)[0] == ts@[i as int]);
        if str_eq(ts[i].id.as_str(), id) {
            return Some(i);
        }
        assert(ts@.skip(i as int).drop_first() == ts@.skip(i + 1));
        i = i + 1;
    }
    None
}

impl ScanSession {
    /// The first target, over all results in order, whose id is `id`.
    pub fn find_target(&self, id: &str) -> (r: Option<&CleanupTarget>)
        ensures
            match r {
                Some(t) => first_with_id(session_targets(self.results@), id@) == Some(*t),
                None => first_with_id(session_targets(self.results@), id@) is None,
            },
    {
        let mut k: usize = 0;
        while k < self.results.len()
            invariant
                k <= self.results@.len(),
                first_with_id(session_targets(self.results@.take(k as int)), id@) is None,
            decreases self.results@.len() - k,
        {
            proof {
                assert(self.results@.take(k + 1).drop_last() == self.results@.take(k as int));
                lemma_first_with_id_append(
                    session_targets(self.results@.take(k as int)),
                    self.results@[k as int].targets@,
                    id@,
                );
            }
            match find_in(&self.results[k].targets, id) {
                Some(i) => {
                    proof {
                        lemma_prefix_then_rest(self.results@, k as int, id@);
                    }
                    return Some(&self.results[k].targets[i]);
                },
                None => {},
            }
            k = k + 1;
        }
        assert(self.results@.take(self.results@.len() as int) == self.results@);
        None
    }

    /// Sets the totals to what the results add up to.
    pub fn recompute_totals(&mut self)
        requires
            sum_result_bytes(old(self).results@) <= u64::MAX,
            sum_result_files(old(self).results@) <= u64::MAX,
        ensures
            final(self).total_bytes == sum_result_bytes(old(self).results@),
            final(self).total_files == sum_result_files(old(self).results@),
            final(self).results == old(self).results,
            final(self).id == old(self).id,
            final(self).status == old(self).status,
            final(self).started_at == old(self).started_at,
            final(self).finished_at == old(self).finished_at,
    {
        let mut bytes: u64 = 0;
        let mut files: u64 = 0;
        let mut i: usize = 0;
        while i < self.results.len()
            invariant
                i <= self.results@.len(),
                bytes == sum_result_bytes(self.results@.take(i as int)),
                files == sum_result_files(self.results@.take(i as int)),
                sum_result_bytes(self.results@) <= u64::MAX,
                sum_result_files(self.results@) <= u64::MAX,
            decreases self.results@.len() - i,
        {
            proof {
                assert(self.results@.take(i + 1).drop_last() == self.results@.take(i as int));
                lemma_result_sums_prefix(self.results@, i + 1);
            }
            bytes = bytes + self.results[i].total_bytes;
            files = files + self.results[i].total_files;
            i = i + 1;
        }
        assert(self.results@.take(self.results@.len() as int) == self.results@);
        self.total_bytes = bytes;
        self.total_files = files;
    }
}

proof fn lemma_result_sums_prefix(rs: Seq<ScanResult>, k: int)
    requires
        0 <= k <= rs.len(),
    ensures
        sum_result_bytes(rs.take(k)) <= sum_result_bytes(rs),
        sum_result_files(rs.take(k)) <= sum_result_files(rs),
    decreases rs.len() - k,
{
    if k < rs.len() {
        lemma_result_sums_prefix(rs, k + 1);
        assert(rs.take(k + 1).drop_last() == rs.take(k));
    } else {
        assert(rs.take(k) == rs);
    }
}

/// When nothing in the first `k` results matches, the answer over all results is the answer
/// over the `k`-th result's targets and onwards.
proof fn lemma_prefix_then_rest(rs: Seq<ScanResult>, k: int, id: Seq<char>)
    requires
        0 <= k < rs.len(),
        first_with_id(session_targets(rs.take(k)), id) is None,
        first_with_id(rs[k].targets@, id) is Some,
    ensures
        first_with_id(session_targets(rs), id) == first_with_id(rs[k].targets@, id),
    decreases rs.len() - k,
{
    lemma_session_targets_split(rs, k + 1);
    assert(rs.take(k + 1).drop_last() == rs.take(k));
    lemma_first_with_id_append(session_targets(rs.take(k)), rs[k].targets@, id);
    lemma_first_with_id_append(
        session_targets(rs.take(k + 1)),
        session_targets(rs.skip(k + 1)),
        id,
    );
}

/// The targets of the first results are a prefix of all targets.
pub proof fn lemma_session_targets_prefix_len(rs: Seq<ScanResult>, k: int)
    requires
        0 <= k <= rs.len(),
    ensures
        session_targets(rs.take(k)).len() <= session_targets(rs).len(),
        session_targets(rs.take(k)) == session_targets(rs).take(session_targets(rs.take(k)).len() as int),
{
    lemma_session_targets_split(rs, k);
    assert(session_targets(rs).take(session_targets(rs.take(k)).len() as int) =~= session_targets(rs.take(k)));
}

/// The targets of a session split where its results are split.
pub proof fn lemma_session_targets_split(rs: Seq<ScanResult>, k: int)
    requires
        0 <= k <= rs.len(),
    ensures
        session_targets(rs) == session_targets(rs.take(k)) + session_targets(rs.skip(k)),
    decreases rs.len(),
{
    if rs.len() == 0 {
        assert(rs.take(k) == rs);
        assert(rs.skip(k) == rs);
        assert(session_targets(rs.take(k)) + session_targets(rs.skip(k)) =~= Seq::empty());
    } else if k == rs.len() {
        assert(rs.take(k) == rs);
        assert(rs.skip(k) =~= Seq::<ScanResult>::empty());
        assert(session_targets(rs) + Seq::empty() =~= session_targets(rs));
    } else {
        lemma_session_targets_split(rs.drop_last(), k);
        assert(rs.drop_last().take(k) == rs.take(k));
        assert(rs.skip(k).drop_last() == rs.drop_last().skip(k));
        assert(rs.skip(k).last() == rs.last());
        assert(session_targets(rs) =~= session_targets(rs.take(k)) + session_targets(rs.skip(k)));
    }
}

/// Static description of a provider, for listing before any scan.
#[derive(Debug, Clone)]
pub struct ProviderInfo {
    pub id: String,
    pub name: String,
    pub category: Category,
    pub description: String,
    pub default_risk: RiskLevel,
    /// Whether this provider has anything to look at on the current machine.
    pub available: bool,
    /// Defined by the user in `providers.json` rather than built in.
    pub custom: bool,
}

/// A target that was requested but refused by the safety layer.
#[derive(Debug, Clone, PartialEq, Eq)]
pub struct BlockedTarget {
    pub target_id: String,
    pub path: String,
    pub reason: String,
}

/// Dry run: exactly what *would* be removed. Nothing is touched while building a plan.
#[derive(Debug, Clone)]
pub struct CleanupPlan {
    pub id: String,
    pub scan_id: String,
    pub mode: DeleteMode,
    pub created_at: i64,
    pub targets: Vec<CleanupTarget>,
    pub blocked: Vec<BlockedTarget>,
    pub total_bytes: u64,
    pub file_count: u64,
    pub directory_count: u64,
}

/// Progress event emitted while a plan executes.
#[derive(Debug, Clone)]
pub struct CleanupProgress {
    pub plan_id: String,
    pub done: usize,
    pub total: usize,
    pub current_path: String,
    pub removed_bytes: u64,
}

#[derive(Debug, Clone, PartialEq, Eq)]
pub struct FailedTarget {
    pub target_id: String,
    pub path: String,
    pub error: String,
}

#[derive(Debug, Clone, Copy, PartialEq, Eq, Structural)]
pub enum CleanupStatus {
    Success,
    Partial,
    Failed,
}

/// Outcome of executing a [`CleanupPlan`].
#[derive(Debug, Clone)]
pub struct CleanupResult {
    pub operation_id: String,
    pub plan_id: String,
    pub mode: DeleteMode,
    pub status: CleanupStatus,
    pub started_at: i64,
    pub finished_at: i64,
    pub removed_targets: usize,
    pub removed_files: u64,
    pub removed_bytes: u64,
    pub failed: Vec<FailedTarget>,
    /// Why the operation log could not be written, when it could not. The removals stand.
    pub log_error: Option<String>,
}

/// One line in the local operation log.
#[derive(Debug, Clone)]
pub struct OperationRecord {
    pub id: String,
    pub at: i64,
    pub title: String,
    pub mode: DeleteMode,
    pub status: CleanupStatus,
    pub removed_targets: usize,
    pub removed_files: u64,
    pub removed_bytes: u64,
    pub failed_count: usize,
    /// Provider ids involved, for display ("Clean Developer Cache").
    pub providers: Vec<String>,
}

} // verus!
