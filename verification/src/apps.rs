//! Uninstaller support: an application plus its leftover data, turned into cleanup targets that
//! flow through the normal safety pipeline.
//!
//! Listing applications, finding where their data lives and measuring it is the caller's part
//! (it reads the disk); what the pieces become is decided here.

use vstd::prelude::*;

use crate::models::{sum_sizes, Category, CleanupTarget, RiskLevel, ScanResult, TargetKind};
use crate::paths::{file_name, file_name_spec};
use crate::platform::{app_data_label, app_data_risk, AppDataKind, ApplicationInfo, RelatedPath};
use crate::providers::context::{Measurement, ScanOutput};
use crate::safety::{verdict, PathFacts, SafetyPolicy};
use crate::text::{concat, owned, str_eq};

verus! {

/// Provider id for uninstaller targets.
pub const UNINSTALLER_PROVIDER: &'static str = "uninstaller";

/// One piece of an application: the bundle itself or a leftover data location.
#[derive(Debug, Clone)]
pub struct AppDataItem {
    pub kind: AppDataKind,
    pub kind_label: String,
    pub target: CleanupTarget,
}

#[derive(Debug, Clone)]
pub struct AppDetail {
    pub app: ApplicationInfo,
    pub items: Vec<AppDataItem>,
    /// Bundle + all leftovers.
    pub total_bytes: u64,
    /// Leftovers only (what a plain drag-to-Trash would leave behind).
    pub leftover_bytes: u64,
    /// Other installed copies that answer to the same bundle identifier.
    ///
    /// Keeping `App-v1.2-backup.app` beside `App.app` is ordinary, and both copies read the
    /// same `Application Support`, `Caches` and `Preferences`, because those are keyed by
    /// bundle identifier rather than by which file was launched. Uninstalling the backup would
    /// then delete the settings of the copy still in use. When this is not empty the leftovers
    /// are reported as protected: they belong to no single copy, and once the others are gone a
    /// rescan finds nothing to share them with and offers them normally.
    pub shared_with: Vec<String>,
}

/// Progress event while application sizes are measured.
#[derive(Debug, Clone)]
pub struct AppsProgress {
    pub scan_id: String,
    pub done: usize,
    pub total: usize,
    pub app: ApplicationInfo,
}

/// The size of an application: its bundle's `bundle_bytes` as measured, or what the listing
/// said when the application has no path on disk to measure.
pub fn measure(app: &ApplicationInfo, bundle_bytes: u64) -> (r: Option<u64>)
    ensures
        r == if app.path@.len() == 0 {
            app.size_bytes
        } else {
            Some(bundle_bytes)
        },
{
    if app.path.as_str().is_empty() {
        app.size_bytes
    } else {
        Some(bundle_bytes)
    }
}

/// Whether `other` is another installed copy of the application with bundle id `id`.
pub open spec fn is_other_copy(app: ApplicationInfo, id: Seq<char>, other: ApplicationInfo) -> bool {
    &&& other.id@ != app.id@
    &&& other.bundle_id matches Some(b) && b@ == id
    &&& other.path@.len() > 0
}

/// The paths of the copies among `all` that are other copies of `app`, in order.
pub open spec fn copies_among(app: ApplicationInfo, id: Seq<char>, all: Seq<ApplicationInfo>) -> Seq<Seq<char>>
    decreases all.len(),
{
    if all.len() == 0 {
        Seq::empty()
    } else if is_other_copy(app, id, all.last()) {
        copies_among(app, id, all.drop_last()).push(all.last().path@)
    } else {
        copies_among(app, id, all.drop_last())
    }
}

/// Installed applications other than `app` that answer to the same bundle identifier.
///
/// Matched on the identifier, not the name: `PeterFan.app` and `PeterFan-v1.27.74-backup.app`
/// have different names and the same identifier, which is precisely the pair that shares data.
/// An application without an identifier matches nothing, since "no identifier" is not something
/// two applications can have in common.
pub fn other_copies(app: &ApplicationInfo, all: &Vec<ApplicationInfo>) -> (r: Vec<String>)
    ensures
        r@.map_values(|s: String| s@) == match app.bundle_id {
            Some(id) => if id@.len() > 0 {
                copies_among(*app, id@, all@)
            } else {
                Seq::empty()
            },
            None => Seq::empty(),
        },
{
    let id: &str = match &app.bundle_id {
        Some(b) => if b.as_str().is_empty() {
            return Vec::new();
        } else {
            b.as_str()
        },
        None => {
            return Vec::new();
        },
    };
    let mut r: Vec<String> = Vec::new();
    let mut i: usize = 0;
    while i < all.len()
        invariant
            i <= all@.len(),
            r@.map_values(|s: String| s@) == copies_among(*app, id@, all@.take(i as int)),
        decreases all@.len() - i,
    {
        let other = &all[i];
        let ghost prev = r@;
        proof {
            assert(all@.take(i + 1).drop_last() =~= all@.take(i as int));
            assert(all@.take(i + 1).last() == all@[i as int]);
        }
        let same_id = match &other.bundle_id {
            Some(b) => str_eq(b.as_str(), id),
            None => false,
        };
        if !str_eq(other.id.as_str(), app.id.as_str()) && same_id && !other.path.as_str().is_empty() {
            r.push(other.path.clone());
            proof {
                assert(r@.map_values(|s: String| s@) =~= prev.map_values(|s: String| s@).push(other.path@));
            }
        }
        i = i + 1;
    }
    proof {
        assert(all@.take(all@.len() as int) =~= all@);
    }
    r
}

/// The risk an application's piece gets before the safety policy has its say: a system
/// application's bundle is protected; so is leftover data another copy also reads.
pub open spec fn item_risk(app: ApplicationInfo, kind: AppDataKind, shared: bool) -> RiskLevel {
    if app.is_system && kind == AppDataKind::Application {
        RiskLevel::Protected
    } else if kind != AppDataKind::Application && shared {
        RiskLevel::Protected
    } else {
        app_data_risk(kind)
    }
}

/// What a piece is called: the application's name for the bundle, else the last component of
/// its path, else the kind of data.
pub open spec fn item_label(app: ApplicationInfo, kind: AppDataKind, path: Seq<char>) -> Seq<char> {
    if kind == AppDataKind::Application {
        app.name@
    } else {
        match file_name_spec(path) {
            Some(n) => n,
            None => app_data_label(kind),
        }
    }
}

/// The positions of the measurements that found something.
pub open spec fn found_positions(ms: Seq<Measurement>) -> Seq<int>
    decreases ms.len(),
{
    if ms.len() == 0 {
        Seq::empty()
    } else if ms.last().files == 0 && ms.last().bytes == 0 {
        found_positions(ms.drop_last())
    } else {
        found_positions(ms.drop_last()).push(ms.len() - 1)
    }
}

/// `item` is the piece that related path `rel`, measured as `m`, becomes.
pub open spec fn item_for(
    item: AppDataItem,
    policy: SafetyPolicy,
    app: ApplicationInfo,
    shared: bool,
    rel: RelatedPath,
    m: Measurement,
    facts: PathFacts,
) -> bool {
    let t = item.target;
    let risk = item_risk(app, rel.kind, shared);
    &&& item.kind == rel.kind
    &&& item.kind_label@ == app_data_label(rel.kind)
    &&& t.id@ == crate::models::make_id_spec(
        vstd::utf8::encode_utf8(UNINSTALLER_PROVIDER@),
        vstd::utf8::encode_utf8(rel.path@),
    )
    &&& t.provider_id@ == UNINSTALLER_PROVIDER@
    &&& t.path@ == rel.path@
    &&& t.kind == if m.is_dir { TargetKind::Directory } else { TargetKind::File }
    &&& t.size_bytes == m.bytes
    &&& t.file_count == m.files
    &&& t.risk == if verdict(policy@, rel.path@, facts) is Allowed { risk } else { RiskLevel::Protected }
    &&& t.label@ == item_label(app, rel.kind, rel.path@)
    &&& t.description matches Some(d) && d@ == app_data_label(rel.kind)
    &&& t.modified_at == m.modified_at
    &&& !t.permanent_only
    &&& t.group is None
}

/// Bytes of the pieces, and bytes of the pieces other than the bundle.
pub open spec fn item_bytes(items: Seq<AppDataItem>) -> (nat, nat)
    decreases items.len(),
{
    if items.len() == 0 {
        (0, 0)
    } else {
        let b = item_bytes(items.drop_last());
        let last = items.last();
        (
            b.0 + last.target.size_bytes as nat,
            b.1 + if last.kind != AppDataKind::Application { last.target.size_bytes as nat } else { 0 },
        )
    }
}

/// Position of the first bundle among the pieces, or -1.
pub open spec fn first_bundle(items: Seq<AppDataItem>) -> int
    decreases items.len(),
{
    if items.len() == 0 {
        -1
    } else if first_bundle(items.drop_last()) >= 0 {
        first_bundle(items.drop_last())
    } else if items.last().kind == AppDataKind::Application {
        items.len() - 1
    } else {
        -1
    }
}

proof fn lemma_first_bundle(items: Seq<AppDataItem>)
    ensures
        -1 <= first_bundle(items) < items.len(),
    decreases items.len(),
{
    if items.len() > 0 {
        lemma_first_bundle(items.drop_last());
    }
}

pub open spec fn measured_bytes(ms: Seq<Measurement>) -> nat
    decreases ms.len(),
{
    if ms.len() == 0 {
        0
    } else {
        measured_bytes(ms.drop_last()) + ms.last().bytes as nat
    }
}

proof fn lemma_measured_prefix(ms: Seq<Measurement>, k: int)
    requires
        0 <= k <= ms.len(),
    ensures
        measured_bytes(ms.take(k)) <= measured_bytes(ms),
    decreases ms.len() - k,
{
    if k < ms.len() {
        lemma_measured_prefix(ms, k + 1);
        assert(ms.take(k + 1).drop_last() =~= ms.take(k));
    } else {
        assert(ms.take(k) =~= ms);
    }
}

/// Copies an application's description, with the size replaced.
fn with_size(app: &ApplicationInfo, size_bytes: Option<u64>) -> (r: ApplicationInfo)
    ensures
        r == (ApplicationInfo { size_bytes, ..*app }),
{
    ApplicationInfo {
        id: app.id.clone(),
        name: app.name.clone(),
        path: app.path.clone(),
        version: crate::models::copy_opt_string(&app.version),
        bundle_id: crate::models::copy_opt_string(&app.bundle_id),
        publisher: crate::models::copy_opt_string(&app.publisher),
        size_bytes,
        modified_at: app.modified_at,
        source: app.source.clone(),
        is_system: app.is_system,
        uninstall_command: crate::models::copy_opt_string(&app.uninstall_command),
    }
}

/// An application plus its leftovers: `related[k]` is a place its data lives, `measured[k]`
/// what was found there and `facts[k]` what the file system says of the path. Places where
/// nothing was found are left out; the rest become targets with their risk settled by the
/// safety policy. `shared_with` lists the other copies of the application.
#[verifier::rlimit(40)]
pub fn detail_knowing_siblings(
    policy: &SafetyPolicy,
    app: &ApplicationInfo,
    related: &Vec<RelatedPath>,
    measured: &Vec<Measurement>,
    facts: &Vec<PathFacts>,
    shared_with: Vec<String>,
) -> (r: AppDetail)
    requires
        measured@.len() == related@.len(),
        facts@.len() == related@.len(),
        measured_bytes(measured@) <= u64::MAX,
    ensures
        r.items@.len() == found_positions(measured@).len(),
        forall|j: int| 0 <= j < r.items@.len() ==> item_for(
            #[trigger] r.items@[j],
            *policy,
            *app,
            shared_with@.len() > 0,
            related@[found_positions(measured@)[j]],
            measured@[found_positions(measured@)[j]],
            facts@[found_positions(measured@)[j]],
        ),
        r.total_bytes == item_bytes(r.items@).0,
        r.leftover_bytes == item_bytes(r.items@).1,
        r.app == (ApplicationInfo {
            size_bytes: if first_bundle(r.items@) >= 0 {
                Some(r.items@[first_bundle(r.items@)].target.size_bytes)
            } else {
                app.size_bytes
            },
            ..*app
        }),
        r.shared_with == shared_with,
{
    let shared = shared_with.len() > 0;
    let mut out = ScanOutput::default();
    let mut items: Vec<AppDataItem> = Vec::new();
    let mut total: u64 = 0;
    let mut leftover: u64 = 0;
    let mut bundle: Option<u64> = None;
    let mut k: usize = 0;
    while k < related.len()
        invariant
            k <= related@.len(),
            measured@.len() == related@.len(),
            facts@.len() == related@.len(),
            measured_bytes(measured@) <= u64::MAX,
            shared == (shared_with@.len() > 0),
            out.targets@.len() == items@.len(),
            items@.len() == found_positions(measured@.take(k as int)).len(),
            forall|j: int| 0 <= j < items@.len() ==> item_for(
                #[trigger] items@[j],
                *policy,
                *app,
                shared,
                related@[found_positions(measured@.take(k as int))[j]],
                measured@[found_positions(measured@.take(k as int))[j]],
                facts@[found_positions(measured@.take(k as int))[j]],
            ),
            forall|j: int| 0 <= j < found_positions(measured@.take(k as int)).len() ==> 0 <= #[trigger] found_positions(measured@.take(k as int))[j] < k,
            total == item_bytes(items@).0,
            leftover == item_bytes(items@).1,
            total <= measured_bytes(measured@.take(k as int)),
            leftover <= total,
            bundle == if first_bundle(items@) >= 0 { Some(items@[first_bundle(items@)].target.size_bytes) } else { None::<u64> },
        decreases related@.len() - k,
    {
        let rel = &related[k];
        let m = &measured[k];
        let ghost fp = found_positions(measured@.take(k as int));
        proof {
            assert(measured@.take(k + 1).drop_last() =~= measured@.take(k as int));
            assert(measured@.take(k + 1).last() == measured@[k as int]);
            lemma_measured_prefix(measured@, k + 1);
        }
        let is_bundle = rel.kind == AppDataKind::Application;
        let risk = if app.is_system && is_bundle {
            RiskLevel::Protected
        } else if !is_bundle && shared {
            RiskLevel::Protected
        } else {
            rel.kind.risk()
        };
        let label = match rel.kind {
            AppDataKind::Application => app.name.clone(),
            _ => match file_name(rel.path.as_str()) {
                Some(n) => n,
                None => owned(rel.kind.label()),
            },
        };
        let before = out.targets.len();
        let found = out.add_measured(
            policy,
            UNINSTALLER_PROVIDER,
            rel.path.as_str(),
            label,
            risk,
            Some(owned(rel.kind.label())),
            false,
            m,
            &facts[k],
        );
        if found {
            let target = out.targets[before].copy();
            proof {
                assert(out.targets@[before as int] == out.targets@.last());
            }
            let ghost prev = items@;
            items.push(AppDataItem { kind: rel.kind, kind_label: owned(rel.kind.label()), target });
            total = total + m.bytes;
            if !is_bundle {
                leftover = leftover + m.bytes;
            }
            if is_bundle && bundle.is_none() {
                bundle = Some(m.bytes);
            }
            proof {
                assert(items@.drop_last() =~= prev);
                lemma_first_bundle(prev);
                if first_bundle(prev) >= 0 {
                    assert(items@[first_bundle(prev)] == prev[first_bundle(prev)]);
                }
                let fp2 = found_positions(measured@.take(k + 1));
                assert(fp2 == fp.push(k as int));
                assert forall|j: int| 0 <= j < items@.len() implies item_for(
                    #[trigger] items@[j],
                    *policy,
                    *app,
                    shared,
                    related@[fp2[j]],
                    measured@[fp2[j]],
                    facts@[fp2[j]],
                ) by {
                    if j < prev.len() {
                        assert(items@[j] == prev[j]);
                        assert(fp2[j] == fp[j]);
                    }
                }
                assert forall|j: int| 0 <= j < fp2.len() implies 0 <= #[trigger] fp2[j] < k + 1 by {
                    if j < fp.len() {
                        assert(fp2[j] == fp[j]);
                    }
                }
            }
        } else {
            proof {
                assert(found_positions(measured@.take(k + 1)) == fp);
            }
        }
        k = k + 1;
    }
    proof {
        assert(measured@.take(related@.len() as int) =~= measured@);
    }
    let size = match bundle {
        Some(b) => Some(b),
        None => app.size_bytes,
    };
    AppDetail {
        app: with_size(app, size),
        items,
        total_bytes: total,
        leftover_bytes: leftover,
        shared_with,
    }
}

pub open spec fn item_targets(items: Seq<AppDataItem>) -> Seq<CleanupTarget> {
    items.map_values(|i: AppDataItem| i.target)
}

/// The detail as a scan result of its own, so its targets can be previewed and executed.
pub fn as_scan_result(detail: &AppDetail) -> (r: ScanResult)
    requires
        sum_sizes(item_targets(detail.items@)) <= u64::MAX,
        crate::models::sum_files(item_targets(detail.items@)) <= u64::MAX,
    ensures
        r.provider_id@ == UNINSTALLER_PROVIDER@,
        r.provider_name@ == "Uninstall "@ + detail.app.name@,
        r.category == Category::Applications,
        r.targets@ == item_targets(detail.items@),
        r.total_bytes == sum_sizes(r.targets@),
        r.total_files == crate::models::sum_files(r.targets@),
        r.duration_ms == 0,
        r.issues@.len() == 0,
{
    let mut targets: Vec<CleanupTarget> = Vec::new();
    let mut i: usize = 0;
    while i < detail.items.len()
        invariant
            i <= detail.items@.len(),
            targets@ == item_targets(detail.items@).take(i as int),
        decreases detail.items@.len() - i,
    {
        targets.push(detail.items[i].target.copy());
        i = i + 1;
        assert(targets@ =~= item_targets(detail.items@).take(i as int));
    }
    assert(item_targets(detail.items@).take(i as int) =~= item_targets(detail.items@));
    proof {
        reveal_strlit("Uninstall ");
    }
    let mut r = ScanResult {
        provider_id: owned(UNINSTALLER_PROVIDER),
        provider_name: concat("Uninstall ", detail.app.name.as_str()),
        category: Category::Applications,
        targets,
        total_bytes: 0,
        total_files: 0,
        duration_ms: 0,
        issues: Vec::new(),
    };
    r.recompute_totals();
    r
}

} // verus!
