//! Which folders under `AppData` belong to an application.
//!
//! None of it needs Windows: it is path logic, it decides what an uninstall offers to delete,
//! and getting it wrong loses somebody's data.

use vstd::prelude::*;

use crate::paths::{join, join_spec, same_path};
use crate::platform::{AppDataKind, ApplicationInfo, KnownPaths, RelatedPath};
use crate::text::{ascii_lower, lower_seq, str_eq, str_views, string_from, trim_seq, trimmed_chars};

verus! {

/// Folder names under `AppData` that belong to a vendor, to Windows, or to every application
/// at once. A folder name is not proof of ownership: `%LOCALAPPDATA%\Programs` holds every
/// per-user installation and `%APPDATA%\Microsoft` holds Office templates, mail signatures and
/// the Start Menu. Handing either to one application because its name matched is the mistake
/// this list prevents.
pub open spec fn shared_folders() -> Seq<Seq<char>> {
    seq![
        "microsoft"@, "google"@, "mozilla"@, "adobe"@, "apple"@, "jetbrains"@, "oracle"@,
        "nvidia"@, "intel"@, "amd"@, "realtek"@,
        "temp"@, "tmp"@, "programs"@, "packages"@, "publishers"@, "virtualstore"@, "cache"@,
        "caches"@, "logs"@, "crashdumps"@, "crashpad"@, "connecteddevicesplatform"@,
        "elevateddiagnostics"@, "d3dscache"@, "iconcache"@, "history"@, "recent"@, "startmenu"@,
    ]
}

fn shared_list() -> (r: Vec<&'static str>)
    ensures
        str_views(r@) == shared_folders(),
{
    let mut v: Vec<&'static str> = Vec::new();
    v.push("microsoft");
    v.push("google");
    v.push("mozilla");
    v.push("adobe");
    v.push("apple");
    v.push("jetbrains");
    v.push("oracle");
    v.push("nvidia");
    v.push("intel");
    v.push("amd");
    v.push("realtek");
    v.push("temp");
    v.push("tmp");
    v.push("programs");
    v.push("packages");
    v.push("publishers");
    v.push("virtualstore");
    v.push("cache");
    v.push("caches");
    v.push("logs");
    v.push("crashdumps");
    v.push("crashpad");
    v.push("connecteddevicesplatform");
    v.push("elevateddiagnostics");
    v.push("d3dscache");
    v.push("iconcache");
    v.push("history");
    v.push("recent");
    v.push("startmenu");
    assert(str_views(v@) =~= shared_folders());
    v
}

/// How many bytes `c` takes in UTF-8.
pub open spec fn utf8_width(c: char) -> nat {
    if (c as u32) < 0x80 {
        1
    } else if (c as u32) < 0x800 {
        2
    } else if (c as u32) < 0x10000 {
        3
    } else {
        4
    }
}

/// How many bytes `s` takes in UTF-8 (`str::len`).
pub open spec fn utf8_len(s: Seq<char>) -> nat
    decreases s.len(),
{
    if s.len() == 0 {
        0
    } else {
        utf8_len(s.drop_last()) + utf8_width(s.last())
    }
}

pub proof fn lemma_utf8_len_grows(s: Seq<char>, n: int)
    requires
        0 <= n <= s.len(),
    ensures
        utf8_len(s.take(n)) <= utf8_len(s),
    decreases s.len() - n,
{
    if n < s.len() {
        lemma_utf8_len_grows(s, n + 1);
        assert(s.take(n + 1).drop_last() == s.take(n));
    } else {
        assert(s.take(n) == s);
    }
}

/// Whether `s` takes at least three bytes in UTF-8.
fn three_bytes_or_more(s: &[char]) -> (r: bool)
    ensures
        r == (utf8_len(s@) >= 3),
{
    let mut total: u64 = 0;
    let mut i: usize = 0;
    while i < s.len()
        invariant
            i <= s@.len(),
            total == utf8_len(s@.take(i as int)),
            total < 3,
        decreases s@.len() - i,
    {
        let c = s[i] as u32;
        let w: u64 = if c < 0x80 {
            1
        } else if c < 0x800 {
            2
        } else if c < 0x10000 {
            3
        } else {
            4
        };
        proof {
            assert(s@.take(i + 1).drop_last() == s@.take(i as int));
            assert(s@.take(i + 1).last() == s@[i as int]);
        }
        total = total + w;
        i = i + 1;
        if total >= 3 {
            proof {
                lemma_utf8_len_grows(s@, i as int);
            }
            return true;
        }
    }
    assert(s@.take(s@.len() as int) == s@);
    false
}

/// Whether `s` holds a path separator of either platform.
pub open spec fn has_separator(s: Seq<char>) -> bool {
    exists|k: int| 0 <= k < s.len() && (s[k] == '/' || s[k] == '\\')
}

/// A name long enough (three bytes once trimmed) and plain enough (no separator) to look for
/// as a folder at all.
pub open spec fn is_specific(name: Seq<char>) -> bool {
    let t = trim_seq(name);
    utf8_len(t) >= 3 && !has_separator(t)
}

/// A name that, as a folder directly under `AppData`, may be treated as the application's own:
/// specific enough, and not a shared folder.
pub open spec fn is_claimable(name: Seq<char>) -> bool {
    is_specific(name) && !shared_folders().contains(lower_seq(trim_seq(name)))
}

/// A folder shared by many programs is never handed to one application because its name
/// matched: Microsoft, Google, Mozilla, Adobe, Apple, JetBrains, Oracle, NVIDIA, Intel, AMD,
/// Realtek, and the common Temp, Tmp, Programs, Packages, Publishers, VirtualStore, Cache(s),
/// Logs, CrashDumps, Crashpad, ConnectedDevicesPlatform, ElevatedDiagnostics, D3DSCache,
/// IconCache, History, Recent and StartMenu folders, in any case.
pub proof fn lemma_shared_folders_are_never_claimed(name: Seq<char>)
    ensures
        lower_seq(trim_seq(name)) == "microsoft"@ ==> !is_claimable(name),
        lower_seq(trim_seq(name)) == "google"@ ==> !is_claimable(name),
        lower_seq(trim_seq(name)) == "mozilla"@ ==> !is_claimable(name),
        lower_seq(trim_seq(name)) == "adobe"@ ==> !is_claimable(name),
        lower_seq(trim_seq(name)) == "apple"@ ==> !is_claimable(name),
        lower_seq(trim_seq(name)) == "jetbrains"@ ==> !is_claimable(name),
        lower_seq(trim_seq(name)) == "oracle"@ ==> !is_claimable(name),
        lower_seq(trim_seq(name)) == "nvidia"@ ==> !is_claimable(name),
        lower_seq(trim_seq(name)) == "intel"@ ==> !is_claimable(name),
        lower_seq(trim_seq(name)) == "amd"@ ==> !is_claimable(name),
        lower_seq(trim_seq(name)) == "realtek"@ ==> !is_claimable(name),
        lower_seq(trim_seq(name)) == "temp"@ ==> !is_claimable(name),
        lower_seq(trim_seq(name)) == "tmp"@ ==> !is_claimable(name),
        lower_seq(trim_seq(name)) == "programs"@ ==> !is_claimable(name),
        lower_seq(trim_seq(name)) == "packages"@ ==> !is_claimable(name),
        lower_seq(trim_seq(name)) == "publishers"@ ==> !is_claimable(name),
        lower_seq(trim_seq(name)) == "virtualstore"@ ==> !is_claimable(name),
        lower_seq(trim_seq(name)) == "cache"@ ==> !is_claimable(name),
        lower_seq(trim_seq(name)) == "caches"@ ==> !is_claimable(name),
        lower_seq(trim_seq(name)) == "logs"@ ==> !is_claimable(name),
        lower_seq(trim_seq(name)) == "crashdumps"@ ==> !is_claimable(name),
        lower_seq(trim_seq(name)) == "crashpad"@ ==> !is_claimable(name),
        lower_seq(trim_seq(name)) == "connecteddevicesplatform"@ ==> !is_claimable(name),
        lower_seq(trim_seq(name)) == "elevateddiagnostics"@ ==> !is_claimable(name),
        lower_seq(trim_seq(name)) == "d3dscache"@ ==> !is_claimable(name),
        lower_seq(trim_seq(name)) == "iconcache"@ ==> !is_claimable(name),
        lower_seq(trim_seq(name)) == "history"@ ==> !is_claimable(name),
        lower_seq(trim_seq(name)) == "recent"@ ==> !is_claimable(name),
        lower_seq(trim_seq(name)) == "startmenu"@ ==> !is_claimable(name),
{
    assert(shared_folders()[0] == "microsoft"@);
    assert(shared_folders()[1] == "google"@);
    assert(shared_folders()[2] == "mozilla"@);
    assert(shared_folders()[3] == "adobe"@);
    assert(shared_folders()[4] == "apple"@);
    assert(shared_folders()[5] == "jetbrains"@);
    assert(shared_folders()[6] == "oracle"@);
    assert(shared_folders()[7] == "nvidia"@);
    assert(shared_folders()[8] == "intel"@);
    assert(shared_folders()[9] == "amd"@);
    assert(shared_folders()[10] == "realtek"@);
    assert(shared_folders()[11] == "temp"@);
    assert(shared_folders()[12] == "tmp"@);
    assert(shared_folders()[13] == "programs"@);
    assert(shared_folders()[14] == "packages"@);
    assert(shared_folders()[15] == "publishers"@);
    assert(shared_folders()[16] == "virtualstore"@);
    assert(shared_folders()[17] == "cache"@);
    assert(shared_folders()[18] == "caches"@);
    assert(shared_folders()[19] == "logs"@);
    assert(shared_folders()[20] == "crashdumps"@);
    assert(shared_folders()[21] == "crashpad"@);
    assert(shared_folders()[22] == "connecteddevicesplatform"@);
    assert(shared_folders()[23] == "elevateddiagnostics"@);
    assert(shared_folders()[24] == "d3dscache"@);
    assert(shared_folders()[25] == "iconcache"@);
    assert(shared_folders()[26] == "history"@);
    assert(shared_folders()[27] == "recent"@);
    assert(shared_folders()[28] == "startmenu"@);
}

fn separator_in(s: &[char]) -> (r: bool)
    ensures
        r == has_separator(s@),
{
    let mut i: usize = 0;
    while i < s.len()
        invariant
            i <= s@.len(),
            forall|k: int| 0 <= k < i ==> !(s@[k] == '/' || s@[k] == '\\'),
        decreases s@.len() - i,
    {
        if s[i] == '/' || s[i] == '\\' {
            return true;
        }
        i = i + 1;
    }
    false
}

/// `true` when a name is long enough and plain enough to look for as a folder at all.
pub fn specific_enough(name: &str) -> (r: bool)
    ensures
        r == is_specific(name@),
{
    let t = trimmed_chars(name);
    three_bytes_or_more(t.as_slice()) && !separator_in(t.as_slice())
}

/// `true` when a folder of this name, directly under `AppData`, may be treated as this
/// application's own. Short names match too much, and shared folders belong to no single
/// application.
pub fn claimable(name: &str) -> (r: bool)
    ensures
        r == is_claimable(name@),
{
    if !specific_enough(name) {
        return false;
    }
    let t = trimmed_chars(name);
    let l = ascii_lower(t.as_slice());
    let n = string_from(l.as_slice());
    let list = shared_list();
    let mut i: usize = 0;
    while i < list.len()
        invariant
            i <= list@.len(),
            str_views(list@) == shared_folders(),
            n@ == lower_seq(trim_seq(name@)),
            forall|j: int| 0 <= j < i ==> shared_folders()[j] != n@,
        decreases list@.len() - i,
    {
        assert(str_views(list@)[i as int] == list@[i as int]@);
        if str_eq(n.as_str(), list[i]) {
            return false;
        }
        i = i + 1;
    }
    proof {
        if shared_folders().contains(n@) {
            let j = choose|j: int| 0 <= j < shared_folders().len() && shared_folders()[j] == n@;
            assert(shared_folders()[j] != n@);
        }
    }
    true
}

/// A place to look, of a kind.
pub open spec fn candidate(kind: AppDataKind, path: Seq<char>) -> (AppDataKind, Seq<char>) {
    (kind, path)
}

/// The places an application's data may be, in the order they are looked at: its install
/// location; `<local>\<name>` and `<roaming>\<name>` when the name is claimable; and
/// `<local>\<publisher>\<name>` and `<roaming>\<publisher>\<name>` when there is a plain
/// publisher and the name is specific enough.
pub open spec fn candidates_of(app: ApplicationInfo, known: KnownPaths) -> Seq<(AppDataKind, Seq<char>)> {
    let name = trim_seq(app.name@);
    let install: Seq<(AppDataKind, Seq<char>)> = if app.path@.len() > 0 {
        seq![candidate(AppDataKind::Application, app.path@)]
    } else {
        Seq::empty()
    };
    let own: Seq<(AppDataKind, Seq<char>)> = if is_claimable(name) {
        (match known.local_app_data {
            Some(l) => seq![candidate(AppDataKind::LocalAppData, join_spec(l@, name))],
            None => Seq::empty(),
        }) + (match known.app_support {
            Some(r) => seq![candidate(AppDataKind::RoamingAppData, join_spec(r@, name))],
            None => Seq::empty(),
        })
    } else {
        Seq::empty()
    };
    let publisher = match app.publisher {
        Some(p) => trim_seq(p@),
        None => Seq::empty(),
    };
    let vendor: Seq<(AppDataKind, Seq<char>)> = if publisher.len() > 0 && is_specific(name)
        && !has_separator(publisher) {
        (match known.local_app_data {
            Some(l) => seq![candidate(AppDataKind::LocalAppData, join_spec(join_spec(l@, publisher), name))],
            None => Seq::empty(),
        }) + (match known.app_support {
            Some(r) => seq![candidate(AppDataKind::RoamingAppData, join_spec(join_spec(r@, publisher), name))],
            None => Seq::empty(),
        })
    } else {
        Seq::empty()
    };
    install + own + vendor
}

pub open spec fn related_views(v: Seq<RelatedPath>) -> Seq<(AppDataKind, Seq<char>)> {
    v.map_values(|r: RelatedPath| (r.kind, r.path@))
}

fn push_candidate(out: &mut Vec<RelatedPath>, kind: AppDataKind, path: String)
    ensures
        related_views(final(out)@) == related_views(old(out)@).push((kind, path@)),
{
    out.push(RelatedPath { kind, path });
    assert(related_views(out@) =~= related_views(old(out)@).push((kind, path@)));
}

/// The places an application's data may be, before anything is checked on disk.
pub fn related_candidates(app: &ApplicationInfo, known: &KnownPaths) -> (r: Vec<RelatedPath>)
    ensures
        related_views(r@) == candidates_of(*app, *known),
{
    let mut out: Vec<RelatedPath> = Vec::new();
    if !app.path.as_str().is_empty() {
        push_candidate(&mut out, AppDataKind::Application, app.path.clone());
    }
    let ghost install = related_views(out@);
    let name_chars = trimmed_chars(app.name.as_str());
    let name = string_from(name_chars.as_slice());
    if claimable(name.as_str()) {
        match &known.local_app_data {
            Some(l) => push_candidate(&mut out, AppDataKind::LocalAppData, join(l.as_str(), name.as_str())),
            None => {},
        }
        match &known.app_support {
            Some(r) => push_candidate(&mut out, AppDataKind::RoamingAppData, join(r.as_str(), name.as_str())),
            None => {},
        }
    }
    let ghost own_end = related_views(out@);
    let publisher: String = match &app.publisher {
        Some(p) => {
            let pc = trimmed_chars(p.as_str());
            string_from(pc.as_slice())
        },
        None => String::new(),
    };
    let pub_chars = crate::text::chars_of(publisher.as_str());
    if !publisher.as_str().is_empty() && specific_enough(name.as_str()) && !separator_in(pub_chars.as_slice()) {
        match &known.local_app_data {
            Some(l) => {
                let vendor_dir = join(l.as_str(), publisher.as_str());
                push_candidate(&mut out, AppDataKind::LocalAppData, join(vendor_dir.as_str(), name.as_str()));
            },
            None => {},
        }
        match &known.app_support {
            Some(r) => {
                let vendor_dir = join(r.as_str(), publisher.as_str());
                push_candidate(&mut out, AppDataKind::RoamingAppData, join(vendor_dir.as_str(), name.as_str()));
            },
            None => {},
        }
    }
    assert(related_views(out@) =~= candidates_of(*app, *known));
    out
}

/// The candidates that exist, each path once, in order.
pub open spec fn kept_related(cands: Seq<(AppDataKind, Seq<char>)>, exists: Seq<bool>) -> Seq<(AppDataKind, Seq<char>)>
    decreases cands.len(),
{
    if cands.len() == 0 {
        Seq::empty()
    } else {
        let prev = kept_related(cands.drop_last(), exists);
        let c = cands.last();
        if exists[cands.len() - 1] && !(exists|j: int| 0 <= j < prev.len() && same_path(#[trigger] prev[j].1, c.1)) {
            prev.push(c)
        } else {
            prev
        }
    }
}

/// Keeps the candidates that exist (`exists[i]` for `candidates[i]`), dropping a path that is
/// already kept.
pub fn keep_existing(candidates: Vec<RelatedPath>, exists: &Vec<bool>) -> (r: Vec<RelatedPath>)
    requires
        exists@.len() == candidates@.len(),
    ensures
        related_views(r@) == kept_related(related_views(candidates@), exists@),
{
    let ghost cv = related_views(candidates@);
    let mut out: Vec<RelatedPath> = Vec::new();
    let mut i: usize = 0;
    let rest = candidates;
    while i < rest.len()
        invariant
            i <= rest@.len(),
            rest@.len() == exists@.len(),
            related_views(rest@) == cv,
            related_views(out@) == kept_related(cv.take(i as int), exists@),
        decreases rest@.len() - i,
    {
        proof {
            assert(cv.take(i + 1).drop_last() == cv.take(i as int));
            assert(cv.take(i + 1).last() == cv[i as int]);
        }
        let c_path = rest[i].path.clone();
        let c_kind = rest[i].kind;
        assert(cv[i as int] == (c_kind, c_path@));
        if exists[i] {
            let mut dup = false;
            let mut j: usize = 0;
            while j < out.len()
                invariant
                    j <= out@.len(),
                    dup == exists|k: int| 0 <= k < j && same_path(#[trigger] related_views(out@)[k].1, c_path@),
                decreases out@.len() - j,
            {
                assert(related_views(out@)[j as int].1 == out@[j as int].path@);
                if crate::paths::same(out[j].path.as_str(), c_path.as_str()) {
                    dup = true;
                }
                j = j + 1;
            }
            if !dup {
                push_candidate(&mut out, c_kind, c_path);
            }
        }
        i = i + 1;
    }
    assert(cv.take(rest@.len() as int) == cv);
    out
}

} // verus!
