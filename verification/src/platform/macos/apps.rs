//! Applications on macOS: `.app` bundles in `/Applications` and `~/Applications`, plus the
//! per-user data a bundle identifier leaves behind under `~/Library`.
//!
//! Listing directories, reading `Info.plist` and checking what exists is the caller's part;
//! what a bundle is called, where its data may be and which folders count as its own is
//! decided here.

use vstd::prelude::*;

use crate::analyzer::{is_ordering, key_views, largest_first, sorted_by_size};
use crate::models::{make_id_spec, CleanupTarget};
use crate::paths::{extension, extension_of, file_name, file_name_spec, join, join_spec, stem, stem_of};
use crate::platform::windows::rules::{related_views, utf8_len};
use crate::platform::{AppDataKind, ApplicationInfo, KnownPaths, RelatedPath};
use crate::text::{
    chars_of, owned, str_eq, str_less, string_from, string_of_range, string_views, trim_seq,
    trimmed_chars,
};

verus! {

/// The keys of an `Info.plist` that say what a bundle is, as read (strings only).
#[derive(Debug, Clone)]
pub struct BundleFields {
    pub display_name: Option<String>,
    pub name: Option<String>,
    pub identifier: Option<String>,
    pub short_version: Option<String>,
    pub version: Option<String>,
}

/// What a bundle says of itself.
#[derive(Debug, Clone)]
pub struct BundleMeta {
    pub name: Option<String>,
    pub bundle_id: Option<String>,
    pub version: Option<String>,
}

/// A field as used: trimmed, and nothing when that leaves it empty.
pub open spec fn field(v: Option<String>) -> Option<Seq<char>> {
    match v {
        Some(s) => if trim_seq(s@).len() > 0 {
            Some(trim_seq(s@))
        } else {
            None
        },
        None => None,
    }
}

pub open spec fn either(a: Option<Seq<char>>, b: Option<Seq<char>>) -> Option<Seq<char>> {
    if a is Some {
        a
    } else {
        b
    }
}

pub open spec fn opt_view(v: Option<String>) -> Option<Seq<char>> {
    match v {
        Some(s) => Some(s@),
        None => None,
    }
}

pub fn field_of(v: &Option<String>) -> (r: Option<String>)
    ensures
        opt_view(r) == field(*v),
{
    match v {
        Some(s) => {
            let t = trimmed_chars(s.as_str());
            if t.len() > 0 {
                Some(string_from(t.as_slice()))
            } else {
                None
            }
        },
        None => None,
    }
}

/// What the keys say: the display name or else the name, the identifier, and the short
/// version or else the version; each trimmed, and empty ones skipped.
pub fn bundle_meta(fields: &BundleFields) -> (r: BundleMeta)
    ensures
        opt_view(r.name) == either(field(fields.display_name), field(fields.name)),
        opt_view(r.bundle_id) == field(fields.identifier),
        opt_view(r.version) == either(field(fields.short_version), field(fields.version)),
{
    let name = match field_of(&fields.display_name) {
        Some(n) => Some(n),
        None => field_of(&fields.name),
    };
    let version = match field_of(&fields.short_version) {
        Some(v) => Some(v),
        None => field_of(&fields.version),
    };
    BundleMeta { name, bundle_id: field_of(&fields.identifier), version }
}

/// Whether a directory entry is an application bundle: its extension is `app`.
pub open spec fn is_bundle(path: Seq<char>) -> bool {
    file_name_spec(path) matches Some(n) && extension_of(n) == Some("app"@)
}

pub fn is_bundle_path(path: &str) -> (r: bool)
    ensures
        r == is_bundle(path@),
{
    proof {
        reveal_strlit("app");
    }
    match file_name(path) {
        Some(n) => match extension(n.as_str()) {
            Some(e) => str_eq(e.as_str(), "app"),
            None => false,
        },
        None => false,
    }
}

/// Whether the listing of `/Applications` goes one level into a folder that is not a bundle
/// (vendor folders); never into `Utilities`, and never below `~/Applications`.
pub open spec fn descends_into_spec(source: Seq<char>, path: Seq<char>) -> bool {
    source == "applications"@ && (file_name_spec(path) matches Some(n) && n != "Utilities"@)
}

pub fn descends_into(source: &str, path: &str) -> (r: bool)
    ensures
        r == descends_into_spec(source@, path@),
{
    proof {
        reveal_strlit("applications");
        reveal_strlit("Utilities");
    }
    if !str_eq(source, "applications") {
        return false;
    }
    match file_name(path) {
        Some(n) => !str_eq(n.as_str(), "Utilities"),
        None => false,
    }
}

/// Apple's own applications: their identifier starts with `com.apple.`, or they live under
/// `/System`.
pub open spec fn is_system_app(bundle_id: Option<Seq<char>>, path: Seq<char>) -> bool {
    (bundle_id matches Some(b) && (b.len() >= 10 && b.take(10) == "com.apple."@))
        || crate::paths::starts_with_spec(path, "/System"@)
}

/// The description of the bundle at `path`, found in the listing `source`, with what its
/// `Info.plist` says and when it was last modified. Finder shows the bundle's file name, and
/// the name in `Info.plist` is often a short internal one ("Code" for Visual Studio Code), so
/// the file's stem is preferred.
pub fn app_info(path: &str, source: &str, meta: BundleMeta, modified_at: Option<i64>) -> (r: ApplicationInfo)
    ensures
        r.id@ == make_id_spec(vstd::utf8::encode_utf8("app"@), vstd::utf8::encode_utf8(path@)),
        r.name@ == match file_name_spec(path@) {
            Some(n) => if stem_of(n).len() > 0 {
                stem_of(n)
            } else {
                match meta.name {
                    Some(m) => m@,
                    None => Seq::empty(),
                }
            },
            None => match meta.name {
                Some(m) => m@,
                None => Seq::empty(),
            },
        },
        r.path@ == path@,
        r.version == meta.version,
        r.bundle_id == meta.bundle_id,
        r.publisher is None,
        r.size_bytes is None,
        r.modified_at == modified_at,
        r.source@ == source@,
        r.is_system == is_system_app(opt_view(meta.bundle_id), path@),
        r.uninstall_command is None,
{
    let stem_text = match file_name(path) {
        Some(n) => stem(n.as_str()),
        None => String::new(),
    };
    let is_system = (match &meta.bundle_id {
        Some(b) => {
            let cs = chars_of(b.as_str());
            if cs.len() >= 10 {
                let head = string_of_range(cs.as_slice(), 0, 10);
                proof {
                    reveal_strlit("com.apple.");
                    assert(head@ == b@.take(10));
                }
                str_eq(head.as_str(), "com.apple.")
            } else {
                false
            }
        },
        None => false,
    }) || crate::paths::starts_with(path, "/System");
    let name = if stem_text.as_str().is_empty() {
        match meta.name {
            Some(m) => m,
            None => String::new(),
        }
    } else {
        stem_text
    };
    ApplicationInfo {
        id: CleanupTarget::make_id("app", path),
        name,
        path: owned(path),
        version: meta.version,
        bundle_id: meta.bundle_id,
        publisher: None,
        size_bytes: None,
        modified_at,
        source: owned(source),
        is_system,
        uninstall_command: None,
    }
}

// ----- where an application's data may be -----

/// The folders under `~/Library` whose entries are matched by identifier prefix, with the kind
/// each holds, in the order they are looked at.
pub open spec fn prefix_folders() -> Seq<(Seq<char>, AppDataKind)> {
    seq![
        ("Preferences"@, AppDataKind::Preferences),
        ("Saved Application State"@, AppDataKind::SavedState),
        ("HTTPStorages"@, AppDataKind::HttpStorages),
        ("LaunchAgents"@, AppDataKind::LaunchAgents),
        ("Logs/DiagnosticReports"@, AppDataKind::CrashReports),
    ]
}

pub fn prefix_folder_list() -> (r: Vec<(&'static str, AppDataKind)>)
    ensures
        r@.map_values(|x: (&'static str, AppDataKind)| (x.0@, x.1)) == prefix_folders(),
{
    let mut v: Vec<(&'static str, AppDataKind)> = Vec::new();
    v.push(("Preferences", AppDataKind::Preferences));
    v.push(("Saved Application State", AppDataKind::SavedState));
    v.push(("HTTPStorages", AppDataKind::HttpStorages));
    v.push(("LaunchAgents", AppDataKind::LaunchAgents));
    v.push(("Logs/DiagnosticReports", AppDataKind::CrashReports));
    assert(v@.map_values(|x: (&'static str, AppDataKind)| (x.0@, x.1)) =~= prefix_folders());
    v
}

/// The folders to list for the application with identifier `bundle_id`: the prefix folders
/// under `~/Library`.
pub fn prefix_folder_paths(known: &KnownPaths) -> (r: Vec<String>)
    ensures
        r@.len() == prefix_folders().len(),
        forall|k: int| 0 <= k < r@.len() ==> (#[trigger] r@[k])@ == join_spec(join_spec(known.home@, "Library"@), prefix_folders()[k].0),
{
    let lib = join(known.home.as_str(), "Library");
    let list = prefix_folder_list();
    let mut r: Vec<String> = Vec::new();
    let mut i: usize = 0;
    while i < list.len()
        invariant
            i <= list@.len(),
            list@.map_values(|x: (&'static str, AppDataKind)| (x.0@, x.1)) == prefix_folders(),
            lib@ == join_spec(known.home@, "Library"@),
            r@.len() == i,
            forall|k: int| 0 <= k < i ==> (#[trigger] r@[k])@ == join_spec(lib@, prefix_folders()[k].0),
        decreases list@.len() - i,
    {
        assert(prefix_folders()[i as int].0 == list@[i as int].0@);
        r.push(join(lib.as_str(), list[i].0));
        i = i + 1;
    }
    r
}

/// An entry named `name` belongs to the identifier `prefix`: it is the identifier, or the
/// identifier followed by `.` or `-` (`com.foo.Bar.plist`, `com.foo.Bar.savedState`).
pub open spec fn prefixed_by(name: Seq<char>, prefix: Seq<char>) -> bool {
    name == prefix || (name.len() > prefix.len() && name.take(prefix.len() as int) == prefix && (
    name[prefix.len() as int] == '.' || name[prefix.len() as int] == '-'))
}

pub fn is_prefixed(name: &str, prefix: &str) -> (r: bool)
    ensures
        r == prefixed_by(name@, prefix@),
{
    if str_eq(name, prefix) {
        return true;
    }
    let n = chars_of(name);
    let p = chars_of(prefix);
    if n.len() <= p.len() {
        return false;
    }
    let head = string_of_range(n.as_slice(), 0, p.len());
    proof {
        assert(head@ == name@.take(prefix@.len() as int));
    }
    str_eq(head.as_str(), prefix) && (n[p.len()] == '.' || n[p.len()] == '-')
}

/// The entries of a listed folder that belong to the identifier, in listing order.
pub open spec fn prefixed_entries(entries: Seq<Seq<char>>, prefix: Seq<char>) -> Seq<Seq<char>>
    decreases entries.len(),
{
    if entries.len() == 0 {
        Seq::empty()
    } else if file_name_spec(entries.last()) matches Some(n) && prefixed_by(n, prefix) {
        prefixed_entries(entries.drop_last(), prefix).push(entries.last())
    } else {
        prefixed_entries(entries.drop_last(), prefix)
    }
}

/// Folder names an application may use for its data, as given: its name, trimmed, and the name
/// its `Info.plist` declares. Short names (under three bytes) and names holding `/` are
/// dropped, so unrelated folders are not matched.
pub open spec fn name_usable(n: Seq<char>) -> bool {
    utf8_len(n) >= 3 && !n.contains('/')
}

pub open spec fn with_kind(kind: AppDataKind, paths: Seq<Seq<char>>) -> Seq<(AppDataKind, Seq<char>)> {
    paths.map_values(|p: Seq<char>| (kind, p))
}

/// The places looked at for names: `Application Support/<name>`, `Caches/<name>` and
/// `Logs/<name>` for each name in turn.
pub open spec fn name_places(lib: Seq<char>, names: Seq<Seq<char>>) -> Seq<(AppDataKind, Seq<char>)>
    decreases names.len(),
{
    if names.len() == 0 {
        Seq::empty()
    } else {
        let n = names.last();
        name_places(lib, names.drop_last()) + seq![
            (AppDataKind::ApplicationSupport, join_spec(join_spec(lib, "Application Support"@), n)),
            (AppDataKind::Caches, join_spec(join_spec(lib, "Caches"@), n)),
            (AppDataKind::Logs, join_spec(join_spec(lib, "Logs"@), n)),
        ]
    }
}

/// The places matched by identifier prefix: for each prefix folder in turn, its listed entries
/// (`listings[k]`) that belong to the identifier.
pub open spec fn listed_places(bid: Seq<char>, listings: Seq<Seq<Seq<char>>>) -> Seq<(AppDataKind, Seq<char>)>
    decreases listings.len(),
{
    if listings.len() == 0 || listings.len() > prefix_folders().len() {
        Seq::empty()
    } else {
        let k = listings.len() - 1;
        listed_places(bid, listings.drop_last()) + with_kind(prefix_folders()[k].1, prefixed_entries(listings[k], bid))
    }
}

/// Where an application's data may be, in the order looked at: the bundle; with an identifier,
/// the folders named after it (`Caches`, `Application Support`, `Containers`, `WebKit`,
/// `HTTPStorages`, `Application Scripts`, `Logs`) and the entries of the prefix folders that
/// belong to it; then the places named after each of `names`.
pub open spec fn mac_candidates(
    app: ApplicationInfo,
    home: Seq<char>,
    names: Seq<Seq<char>>,
    listings: Seq<Seq<Seq<char>>>,
) -> Seq<(AppDataKind, Seq<char>)> {
    let lib = join_spec(home, "Library"@);
    let by_id = match app.bundle_id {
        Some(b) => {
            let bid = b@;
            seq![
                (AppDataKind::Caches, join_spec(join_spec(lib, "Caches"@), bid)),
                (AppDataKind::ApplicationSupport, join_spec(join_spec(lib, "Application Support"@), bid)),
                (AppDataKind::Containers, join_spec(join_spec(lib, "Containers"@), bid)),
                (AppDataKind::WebKit, join_spec(join_spec(lib, "WebKit"@), bid)),
                (AppDataKind::HttpStorages, join_spec(join_spec(lib, "HTTPStorages"@), bid)),
                (AppDataKind::ApplicationScripts, join_spec(join_spec(lib, "Application Scripts"@), bid)),
                (AppDataKind::Logs, join_spec(join_spec(lib, "Logs"@), bid)),
            ] + listed_places(bid, listings)
        },
        None => Seq::empty(),
    };
    seq![(AppDataKind::Application, app.path@)] + by_id + name_places(lib, names)
}

fn push_place(out: &mut Vec<RelatedPath>, kind: AppDataKind, path: String)
    ensures
        related_views(final(out)@) == related_views(old(out)@).push((kind, path@)),
{
    out.push(RelatedPath { kind, path });
    assert(related_views(out@) =~= related_views(old(out)@).push((kind, path@)));
}

/// Where an application's data may be, before anything is checked on disk: `names` are its
/// data names (see [`data_names`]), `listings[k]` the entries of prefix folder `k` (see
/// [`prefix_folder_paths`]). The caller keeps those that exist, each once
/// ([`crate::platform::windows::rules::keep_existing`]).
pub fn mac_related_candidates(
    app: &ApplicationInfo,
    known: &KnownPaths,
    names: &Vec<String>,
    listings: &Vec<Vec<String>>,
) -> (r: Vec<RelatedPath>)
    requires
        listings@.len() == prefix_folders().len(),
    ensures
        related_views(r@) == mac_candidates(
            *app,
            known.home@,
            string_views(names@),
            listings@.map_values(|l: Vec<String>| string_views(l@)),
        ),
{
    let lib = join(known.home.as_str(), "Library");
    let ghost lv = listings@.map_values(|l: Vec<String>| string_views(l@));
    let mut out: Vec<RelatedPath> = Vec::new();
    push_place(&mut out, AppDataKind::Application, app.path.clone());
    let ghost first = related_views(out@);
    match &app.bundle_id {
        Some(b) => {
            let bid = b.as_str();
            push_place(&mut out, AppDataKind::Caches, join(join(lib.as_str(), "Caches").as_str(), bid));
            push_place(&mut out, AppDataKind::ApplicationSupport, join(join(lib.as_str(), "Application Support").as_str(), bid));
            push_place(&mut out, AppDataKind::Containers, join(join(lib.as_str(), "Containers").as_str(), bid));
            push_place(&mut out, AppDataKind::WebKit, join(join(lib.as_str(), "WebKit").as_str(), bid));
            push_place(&mut out, AppDataKind::HttpStorages, join(join(lib.as_str(), "HTTPStorages").as_str(), bid));
            push_place(&mut out, AppDataKind::ApplicationScripts, join(join(lib.as_str(), "Application Scripts").as_str(), bid));
            push_place(&mut out, AppDataKind::Logs, join(join(lib.as_str(), "Logs").as_str(), bid));
            let ghost fixed = related_views(out@);
            let folders = prefix_folder_list();
            let mut k: usize = 0;
            while k < folders.len()
                invariant
                    k <= folders@.len(),
                    folders@.len() == prefix_folders().len(),
                    listings@.len() == prefix_folders().len(),
                    folders@.map_values(|x: (&'static str, AppDataKind)| (x.0@, x.1)) == prefix_folders(),
                    lv == listings@.map_values(|l: Vec<String>| string_views(l@)),
                    bid@ == b@,
                    related_views(out@) == fixed + listed_places(b@, lv.take(k as int)),
                decreases folders@.len() - k,
            {
                let kind = folders[k].1;
                proof {
                    assert(prefix_folders()[k as int].1 == kind);
                    assert(lv.take(k + 1).drop_last() =~= lv.take(k as int));
                    assert(lv.take(k + 1)[k as int] == string_views(listings@[k as int]@));
                }
                let entries = &listings[k];
                let ghost before = related_views(out@);
                let mut j: usize = 0;
                while j < entries.len()
                    invariant
                        j <= entries@.len(),
                        bid@ == b@,
                        related_views(out@) == before + with_kind(kind, prefixed_entries(string_views(entries@).take(j as int), b@)),
                    decreases entries@.len() - j,
                {
                    let e = &entries[j];
                    proof {
                        assert(string_views(entries@).take(j + 1).drop_last() =~= string_views(entries@).take(j as int));
                        assert(string_views(entries@).take(j + 1).last() == e@);
                    }
                    let belongs = match file_name(e.as_str()) {
                        Some(n) => is_prefixed(n.as_str(), bid),
                        None => false,
                    };
                    let ghost t = string_views(entries@).take(j + 1);
                    let ghost pe = prefixed_entries(string_views(entries@).take(j as int), b@);
                    proof {
                        assert(t.drop_last() =~= string_views(entries@).take(j as int));
                        assert(t.last() == e@);
                        assert(belongs == (file_name_spec(e@) matches Some(n) && prefixed_by(n, b@)));
                    }
                    if belongs {
                        push_place(&mut out, kind, e.clone());
                        proof {
                            assert(prefixed_entries(t, b@) == pe.push(e@));
                            assert(with_kind(kind, pe.push(e@)) =~= with_kind(kind, pe).push((kind, e@)));
                        }
                    } else {
                        proof {
                            assert(prefixed_entries(t, b@) == pe);
                        }
                    }
                    j = j + 1;
                }
                proof {
                    assert(string_views(entries@).take(entries@.len() as int) =~= string_views(entries@));
                }
                k = k + 1;
            }
            proof {
                assert(lv.take(k as int) =~= lv);
            }
        },
        None => {},
    }
    let ghost with_ids = related_views(out@);
    let mut i: usize = 0;
    while i < names.len()
        invariant
            i <= names@.len(),
            lib@ == join_spec(known.home@, "Library"@),
            related_views(out@) == with_ids + name_places(lib@, string_views(names@).take(i as int)),
        decreases names@.len() - i,
    {
        let n = names[i].as_str();
        proof {
            assert(string_views(names@).take(i + 1).drop_last() =~= string_views(names@).take(i as int));
            assert(string_views(names@).take(i + 1).last() == n@);
        }
        push_place(&mut out, AppDataKind::ApplicationSupport, join(join(lib.as_str(), "Application Support").as_str(), n));
        push_place(&mut out, AppDataKind::Caches, join(join(lib.as_str(), "Caches").as_str(), n));
        push_place(&mut out, AppDataKind::Logs, join(join(lib.as_str(), "Logs").as_str(), n));
        i = i + 1;
    }
    proof {
        assert(string_views(names@).take(names@.len() as int) =~= string_views(names@));
    }
    out
}


/// The data names of an application (see [`name_usable`]), from its name and the name its
/// `Info.plist` declares: the usable ones, in text order, each once.
pub open spec fn data_names_spec(app_name: Seq<char>, declared: Option<Seq<char>>) -> Seq<Seq<char>> {
    let first = trim_seq(app_name);
    let xs: Seq<Seq<char>> = (if name_usable(first) { seq![first] } else { Seq::empty() }) + match declared {
        Some(d) => if name_usable(d) { seq![d] } else { Seq::empty() },
        None => Seq::empty(),
    };
    if xs.len() == 2 {
        if xs[0] == xs[1] {
            seq![xs[0]]
        } else if crate::text::seq_less(xs[1], xs[0]) {
            seq![xs[1], xs[0]]
        } else {
            xs
        }
    } else {
        xs
    }
}

fn usable(n: &str) -> (r: bool)
    ensures
        r == name_usable(n@),
{
    let cs = chars_of(n);
    let short = crate::analyzer::fits_in_bytes(cs.as_slice(), 2);
    let mut i: usize = 0;
    while i < cs.len()
        invariant
            i <= cs@.len(),
            cs@ == n@,
            forall|k: int| 0 <= k < i ==> cs@[k] != '/',
        decreases cs@.len() - i,
    {
        if cs[i] == '/' {
            assert(n@.contains('/')) by {
                assert(n@[i as int] == '/');
            }
            return false;
        }
        i = i + 1;
    }
    proof {
        if n@.contains('/') {
            let k = choose|k: int| 0 <= k < n@.len() && n@[k] == '/';
            assert(cs@[k] == '/');
        }
    }
    !short
}

/// Folder names an application may use for its data: its name plus the name its `Info.plist`
/// declares; short names are dropped to avoid matching unrelated folders.
pub fn data_names(app_name: &str, declared: Option<String>) -> (r: Vec<String>)
    ensures
        string_views(r@) == data_names_spec(app_name@, opt_view(declared)),
{
    let ghost dv = opt_view(declared);
    let first = string_from(trimmed_chars(app_name).as_slice());
    let mut xs: Vec<String> = Vec::new();
    if usable(first.as_str()) {
        xs.push(first);
    }
    match declared {
        Some(d) => {
            if usable(d.as_str()) {
                xs.push(d);
            }
        },
        None => {},
    }
    proof {
        let first_v = trim_seq(app_name@);
        let exp: Seq<Seq<char>> = (if name_usable(first_v) { seq![first_v] } else { Seq::empty() }) + match dv {
            Some(d) => if name_usable(d) { seq![d] } else { Seq::empty() },
            None => Seq::empty(),
        };
        assert(string_views(xs@) =~= exp);
    }
    if xs.len() == 2 {
        if str_eq(xs[0].as_str(), xs[1].as_str()) {
            xs.pop();
            proof {
                assert(string_views(xs@) =~= seq![data_names_spec(app_name@, dv)[0]]);
            }
            return xs;
        }
        if str_less(xs[1].as_str(), xs[0].as_str()) {
            let b = xs.pop().unwrap();
            let a = xs.pop().unwrap();
            let mut r: Vec<String> = Vec::new();
            r.push(b);
            r.push(a);
            proof {
                assert(string_views(r@) =~= seq![b@, a@]);
            }
            return r;
        }
    }
    xs
}


/// What `str::to_lowercase` yields for `s`.
pub uninterp spec fn lowercase_of(s: Seq<char>) -> Seq<char>;

/// `str::to_lowercase`: the Unicode lower-case form of `s`. For ASCII text that is the ASCII
/// lower-case form; beyond ASCII the name `lowercase_of` stands for it, as the full Unicode
/// mapping is the standard library's.
#[verifier::external_body]
pub(crate) fn lower_text(s: &str) -> (r: String)
    ensures
        r@ == lowercase_of(s@),
        (forall|i: int| 0 <= i < s@.len() ==> (s@[i] as u32) < 128) ==> r@ == crate::text::lower_seq(s@),
{
    s.to_lowercase()
}

pub open spec fn lower_name_keys(apps: Seq<ApplicationInfo>) -> Seq<(u64, Seq<char>)> {
    apps.map_values(|a: ApplicationInfo| (0u64, lowercase_of(a.name@)))
}

/// The applications ordered by lower-cased name; equal names keep their order.
pub fn sorted_by_name(apps: Vec<ApplicationInfo>) -> (r: Vec<ApplicationInfo>)
    ensures
        exists|order: Seq<usize>| {
            &&& #[trigger] is_ordering(order, apps@.len() as int)
            &&& sorted_by_size(lower_name_keys(apps@), order)
            &&& crate::analyzer::stable_for(lower_name_keys(apps@), order)
            &&& r@.len() == apps@.len()
            &&& forall|k: int| 0 <= k < r@.len() ==> #[trigger] r@[k] == apps@[order[k] as int]
        },
{
    let mut keys: Vec<(u64, String)> = Vec::new();
    let mut k: usize = 0;
    while k < apps.len()
        invariant
            k <= apps@.len(),
            key_views(keys@) == lower_name_keys(apps@).take(k as int),
        decreases apps@.len() - k,
    {
        let ghost prev = keys@;
        keys.push((0, lower_text(apps[k].name.as_str())));
        proof {
            assert(key_views(keys@) =~= key_views(prev).push((0u64, lowercase_of(apps@[k as int].name@))));
            assert(lower_name_keys(apps@).take(k + 1) =~= lower_name_keys(apps@).take(k as int).push((0u64, lowercase_of(apps@[k as int].name@))));
        }
        k = k + 1;
    }
    proof {
        assert(lower_name_keys(apps@).take(k as int) =~= lower_name_keys(apps@));
        assert(key_views(keys@).len() == keys@.len());
    }
    let order = largest_first(&keys);
    let mut r: Vec<ApplicationInfo> = Vec::new();
    let mut j: usize = 0;
    while j < apps.len()
        invariant
            j <= apps@.len(),
            is_ordering(order@, apps@.len() as int),
            r@.len() == j,
            forall|a: int| 0 <= a < j ==> #[trigger] r@[a] == apps@[order@[a] as int],
        decreases apps@.len() - j,
    {
        r.push(copy_app(&apps[order[j]]));
        j = j + 1;
    }
    r
}

/// A field-for-field copy.
pub fn copy_app(a: &ApplicationInfo) -> (r: ApplicationInfo)
    ensures
        r == *a,
{
    ApplicationInfo {
        id: a.id.clone(),
        name: a.name.clone(),
        path: a.path.clone(),
        version: crate::models::copy_opt_string(&a.version),
        bundle_id: crate::models::copy_opt_string(&a.bundle_id),
        publisher: crate::models::copy_opt_string(&a.publisher),
        size_bytes: a.size_bytes,
        modified_at: a.modified_at,
        source: a.source.clone(),
        is_system: a.is_system,
        uninstall_command: crate::models::copy_opt_string(&a.uninstall_command),
    }
}

} // verus!
