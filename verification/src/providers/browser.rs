//! Browser caches. Only *cache* directories — never cookies, history, passwords or sessions.
//!
//! Which directories exist is the caller's to find out; where to look, what counts as a
//! profile and which directories of a profile are caches is decided here.

use vstd::prelude::*;

use crate::analyzer::{is_ordering, key_views, largest_first, sorted_by_size, stable_for};
use crate::paths::{file_name, file_name_spec, join, join_spec};
use crate::platform::KnownPaths;
use crate::text::{concat, str_eq};

verus! {

/// A browser built on Chromium, and where it keeps its profiles.
#[derive(Debug, Clone, Copy)]
pub struct ChromiumBrowser {
    pub name: &'static str,
    /// Relative to `~/Library/Caches` (macOS) — holds `<Profile>/Cache`.
    pub mac_cache: &'static str,
    /// Relative to `~/Library/Application Support` (macOS) — holds `<Profile>/Code Cache`.
    pub mac_data: &'static str,
    /// Relative to `%LOCALAPPDATA%` (Windows) — `User Data/<Profile>/{Cache,Code Cache}`.
    pub win_data: &'static str,
}

pub open spec fn browser_view(b: ChromiumBrowser) -> (Seq<char>, Seq<char>, Seq<char>, Seq<char>) {
    (b.name@, b.mac_cache@, b.mac_data@, b.win_data@)
}

pub open spec fn chromium_table() -> Seq<(Seq<char>, Seq<char>, Seq<char>, Seq<char>)> {
    seq![
        ("Google Chrome"@, "Google/Chrome"@, "Google/Chrome"@, "Google\\Chrome\\User Data"@),
        ("Chromium"@, "Chromium"@, "Chromium"@, "Chromium\\User Data"@),
        ("Brave"@, "BraveSoftware/Brave-Browser"@, "BraveSoftware/Brave-Browser"@, "BraveSoftware\\Brave-Browser\\User Data"@),
        ("Microsoft Edge"@, "Microsoft Edge"@, "Microsoft Edge"@, "Microsoft\\Edge\\User Data"@),
        ("Arc"@, "company.thebrowser.Browser"@, "Arc/User Data"@, "Packages\\TheBrowserCompany.Arc_ttt1ap7aakyb4\\LocalCache\\Local\\Arc\\User Data"@),
        ("Vivaldi"@, "com.vivaldi.Vivaldi"@, "Vivaldi"@, "Vivaldi\\User Data"@),
        ("Opera"@, "com.operasoftware.Opera"@, "com.operasoftware.Opera"@, "Opera Software\\Opera Stable"@),
    ]
}

/// The Chromium browsers looked for, in order.
pub fn chromium_browsers() -> (r: Vec<ChromiumBrowser>)
    ensures
        r@.map_values(|b: ChromiumBrowser| browser_view(b)) == chromium_table(),
{
    let mut v: Vec<ChromiumBrowser> = Vec::new();
    v.push(ChromiumBrowser { name: "Google Chrome", mac_cache: "Google/Chrome", mac_data: "Google/Chrome", win_data: "Google\\Chrome\\User Data" });
    v.push(ChromiumBrowser { name: "Chromium", mac_cache: "Chromium", mac_data: "Chromium", win_data: "Chromium\\User Data" });
    v.push(ChromiumBrowser { name: "Brave", mac_cache: "BraveSoftware/Brave-Browser", mac_data: "BraveSoftware/Brave-Browser", win_data: "BraveSoftware\\Brave-Browser\\User Data" });
    v.push(ChromiumBrowser { name: "Microsoft Edge", mac_cache: "Microsoft Edge", mac_data: "Microsoft Edge", win_data: "Microsoft\\Edge\\User Data" });
    v.push(ChromiumBrowser { name: "Arc", mac_cache: "company.thebrowser.Browser", mac_data: "Arc/User Data", win_data: "Packages\\TheBrowserCompany.Arc_ttt1ap7aakyb4\\LocalCache\\Local\\Arc\\User Data" });
    v.push(ChromiumBrowser { name: "Vivaldi", mac_cache: "com.vivaldi.Vivaldi", mac_data: "Vivaldi", win_data: "Vivaldi\\User Data" });
    v.push(ChromiumBrowser { name: "Opera", mac_cache: "com.operasoftware.Opera", mac_data: "com.operasoftware.Opera", win_data: "Opera Software\\Opera Stable" });
    assert(v@.map_values(|b: ChromiumBrowser| browser_view(b)) =~= chromium_table());
    v
}

/// The directories of a profile that hold nothing but cache.
pub open spec fn cache_dirs() -> Seq<Seq<char>> {
    seq!["Cache"@, "Code Cache"@, "GPUCache"@, "DawnCache"@, "GrShaderCache"@, "ShaderCache"@]
}

/// What is cleared in a browser profile is its caches, and only its caches: the HTTP cache,
/// the compiled-code cache and the GPU, Dawn and shader caches. Logins, cookies, history and
/// bookmarks live elsewhere in the profile and are never among them.
pub proof fn lemma_only_caches_are_cleared()
    ensures
        cache_dirs().contains("Cache"@),
        cache_dirs().contains("Code Cache"@),
        cache_dirs().contains("GPUCache"@),
        cache_dirs().contains("DawnCache"@),
        cache_dirs().contains("GrShaderCache"@),
        cache_dirs().contains("ShaderCache"@),
        forall|i: int| 0 <= i < cache_dirs().len() ==> cache_dirs()[i] == "Cache"@ || cache_dirs()[i] == "Code Cache"@ || cache_dirs()[i] == "GPUCache"@ || cache_dirs()[i] == "DawnCache"@ || cache_dirs()[i] == "GrShaderCache"@ || cache_dirs()[i] == "ShaderCache"@,
{
    assert(cache_dirs()[0] == "Cache"@);
    assert(cache_dirs()[1] == "Code Cache"@);
    assert(cache_dirs()[2] == "GPUCache"@);
    assert(cache_dirs()[3] == "DawnCache"@);
    assert(cache_dirs()[4] == "GrShaderCache"@);
    assert(cache_dirs()[5] == "ShaderCache"@);
}

pub fn cache_dir_names() -> (r: Vec<&'static str>)
    ensures
        r@.map_values(|s: &'static str| s@) == cache_dirs(),
{
    let mut v: Vec<&'static str> = Vec::new();
    v.push("Cache");
    v.push("Code Cache");
    v.push("GPUCache");
    v.push("DawnCache");
    v.push("GrShaderCache");
    v.push("ShaderCache");
    assert(v@.map_values(|s: &'static str| s@) =~= cache_dirs());
    v
}

/// A profile directory is called `Default`, `Guest Profile`, or `Profile ` and anything.
pub open spec fn profile_name(name: Seq<char>) -> bool {
    name == "Default"@ || name == "Guest Profile"@ || (name.len() >= 8 && name.take(8) == "Profile "@)
}

pub fn is_profile_name(name: &str) -> (r: bool)
    ensures
        r == profile_name(name@),
{
    proof {
        reveal_strlit("Default");
        reveal_strlit("Guest Profile");
        reveal_strlit("Profile ");
    }
    if str_eq(name, "Default") || str_eq(name, "Guest Profile") {
        return true;
    }
    let cs = crate::text::chars_of(name);
    if cs.len() < 8 {
        return false;
    }
    let prefix = crate::text::string_of_range(cs.as_slice(), 0, 8);
    proof {
        assert(prefix@ == name@.take(8));
    }
    str_eq(prefix.as_str(), "Profile ")
}

/// Whether the directory at `path` (a directory, as the caller found) is a profile.
pub fn is_profile_dir(path: &str, is_dir: bool) -> (r: bool)
    ensures
        r == (is_dir && (file_name_spec(path@) matches Some(n) && profile_name(n))),
{
    match file_name(path) {
        Some(n) => is_dir && is_profile_name(n.as_str()),
        None => false,
    }
}

/// Where a browser's profiles live, on the platform asked about: under local application data
/// on Windows; under the cache root and under application support elsewhere.
pub open spec fn profile_roots_spec(b: ChromiumBrowser, known: KnownPaths, windows: bool) -> Seq<Seq<char>> {
    if windows {
        match known.local_app_data {
            Some(l) => seq![join_spec(l@, b.win_data@)],
            None => Seq::empty(),
        }
    } else {
        let first = match known.user_cache {
            Some(c) => seq![join_spec(c@, b.mac_cache@)],
            None => Seq::empty(),
        };
        let second = match known.app_support {
            Some(d) => seq![join_spec(d@, b.mac_data@)],
            None => Seq::empty(),
        };
        first + second
    }
}

/// Where a browser's profiles live.
///
/// Taking the platform as an argument rather than asking the machine makes both answers
/// reachable from a test on either machine. The directories this decides are the ones the scan
/// then looks inside, so getting them wrong is how a cleanup ends up somewhere it was never
/// meant to be.
pub fn profile_roots(b: &ChromiumBrowser, known: &KnownPaths, windows: bool) -> (r: Vec<String>)
    ensures
        r@.map_values(|s: String| s@) == profile_roots_spec(*b, *known, windows),
{
    let mut roots: Vec<String> = Vec::new();
    if windows {
        if let Some(local) = &known.local_app_data {
            roots.push(join(local.as_str(), b.win_data));
        }
    } else {
        if let Some(c) = &known.user_cache {
            roots.push(join(c.as_str(), b.mac_cache));
        }
        if let Some(d) = &known.app_support {
            roots.push(join(d.as_str(), b.mac_data));
        }
    }
    assert(roots@.map_values(|s: String| s@) =~= profile_roots_spec(*b, *known, windows));
    roots
}

/// The label a cache shows: browser, profile and cache, joined by ` · `.
pub open spec fn cache_label(browser: Seq<char>, profile: Seq<char>, dir: Seq<char>) -> Seq<char> {
    browser + " · "@ + profile + " · "@ + dir
}

/// The caches a profile may hold, each with its label: one per cache directory name, in order.
/// The caller keeps those that are directories.
pub fn cache_candidates(browser: &str, profile: &str) -> (r: Vec<(String, String)>)
    ensures
        r@.len() == cache_dirs().len(),
        forall|k: int| 0 <= k < r@.len() ==> {
            &&& (#[trigger] r@[k]).0@ == cache_label(
                browser@,
                match file_name_spec(profile@) {
                    Some(n) => n,
                    None => profile@,
                },
                cache_dirs()[k],
            )
            &&& r@[k].1@ == join_spec(profile@, cache_dirs()[k])
        },
{
    let pname = match file_name(profile) {
        Some(n) => n,
        None => profile.to_string(),
    };
    let dirs = cache_dir_names();
    let mut r: Vec<(String, String)> = Vec::new();
    let mut i: usize = 0;
    proof {
        reveal_strlit(" · ");
    }
    while i < dirs.len()
        invariant
            i <= dirs@.len(),
            dirs@.map_values(|s: &'static str| s@) == cache_dirs(),
            pname@ == match file_name_spec(profile@) {
                Some(n) => n,
                None => profile@,
            },
            r@.len() == i,
            forall|k: int| 0 <= k < i ==> {
                &&& (#[trigger] r@[k]).0@ == cache_label(browser@, pname@, cache_dirs()[k])
                &&& r@[k].1@ == join_spec(profile@, cache_dirs()[k])
            },
        decreases dirs@.len() - i,
    {
        let d = dirs[i];
        assert(cache_dirs()[i as int] == d@);
        let a = concat(browser, " · ");
        let b = concat(a.as_str(), pname.as_str());
        let c = concat(b.as_str(), " · ");
        let label = concat(c.as_str(), d);
        r.push((label, join(profile, d)));
        i = i + 1;
    }
    r
}

/// Where Firefox keeps its profiles, on the platform asked about.
pub open spec fn firefox_root_spec(known: KnownPaths, windows: bool) -> Option<Seq<char>> {
    if windows {
        match known.local_app_data {
            Some(l) => Some(join_spec(l@, "Mozilla\\Firefox\\Profiles"@)),
            None => None,
        }
    } else {
        match known.user_cache {
            Some(c) => Some(join_spec(c@, "Firefox/Profiles"@)),
            None => None,
        }
    }
}

pub fn firefox_root(known: &KnownPaths, windows: bool) -> (r: Option<String>)
    ensures
        match r {
            Some(p) => firefox_root_spec(*known, windows) == Some(p@),
            None => firefox_root_spec(*known, windows) is None,
        },
{
    if windows {
        match &known.local_app_data {
            Some(l) => Some(join(l.as_str(), "Mozilla\\Firefox\\Profiles")),
            None => None,
        }
    } else {
        match &known.user_cache {
            Some(c) => Some(join(c.as_str(), "Firefox/Profiles")),
            None => None,
        }
    }
}

/// A Firefox profile's HTTP cache and its label. The caller keeps it when it is a directory.
pub fn firefox_candidate(profile: &str) -> (r: (String, String))
    ensures
        r.0@ == "Firefox · "@ + match file_name_spec(profile@) {
            Some(n) => n,
            None => Seq::empty(),
        },
        r.1@ == join_spec(profile@, "cache2"@),
{
    let pname = match file_name(profile) {
        Some(n) => n,
        None => String::new(),
    };
    proof {
        reveal_strlit("Firefox · ");
    }
    (concat("Firefox · ", pname.as_str()), join(profile, "cache2"))
}

pub open spec fn name_keys(names: Seq<String>) -> Seq<(u64, Seq<char>)> {
    names.map_values(|s: String| (0u64, s@))
}

/// The paths in text order, as the scan lists profiles.
pub fn sorted_paths(paths: &Vec<String>) -> (r: Vec<String>)
    ensures
        exists|order: Seq<usize>| {
            &&& #[trigger] is_ordering(order, paths@.len() as int)
            &&& sorted_by_size(name_keys(paths@), order)
            &&& r@.len() == paths@.len()
            &&& forall|k: int| 0 <= k < r@.len() ==> (#[trigger] r@[k])@ == paths@[order[k] as int]@
        },
{
    let mut keys: Vec<(u64, String)> = Vec::new();
    let mut k: usize = 0;
    while k < paths.len()
        invariant
            k <= paths@.len(),
            key_views(keys@) == name_keys(paths@).take(k as int),
        decreases paths@.len() - k,
    {
        let ghost prev = keys@;
        keys.push((0, paths[k].clone()));
        proof {
            assert(key_views(keys@) =~= key_views(prev).push((0u64, paths@[k as int]@)));
            assert(name_keys(paths@).take(k + 1) =~= name_keys(paths@).take(k as int).push((0u64, paths@[k as int]@)));
        }
        k = k + 1;
    }
    proof {
        assert(name_keys(paths@).take(k as int) =~= name_keys(paths@));
        assert(key_views(keys@).len() == keys@.len());
    }
    let order = largest_first(&keys);
    let mut r: Vec<String> = Vec::new();
    let mut j: usize = 0;
    while j < paths.len()
        invariant
            j <= paths@.len(),
            is_ordering(order@, paths@.len() as int),
            r@.len() == j,
            forall|a: int| 0 <= a < j ==> (#[trigger] r@[a])@ == paths@[order@[a] as int]@,
        decreases paths@.len() - j,
    {
        r.push(paths[order[j]].clone());
        j = j + 1;
    }
    r
}

} // verus!
