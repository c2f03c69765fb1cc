//! Generic system-level locations: per-user caches, and installer images or packages sitting
//! in Downloads.

use vstd::prelude::*;

use crate::models::{Category, RiskLevel};
use crate::paths::{extension_of, file_name_spec, join, join_spec};
use crate::platform::KnownPaths;
use crate::providers::simple::{Root, RootMode};
use crate::text::{ascii_lower, chars_of, lower_seq, str_eq, string_from, str_views};

verus! {

/// Installer images and packages in Downloads that are older than a week.
pub struct OldInstallers;

/// A week, in milliseconds.
pub const WEEK_MS: i64 = 7 * 86_400_000;

/// Only formats that exist to install something. A `.zip` was deliberately left out: it is as
/// likely to be a download the user meant to keep as an installer, and Prune should not be the
/// reason someone loses one.
pub open spec fn installer_extensions(windows: bool) -> Seq<Seq<char>> {
    if windows {
        seq!["msi"@, "msix"@, "appx"@, "appxbundle"@, "iso"@]
    } else {
        seq!["dmg"@, "pkg"@, "xip"@, "iso"@]
    }
}

fn extension_list(windows: bool) -> (r: Vec<&'static str>)
    ensures
        str_views(r@) == installer_extensions(windows),
{
    let mut v: Vec<&'static str> = Vec::new();
    if windows {
        v.push("msi");
        v.push("msix");
        v.push("appx");
        v.push("appxbundle");
        v.push("iso");
    } else {
        v.push("dmg");
        v.push("pkg");
        v.push("xip");
        v.push("iso");
    }
    assert(str_views(v@) =~= installer_extensions(windows));
    v
}

/// Whether the file at `path` is an installer: its extension, lower-cased, is one of the
/// installer formats of the platform.
pub open spec fn is_installer_spec(path: Seq<char>, windows: bool) -> bool {
    file_name_spec(path) matches Some(n) && (extension_of(n) matches Some(e) && installer_extensions(windows).contains(lower_seq(e)))
}

/// Whether a file last modified at `modified` (milliseconds since the Unix epoch) is at least
/// a week old at `now`; a time that cannot be read, or lies in the future, is not.
pub open spec fn week_old(now: i64, modified: Option<i64>) -> bool {
    modified matches Some(m) && (m <= now && now - m >= WEEK_MS)
}

impl OldInstallers {
    pub fn id(&self) -> (r: &'static str)
        ensures
            r@ == "old_installers"@,
    {
        "old_installers"
    }

    pub fn name(&self) -> (r: &'static str)
        ensures
            r@ == "Old Installers"@,
    {
        "Old Installers"
    }

    pub fn category(&self) -> (r: Category)
        ensures
            r == Category::OldInstallers,
    {
        Category::OldInstallers
    }

    pub fn description(&self) -> (r: &'static str)
        ensures
            r@ == "Installer images and packages in Downloads that are older than a week."@,
    {
        "Installer images and packages in Downloads that are older than a week."
    }

    pub fn default_risk(&self) -> (r: RiskLevel)
        ensures
            r == RiskLevel::Low,
    {
        RiskLevel::Low
    }

    /// Whether the file at `path` is an installer on the platform asked about.
    pub fn is_installer(path: &str, windows: bool) -> (r: bool)
        ensures
            r == is_installer_spec(path@, windows),
    {
        let name = match crate::paths::file_name(path) {
            Some(n) => n,
            None => {
                return false;
            },
        };
        let ext = match crate::paths::extension(name.as_str()) {
            Some(e) => e,
            None => {
                return false;
            },
        };
        let lower = string_from(ascii_lower(chars_of(ext.as_str()).as_slice()).as_slice());
        let list = extension_list(windows);
        let ghost views = str_views(list@);
        let mut i: usize = 0;
        while i < list.len()
            invariant
                i <= list@.len(),
                views == str_views(list@),
                views == installer_extensions(windows),
                file_name_spec(path@) == Some(name@),
                extension_of(name@) == Some(ext@),
                lower@ == lower_seq(ext@),
                forall|j: int| 0 <= j < i ==> views[j] != lower@,
            decreases list@.len() - i,
        {
            assert(views[i as int] == list@[i as int]@);
            if str_eq(list[i], lower.as_str()) {
                assert(installer_extensions(windows)[i as int] == lower@);
                return true;
            }
            i = i + 1;
        }
        proof {
            if installer_extensions(windows).contains(lower@) {
                let j = choose|j: int| 0 <= j < installer_extensions(windows).len() && installer_extensions(windows)[j] == lower@;
                assert(views[j] == lower@);
            }
        }
        false
    }

    /// Whether a file modified at `modified` is old enough at `now` to be offered.
    pub fn old_enough(now: i64, modified: Option<i64>) -> (r: bool)
        ensures
            r == week_old(now, modified),
    {
        match modified {
            Some(m) => m <= now && (now as i128 - m as i128) >= WEEK_MS as i128,
            None => false,
        }
    }
}

/// Where per-user application caches are: on Windows, which has no unified cache directory,
/// only well-known regenerable locations under local application data, each with its label;
/// elsewhere every folder in the cache root.
pub open spec fn user_cache_places(known: KnownPaths, windows: bool) -> Seq<(Seq<char>, RootMode, Option<Seq<char>>)> {
    if windows {
        match known.local_app_data {
            Some(l) => seq![
                (join_spec(l@, "Microsoft\\Windows\\INetCache"@), RootMode::Whole, Some("Internet Cache"@)),
                (join_spec(l@, "Microsoft\\Windows\\WER"@), RootMode::Whole, Some("Windows Error Reports"@)),
                (join_spec(l@, "D3DSCache"@), RootMode::Whole, Some("DirectX Shader Cache"@)),
                (join_spec(l@, "NVIDIA\\DXCache"@), RootMode::Whole, Some("NVIDIA Shader Cache"@)),
                (join_spec(l@, "NVIDIA\\GLCache"@), RootMode::Whole, Some("NVIDIA GL Cache"@)),
                (join_spec(l@, "AMD\\DxCache"@), RootMode::Whole, Some("AMD Shader Cache"@)),
                (join_spec(l@, "CrashDumps"@), RootMode::Whole, Some("Crash Dumps"@)),
            ],
            None => Seq::empty(),
        }
    } else {
        match known.user_cache {
            Some(c) => seq![(c@, RootMode::Children, None)],
            None => Seq::empty(),
        }
    }
}

pub open spec fn root_views(v: Seq<Root>) -> Seq<(Seq<char>, RootMode, Option<Seq<char>>)> {
    v.map_values(|r: Root| (r.path@, r.mode, match r.label {
        Some(l) => Some(l@),
        None => None,
    }))
}

fn labelled(base: &str, rel: &str, label: &str) -> (r: Root)
    ensures
        r.path@ == join_spec(base@, rel@),
        r.mode == RootMode::Whole,
        r.label matches Some(l) && l@ == label@,
{
    Root::labelled(join(base, rel), label.to_string())
}

pub fn user_cache_roots(known: &KnownPaths, windows: bool) -> (r: Vec<Root>)
    ensures
        root_views(r@) == user_cache_places(*known, windows),
{
    let mut v: Vec<Root> = Vec::new();
    if windows {
        if let Some(l) = &known.local_app_data {
            let l = l.as_str();
            v.push(labelled(l, "Microsoft\\Windows\\INetCache", "Internet Cache"));
            v.push(labelled(l, "Microsoft\\Windows\\WER", "Windows Error Reports"));
            v.push(labelled(l, "D3DSCache", "DirectX Shader Cache"));
            v.push(labelled(l, "NVIDIA\\DXCache", "NVIDIA Shader Cache"));
            v.push(labelled(l, "NVIDIA\\GLCache", "NVIDIA GL Cache"));
            v.push(labelled(l, "AMD\\DxCache", "AMD Shader Cache"));
            v.push(labelled(l, "CrashDumps", "Crash Dumps"));
        }
    } else {
        if let Some(c) = &known.user_cache {
            v.push(Root::children(c.clone()));
        }
    }
    assert(root_views(v@) =~= user_cache_places(*known, windows));
    v
}

} // verus!
