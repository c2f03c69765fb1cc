//! The built-in providers: what each one is, and, for the declarative ones, where it looks.
//!
//! Global caches written by package managers and build tools are each a single well-known
//! location (or a few), relative to one of the user's well-known directories. Whether those
//! places exist is for the caller to find out; which places they are is decided here.

use vstd::prelude::*;

use crate::models::{Category, RiskLevel};
use crate::paths::{join, join_spec};
use crate::platform::KnownPaths;
use crate::providers::installers::{user_cache_places, user_cache_roots, root_views, OldInstallers};
use crate::providers::registry::ProviderEntry;
use crate::providers::simple::{skips, Root, RootMode, SimpleProvider};
use crate::text::{owned, sorted_unique, str_views, string_views, strictly_sorted};

verus! {

/// The well-known directory a place is written relative to.
#[derive(Debug, Clone, Copy, PartialEq, Eq, Structural)]
pub enum Base {
    Home,
    LocalAppData,
    UserCache,
    UserLogs,
}

/// One place a tool keeps a cache: a path relative to a well-known directory, how it is
/// offered, and its label when it is offered whole.
#[derive(Debug, Clone, Copy)]
pub struct Place {
    pub base: Base,
    pub rel: &'static str,
    pub mode: RootMode,
    pub label: Option<&'static str>,
}

/// A place, as plain values.
pub type PlaceView = (Base, Seq<char>, RootMode, Option<Seq<char>>);

/// A root, as plain values: its path, its mode and its label.
pub type RootView = (Seq<char>, RootMode, Option<Seq<char>>);

pub open spec fn place_view(p: Place) -> PlaceView {
    (p.base, p.rel@, p.mode, match p.label {
        Some(l) => Some(l@),
        None => None,
    })
}

pub open spec fn place_views(v: Seq<Place>) -> Seq<PlaceView> {
    v.map_values(|p: Place| place_view(p))
}

/// The directory a base stands for on this machine, if it has one.
pub open spec fn base_dir(known: KnownPaths, b: Base) -> Option<Seq<char>> {
    match b {
        Base::Home => Some(known.home@),
        Base::LocalAppData => match known.local_app_data {
            Some(d) => Some(d@),
            None => None,
        },
        Base::UserCache => match known.user_cache {
            Some(d) => Some(d@),
            None => None,
        },
        Base::UserLogs => match known.user_logs {
            Some(d) => Some(d@),
            None => None,
        },
    }
}

/// The roots of `places` on this machine, in order: each place whose base directory exists
/// here, joined onto it; the others are left out.
pub open spec fn resolved(known: KnownPaths, places: Seq<PlaceView>) -> Seq<RootView>
    decreases places.len(),
{
    if places.len() == 0 {
        Seq::empty()
    } else {
        let rest = resolved(known, places.drop_last());
        let p = places.last();
        match base_dir(known, p.0) {
            Some(d) => rest.push((join_spec(d, p.1), p.2, p.3)),
            None => rest,
        }
    }
}

fn base_of(known: &KnownPaths, b: Base) -> (r: Option<&String>)
    ensures
        match base_dir(*known, b) {
            Some(d) => r matches Some(s) && s@ == d,
            None => r is None,
        },
{
    match b {
        Base::Home => Some(&known.home),
        Base::LocalAppData => known.local_app_data.as_ref(),
        Base::UserCache => known.user_cache.as_ref(),
        Base::UserLogs => known.user_logs.as_ref(),
    }
}

/// The roots of `places` on this machine.
pub fn resolve(known: &KnownPaths, places: &Vec<Place>) -> (r: Vec<Root>)
    ensures
        root_views(r@) == resolved(*known, place_views(places@)),
{
    let mut out: Vec<Root> = Vec::new();
    let mut i: usize = 0;
    while i < places.len()
        invariant
            i <= places@.len(),
            root_views(out@) == resolved(*known, place_views(places@.take(i as int))),
        decreases places@.len() - i,
    {
        let p = places[i];
        proof {
            assert(place_views(places@.take(i + 1)).drop_last() =~= place_views(places@.take(i as int)));
            assert(place_views(places@.take(i + 1)).last() == place_view(p));
        }
        if let Some(d) = base_of(known, p.base) {
            let path = join(d.as_str(), p.rel);
            let root = match p.label {
                Some(l) => Root { path, mode: p.mode, label: Some(owned(l)) },
                None => Root { path, mode: p.mode, label: None },
            };
            out.push(root);
            proof {
                assert(root_views(out@) =~= root_views(out@.drop_last()).push((join_spec(d@, p.rel@), p.mode, place_view(p).3)));
            }
        }
        i = i + 1;
    }
    assert(places@.take(places@.len() as int) =~= places@);
    out
}

/// Where RubyGems keeps one version's downloaded archives, under `~/.gem/ruby/<version>/cache`:
/// only the archives, never the installed gems next to them.
pub open spec fn gem_cache_dir(home: Seq<char>, version: Seq<char>) -> Seq<char> {
    join_spec(join_spec(join_spec(home, ".gem/ruby"@), version), "cache"@)
}

pub open spec fn gem_roots_of(home: Seq<char>, versions: Seq<Seq<char>>) -> Seq<RootView> {
    versions.map_values(|v: Seq<char>| (gem_cache_dir(home, v), RootMode::Whole, None::<Seq<char>>))
}

/// The archive caches of the RubyGems versions found, each offered whole, ordered by version.
/// `versions` names the folders of `~/.gem/ruby` that hold a `cache` folder; the version in a
/// folder's name cannot be known in advance.
pub fn gem_cache_roots(home: &str, versions: &Vec<String>) -> (r: Vec<Root>)
    ensures
        exists|names: Seq<Seq<char>>| {
            &&& strictly_sorted(names)
            &&& names.to_set() == string_views(versions@).to_set()
            &&& root_views(r@) == #[trigger] gem_roots_of(home@, names)
        },
{
    let names = sorted_unique(versions);
    let parent = join(home, ".gem/ruby");
    let mut out: Vec<Root> = Vec::new();
    let mut i: usize = 0;
    while i < names.len()
        invariant
            i <= names@.len(),
            parent@ == join_spec(home@, ".gem/ruby"@),
            root_views(out@) == gem_roots_of(home@, string_views(names@.take(i as int))),
        decreases names@.len() - i,
    {
        let dir = join(join(parent.as_str(), names[i].as_str()).as_str(), "cache");
        assert(dir@ == gem_cache_dir(home@, names@[i as int]@));
        let ghost before = out@;
        out.push(Root::whole(dir));
        proof {
            assert(string_views(names@.take(i + 1)) =~= string_views(names@.take(i as int)).push(names@[i as int]@));
            assert(root_views(out@) =~= root_views(before).push((gem_cache_dir(home@, names@[i as int]@), RootMode::Whole, None::<Seq<char>>)));
            assert(root_views(out@) =~= gem_roots_of(home@, string_views(names@.take(i + 1))));
        }
        i = i + 1;
    }
    assert(names@.take(names@.len() as int) =~= names@);
    out
}

#[derive(Debug, Clone, Copy, PartialEq, Eq, Structural)]
pub enum ToolCache {
    NpmCache,
    PnpmStore,
    YarnCache,
    BunCache,
    NodeGypCache,
    DenoCache,
    PlaywrightBrowsers,
    PuppeteerBrowsers,
    CypressBinaries,
    ElectronCache,
    PipCache,
    UvCache,
    GradleCache,
    MavenRepo,
    CargoCache,
    GoCache,
    NugetCache,
    CocoapodsCache,
    SwiftpmCache,
    PubCache,
    RubygemsCache,
    ComposerCache,
    JetbrainsCache,
    DotslashCache,
    HomebrewCache,
    XcodeDerivedData,
    XcodeArchives,
    XcodeDeviceSupport,
    SimulatorCaches,
}

/// The tool caches, in display order.
pub open spec fn tool_order() -> Seq<ToolCache> {
    seq![
        ToolCache::NpmCache,
        ToolCache::PnpmStore,
        ToolCache::YarnCache,
        ToolCache::BunCache,
        ToolCache::NodeGypCache,
        ToolCache::DenoCache,
        ToolCache::PlaywrightBrowsers,
        ToolCache::PuppeteerBrowsers,
        ToolCache::CypressBinaries,
        ToolCache::ElectronCache,
        ToolCache::PipCache,
        ToolCache::UvCache,
        ToolCache::GradleCache,
        ToolCache::MavenRepo,
        ToolCache::CargoCache,
        ToolCache::GoCache,
        ToolCache::NugetCache,
        ToolCache::CocoapodsCache,
        ToolCache::SwiftpmCache,
        ToolCache::PubCache,
        ToolCache::RubygemsCache,
        ToolCache::ComposerCache,
        ToolCache::JetbrainsCache,
        ToolCache::DotslashCache,
        ToolCache::HomebrewCache,
        ToolCache::XcodeDerivedData,
        ToolCache::XcodeArchives,
        ToolCache::XcodeDeviceSupport,
        ToolCache::SimulatorCaches
    ]
}

/// Id, name, description and default risk of each tool cache.
pub open spec fn tool_info(t: ToolCache) -> (Seq<char>, Seq<char>, Seq<char>, RiskLevel) {
    match t {
        ToolCache::NpmCache => ("npm_cache"@, "npm cache"@, "Downloaded package tarballs (~/.npm/_cacache). npm re-downloads what it needs."@, RiskLevel::Safe),
        ToolCache::PnpmStore => ("pnpm_store"@, "pnpm store"@, "Content-addressable pnpm store plus its registry metadata and dlx cache. Existing node_modules keep working; new installs re-fetch."@, RiskLevel::Low),
        ToolCache::YarnCache => ("yarn_cache"@, "Yarn cache"@, "Yarn classic and Berry global caches."@, RiskLevel::Safe),
        ToolCache::BunCache => ("bun_cache"@, "Bun cache"@, "Bun's global install cache."@, RiskLevel::Safe),
        ToolCache::NodeGypCache => ("node_gyp_cache"@, "node-gyp headers"@, "Node headers and libraries downloaded to build native addons."@, RiskLevel::Safe),
        ToolCache::DenoCache => ("deno_cache"@, "Deno cache"@, "Downloaded modules and compiled artifacts. Deno re-fetches what a program imports."@, RiskLevel::Safe),
        ToolCache::PlaywrightBrowsers => ("playwright_browsers"@, "Playwright browsers"@, "Chromium, Firefox and WebKit builds downloaded for tests. `playwright install` brings them back, which takes a while."@, RiskLevel::Low),
        ToolCache::PuppeteerBrowsers => ("puppeteer_browsers"@, "Puppeteer browsers"@, "Chrome builds downloaded by Puppeteer. Re-downloaded on the next install."@, RiskLevel::Low),
        ToolCache::CypressBinaries => ("cypress_binaries"@, "Cypress binaries"@, "Downloaded Cypress test runner versions."@, RiskLevel::Low),
        ToolCache::ElectronCache => ("electron_cache"@, "Electron downloads"@, "Electron runtimes and electron-builder's download cache."@, RiskLevel::Safe),
        ToolCache::PipCache => ("pip_cache"@, "pip cache"@, "Downloaded wheels and HTTP cache for pip."@, RiskLevel::Safe),
        ToolCache::UvCache => ("uv_cache"@, "uv cache"@, "Cache of the uv Python package manager."@, RiskLevel::Safe),
        ToolCache::GradleCache => ("gradle_cache"@, "Gradle caches"@, "Dependency and build caches in ~/.gradle. Next build re-downloads dependencies."@, RiskLevel::Low),
        ToolCache::MavenRepo => ("maven_repo"@, "Maven repository"@, "Local Maven repository (~/.m2/repository). Re-downloaded on the next build."@, RiskLevel::Low),
        ToolCache::CargoCache => ("cargo_cache"@, "Cargo registry"@, "Downloaded crates and git checkouts in ~/.cargo. Cargo re-fetches on demand."@, RiskLevel::Low),
        ToolCache::GoCache => ("go_cache"@, "Go caches"@, "Go build cache and module download cache."@, RiskLevel::Low),
        ToolCache::NugetCache => ("nuget_cache"@, "NuGet packages"@, "Global NuGet package cache."@, RiskLevel::Low),
        ToolCache::CocoapodsCache => ("cocoapods_cache"@, "CocoaPods cache"@, "Downloaded pod specs and sources."@, RiskLevel::Safe),
        ToolCache::SwiftpmCache => ("swiftpm_cache"@, "Swift Package Manager cache"@, "Cached package manifests and repositories. Re-fetched on the next resolve."@, RiskLevel::Safe),
        ToolCache::PubCache => ("pub_cache"@, "Dart and Flutter packages"@, "Packages downloaded by pub. `flutter pub get` re-downloads them."@, RiskLevel::Low),
        ToolCache::RubygemsCache => ("rubygems_cache"@, "RubyGems cache"@, "Downloaded .gem archives and Bundler's cache. Installed gems are left alone."@, RiskLevel::Safe),
        ToolCache::ComposerCache => ("composer_cache"@, "Composer cache"@, "PHP packages downloaded by Composer."@, RiskLevel::Safe),
        ToolCache::JetbrainsCache => ("jetbrains_cache"@, "JetBrains IDE caches"@, "Indexes and local history for IntelliJ, WebStorm, PyCharm and friends. Rebuilt when a project is next opened."@, RiskLevel::Low),
        ToolCache::DotslashCache => ("dotslash_cache"@, "DotSlash cache"@, "Executables DotSlash downloaded on demand. Re-fetched when next run."@, RiskLevel::Safe),
        ToolCache::HomebrewCache => ("homebrew_cache"@, "Homebrew cache"@, "Downloaded bottles and casks. Equivalent to `brew cleanup`."@, RiskLevel::Safe),
        ToolCache::XcodeDerivedData => ("xcode_derived_data"@, "Xcode DerivedData"@, "Intermediate build products and indexes, per project. Xcode rebuilds them."@, RiskLevel::Safe),
        ToolCache::XcodeArchives => ("xcode_archives"@, "Xcode Archives"@, "App archives (.xcarchive). Needed to symbolicate crash logs of shipped builds."@, RiskLevel::Medium),
        ToolCache::XcodeDeviceSupport => ("xcode_device_support"@, "Xcode Device Support"@, "Debug symbols for iOS/watchOS/tvOS versions you connected. Re-created on next connect."@, RiskLevel::Low),
        ToolCache::SimulatorCaches => ("simulator_caches"@, "Simulator caches"@, "CoreSimulator caches (dyld shared caches etc.). Simulators and their data are untouched."@, RiskLevel::Safe),
    }
}

/// Where each tool keeps its cache, on Windows and elsewhere.
pub open spec fn tool_places(t: ToolCache, windows: bool) -> Seq<PlaceView> {
    match t {
        ToolCache::NpmCache => if windows {
            seq![(Base::LocalAppData, "npm-cache"@, RootMode::Whole, None)]
        } else {
            seq![(Base::Home, ".npm/_cacache"@, RootMode::Whole, None)]
        },
        ToolCache::PnpmStore => if windows {
            seq![(Base::LocalAppData, "pnpm\\store"@, RootMode::Whole, None), (Base::Home, ".pnpm-store"@, RootMode::Whole, None), (Base::LocalAppData, "pnpm-cache"@, RootMode::Whole, None)]
        } else {
            seq![(Base::Home, "Library/pnpm/store"@, RootMode::Whole, None), (Base::Home, ".local/share/pnpm/store"@, RootMode::Whole, None), (Base::Home, ".pnpm-store"@, RootMode::Whole, None), (Base::UserCache, "pnpm"@, RootMode::Whole, None), (Base::Home, ".cache/pnpm"@, RootMode::Whole, None)]
        },
        ToolCache::YarnCache => if windows {
            seq![(Base::LocalAppData, "Yarn\\Cache"@, RootMode::Whole, None), (Base::Home, ".yarn/berry/cache"@, RootMode::Whole, None)]
        } else {
            seq![(Base::UserCache, "Yarn"@, RootMode::Whole, None), (Base::Home, ".yarn/berry/cache"@, RootMode::Whole, None)]
        },
        ToolCache::BunCache => seq![(Base::Home, ".bun/install/cache"@, RootMode::Whole, None)],
        ToolCache::NodeGypCache => if windows {
            seq![(Base::LocalAppData, "node-gyp"@, RootMode::Whole, None), (Base::Home, ".node-gyp"@, RootMode::Whole, None)]
        } else {
            seq![(Base::UserCache, "node-gyp"@, RootMode::Whole, None), (Base::Home, ".node-gyp"@, RootMode::Whole, None)]
        },
        ToolCache::DenoCache => if windows {
            seq![(Base::LocalAppData, "deno"@, RootMode::Whole, None)]
        } else {
            seq![(Base::UserCache, "deno"@, RootMode::Whole, None), (Base::Home, ".cache/deno"@, RootMode::Whole, None)]
        },
        ToolCache::PlaywrightBrowsers => if windows {
            seq![(Base::LocalAppData, "ms-playwright"@, RootMode::Whole, None)]
        } else {
            seq![(Base::UserCache, "ms-playwright"@, RootMode::Whole, None), (Base::Home, ".cache/ms-playwright"@, RootMode::Whole, None)]
        },
        ToolCache::PuppeteerBrowsers => if windows {
            seq![(Base::LocalAppData, "puppeteer"@, RootMode::Whole, None)]
        } else {
            seq![(Base::UserCache, "puppeteer"@, RootMode::Whole, None), (Base::Home, ".cache/puppeteer"@, RootMode::Whole, None)]
        },
        ToolCache::CypressBinaries => if windows {
            seq![(Base::LocalAppData, "Cypress\\Cache"@, RootMode::Whole, None)]
        } else {
            seq![(Base::UserCache, "Cypress"@, RootMode::Whole, None), (Base::Home, ".cache/Cypress"@, RootMode::Whole, None)]
        },
        ToolCache::ElectronCache => if windows {
            seq![(Base::LocalAppData, "electron"@, RootMode::Whole, None), (Base::LocalAppData, "electron-builder"@, RootMode::Whole, None)]
        } else {
            seq![(Base::UserCache, "electron"@, RootMode::Whole, None), (Base::UserCache, "electron-builder"@, RootMode::Whole, None)]
        },
        ToolCache::PipCache => if windows {
            seq![(Base::LocalAppData, "pip\\cache"@, RootMode::Whole, None)]
        } else {
            seq![(Base::UserCache, "pip"@, RootMode::Whole, None), (Base::Home, ".cache/pip"@, RootMode::Whole, None)]
        },
        ToolCache::UvCache => if windows {
            seq![(Base::LocalAppData, "uv\\cache"@, RootMode::Whole, None)]
        } else {
            seq![(Base::UserCache, "uv"@, RootMode::Whole, None), (Base::Home, ".cache/uv"@, RootMode::Whole, None)]
        },
        ToolCache::GradleCache => seq![(Base::Home, ".gradle/caches"@, RootMode::Whole, Some("Gradle caches"@)), (Base::Home, ".gradle/daemon"@, RootMode::Whole, Some("Gradle daemon logs"@)), (Base::Home, ".gradle/wrapper/dists"@, RootMode::Whole, Some("Gradle wrapper distributions"@))],
        ToolCache::MavenRepo => seq![(Base::Home, ".m2/repository"@, RootMode::Whole, None)],
        ToolCache::CargoCache => seq![(Base::Home, ".cargo/registry/cache"@, RootMode::Whole, Some("Crate archives"@)), (Base::Home, ".cargo/registry/src"@, RootMode::Whole, Some("Extracted crate sources"@)), (Base::Home, ".cargo/git/checkouts"@, RootMode::Whole, Some("Git dependency checkouts"@))],
        ToolCache::GoCache => if windows {
            seq![(Base::LocalAppData, "go-build"@, RootMode::Whole, Some("Go build cache"@)), (Base::Home, "go/pkg/mod/cache/download"@, RootMode::Whole, Some("Go module downloads"@))]
        } else {
            seq![(Base::UserCache, "go-build"@, RootMode::Whole, Some("Go build cache"@)), (Base::Home, "go/pkg/mod/cache/download"@, RootMode::Whole, Some("Go module downloads"@))]
        },
        ToolCache::NugetCache => seq![(Base::Home, ".nuget/packages"@, RootMode::Whole, None)],
        ToolCache::CocoapodsCache => seq![(Base::UserCache, "CocoaPods"@, RootMode::Whole, None)],
        ToolCache::SwiftpmCache => seq![(Base::UserCache, "org.swift.swiftpm"@, RootMode::Whole, None)],
        ToolCache::PubCache => if windows {
            seq![(Base::LocalAppData, "Pub\\Cache\\hosted"@, RootMode::Whole, None), (Base::LocalAppData, "Pub\\Cache\\git"@, RootMode::Whole, None)]
        } else {
            seq![(Base::Home, ".pub-cache/hosted"@, RootMode::Whole, None), (Base::Home, ".pub-cache/git"@, RootMode::Whole, None)]
        },
        ToolCache::RubygemsCache => seq![(Base::Home, ".bundle/cache"@, RootMode::Whole, None)],
        ToolCache::ComposerCache => if windows {
            seq![(Base::LocalAppData, "Composer"@, RootMode::Whole, None)]
        } else {
            seq![(Base::Home, ".composer/cache"@, RootMode::Whole, None), (Base::Home, ".cache/composer"@, RootMode::Whole, None)]
        },
        ToolCache::JetbrainsCache => if windows {
            seq![(Base::LocalAppData, "JetBrains"@, RootMode::Children, None)]
        } else {
            seq![(Base::UserCache, "JetBrains"@, RootMode::Children, None), (Base::UserLogs, "JetBrains"@, RootMode::Children, None)]
        },
        ToolCache::DotslashCache => if windows {
            seq![(Base::LocalAppData, "dotslash"@, RootMode::Whole, None)]
        } else {
            seq![(Base::UserCache, "dotslash"@, RootMode::Whole, None), (Base::Home, ".cache/dotslash"@, RootMode::Whole, None)]
        },
        ToolCache::HomebrewCache => seq![(Base::UserCache, "Homebrew"@, RootMode::Whole, None)],
        ToolCache::XcodeDerivedData => seq![(Base::Home, "Library/Developer/Xcode/DerivedData"@, RootMode::Children, None)],
        ToolCache::XcodeArchives => seq![(Base::Home, "Library/Developer/Xcode/Archives"@, RootMode::Children, None)],
        ToolCache::XcodeDeviceSupport => seq![(Base::Home, "Library/Developer/Xcode/iOS DeviceSupport"@, RootMode::Children, None), (Base::Home, "Library/Developer/Xcode/watchOS DeviceSupport"@, RootMode::Children, None), (Base::Home, "Library/Developer/Xcode/tvOS DeviceSupport"@, RootMode::Children, None)],
        ToolCache::SimulatorCaches => seq![(Base::Home, "Library/Developer/CoreSimulator/Caches"@, RootMode::Whole, None)],
    }
}

/// Where each tool keeps its cache, on a machine whose home, per-user cache, log and local
/// application data directories are `h`, `c`, `g` and `l`: the roots offered are exactly
/// these folders (on macOS and Linux, or on Windows), in this order. The Maven root, for one,
/// is `h/.m2/repository`, the local repository, and never the whole `.m2` folder with its
/// settings.
pub proof fn lemma_tool_cache_locations(t: ToolCache, known: KnownPaths, windows: bool)
    requires
        known.user_cache is Some,
        known.user_logs is Some,
        known.local_app_data is Some,
    ensures
        resolved(known, tool_places(t, windows)) == ({
            let h = known.home@;
            let c = known.user_cache->Some_0@;
            let g = known.user_logs->Some_0@;
            let l = known.local_app_data->Some_0@;
            match t {
            ToolCache::NpmCache => if windows { seq![(join_spec(l, "npm-cache"@), RootMode::Whole, None)] } else { seq![(join_spec(h, ".npm/_cacache"@), RootMode::Whole, None)] },
            ToolCache::PnpmStore => if windows { seq![(join_spec(l, "pnpm\\store"@), RootMode::Whole, None), (join_spec(h, ".pnpm-store"@), RootMode::Whole, None), (join_spec(l, "pnpm-cache"@), RootMode::Whole, None)] } else { seq![(join_spec(h, "Library/pnpm/store"@), RootMode::Whole, None), (join_spec(h, ".local/share/pnpm/store"@), RootMode::Whole, None), (join_spec(h, ".pnpm-store"@), RootMode::Whole, None), (join_spec(c, "pnpm"@), RootMode::Whole, None), (join_spec(h, ".cache/pnpm"@), RootMode::Whole, None)] },
            ToolCache::YarnCache => if windows { seq![(join_spec(l, "Yarn\\Cache"@), RootMode::Whole, None), (join_spec(h, ".yarn/berry/cache"@), RootMode::Whole, None)] } else { seq![(join_spec(c, "Yarn"@), RootMode::Whole, None), (join_spec(h, ".yarn/berry/cache"@), RootMode::Whole, None)] },
            ToolCache::BunCache => seq![(join_spec(h, ".bun/install/cache"@), RootMode::Whole, None)],
            ToolCache::NodeGypCache => if windows { seq![(join_spec(l, "node-gyp"@), RootMode::Whole, None), (join_spec(h, ".node-gyp"@), RootMode::Whole, None)] } else { seq![(join_spec(c, "node-gyp"@), RootMode::Whole, None), (join_spec(h, ".node-gyp"@), RootMode::Whole, None)] },
            ToolCache::DenoCache => if windows { seq![(join_spec(l, "deno"@), RootMode::Whole, None)] } else { seq![(join_spec(c, "deno"@), RootMode::Whole, None), (join_spec(h, ".cache/deno"@), RootMode::Whole, None)] },
            ToolCache::PlaywrightBrowsers => if windows { seq![(join_spec(l, "ms-playwright"@), RootMode::Whole, None)] } else { seq![(join_spec(c, "ms-playwright"@), RootMode::Whole, None), (join_spec(h, ".cache/ms-playwright"@), RootMode::Whole, None)] },
            ToolCache::PuppeteerBrowsers => if windows { seq![(join_spec(l, "puppeteer"@), RootMode::Whole, None)] } else { seq![(join_spec(c, "puppeteer"@), RootMode::Whole, None), (join_spec(h, ".cache/puppeteer"@), RootMode::Whole, None)] },
            ToolCache::CypressBinaries => if windows { seq![(join_spec(l, "Cypress\\Cache"@), RootMode::Whole, None)] } else { seq![(join_spec(c, "Cypress"@), RootMode::Whole, None), (join_spec(h, ".cache/Cypress"@), RootMode::Whole, None)] },
            ToolCache::ElectronCache => if windows { seq![(join_spec(l, "electron"@), RootMode::Whole, None), (join_spec(l, "electron-builder"@), RootMode::Whole, None)] } else { seq![(join_spec(c, "electron"@), RootMode::Whole, None), (join_spec(c, "electron-builder"@), RootMode::Whole, None)] },
            ToolCache::PipCache => if windows { seq![(join_spec(l, "pip\\cache"@), RootMode::Whole, None)] } else { seq![(join_spec(c, "pip"@), RootMode::Whole, None), (join_spec(h, ".cache/pip"@), RootMode::Whole, None)] },
            ToolCache::UvCache => if windows { seq![(join_spec(l, "uv\\cache"@), RootMode::Whole, None)] } else { seq![(join_spec(c, "uv"@), RootMode::Whole, None), (join_spec(h, ".cache/uv"@), RootMode::Whole, None)] },
            ToolCache::GradleCache => seq![(join_spec(h, ".gradle/caches"@), RootMode::Whole, Some("Gradle caches"@)), (join_spec(h, ".gradle/daemon"@), RootMode::Whole, Some("Gradle daemon logs"@)), (join_spec(h, ".gradle/wrapper/dists"@), RootMode::Whole, Some("Gradle wrapper distributions"@))],
            ToolCache::MavenRepo => seq![(join_spec(h, ".m2/repository"@), RootMode::Whole, None)],
            ToolCache::CargoCache => seq![(join_spec(h, ".cargo/registry/cache"@), RootMode::Whole, Some("Crate archives"@)), (join_spec(h, ".cargo/registry/src"@), RootMode::Whole, Some("Extracted crate sources"@)), (join_spec(h, ".cargo/git/checkouts"@), RootMode::Whole, Some("Git dependency checkouts"@))],
            ToolCache::GoCache => if windows { seq![(join_spec(l, "go-build"@), RootMode::Whole, Some("Go build cache"@)), (join_spec(h, "go/pkg/mod/cache/download"@), RootMode::Whole, Some("Go module downloads"@))] } else { seq![(join_spec(c, "go-build"@), RootMode::Whole, Some("Go build cache"@)), (join_spec(h, "go/pkg/mod/cache/download"@), RootMode::Whole, Some("Go module downloads"@))] },
            ToolCache::NugetCache => seq![(join_spec(h, ".nuget/packages"@), RootMode::Whole, None)],
            ToolCache::CocoapodsCache => seq![(join_spec(c, "CocoaPods"@), RootMode::Whole, None)],
            ToolCache::SwiftpmCache => seq![(join_spec(c, "org.swift.swiftpm"@), RootMode::Whole, None)],
            ToolCache::PubCache => if windows { seq![(join_spec(l, "Pub\\Cache\\hosted"@), RootMode::Whole, None), (join_spec(l, "Pub\\Cache\\git"@), RootMode::Whole, None)] } else { seq![(join_spec(h, ".pub-cache/hosted"@), RootMode::Whole, None), (join_spec(h, ".pub-cache/git"@), RootMode::Whole, None)] },
            ToolCache::RubygemsCache => seq![(join_spec(h, ".bundle/cache"@), RootMode::Whole, None)],
            ToolCache::ComposerCache => if windows { seq![(join_spec(l, "Composer"@), RootMode::Whole, None)] } else { seq![(join_spec(h, ".composer/cache"@), RootMode::Whole, None), (join_spec(h, ".cache/composer"@), RootMode::Whole, None)] },
            ToolCache::JetbrainsCache => if windows { seq![(join_spec(l, "JetBrains"@), RootMode::Children, None)] } else { seq![(join_spec(c, "JetBrains"@), RootMode::Children, None), (join_spec(g, "JetBrains"@), RootMode::Children, None)] },
            ToolCache::DotslashCache => if windows { seq![(join_spec(l, "dotslash"@), RootMode::Whole, None)] } else { seq![(join_spec(c, "dotslash"@), RootMode::Whole, None), (join_spec(h, ".cache/dotslash"@), RootMode::Whole, None)] },
            ToolCache::HomebrewCache => seq![(join_spec(c, "Homebrew"@), RootMode::Whole, None)],
            ToolCache::XcodeDerivedData => seq![(join_spec(h, "Library/Developer/Xcode/DerivedData"@), RootMode::Children, None)],
            ToolCache::XcodeArchives => seq![(join_spec(h, "Library/Developer/Xcode/Archives"@), RootMode::Children, None)],
            ToolCache::XcodeDeviceSupport => seq![(join_spec(h, "Library/Developer/Xcode/iOS DeviceSupport"@), RootMode::Children, None), (join_spec(h, "Library/Developer/Xcode/watchOS DeviceSupport"@), RootMode::Children, None), (join_spec(h, "Library/Developer/Xcode/tvOS DeviceSupport"@), RootMode::Children, None)],
            ToolCache::SimulatorCaches => seq![(join_spec(h, "Library/Developer/CoreSimulator/Caches"@), RootMode::Whole, None)],
            }
        }),
{
    reveal_with_fuel(resolved, 6);
    let h = known.home@;
    let c = known.user_cache->Some_0@;
    let g = known.user_logs->Some_0@;
    let l = known.local_app_data->Some_0@;
    assert(base_dir(known, Base::Home) == Some(h));
    assert(base_dir(known, Base::UserCache) == Some(c));
    assert(base_dir(known, Base::UserLogs) == Some(g));
    assert(base_dir(known, Base::LocalAppData) == Some(l));
    let ps = tool_places(t, windows);
    assert(resolved(known, ps) =~= ({
        match t {
            ToolCache::NpmCache => if windows { seq![(join_spec(l, "npm-cache"@), RootMode::Whole, None)] } else { seq![(join_spec(h, ".npm/_cacache"@), RootMode::Whole, None)] },
            ToolCache::PnpmStore => if windows { seq![(join_spec(l, "pnpm\\store"@), RootMode::Whole, None), (join_spec(h, ".pnpm-store"@), RootMode::Whole, None), (join_spec(l, "pnpm-cache"@), RootMode::Whole, None)] } else { seq![(join_spec(h, "Library/pnpm/store"@), RootMode::Whole, None), (join_spec(h, ".local/share/pnpm/store"@), RootMode::Whole, None), (join_spec(h, ".pnpm-store"@), RootMode::Whole, None), (join_spec(c, "pnpm"@), RootMode::Whole, None), (join_spec(h, ".cache/pnpm"@), RootMode::Whole, None)] },
            ToolCache::YarnCache => if windows { seq![(join_spec(l, "Yarn\\Cache"@), RootMode::Whole, None), (join_spec(h, ".yarn/berry/cache"@), RootMode::Whole, None)] } else { seq![(join_spec(c, "Yarn"@), RootMode::Whole, None), (join_spec(h, ".yarn/berry/cache"@), RootMode::Whole, None)] },
            ToolCache::BunCache => seq![(join_spec(h, ".bun/install/cache"@), RootMode::Whole, None)],
            ToolCache::NodeGypCache => if windows { seq![(join_spec(l, "node-gyp"@), RootMode::Whole, None), (join_spec(h, ".node-gyp"@), RootMode::Whole, None)] } else { seq![(join_spec(c, "node-gyp"@), RootMode::Whole, None), (join_spec(h, ".node-gyp"@), RootMode::Whole, None)] },
            ToolCache::DenoCache => if windows { seq![(join_spec(l, "deno"@), RootMode::Whole, None)] } else { seq![(join_spec(c, "deno"@), RootMode::Whole, None), (join_spec(h, ".cache/deno"@), RootMode::Whole, None)] },
            ToolCache::PlaywrightBrowsers => if windows { seq![(join_spec(l, "ms-playwright"@), RootMode::Whole, None)] } else { seq![(join_spec(c, "ms-playwright"@), RootMode::Whole, None), (join_spec(h, ".cache/ms-playwright"@), RootMode::Whole, None)] },
            ToolCache::PuppeteerBrowsers => if windows { seq![(join_spec(l, "puppeteer"@), RootMode::Whole, None)] } else { seq![(join_spec(c, "puppeteer"@), RootMode::Whole, None), (join_spec(h, ".cache/puppeteer"@), RootMode::Whole, None)] },
            ToolCache::CypressBinaries => if windows { seq![(join_spec(l, "Cypress\\Cache"@), RootMode::Whole, None)] } else { seq![(join_spec(c, "Cypress"@), RootMode::Whole, None), (join_spec(h, ".cache/Cypress"@), RootMode::Whole, None)] },
            ToolCache::ElectronCache => if windows { seq![(join_spec(l, "electron"@), RootMode::Whole, None), (join_spec(l, "electron-builder"@), RootMode::Whole, None)] } else { seq![(join_spec(c, "electron"@), RootMode::Whole, None), (join_spec(c, "electron-builder"@), RootMode::Whole, None)] },
            ToolCache::PipCache => if windows { seq![(join_spec(l, "pip\\cache"@), RootMode::Whole, None)] } else { seq![(join_spec(c, "pip"@), RootMode::Whole, None), (join_spec(h, ".cache/pip"@), RootMode::Whole, None)] },
            ToolCache::UvCache => if windows { seq![(join_spec(l, "uv\\cache"@), RootMode::Whole, None)] } else { seq![(join_spec(c, "uv"@), RootMode::Whole, None), (join_spec(h, ".cache/uv"@), RootMode::Whole, None)] },
            ToolCache::GradleCache => seq![(join_spec(h, ".gradle/caches"@), RootMode::Whole, Some("Gradle caches"@)), (join_spec(h, ".gradle/daemon"@), RootMode::Whole, Some("Gradle daemon logs"@)), (join_spec(h, ".gradle/wrapper/dists"@), RootMode::Whole, Some("Gradle wrapper distributions"@))],
            ToolCache::MavenRepo => seq![(join_spec(h, ".m2/repository"@), RootMode::Whole, None)],
            ToolCache::CargoCache => seq![(join_spec(h, ".cargo/registry/cache"@), RootMode::Whole, Some("Crate archives"@)), (join_spec(h, ".cargo/registry/src"@), RootMode::Whole, Some("Extracted crate sources"@)), (join_spec(h, ".cargo/git/checkouts"@), RootMode::Whole, Some("Git dependency checkouts"@))],
            ToolCache::GoCache => if windows { seq![(join_spec(l, "go-build"@), RootMode::Whole, Some("Go build cache"@)), (join_spec(h, "go/pkg/mod/cache/download"@), RootMode::Whole, Some("Go module downloads"@))] } else { seq![(join_spec(c, "go-build"@), RootMode::Whole, Some("Go build cache"@)), (join_spec(h, "go/pkg/mod/cache/download"@), RootMode::Whole, Some("Go module downloads"@))] },
            ToolCache::NugetCache => seq![(join_spec(h, ".nuget/packages"@), RootMode::Whole, None)],
            ToolCache::CocoapodsCache => seq![(join_spec(c, "CocoaPods"@), RootMode::Whole, None)],
            ToolCache::SwiftpmCache => seq![(join_spec(c, "org.swift.swiftpm"@), RootMode::Whole, None)],
            ToolCache::PubCache => if windows { seq![(join_spec(l, "Pub\\Cache\\hosted"@), RootMode::Whole, None), (join_spec(l, "Pub\\Cache\\git"@), RootMode::Whole, None)] } else { seq![(join_spec(h, ".pub-cache/hosted"@), RootMode::Whole, None), (join_spec(h, ".pub-cache/git"@), RootMode::Whole, None)] },
            ToolCache::RubygemsCache => seq![(join_spec(h, ".bundle/cache"@), RootMode::Whole, None)],
            ToolCache::ComposerCache => if windows { seq![(join_spec(l, "Composer"@), RootMode::Whole, None)] } else { seq![(join_spec(h, ".composer/cache"@), RootMode::Whole, None), (join_spec(h, ".cache/composer"@), RootMode::Whole, None)] },
            ToolCache::JetbrainsCache => if windows { seq![(join_spec(l, "JetBrains"@), RootMode::Children, None)] } else { seq![(join_spec(c, "JetBrains"@), RootMode::Children, None), (join_spec(g, "JetBrains"@), RootMode::Children, None)] },
            ToolCache::DotslashCache => if windows { seq![(join_spec(l, "dotslash"@), RootMode::Whole, None)] } else { seq![(join_spec(c, "dotslash"@), RootMode::Whole, None), (join_spec(h, ".cache/dotslash"@), RootMode::Whole, None)] },
            ToolCache::HomebrewCache => seq![(join_spec(c, "Homebrew"@), RootMode::Whole, None)],
            ToolCache::XcodeDerivedData => seq![(join_spec(h, "Library/Developer/Xcode/DerivedData"@), RootMode::Children, None)],
            ToolCache::XcodeArchives => seq![(join_spec(h, "Library/Developer/Xcode/Archives"@), RootMode::Children, None)],
            ToolCache::XcodeDeviceSupport => seq![(join_spec(h, "Library/Developer/Xcode/iOS DeviceSupport"@), RootMode::Children, None), (join_spec(h, "Library/Developer/Xcode/watchOS DeviceSupport"@), RootMode::Children, None), (join_spec(h, "Library/Developer/Xcode/tvOS DeviceSupport"@), RootMode::Children, None)],
            ToolCache::SimulatorCaches => seq![(join_spec(h, "Library/Developer/CoreSimulator/Caches"@), RootMode::Whole, None)],
        }
    }));
}

impl ToolCache {
    /// Every tool cache, in display order.
    pub fn all() -> (r: Vec<ToolCache>)
        ensures
            r@ == tool_order(),
    {
        let mut v: Vec<ToolCache> = Vec::new();
        v.push(ToolCache::NpmCache);
        v.push(ToolCache::PnpmStore);
        v.push(ToolCache::YarnCache);
        v.push(ToolCache::BunCache);
        v.push(ToolCache::NodeGypCache);
        v.push(ToolCache::DenoCache);
        v.push(ToolCache::PlaywrightBrowsers);
        v.push(ToolCache::PuppeteerBrowsers);
        v.push(ToolCache::CypressBinaries);
        v.push(ToolCache::ElectronCache);
        v.push(ToolCache::PipCache);
        v.push(ToolCache::UvCache);
        v.push(ToolCache::GradleCache);
        v.push(ToolCache::MavenRepo);
        v.push(ToolCache::CargoCache);
        v.push(ToolCache::GoCache);
        v.push(ToolCache::NugetCache);
        v.push(ToolCache::CocoapodsCache);
        v.push(ToolCache::SwiftpmCache);
        v.push(ToolCache::PubCache);
        v.push(ToolCache::RubygemsCache);
        v.push(ToolCache::ComposerCache);
        v.push(ToolCache::JetbrainsCache);
        v.push(ToolCache::DotslashCache);
        v.push(ToolCache::HomebrewCache);
        v.push(ToolCache::XcodeDerivedData);
        v.push(ToolCache::XcodeArchives);
        v.push(ToolCache::XcodeDeviceSupport);
        v.push(ToolCache::SimulatorCaches);
        assert(v@ =~= tool_order());
        v
    }

    /// The provider this cache is offered by.
    pub fn provider(self) -> (r: SimpleProvider)
        ensures
            (r.id@, r.name@, r.description@, r.risk) == tool_info(self),
            r.category == Category::DeveloperFiles,
            r.priority == 60,
            r.exclude_names@.len() == 0,
            r.min_age_days is None,
            !r.permanent_only,
    {
        let (id, name, description, risk): (&'static str, &'static str, &'static str, RiskLevel) = match self {
            ToolCache::NpmCache => ("npm_cache", "npm cache", "Downloaded package tarballs (~/.npm/_cacache). npm re-downloads what it needs.", RiskLevel::Safe),
            ToolCache::PnpmStore => ("pnpm_store", "pnpm store", "Content-addressable pnpm store plus its registry metadata and dlx cache. Existing node_modules keep working; new installs re-fetch.", RiskLevel::Low),
            ToolCache::YarnCache => ("yarn_cache", "Yarn cache", "Yarn classic and Berry global caches.", RiskLevel::Safe),
            ToolCache::BunCache => ("bun_cache", "Bun cache", "Bun's global install cache.", RiskLevel::Safe),
            ToolCache::NodeGypCache => ("node_gyp_cache", "node-gyp headers", "Node headers and libraries downloaded to build native addons.", RiskLevel::Safe),
            ToolCache::DenoCache => ("deno_cache", "Deno cache", "Downloaded modules and compiled artifacts. Deno re-fetches what a program imports.", RiskLevel::Safe),
            ToolCache::PlaywrightBrowsers => ("playwright_browsers", "Playwright browsers", "Chromium, Firefox and WebKit builds downloaded for tests. `playwright install` brings them back, which takes a while.", RiskLevel::Low),
            ToolCache::PuppeteerBrowsers => ("puppeteer_browsers", "Puppeteer browsers", "Chrome builds downloaded by Puppeteer. Re-downloaded on the next install.", RiskLevel::Low),
            ToolCache::CypressBinaries => ("cypress_binaries", "Cypress binaries", "Downloaded Cypress test runner versions.", RiskLevel::Low),
            ToolCache::ElectronCache => ("electron_cache", "Electron downloads", "Electron runtimes and electron-builder's download cache.", RiskLevel::Safe),
            ToolCache::PipCache => ("pip_cache", "pip cache", "Downloaded wheels and HTTP cache for pip.", RiskLevel::Safe),
            ToolCache::UvCache => ("uv_cache", "uv cache", "Cache of the uv Python package manager.", RiskLevel::Safe),
            ToolCache::GradleCache => ("gradle_cache", "Gradle caches", "Dependency and build caches in ~/.gradle. Next build re-downloads dependencies.", RiskLevel::Low),
            ToolCache::MavenRepo => ("maven_repo", "Maven repository", "Local Maven repository (~/.m2/repository). Re-downloaded on the next build.", RiskLevel::Low),
            ToolCache::CargoCache => ("cargo_cache", "Cargo registry", "Downloaded crates and git checkouts in ~/.cargo. Cargo re-fetches on demand.", RiskLevel::Low),
            ToolCache::GoCache => ("go_cache", "Go caches", "Go build cache and module download cache.", RiskLevel::Low),
            ToolCache::NugetCache => ("nuget_cache", "NuGet packages", "Global NuGet package cache.", RiskLevel::Low),
            ToolCache::CocoapodsCache => ("cocoapods_cache", "CocoaPods cache", "Downloaded pod specs and sources.", RiskLevel::Safe),
            ToolCache::SwiftpmCache => ("swiftpm_cache", "Swift Package Manager cache", "Cached package manifests and repositories. Re-fetched on the next resolve.", RiskLevel::Safe),
            ToolCache::PubCache => ("pub_cache", "Dart and Flutter packages", "Packages downloaded by pub. `flutter pub get` re-downloads them.", RiskLevel::Low),
            ToolCache::RubygemsCache => ("rubygems_cache", "RubyGems cache", "Downloaded .gem archives and Bundler's cache. Installed gems are left alone.", RiskLevel::Safe),
            ToolCache::ComposerCache => ("composer_cache", "Composer cache", "PHP packages downloaded by Composer.", RiskLevel::Safe),
            ToolCache::JetbrainsCache => ("jetbrains_cache", "JetBrains IDE caches", "Indexes and local history for IntelliJ, WebStorm, PyCharm and friends. Rebuilt when a project is next opened.", RiskLevel::Low),
            ToolCache::DotslashCache => ("dotslash_cache", "DotSlash cache", "Executables DotSlash downloaded on demand. Re-fetched when next run.", RiskLevel::Safe),
            ToolCache::HomebrewCache => ("homebrew_cache", "Homebrew cache", "Downloaded bottles and casks. Equivalent to `brew cleanup`.", RiskLevel::Safe),
            ToolCache::XcodeDerivedData => ("xcode_derived_data", "Xcode DerivedData", "Intermediate build products and indexes, per project. Xcode rebuilds them.", RiskLevel::Safe),
            ToolCache::XcodeArchives => ("xcode_archives", "Xcode Archives", "App archives (.xcarchive). Needed to symbolicate crash logs of shipped builds.", RiskLevel::Medium),
            ToolCache::XcodeDeviceSupport => ("xcode_device_support", "Xcode Device Support", "Debug symbols for iOS/watchOS/tvOS versions you connected. Re-created on next connect.", RiskLevel::Low),
            ToolCache::SimulatorCaches => ("simulator_caches", "Simulator caches", "CoreSimulator caches (dyld shared caches etc.). Simulators and their data are untouched.", RiskLevel::Safe),
        };
        SimpleProvider::new(id, name, Category::DeveloperFiles, description, risk)
    }

    /// Where this tool keeps its cache on the platform asked about.
    #[verifier::rlimit(40)]
    pub fn places(self, windows: bool) -> (r: Vec<Place>)
        ensures
            place_views(r@) == tool_places(self, windows),
    {
        let mut v: Vec<Place> = Vec::new();
        match self {
            ToolCache::NpmCache => {
                if windows {
                    v.push(Place { base: Base::LocalAppData, rel: "npm-cache", mode: RootMode::Whole, label: None });
                } else {
                    v.push(Place { base: Base::Home, rel: ".npm/_cacache", mode: RootMode::Whole, label: None });
                }
            },
            ToolCache::PnpmStore => {
                if windows {
                    v.push(Place { base: Base::LocalAppData, rel: "pnpm\\store", mode: RootMode::Whole, label: None });
                    v.push(Place { base: Base::Home, rel: ".pnpm-store", mode: RootMode::Whole, label: None });
                    v.push(Place { base: Base::LocalAppData, rel: "pnpm-cache", mode: RootMode::Whole, label: None });
                } else {
                    v.push(Place { base: Base::Home, rel: "Library/pnpm/store", mode: RootMode::Whole, label: None });
                    v.push(Place { base: Base::Home, rel: ".local/share/pnpm/store", mode: RootMode::Whole, label: None });
                    v.push(Place { base: Base::Home, rel: ".pnpm-store", mode: RootMode::Whole, label: None });
                    v.push(Place { base: Base::UserCache, rel: "pnpm", mode: RootMode::Whole, label: None });
                    v.push(Place { base: Base::Home, rel: ".cache/pnpm", mode: RootMode::Whole, label: None });
                }
            },
            ToolCache::YarnCache => {
                if windows {
                    v.push(Place { base: Base::LocalAppData, rel: "Yarn\\Cache", mode: RootMode::Whole, label: None });
                    v.push(Place { base: Base::Home, rel: ".yarn/berry/cache", mode: RootMode::Whole, label: None });
                } else {
                    v.push(Place { base: Base::UserCache, rel: "Yarn", mode: RootMode::Whole, label: None });
                    v.push(Place { base: Base::Home, rel: ".yarn/berry/cache", mode: RootMode::Whole, label: None });
                }
            },
            ToolCache::BunCache => {
                v.push(Place { base: Base::Home, rel: ".bun/install/cache", mode: RootMode::Whole, label: None });
            },
            ToolCache::NodeGypCache => {
                if windows {
                    v.push(Place { base: Base::LocalAppData, rel: "node-gyp", mode: RootMode::Whole, label: None });
                    v.push(Place { base: Base::Home, rel: ".node-gyp", mode: RootMode::Whole, label: None });
                } else {
                    v.push(Place { base: Base::UserCache, rel: "node-gyp", mode: RootMode::Whole, label: None });
                    v.push(Place { base: Base::Home, rel: ".node-gyp", mode: RootMode::Whole, label: None });
                }
            },
            ToolCache::DenoCache => {
                if windows {
                    v.push(Place { base: Base::LocalAppData, rel: "deno", mode: RootMode::Whole, label: None });
                } else {
                    v.push(Place { base: Base::UserCache, rel: "deno", mode: RootMode::Whole, label: None });
                    v.push(Place { base: Base::Home, rel: ".cache/deno", mode: RootMode::Whole, label: None });
                }
            },
            ToolCache::PlaywrightBrowsers => {
                if windows {
                    v.push(Place { base: Base::LocalAppData, rel: "ms-playwright", mode: RootMode::Whole, label: None });
                } else {
                    v.push(Place { base: Base::UserCache, rel: "ms-playwright", mode: RootMode::Whole, label: None });
                    v.push(Place { base: Base::Home, rel: ".cache/ms-playwright", mode: RootMode::Whole, label: None });
                }
            },
            ToolCache::PuppeteerBrowsers => {
                if windows {
                    v.push(Place { base: Base::LocalAppData, rel: "puppeteer", mode: RootMode::Whole, label: None });
                } else {
                    v.push(Place { base: Base::UserCache, rel: "puppeteer", mode: RootMode::Whole, label: None });
                    v.push(Place { base: Base::Home, rel: ".cache/puppeteer", mode: RootMode::Whole, label: None });
                }
            },
            ToolCache::CypressBinaries => {
                if windows {
                    v.push(Place { base: Base::LocalAppData, rel: "Cypress\\Cache", mode: RootMode::Whole, label: None });
                } else {
                    v.push(Place { base: Base::UserCache, rel: "Cypress", mode: RootMode::Whole, label: None });
                    v.push(Place { base: Base::Home, rel: ".cache/Cypress", mode: RootMode::Whole, label: None });
                }
            },
            ToolCache::ElectronCache => {
                if windows {
                    v.push(Place { base: Base::LocalAppData, rel: "electron", mode: RootMode::Whole, label: None });
                    v.push(Place { base: Base::LocalAppData, rel: "electron-builder", mode: RootMode::Whole, label: None });
                } else {
                    v.push(Place { base: Base::UserCache, rel: "electron", mode: RootMode::Whole, label: None });
                    v.push(Place { base: Base::UserCache, rel: "electron-builder", mode: RootMode::Whole, label: None });
                }
            },
            ToolCache::PipCache => {
                if windows {
                    v.push(Place { base: Base::LocalAppData, rel: "pip\\cache", mode: RootMode::Whole, label: None });
                } else {
                    v.push(Place { base: Base::UserCache, rel: "pip", mode: RootMode::Whole, label: None });
                    v.push(Place { base: Base::Home, rel: ".cache/pip", mode: RootMode::Whole, label: None });
                }
            },
            ToolCache::UvCache => {
                if windows {
                    v.push(Place { base: Base::LocalAppData, rel: "uv\\cache", mode: RootMode::Whole, label: None });
                } else {
                    v.push(Place { base: Base::UserCache, rel: "uv", mode: RootMode::Whole, label: None });
                    v.push(Place { base: Base::Home, rel: ".cache/uv", mode: RootMode::Whole, label: None });
                }
            },
            ToolCache::GradleCache => {
                v.push(Place { base: Base::Home, rel: ".gradle/caches", mode: RootMode::Whole, label: Some("Gradle caches") });
                v.push(Place { base: Base::Home, rel: ".gradle/daemon", mode: RootMode::Whole, label: Some("Gradle daemon logs") });
                v.push(Place { base: Base::Home, rel: ".gradle/wrapper/dists", mode: RootMode::Whole, label: Some("Gradle wrapper distributions") });
            },
            ToolCache::MavenRepo => {
                v.push(Place { base: Base::Home, rel: ".m2/repository", mode: RootMode::Whole, label: None });
            },
            ToolCache::CargoCache => {
                v.push(Place { base: Base::Home, rel: ".cargo/registry/cache", mode: RootMode::Whole, label: Some("Crate archives") });
                v.push(Place { base: Base::Home, rel: ".cargo/registry/src", mode: RootMode::Whole, label: Some("Extracted crate sources") });
                v.push(Place { base: Base::Home, rel: ".cargo/git/checkouts", mode: RootMode::Whole, label: Some("Git dependency checkouts") });
            },
            ToolCache::GoCache => {
                if windows {
                    v.push(Place { base: Base::LocalAppData, rel: "go-build", mode: RootMode::Whole, label: Some("Go build cache") });
                    v.push(Place { base: Base::Home, rel: "go/pkg/mod/cache/download", mode: RootMode::Whole, label: Some("Go module downloads") });
                } else {
                    v.push(Place { base: Base::UserCache, rel: "go-build", mode: RootMode::Whole, label: Some("Go build cache") });
                    v.push(Place { base: Base::Home, rel: "go/pkg/mod/cache/download", mode: RootMode::Whole, label: Some("Go module downloads") });
                }
            },
            ToolCache::NugetCache => {
                v.push(Place { base: Base::Home, rel: ".nuget/packages", mode: RootMode::Whole, label: None });
            },
            ToolCache::CocoapodsCache => {
                v.push(Place { base: Base::UserCache, rel: "CocoaPods", mode: RootMode::Whole, label: None });
            },
            ToolCache::SwiftpmCache => {
                v.push(Place { base: Base::UserCache, rel: "org.swift.swiftpm", mode: RootMode::Whole, label: None });
            },
            ToolCache::PubCache => {
                if windows {
                    v.push(Place { base: Base::LocalAppData, rel: "Pub\\Cache\\hosted", mode: RootMode::Whole, label: None });
                    v.push(Place { base: Base::LocalAppData, rel: "Pub\\Cache\\git", mode: RootMode::Whole, label: None });
                } else {
                    v.push(Place { base: Base::Home, rel: ".pub-cache/hosted", mode: RootMode::Whole, label: None });
                    v.push(Place { base: Base::Home, rel: ".pub-cache/git", mode: RootMode::Whole, label: None });
                }
            },
            ToolCache::RubygemsCache => {
                v.push(Place { base: Base::Home, rel: ".bundle/cache", mode: RootMode::Whole, label: None });
            },
            ToolCache::ComposerCache => {
                if windows {
                    v.push(Place { base: Base::LocalAppData, rel: "Composer", mode: RootMode::Whole, label: None });
                } else {
                    v.push(Place { base: Base::Home, rel: ".composer/cache", mode: RootMode::Whole, label: None });
                    v.push(Place { base: Base::Home, rel: ".cache/composer", mode: RootMode::Whole, label: None });
                }
            },
            ToolCache::JetbrainsCache => {
                if windows {
                    v.push(Place { base: Base::LocalAppData, rel: "JetBrains", mode: RootMode::Children, label: None });
                } else {
                    v.push(Place { base: Base::UserCache, rel: "JetBrains", mode: RootMode::Children, label: None });
                    v.push(Place { base: Base::UserLogs, rel: "JetBrains", mode: RootMode::Children, label: None });
                }
            },
            ToolCache::DotslashCache => {
                if windows {
                    v.push(Place { base: Base::LocalAppData, rel: "dotslash", mode: RootMode::Whole, label: None });
                } else {
                    v.push(Place { base: Base::UserCache, rel: "dotslash", mode: RootMode::Whole, label: None });
                    v.push(Place { base: Base::Home, rel: ".cache/dotslash", mode: RootMode::Whole, label: None });
                }
            },
            ToolCache::HomebrewCache => {
                v.push(Place { base: Base::UserCache, rel: "Homebrew", mode: RootMode::Whole, label: None });
            },
            ToolCache::XcodeDerivedData => {
                v.push(Place { base: Base::Home, rel: "Library/Developer/Xcode/DerivedData", mode: RootMode::Children, label: None });
            },
            ToolCache::XcodeArchives => {
                v.push(Place { base: Base::Home, rel: "Library/Developer/Xcode/Archives", mode: RootMode::Children, label: None });
            },
            ToolCache::XcodeDeviceSupport => {
                v.push(Place { base: Base::Home, rel: "Library/Developer/Xcode/iOS DeviceSupport", mode: RootMode::Children, label: None });
                v.push(Place { base: Base::Home, rel: "Library/Developer/Xcode/watchOS DeviceSupport", mode: RootMode::Children, label: None });
                v.push(Place { base: Base::Home, rel: "Library/Developer/Xcode/tvOS DeviceSupport", mode: RootMode::Children, label: None });
            },
            ToolCache::SimulatorCaches => {
                v.push(Place { base: Base::Home, rel: "Library/Developer/CoreSimulator/Caches", mode: RootMode::Whole, label: None });
            },
        }
        assert(place_views(v@) =~= tool_places(self, windows));
        v
    }
}

impl ToolCache {
    /// The roots of this cache on this machine. `gem_versions`, the folders of `~/.gem/ruby`
    /// that hold a `cache` folder, is read for RubyGems alone, whose archives come first.
    pub fn roots(self, known: &KnownPaths, windows: bool, gem_versions: &Vec<String>) -> (r: Vec<Root>)
        ensures
            self != ToolCache::RubygemsCache ==> root_views(r@) == resolved(*known, tool_places(self, windows)),
            self == ToolCache::RubygemsCache ==> exists|names: Seq<Seq<char>>| {
                &&& strictly_sorted(names)
                &&& names.to_set() == string_views(gem_versions@).to_set()
                &&& root_views(r@) == #[trigger] gem_roots_of(known.home@, names) + resolved(*known, tool_places(self, windows))
            },
    {
        let places = self.places(windows);
        let mut rest = resolve(known, &places);
        if self == ToolCache::RubygemsCache {
            let mut out = gem_cache_roots(known.home.as_str(), gem_versions);
            let ghost first = out@;
            let ghost second = rest@;
            out.append(&mut rest);
            proof {
                assert(root_views(out@) =~= root_views(first) + root_views(second));
            }
            out
        } else {
            rest
        }
    }
}

/// The generic places every system has: per-user caches, logs, temporary files and the trash.
#[derive(Debug, Clone, Copy, PartialEq, Eq, Structural)]
pub enum SystemLocation {
    UserCache,
    UserLogs,
    TempFiles,
    Trash,
}

/// Cache folders of iCloud and account state, expensive or impossible to rebuild.
pub open spec fn user_cache_exclusions() -> Seq<Seq<char>> {
    seq![
        "CloudKit"@,
        "com.apple.bird"@,
        "com.apple.HomeKit"@,
        "com.apple.akd"@,
        "com.apple.passd"@,
        "com.apple.iCloudHelper"@,
        "com.apple.Safari"@,
        "com.apple.Safari.SafeBrowsing"@,
        "FamilyCircle"@,
        "com.apple.ap.adprivacyd"@,
        "com.apple.containermanagerd"@,
        "com.apple.nsurlsessiond"@,
    ]
}

/// Temporary entries that belong to running system services.
pub open spec fn temp_exclusions() -> Seq<Seq<char>> {
    seq!["com.apple.launchd"@, "powerlog"@, ".X11-unix"@, ".ICE-unix"@]
}

/// The caches of iCloud, HomeKit, accounts, Wallet, Safari, Family Sharing and the system's
/// container and download services are never offered by the application-cache provider, and
/// the temporary entries of running system services (launchd, powerlog, the X11 and ICE
/// sockets) never by the temporary-files provider.
pub proof fn lemma_system_state_is_kept(p: SimpleProvider, q: SimpleProvider)
    requires
        str_views(p.exclude_names@) == system_exclusions(SystemLocation::UserCache),
        str_views(q.exclude_names@) == system_exclusions(SystemLocation::TempFiles),
    ensures
        skips(p, "CloudKit"@),
        skips(p, "com.apple.bird"@),
        skips(p, "com.apple.HomeKit"@),
        skips(p, "com.apple.akd"@),
        skips(p, "com.apple.passd"@),
        skips(p, "com.apple.iCloudHelper"@),
        skips(p, "com.apple.Safari"@),
        skips(p, "com.apple.Safari.SafeBrowsing"@),
        skips(p, "FamilyCircle"@),
        skips(p, "com.apple.ap.adprivacyd"@),
        skips(p, "com.apple.containermanagerd"@),
        skips(p, "com.apple.nsurlsessiond"@),
        skips(q, "com.apple.launchd"@),
        skips(q, "powerlog"@),
        skips(q, ".X11-unix"@),
        skips(q, ".ICE-unix"@),
{
    assert(user_cache_exclusions()[0] == "CloudKit"@);
    assert(user_cache_exclusions()[1] == "com.apple.bird"@);
    assert(user_cache_exclusions()[2] == "com.apple.HomeKit"@);
    assert(user_cache_exclusions()[3] == "com.apple.akd"@);
    assert(user_cache_exclusions()[4] == "com.apple.passd"@);
    assert(user_cache_exclusions()[5] == "com.apple.iCloudHelper"@);
    assert(user_cache_exclusions()[6] == "com.apple.Safari"@);
    assert(user_cache_exclusions()[7] == "com.apple.Safari.SafeBrowsing"@);
    assert(user_cache_exclusions()[8] == "FamilyCircle"@);
    assert(user_cache_exclusions()[9] == "com.apple.ap.adprivacyd"@);
    assert(user_cache_exclusions()[10] == "com.apple.containermanagerd"@);
    assert(user_cache_exclusions()[11] == "com.apple.nsurlsessiond"@);
    assert(temp_exclusions()[0] == "com.apple.launchd"@);
    assert(temp_exclusions()[1] == "powerlog"@);
    assert(temp_exclusions()[2] == ".X11-unix"@);
    assert(temp_exclusions()[3] == ".ICE-unix"@);
    assert(str_views(p.exclude_names@) == user_cache_exclusions());
    assert(str_views(q.exclude_names@) == temp_exclusions());
}

/// Generic providers yield to specialised ones: the application-cache and log providers have
/// a lower priority than every other built-in provider, so where a specialised provider reports
/// the same folder, its finding is the one kept.
pub proof fn lemma_generic_providers_yield(b: BuiltIn)
    ensures
        b != BuiltIn::System(SystemLocation::UserCache) && b != BuiltIn::System(SystemLocation::UserLogs)
            ==> builtin_info(b).5 > builtin_info(BuiltIn::System(SystemLocation::UserCache)).5,
        builtin_info(BuiltIn::System(SystemLocation::UserLogs)).5 == builtin_info(BuiltIn::System(SystemLocation::UserCache)).5,
{
}

/// Id, name, category, description, default risk and priority of a provider.
pub type EntryView = (Seq<char>, Seq<char>, Category, Seq<char>, RiskLevel, u8);

/// What each system location's provider is. The generic ones have a low priority, so that
/// specialised providers win where they overlap.
pub open spec fn system_info(s: SystemLocation) -> EntryView {
    match s {
        SystemLocation::UserCache => ("user_cache"@, "Application Caches"@, Category::ApplicationCache,
            "Per-application cache folders. Apps rebuild them on next launch."@, RiskLevel::Safe, 10),
        SystemLocation::UserLogs => ("user_logs"@, "Logs"@, Category::Logs,
            "Diagnostic logs written by applications. Safe to remove; useful only when debugging."@, RiskLevel::Safe, 10),
        SystemLocation::TempFiles => ("temp_files"@, "Temporary Files"@, Category::TemporaryFiles,
            "Temporary files older than a day. Running programs may still use newer ones."@, RiskLevel::Low, 20),
        SystemLocation::Trash => ("trash"@, "Trash"@, Category::Trash,
            "Items already in the Trash. Removing them frees the space for good."@, RiskLevel::Safe, 60),
    }
}

pub open spec fn system_exclusions(s: SystemLocation) -> Seq<Seq<char>> {
    match s {
        SystemLocation::UserCache => user_cache_exclusions(),
        SystemLocation::TempFiles => temp_exclusions(),
        _ => Seq::empty(),
    }
}

/// Where each system location is on this machine.
pub open spec fn system_places(known: KnownPaths, s: SystemLocation, windows: bool) -> Seq<RootView> {
    match s {
        SystemLocation::UserCache => user_cache_places(known, windows),
        SystemLocation::UserLogs => match known.user_logs {
            Some(l) => seq![(l@, RootMode::Children, None)],
            None => Seq::empty(),
        },
        SystemLocation::TempFiles => seq![(known.temp@, RootMode::Children, None)],
        SystemLocation::Trash => match known.trash {
            Some(t) => seq![(t@, RootMode::Children, None)],
            None => Seq::empty(),
        },
    }
}

pub open spec fn entry_view(e: ProviderEntry) -> EntryView {
    (e.id@, e.name@, e.category, e.description@, e.default_risk, e.priority)
}

pub open spec fn provider_view(p: SimpleProvider) -> EntryView {
    (p.id@, p.name@, p.category, p.description@, p.risk, p.priority)
}

impl SystemLocation {
    /// The provider of this location: temporary files only once a day old, and the trash only
    /// ever deleted outright.
    pub fn provider(self) -> (r: SimpleProvider)
        ensures
            provider_view(r) == system_info(self),
            str_views(r.exclude_names@) == system_exclusions(self),
            r.min_age_days == (if self == SystemLocation::TempFiles { Some(1u32) } else { None }),
            r.permanent_only == (self == SystemLocation::Trash),
    {
        match self {
            SystemLocation::UserCache => {
                let mut names: Vec<&'static str> = Vec::new();
                names.push("CloudKit");
                names.push("com.apple.bird");
                names.push("com.apple.HomeKit");
                names.push("com.apple.akd");
                names.push("com.apple.passd");
                names.push("com.apple.iCloudHelper");
                names.push("com.apple.Safari");
                names.push("com.apple.Safari.SafeBrowsing");
                names.push("FamilyCircle");
                names.push("com.apple.ap.adprivacyd");
                names.push("com.apple.containermanagerd");
                names.push("com.apple.nsurlsessiond");
                assert(str_views(names@) =~= user_cache_exclusions());
                SimpleProvider::new(
                    "user_cache",
                    "Application Caches",
                    Category::ApplicationCache,
                    "Per-application cache folders. Apps rebuild them on next launch.",
                    RiskLevel::Safe,
                ).priority(10).exclude(names)
            },
            SystemLocation::UserLogs => {
                let p = SimpleProvider::new(
                    "user_logs",
                    "Logs",
                    Category::Logs,
                    "Diagnostic logs written by applications. Safe to remove; useful only when debugging.",
                    RiskLevel::Safe,
                ).priority(10);
                assert(str_views(p.exclude_names@) =~= Seq::<Seq<char>>::empty());
                p
            },
            SystemLocation::TempFiles => {
                let mut names: Vec<&'static str> = Vec::new();
                names.push("com.apple.launchd");
                names.push("powerlog");
                names.push(".X11-unix");
                names.push(".ICE-unix");
                assert(str_views(names@) =~= temp_exclusions());
                SimpleProvider::new(
                    "temp_files",
                    "Temporary Files",
                    Category::TemporaryFiles,
                    "Temporary files older than a day. Running programs may still use newer ones.",
                    RiskLevel::Low,
                ).priority(20).min_age_days(1).exclude(names)
            },
            SystemLocation::Trash => {
                let p = SimpleProvider::new(
                    "trash",
                    "Trash",
                    Category::Trash,
                    "Items already in the Trash. Removing them frees the space for good.",
                    RiskLevel::Safe,
                ).permanent_only();
                assert(str_views(p.exclude_names@) =~= Seq::<Seq<char>>::empty());
                p
            },
        }
    }

    /// Where this location is on this machine.
    pub fn roots(self, known: &KnownPaths, windows: bool) -> (r: Vec<Root>)
        ensures
            root_views(r@) == system_places(*known, self, windows),
    {
        let mut v: Vec<Root> = Vec::new();
        match self {
            SystemLocation::UserCache => {
                return user_cache_roots(known, windows);
            },
            SystemLocation::UserLogs => {
                if let Some(l) = &known.user_logs {
                    v.push(Root::children(l.clone()));
                }
            },
            SystemLocation::TempFiles => {
                v.push(Root::children(known.temp.clone()));
            },
            SystemLocation::Trash => {
                if let Some(t) = &known.trash {
                    v.push(Root::children(t.clone()));
                }
            },
        }
        assert(root_views(v@) =~= system_places(*known, self, windows));
        v
    }
}

/// Every built-in provider.
#[derive(Debug, Clone, Copy, PartialEq, Eq, Structural)]
pub enum BuiltIn {
    System(SystemLocation),
    OldInstallers,
    ChromiumCache,
    FirefoxCache,
    Tool(ToolCache),
    ProjectArtifacts,
}

/// What each built-in provider is.
pub open spec fn builtin_info(b: BuiltIn) -> EntryView {
    match b {
        BuiltIn::System(s) => system_info(s),
        BuiltIn::OldInstallers => ("old_installers"@, "Old Installers"@, Category::OldInstallers,
            "Installer images and packages in Downloads that are older than a week."@, RiskLevel::Low, 50),
        BuiltIn::ChromiumCache => ("chromium_cache"@, "Chromium Browsers"@, Category::BrowserCache,
            "HTTP and code caches of Chrome, Brave, Edge, Arc, Vivaldi, Opera. Logins are untouched."@, RiskLevel::Safe, 70),
        BuiltIn::FirefoxCache => ("firefox_cache"@, "Firefox"@, Category::BrowserCache,
            "Firefox HTTP cache per profile. Bookmarks, history and logins are untouched."@, RiskLevel::Safe, 70),
        BuiltIn::Tool(t) => {
            let i = tool_info(t);
            (i.0, i.1, Category::DeveloperFiles, i.2, i.3, 60)
        },
        BuiltIn::ProjectArtifacts => ("project_artifacts"@, "Project Artifacts"@, Category::DeveloperFiles,
            "node_modules, target/, build/, dist/, Python caches and similar regenerable folders inside your project directories."@,
            RiskLevel::Low, 80),
    }
}

/// The built-in providers, in display order: the system locations, old installers, the
/// browsers, the tool caches, and project artifacts last.
pub open spec fn builtin_order() -> Seq<BuiltIn> {
    seq![
        BuiltIn::System(SystemLocation::UserCache),
        BuiltIn::System(SystemLocation::UserLogs),
        BuiltIn::System(SystemLocation::TempFiles),
        BuiltIn::System(SystemLocation::Trash),
        BuiltIn::OldInstallers,
        BuiltIn::ChromiumCache,
        BuiltIn::FirefoxCache,
    ] + tool_order().map_values(|t: ToolCache| BuiltIn::Tool(t)) + seq![BuiltIn::ProjectArtifacts]
}

fn fixed_entry(id: &str, name: &str, category: Category, description: &str, risk: RiskLevel, priority: u8) -> (r: ProviderEntry)
    ensures
        entry_view(r) == (id@, name@, category, description@, risk, priority),
        !r.custom,
{
    ProviderEntry {
        id: owned(id),
        name: owned(name),
        category,
        description: owned(description),
        default_risk: risk,
        priority,
        custom: false,
    }
}

impl BuiltIn {
    /// What the registry keeps of this provider.
    pub fn entry(self) -> (r: ProviderEntry)
        ensures
            entry_view(r) == builtin_info(self),
            !r.custom,
    {
        match self {
            BuiltIn::System(s) => s.provider().entry(),
            BuiltIn::OldInstallers => {
                let o = OldInstallers;
                fixed_entry(o.id(), o.name(), o.category(), o.description(), o.default_risk(), 50)
            },
            BuiltIn::ChromiumCache => fixed_entry(
                "chromium_cache",
                "Chromium Browsers",
                Category::BrowserCache,
                "HTTP and code caches of Chrome, Brave, Edge, Arc, Vivaldi, Opera. Logins are untouched.",
                RiskLevel::Safe,
                70,
            ),
            BuiltIn::FirefoxCache => fixed_entry(
                "firefox_cache",
                "Firefox",
                Category::BrowserCache,
                "Firefox HTTP cache per profile. Bookmarks, history and logins are untouched.",
                RiskLevel::Safe,
                70,
            ),
            BuiltIn::Tool(t) => t.provider().entry(),
            BuiltIn::ProjectArtifacts => fixed_entry(
                "project_artifacts",
                "Project Artifacts",
                Category::DeveloperFiles,
                "node_modules, target/, build/, dist/, Python caches and similar regenerable folders inside your project directories.",
                RiskLevel::Low,
                80,
            ),
        }
    }

    /// Every built-in provider, in display order.
    pub fn all() -> (r: Vec<BuiltIn>)
        ensures
            r@ == builtin_order(),
    {
        let mut v: Vec<BuiltIn> = Vec::new();
        v.push(BuiltIn::System(SystemLocation::UserCache));
        v.push(BuiltIn::System(SystemLocation::UserLogs));
        v.push(BuiltIn::System(SystemLocation::TempFiles));
        v.push(BuiltIn::System(SystemLocation::Trash));
        v.push(BuiltIn::OldInstallers);
        v.push(BuiltIn::ChromiumCache);
        v.push(BuiltIn::FirefoxCache);
        let tools = ToolCache::all();
        let ghost head = v@;
        let mut i: usize = 0;
        while i < tools.len()
            invariant
                i <= tools@.len(),
                tools@ == tool_order(),
                v@ == head + tools@.take(i as int).map_values(|t: ToolCache| BuiltIn::Tool(t)),
            decreases tools@.len() - i,
        {
            v.push(BuiltIn::Tool(tools[i]));
            proof {
                assert(tools@.take(i + 1).map_values(|t: ToolCache| BuiltIn::Tool(t))
                    =~= tools@.take(i as int).map_values(|t: ToolCache| BuiltIn::Tool(t)).push(BuiltIn::Tool(tools@[i as int])));
            }
            i = i + 1;
        }
        assert(tools@.take(tools@.len() as int) =~= tools@);
        v.push(BuiltIn::ProjectArtifacts);
        assert(v@ =~= builtin_order());
        v
    }
}

/// What the registry keeps of each built-in provider, in display order.
pub fn default_entries() -> (r: Vec<ProviderEntry>)
    ensures
        r@.len() == builtin_order().len(),
        forall|i: int| 0 <= i < r@.len() ==> entry_view(#[trigger] r@[i]) == builtin_info(builtin_order()[i]) && !r@[i].custom,
{
    let all = BuiltIn::all();
    let mut out: Vec<ProviderEntry> = Vec::new();
    let mut i: usize = 0;
    while i < all.len()
        invariant
            i <= all@.len(),
            all@ == builtin_order(),
            out@.len() == i,
            forall|j: int| 0 <= j < i ==> entry_view(#[trigger] out@[j]) == builtin_info(builtin_order()[j]) && !out@[j].custom,
        decreases all@.len() - i,
    {
        out.push(all[i].entry());
        i = i + 1;
    }
    out
}

/// The ids of the built-in providers, which a provider of the user's may not take.
pub fn built_in_ids() -> (r: Vec<String>)
    ensures
        string_views(r@) == builtin_order().map_values(|b: BuiltIn| builtin_info(b).0),
{
    let entries = default_entries();
    let mut out: Vec<String> = Vec::new();
    let mut i: usize = 0;
    while i < entries.len()
        invariant
            i <= entries@.len(),
            entries@.len() == builtin_order().len(),
            forall|j: int| 0 <= j < entries@.len() ==> entry_view(#[trigger] entries@[j]) == builtin_info(builtin_order()[j]),
            string_views(out@) == builtin_order().take(i as int).map_values(|b: BuiltIn| builtin_info(b).0),
        decreases entries@.len() - i,
    {
        out.push(entries[i].id.clone());
        proof {
            assert(entry_view(entries@[i as int]) == builtin_info(builtin_order()[i as int]));
            assert(builtin_order().take(i + 1).map_values(|b: BuiltIn| builtin_info(b).0)
                =~= builtin_order().take(i as int).map_values(|b: BuiltIn| builtin_info(b).0).push(builtin_info(builtin_order()[i as int]).0));
            assert(string_views(out@) =~= string_views(out@.drop_last()).push(out@[i as int]@));
        }
        i = i + 1;
    }
    assert(builtin_order().take(builtin_order().len() as int) =~= builtin_order());
    out
}

} // verus!
