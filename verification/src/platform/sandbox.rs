//! A platform whose every path lives under one directory, so the whole scan, plan and execute
//! pipeline can run against a tree laid out by hand.

use vstd::prelude::*;

use crate::paths::{join, join_spec};
use crate::platform::{KnownPaths, ProtectedPaths};
use crate::text::{owned, string_views};

verus! {

/// Platform rooted at a directory of the caller's choosing.
#[derive(Debug, Clone)]
pub struct SandboxPlatform {
    root: String,
}

impl SandboxPlatform {
    pub closed spec fn root_spec(&self) -> Seq<char> {
        self.root@
    }

    /// `root` is the parent of the fake `home` and `tmp` directories.
    pub fn new(root: String) -> (r: Self)
        ensures
            r.root_spec() == root@,
    {
        SandboxPlatform { root }
    }

    pub fn home(&self) -> (r: String)
        ensures
            r@ == join_spec(self.root_spec(), "home"@),
    {
        join(self.root.as_str(), "home")
    }

    pub fn temp(&self) -> (r: String)
        ensures
            r@ == join_spec(self.root_spec(), "tmp"@),
    {
        join(self.root.as_str(), "tmp")
    }

    /// The directories `prepare` creates, relative to home, before the temp directory.
    pub fn prepared_dirs(&self) -> (r: Vec<String>)
        ensures
            string_views(r@) == seq![
                join_spec(join_spec(self.root_spec(), "home"@), "Library/Caches"@),
                join_spec(join_spec(self.root_spec(), "home"@), "Library/Logs"@),
                join_spec(join_spec(self.root_spec(), "home"@), "Library/Application Support"@),
                join_spec(join_spec(self.root_spec(), "home"@), ".Trash"@),
                join_spec(join_spec(self.root_spec(), "home"@), "Downloads"@),
                join_spec(join_spec(self.root_spec(), "home"@), "Projects"@),
                join_spec(self.root_spec(), "tmp"@),
            ],
    {
        let home = self.home();
        let h = home.as_str();
        let mut v: Vec<String> = Vec::new();
        v.push(join(h, "Library/Caches"));
        v.push(join(h, "Library/Logs"));
        v.push(join(h, "Library/Application Support"));
        v.push(join(h, ".Trash"));
        v.push(join(h, "Downloads"));
        v.push(join(h, "Projects"));
        v.push(self.temp());
        assert(string_views(v@) =~= seq![
            join_spec(join_spec(self.root_spec(), "home"@), "Library/Caches"@),
            join_spec(join_spec(self.root_spec(), "home"@), "Library/Logs"@),
            join_spec(join_spec(self.root_spec(), "home"@), "Library/Application Support"@),
            join_spec(join_spec(self.root_spec(), "home"@), ".Trash"@),
            join_spec(join_spec(self.root_spec(), "home"@), "Downloads"@),
            join_spec(join_spec(self.root_spec(), "home"@), "Projects"@),
            join_spec(self.root_spec(), "tmp"@),
        ]);
        v
    }

    /// The sandbox's well-known directories, all under its home and temp directories.
    pub fn known_paths(&self) -> (r: KnownPaths)
        ensures
            r.home@ == join_spec(self.root_spec(), "home"@),
            r.temp@ == join_spec(self.root_spec(), "tmp"@),
            r.user_cache matches Some(p) && p@ == join_spec(r.home@, "Library/Caches"@),
            r.user_logs matches Some(p) && p@ == join_spec(r.home@, "Library/Logs"@),
            r.app_support matches Some(p) && p@ == join_spec(r.home@, "Library/Application Support"@),
            r.local_app_data matches Some(p) && p@ == join_spec(r.home@, "Library/Application Support"@),
            r.trash matches Some(p) && p@ == join_spec(r.home@, ".Trash"@),
            r.downloads matches Some(p) && p@ == join_spec(r.home@, "Downloads"@),
            string_views(r.project_roots@) == seq![join_spec(r.home@, "Projects"@)],
    {
        let home = self.home();
        let h = home.as_str();
        let mut projects: Vec<String> = Vec::new();
        projects.push(join(h, "Projects"));
        assert(string_views(projects@) =~= seq![join_spec(home@, "Projects"@)]);
        KnownPaths {
            user_cache: Some(join(h, "Library/Caches")),
            user_logs: Some(join(h, "Library/Logs")),
            app_support: Some(join(h, "Library/Application Support")),
            local_app_data: Some(join(h, "Library/Application Support")),
            temp: self.temp(),
            trash: Some(join(h, ".Trash")),
            downloads: Some(join(h, "Downloads")),
            project_roots: projects,
            home,
        }
    }

    /// What the safety layer must refuse to touch in the sandbox.
    pub fn protected_paths(&self, known: &KnownPaths) -> (r: ProtectedPaths)
        ensures
            string_views(r.allowed_roots@) == seq![known.home@, known.temp@],
            string_views(r.exact@) == seq![
                known.home@,
                join_spec(known.home@, "Library"@),
                join_spec(known.home@, "Library/Caches"@),
                join_spec(known.home@, "Documents"@),
            ],
            string_views(r.trees@) == seq![join_spec(known.home@, ".ssh"@), join_spec(known.home@, "Library/Keychains"@)],
            string_views(r.app_bundle_roots@) == seq![join_spec(known.home@, "Applications"@)],
    {
        let h = known.home.as_str();
        let mut allowed: Vec<String> = Vec::new();
        allowed.push(owned(h));
        allowed.push(known.temp.clone());
        let mut exact: Vec<String> = Vec::new();
        exact.push(owned(h));
        exact.push(join(h, "Library"));
        exact.push(join(h, "Library/Caches"));
        exact.push(join(h, "Documents"));
        let mut trees: Vec<String> = Vec::new();
        trees.push(join(h, ".ssh"));
        trees.push(join(h, "Library/Keychains"));
        let mut bundles: Vec<String> = Vec::new();
        bundles.push(join(h, "Applications"));
        assert(string_views(allowed@) =~= seq![known.home@, known.temp@]);
        assert(string_views(exact@) =~= seq![
            known.home@,
            join_spec(known.home@, "Library"@),
            join_spec(known.home@, "Library/Caches"@),
            join_spec(known.home@, "Documents"@),
        ]);
        assert(string_views(trees@) =~= seq![join_spec(known.home@, ".ssh"@), join_spec(known.home@, "Library/Keychains"@)]);
        assert(string_views(bundles@) =~= seq![join_spec(known.home@, "Applications"@)]);
        ProtectedPaths { allowed_roots: allowed, exact, trees, app_bundle_roots: bundles }
    }
}

} // verus!
