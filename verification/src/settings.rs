//! User settings: only the choices the engine needs. Reading and writing the file is the
//! caller's part.

use vstd::prelude::*;

use crate::paths::{is_absolute, starts_with, starts_with_spec};
use crate::text::string_views;

verus! {

#[derive(Debug, Clone, Default, PartialEq, Eq)]
pub struct Settings {
    /// Directories searched for project artifacts (`node_modules`, `target/`, ...).
    ///
    /// Empty means "use the directories Prune guesses", which is what a fresh install does.
    pub project_roots: Vec<String>,
}

/// Why a directory cannot be used as a project root.
#[derive(Debug, Clone, Copy, PartialEq, Eq, Structural)]
pub enum RootRejection {
    NotAbsolute,
    Missing,
    NotADirectory,
    /// Prune can only remove things inside the home directory, so scanning outside it would
    /// only ever produce targets the safety layer refuses.
    OutsideHome,
}

pub open spec fn rejection_message(r: RootRejection) -> Seq<char> {
    match r {
        RootRejection::NotAbsolute => "path must be absolute"@,
        RootRejection::Missing => "folder does not exist"@,
        RootRejection::NotADirectory => "path is not a folder"@,
        RootRejection::OutsideHome => "must be inside your home folder"@,
    }
}

impl RootRejection {
    pub fn message(self) -> (r: &'static str)
        ensures
            r@ == rejection_message(self),
    {
        match self {
            RootRejection::NotAbsolute => "path must be absolute",
            RootRejection::Missing => "folder does not exist",
            RootRejection::NotADirectory => "path is not a folder",
            RootRejection::OutsideHome => "must be inside your home folder",
        }
    }
}

/// What canonicalizing a path gave.
#[derive(Debug, Clone)]
pub enum Canonical {
    /// The canonical path, and whether it is a directory.
    Resolved { path: String, is_dir: bool },
    /// Nothing is there.
    NotFound,
    /// It could not be resolved for another reason.
    Unreadable,
}

/// The decision for one candidate root, given what canonicalizing it gave and the canonical
/// home directory (or home as given, when that could not be canonicalized).
pub open spec fn root_verdict(path: Seq<char>, canonical: Canonical, home: Seq<char>) -> Result<Seq<char>, RootRejection> {
    if !is_absolute(path) {
        Err(RootRejection::NotAbsolute)
    } else {
        match canonical {
            Canonical::NotFound => Err(RootRejection::Missing),
            Canonical::Unreadable => Err(RootRejection::NotADirectory),
            Canonical::Resolved { path: c, is_dir } => if !is_dir {
                Err(RootRejection::NotADirectory)
            } else if !starts_with_spec(c@, home) {
                Err(RootRejection::OutsideHome)
            } else {
                Ok(c@)
            },
        }
    }
}

pub open spec fn result_view(r: Result<String, RootRejection>) -> Result<Seq<char>, RootRejection> {
    match r {
        Ok(s) => Ok(s@),
        Err(e) => Err(e),
    }
}

/// Checks one candidate project root, returning it in canonical form.
pub fn validate_root(path: &str, canonical: &Canonical, home: &str) -> (r: Result<String, RootRejection>)
    ensures
        result_view(r) == root_verdict(path@, *canonical, home@),
{
    let p = crate::paths::parse(path);
    if !p.absolute {
        return Err(RootRejection::NotAbsolute);
    }
    match canonical {
        Canonical::NotFound => Err(RootRejection::Missing),
        Canonical::Unreadable => Err(RootRejection::NotADirectory),
        Canonical::Resolved { path: c, is_dir } => {
            if !*is_dir {
                Err(RootRejection::NotADirectory)
            } else if !starts_with(c.as_str(), home) {
                Err(RootRejection::OutsideHome)
            } else {
                Ok(c.clone())
            }
        },
    }
}

/// The roots kept so far with `path` considered: ignored when a kept root already covers it;
/// otherwise kept roots inside it are dropped and it is added.
pub open spec fn with_root(roots: Seq<Seq<char>>, path: Seq<char>) -> Seq<Seq<char>> {
    if exists|i: int| 0 <= i < roots.len() && starts_with_spec(path, roots[i]) {
        roots
    } else {
        roots.filter(|k: Seq<char>| !starts_with_spec(k, path)).push(path)
    }
}

/// The roots kept from the first `n` checked candidates.
pub open spec fn kept_roots(checked: Seq<Result<String, RootRejection>>, n: int) -> Seq<Seq<char>>
    decreases n,
{
    if n <= 0 {
        Seq::empty()
    } else {
        let prev = kept_roots(checked, n - 1);
        match checked[n - 1] {
            Ok(p) => with_root(prev, p@),
            Err(_) => prev,
        }
    }
}

/// No kept root lies inside a different one.
pub open spec fn not_nested(roots: Seq<Seq<char>>) -> bool {
    forall|a: Seq<char>, b: Seq<char>| roots.contains(a) && roots.contains(b) && a != b ==> !starts_with_spec(a, b)
}

proof fn lemma_contains_drop_last<A>(s: Seq<A>, x: A)
    requires
        s.len() > 0,
        s.drop_last().contains(x),
    ensures
        s.contains(x),
{
    let k = choose|k: int| 0 <= k < s.drop_last().len() && s.drop_last()[k] == x;
    assert(s[k] == x);
}

proof fn lemma_filter_keeps<A>(s: Seq<A>, p: spec_fn(A) -> bool)
    ensures
        forall|x: A| s.filter(p).contains(x) ==> p(x) && s.contains(x),
    decreases s.len(),
{
    reveal(Seq::filter);
    if s.len() > 0 {
        lemma_filter_keeps(s.drop_last(), p);
        assert forall|x: A| s.filter(p).contains(x) implies p(x) && s.contains(x) by {
            let f = s.filter(p);
            let i = choose|i: int| 0 <= i < f.len() && f[i] == x;
            let g = s.drop_last().filter(p);
            if p(s.last()) {
                if i < g.len() {
                    assert(g[i] == x);
                    assert(g.contains(x));
                    lemma_contains_drop_last(s, x);
                } else {
                    assert(x == s.last());
                    assert(s[s.len() - 1] == x);
                }
            } else {
                assert(g.contains(x));
                lemma_contains_drop_last(s, x);
            }
        }
    }
}

impl Settings {
    /// Keeps only roots that are still usable, dropping duplicates and nested ones so no tree is
    /// walked twice. `checked[i]` is what `validate_root` said of `project_roots[i]`.
    pub fn sanitized_roots(&self, checked: &Vec<Result<String, RootRejection>>) -> (r: Vec<String>)
        requires
            checked@.len() == self.project_roots@.len(),
        ensures
            string_views(r@) == kept_roots(checked@, checked@.len() as int),
    {
        let mut roots: Vec<String> = Vec::new();
        let mut n: usize = 0;
        while n < checked.len()
            invariant
                n <= checked@.len(),
                string_views(roots@) == kept_roots(checked@, n as int),
            decreases checked@.len() - n,
        {
            match &checked[n] {
                Err(_) => {},
                Ok(path) => {
                    let mut covered = false;
                    let mut i: usize = 0;
                    while i < roots.len()
                        invariant
                            i <= roots@.len(),
                            covered == exists|k: int| 0 <= k < i && starts_with_spec(path@, string_views(roots@)[k]),
                        decreases roots@.len() - i,
                    {
                        assert(string_views(roots@)[i as int] == roots@[i as int]@);
                        if starts_with(path.as_str(), roots[i].as_str()) {
                            covered = true;
                        }
                        i = i + 1;
                    }
                    if !covered {
                        let ghost before = string_views(roots@);
                        let mut next: Vec<String> = Vec::new();
                        let mut j: usize = 0;
                        while j < roots.len()
                            invariant
                                j <= roots@.len(),
                                before == string_views(roots@),
                                string_views(next@) == before.take(j as int).filter(|k: Seq<char>| !starts_with_spec(k, path@)),
                            decreases roots@.len() - j,
                        {
                            proof {
                                assert(before.take(j + 1).drop_last() == before.take(j as int));
                                assert(before.take(j + 1).last() == roots@[j as int]@);
                                reveal(Seq::filter);
                            }
                            if !starts_with(roots[j].as_str(), path.as_str()) {
                                let kept = roots[j].clone();
                                next.push(kept);
                                assert(string_views(next@) =~= string_views(next@.drop_last()).push(kept@));
                            }
                            j = j + 1;
                        }
                        assert(before.take(roots@.len() as int) == before);
                        let added = path.clone();
                        next.push(added);
                        assert(string_views(next@) =~= string_views(next@.drop_last()).push(added@));
                        roots = next;
                    }
                },
            }
            n = n + 1;
        }
        roots
    }
}

/// Sanitizing never keeps one root inside another: whatever the candidates, no kept root lies
/// inside a different kept root.
pub proof fn lemma_kept_roots_not_nested(checked: Seq<Result<String, RootRejection>>, n: int)
    requires
        0 <= n <= checked.len(),
    ensures
        not_nested(kept_roots(checked, n)),
    decreases n,
{
    if n > 0 {
        lemma_kept_roots_not_nested(checked, n - 1);
        let prev = kept_roots(checked, n - 1);
        if let Ok(p) = checked[n - 1] {
            let path = p@;
            if !(exists|i: int| 0 <= i < prev.len() && starts_with_spec(path, prev[i])) {
                let pred = |k: Seq<char>| !starts_with_spec(k, path);
                let f = prev.filter(pred);
                lemma_filter_keeps(prev, pred);
                let out = f.push(path);
                assert(out == kept_roots(checked, n));
                assert forall|a: Seq<char>, b: Seq<char>| out.contains(a) && out.contains(b) && a != b implies !starts_with_spec(a, b) by {
                    let ia = choose|i: int| 0 <= i < out.len() && out[i] == a;
                    let ib = choose|i: int| 0 <= i < out.len() && out[i] == b;
                    if ia < f.len() {
                        assert(f.contains(a));
                    }
                    if ib < f.len() {
                        assert(f.contains(b));
                    }
                    if ia < f.len() && ib < f.len() {
                        assert(prev.contains(a) && prev.contains(b));
                    } else if ia == f.len() {
                        assert(a == path);
                        assert(prev.contains(b));
                        let k = choose|k: int| 0 <= k < prev.len() && prev[k] == b;
                        assert(!starts_with_spec(path, prev[k]));
                    } else {
                        assert(b == path);
                        assert(pred(a));
                    }
                }
            }
        }
    }
}

} // verus!
