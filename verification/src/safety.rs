//! The safety layer. Every path that reaches the deletion code passes through
//! [`SafetyPolicy::validate`], regardless of where it came from.
//!
//! The policy is a *whitelist*: removal is only possible inside `allowed_roots` (the user's
//! home directory and the temp directory), and even there a set of exact paths and whole trees
//! are off limits.
//!
//! What the filesystem says about a path (whether it exists, where its parent really is) is
//! read by the caller and handed in as [`PathFacts`]; the rules themselves live here.

use vstd::prelude::*;

use crate::error::PruneError;
use crate::paths::{
    extension, extension_of, is_absolute, model_eq, model_starts_with, parent_view, parse,
    parts_of, path_view, view_eq, view_starts_with, PathModel, PathView,
};
use crate::platform::ProtectedPaths;
use crate::text::owned;

verus! {

/// An operating-system error met while resolving a path.
#[derive(Debug, Clone)]
pub struct IoFailure {
    pub path: String,
    pub message: String,
}

/// What the filesystem reported about the path being validated.
#[derive(Debug)]
pub struct PathFacts {
    /// `symlink_metadata` succeeded: the path (or the link at it) exists.
    pub exists: bool,
    /// The path with its parent directory canonicalized and its last component re-attached,
    /// so a symlink at the leaf is not followed; or why the parent could not be resolved.
    pub resolved: Result<String, IoFailure>,
    /// The resolved path is a directory (read without following a symlink).
    pub resolved_is_dir: bool,
}

/// Why a path was refused.
#[derive(Debug, Clone, Copy, PartialEq, Eq, Structural)]
pub enum Refusal {
    NotAbsolute,
    DotComponent,
    FilesystemRoot,
    Missing,
    OutsideAllowed,
    ExactProtected,
    ContainsProtected,
    InsideTree,
}

pub open spec fn refusal_reason(r: Refusal) -> Seq<char> {
    match r {
        Refusal::NotAbsolute => "path must be absolute"@,
        Refusal::DotComponent => "path must not contain '.' or '..'"@,
        Refusal::FilesystemRoot => "refusing to touch a filesystem root"@,
        Refusal::Missing => "path does not exist"@,
        Refusal::OutsideAllowed => "outside of the directories Prune is allowed to modify (home, temp)"@,
        Refusal::ExactProtected => "protected system or user directory"@,
        Refusal::ContainsProtected => "contains a protected directory"@,
        Refusal::InsideTree => "inside a protected tree"@,
    }
}

impl Refusal {
    pub fn reason(self) -> (r: &'static str)
        ensures
            r@ == refusal_reason(self),
    {
        match self {
            Refusal::NotAbsolute => "path must be absolute",
            Refusal::DotComponent => "path must not contain '.' or '..'",
            Refusal::FilesystemRoot => "refusing to touch a filesystem root",
            Refusal::Missing => "path does not exist",
            Refusal::OutsideAllowed => "outside of the directories Prune is allowed to modify (home, temp)",
            Refusal::ExactProtected => "protected system or user directory",
            Refusal::ContainsProtected => "contains a protected directory",
            Refusal::InsideTree => "inside a protected tree",
        }
    }
}

/// What the rules decide about one path.
pub enum Verdict {
    /// Removable; the path as it will be removed.
    Allowed(Seq<char>),
    Refused(Refusal),
    /// The parent directory could not be resolved.
    Unresolved(Seq<char>, Seq<char>),
}

/// The policy as components.
pub struct PolicyView {
    pub allowed: Seq<PathView>,
    pub exact: Seq<PathView>,
    pub trees: Seq<PathView>,
    pub bundles: Seq<PathView>,
}

/// A path that passed validation. Only this type can be handed to the deletion functions.
#[derive(Debug, Clone)]
pub struct ValidatedPath {
    normalized: String,
}

impl View for ValidatedPath {
    type V = Seq<char>;

    closed spec fn view(&self) -> Seq<char> {
        self.normalized@
    }
}

impl ValidatedPath {
    pub fn as_path(&self) -> (r: &str)
        ensures
            r@ == self@,
    {
        self.normalized.as_str()
    }
}

/// Validates paths against protected locations.
pub struct SafetyPolicy {
    allowed_roots: Vec<PathModel>,
    exact: Vec<PathModel>,
    trees: Vec<PathModel>,
    app_bundle_roots: Vec<PathModel>,
}

pub open spec fn models_view(v: Seq<PathModel>) -> Seq<PathView> {
    v.map_values(|m: PathModel| m@)
}

pub open spec fn texts_view(v: Seq<String>) -> Seq<PathView> {
    v.map_values(|s: String| path_view(s@))
}

impl View for SafetyPolicy {
    type V = PolicyView;

    closed spec fn view(&self) -> PolicyView {
        PolicyView {
            allowed: models_view(self.allowed_roots@),
            exact: models_view(self.exact@),
            trees: models_view(self.trees@),
            bundles: models_view(self.app_bundle_roots@),
        }
    }
}

/// The policy built from lists of paths.
pub open spec fn policy_of(p: ProtectedPaths) -> PolicyView {
    PolicyView {
        allowed: texts_view(p.allowed_roots@),
        exact: texts_view(p.exact@),
        trees: texts_view(p.trees@),
        bundles: texts_view(p.app_bundle_roots@),
    }
}

/// `nv` is strictly inside `root`.
pub open spec fn strictly_inside(nv: PathView, root: PathView) -> bool {
    view_starts_with(nv, root) && !view_eq(nv, root)
}

/// A `.app` bundle directly inside one of the bundle roots, and a directory.
pub open spec fn is_app_bundle(p: PolicyView, nv: PathView, is_dir: bool) -> bool {
    &&& nv.parts.len() > 0
    &&& nv.parts.last() != seq!['.', '.']
    &&& extension_of(nv.parts.last()) == Some(seq!['a', 'p', 'p'])
    &&& exists|i: int|
        0 <= i < p.bundles.len() && view_eq(p.bundles[i], parent_view(nv)->Some_0)
    &&& is_dir
}

/// Index of the first protected path in `exact` that is `nv` or lies below it.
pub open spec fn first_covered(exact: Seq<PathView>, nv: PathView) -> Option<int>
    decreases exact.len(),
{
    if exact.len() == 0 {
        None
    } else if view_starts_with(exact[0], nv) {
        Some(0)
    } else {
        match first_covered(exact.drop_first(), nv) {
            Some(i) => Some(i + 1),
            None => None,
        }
    }
}

/// The decision for a resolved path.
pub open spec fn resolved_verdict(p: PolicyView, n: Seq<char>, is_dir: bool) -> Verdict {
    let nv = path_view(n);
    if is_app_bundle(p, nv, is_dir) {
        Verdict::Allowed(n)
    } else if !(exists|i: int| 0 <= i < p.allowed.len() && strictly_inside(nv, p.allowed[i])) {
        Verdict::Refused(Refusal::OutsideAllowed)
    } else {
        match first_covered(p.exact, nv) {
            Some(i) => if view_eq(nv, p.exact[i]) {
                Verdict::Refused(Refusal::ExactProtected)
            } else {
                Verdict::Refused(Refusal::ContainsProtected)
            },
            None => if exists|i: int| 0 <= i < p.trees.len() && view_starts_with(nv, p.trees[i]) {
                Verdict::Refused(Refusal::InsideTree)
            } else {
                Verdict::Allowed(n)
            },
        }
    }
}

/// The decision for `path`, given what the filesystem reported.
///
/// Rules, in order:
/// 1. must be absolute and free of `.`/`..` components
/// 2. must not be a filesystem root
/// 3. must exist (symlinks are *not* followed; a symlink is removed as a link)
/// 4. a `.app` bundle directly inside one of the bundle roots passes here
/// 5. must be inside one of the allowed roots, and not *be* an allowed root
/// 6. must not be an exact-protected path or an ancestor of one
/// 7. must not be inside a protected tree
pub open spec fn verdict(p: PolicyView, path: Seq<char>, facts: PathFacts) -> Verdict {
    if !is_absolute(path) {
        Verdict::Refused(Refusal::NotAbsolute)
    } else if parts_of(path).contains(seq!['.', '.']) {
        Verdict::Refused(Refusal::DotComponent)
    } else if parts_of(path).len() == 0 {
        Verdict::Refused(Refusal::FilesystemRoot)
    } else if !facts.exists {
        Verdict::Refused(Refusal::Missing)
    } else {
        match facts.resolved {
            Err(f) => Verdict::Unresolved(f.path@, f.message@),
            Ok(n) => resolved_verdict(p, n@, facts.resolved_is_dir),
        }
    }
}

/// `r` is how `v` is reported for `path`.
pub open spec fn reports(r: Result<ValidatedPath, PruneError>, v: Verdict, path: Seq<char>) -> bool {
    match v {
        Verdict::Allowed(n) => r matches Ok(vp) && vp@ == n,
        Verdict::Refused(k) => r matches Err(PruneError::Safety { path: p, reason }) && p@ == path
            && reason@ == refusal_reason(k),
        Verdict::Unresolved(p, m) => r matches Err(PruneError::Io { path: q, message }) && q@ == p
            && message@ == m,
    }
}

fn parse_all(v: &Vec<String>) -> (r: Vec<PathModel>)
    ensures
        models_view(r@) == texts_view(v@),
{
    let mut r: Vec<PathModel> = Vec::new();
    let mut i: usize = 0;
    while i < v.len()
        invariant
            i <= v@.len(),
            r@.len() == i,
            forall|j: int| 0 <= j < i ==> #[trigger] r@[j]@ == path_view(v@[j]@),
        decreases v@.len() - i,
    {
        r.push(parse(v[i].as_str()));
        i = i + 1;
    }
    assert(models_view(r@) =~= texts_view(v@));
    r
}

fn has_dotdot(p: &PathModel) -> (r: bool)
    ensures
        r == p@.parts.contains(seq!['.', '.']),
{
    let dots = crate::text::string_from(&['.', '.']);
    assert(dots@ =~= seq!['.', '.']);
    let mut i: usize = 0;
    while i < p.parts.len()
        invariant
            i <= p.parts@.len(),
            dots@ == seq!['.', '.'],
            forall|j: int| 0 <= j < i ==> p.parts@[j]@ != seq!['.', '.'],
        decreases p.parts@.len() - i,
    {
        if p.parts[i].eq(&dots) {
            assert(p@.parts[i as int] == seq!['.', '.']);
            return true;
        }
        i = i + 1;
    }
    assert(!p@.parts.contains(seq!['.', '.'])) by {
        if p@.parts.contains(seq!['.', '.']) {
            let j = choose|j: int| 0 <= j < p@.parts.len() && p@.parts[j] == seq!['.', '.'];
            assert(p.parts@[j]@ == seq!['.', '.']);
        }
    }
    false
}

/// The parent of a path with at least one component.
fn parent_model(p: &PathModel) -> (r: PathModel)
    requires
        p@.parts.len() > 0,
    ensures
        r@ == parent_view(p@)->Some_0,
{
    let mut parts: Vec<String> = Vec::new();
    let mut i: usize = 0;
    while i < p.parts.len() - 1
        invariant
            p@.parts.len() > 0,
            i + 1 <= p.parts@.len(),
            parts@.len() == i,
            forall|j: int| 0 <= j < i ==> #[trigger] parts@[j]@ == p.parts@[j]@,
        decreases p.parts@.len() - i,
    {
        parts.push(p.parts[i].clone());
        i = i + 1;
    }
    let r = PathModel { prefix: crate::paths::copy_chars(&p.prefix), absolute: p.absolute, cur_dir: p.cur_dir, parts };
    assert(r@.parts =~= p@.parts.drop_last());
    r
}

impl SafetyPolicy {
    /// Builds a policy from explicit lists. Each path is taken as given: the caller resolves
    /// the ones that exist to their canonical form first, so that comparisons with resolved
    /// paths hold.
    pub fn from_protected(protected: ProtectedPaths) -> (r: SafetyPolicy)
        ensures
            r@ == policy_of(protected),
    {
        SafetyPolicy {
            allowed_roots: parse_all(&protected.allowed_roots),
            exact: parse_all(&protected.exact),
            trees: parse_all(&protected.trees),
            app_bundle_roots: parse_all(&protected.app_bundle_roots),
        }
    }

    fn is_app_bundle(&self, nv: &PathModel, is_dir: bool) -> (r: bool)
        ensures
            r == is_app_bundle(self@, nv@, is_dir),
    {
        let n = nv.parts.len();
        if n == 0 {
            return false;
        }
        let last = &nv.parts[n - 1];
        let dots = crate::text::string_from(&['.', '.']);
        assert(dots@ =~= seq!['.', '.']);
        if last.eq(&dots) {
            return false;
        }
        let is_app = match extension(last.as_str()) {
            Some(e) => {
                let app = owned("app");
                proof {
                    reveal_strlit("app");
                    assert(app@ =~= seq!['a', 'p', 'p']);
                }
                e.eq(&app)
            },
            None => false,
        };
        assert(nv@.parts.last() == last@);
        assert(is_app == (extension_of(last@) == Some(seq!['a', 'p', 'p'])));
        if !is_app {
            return false;
        }
        if !is_dir {
            return false;
        }
        let parent = parent_model(nv);
        let mut i: usize = 0;
        while i < self.app_bundle_roots.len()
            invariant
                i <= self.app_bundle_roots@.len(),
                parent@ == parent_view(nv@)->Some_0,
                nv@.parts.len() > 0,
                nv@.parts.last() != seq!['.', '.'],
                extension_of(nv@.parts.last()) == Some(seq!['a', 'p', 'p']),
                is_dir,
                forall|j: int| 0 <= j < i ==> !view_eq(#[trigger] self@.bundles[j], parent@),
            decreases self.app_bundle_roots@.len() - i,
        {
            if model_eq(&self.app_bundle_roots[i], &parent) {
                assert(view_eq(self@.bundles[i as int], parent_view(nv@)->Some_0));
                return true;
            }
            i = i + 1;
        }
        false
    }

    fn inside_allowed(&self, nv: &PathModel) -> (r: bool)
        ensures
            r == exists|i: int| 0 <= i < self@.allowed.len() && strictly_inside(nv@, self@.allowed[i]),
    {
        let mut i: usize = 0;
        while i < self.allowed_roots.len()
            invariant
                i <= self.allowed_roots@.len(),
                forall|j: int| 0 <= j < i ==> !strictly_inside(nv@, #[trigger] self@.allowed[j]),
            decreases self.allowed_roots@.len() - i,
        {
            let root = &self.allowed_roots[i];
            if model_starts_with(nv, root) && !model_eq(nv, root) {
                assert(strictly_inside(nv@, self@.allowed[i as int]));
                return true;
            }
            i = i + 1;
        }
        false
    }

    fn first_covered(&self, nv: &PathModel) -> (r: Option<usize>)
        ensures
            match r {
                Some(i) => first_covered(self@.exact, nv@) == Some(i as int) && i < self@.exact.len(),
                None => first_covered(self@.exact, nv@) is None,
            },
    {
        let mut i: usize = 0;
        assert(self@.exact.skip(0) == self@.exact);
        while i < self.exact.len()
            invariant
                i <= self.exact@.len(),
                first_covered(self@.exact, nv@) == (match first_covered(self@.exact.skip(i as int), nv@) {
                    Some(k) => Some(k + i),
                    None => None,
                }),
            decreases self.exact@.len() - i,
        {
            assert(self@.exact.skip(i as int)[0] == self@.exact[i as int]);
            if model_starts_with(&self.exact[i], nv) {
                return Some(i);
            }
            assert(self@.exact.skip(i as int).drop_first() == self@.exact.skip(i + 1));
            i = i + 1;
        }
        None
    }

    fn inside_tree(&self, nv: &PathModel) -> (r: bool)
        ensures
            r == exists|i: int| 0 <= i < self@.trees.len() && view_starts_with(nv@, self@.trees[i]),
    {
        let mut i: usize = 0;
        while i < self.trees.len()
            invariant
                i <= self.trees@.len(),
                forall|j: int| 0 <= j < i ==> !view_starts_with(nv@, #[trigger] self@.trees[j]),
            decreases self.trees@.len() - i,
        {
            if model_starts_with(nv, &self.trees[i]) {
                assert(view_starts_with(nv@, self@.trees[i as int]));
                return true;
            }
            i = i + 1;
        }
        false
    }

    /// Validates `path` for removal, given what the filesystem reported about it.
    pub fn validate(&self, path: &str, facts: &PathFacts) -> (r: Result<ValidatedPath, PruneError>)
        ensures
            reports(r, verdict(self@, path@, *facts), path@),
    {
        let p = parse(path);
        if !p.absolute {
            return Err(PruneError::safety(path, Refusal::NotAbsolute.reason()));
        }
        if has_dotdot(&p) {
            return Err(PruneError::safety(path, Refusal::DotComponent.reason()));
        }
        if p.parts.len() == 0 {
            return Err(PruneError::safety(path, Refusal::FilesystemRoot.reason()));
        }
        if !facts.exists {
            return Err(PruneError::safety(path, Refusal::Missing.reason()));
        }
        let normalized = match &facts.resolved {
            Err(f) => {
                return Err(PruneError::io(f.path.as_str(), f.message.as_str()));
            },
            Ok(n) => n,
        };
        let nv = parse(normalized.as_str());
        if self.is_app_bundle(&nv, facts.resolved_is_dir) {
            return Ok(ValidatedPath { normalized: normalized.clone() });
        }
        if !self.inside_allowed(&nv) {
            return Err(PruneError::safety(path, Refusal::OutsideAllowed.reason()));
        }
        match self.first_covered(&nv) {
            Some(i) => {
                if model_eq(&nv, &self.exact[i]) {
                    return Err(PruneError::safety(path, Refusal::ExactProtected.reason()));
                } else {
                    return Err(PruneError::safety(path, Refusal::ContainsProtected.reason()));
                }
            },
            None => {},
        }
        if self.inside_tree(&nv) {
            return Err(PruneError::safety(path, Refusal::InsideTree.reason()));
        }
        Ok(ValidatedPath { normalized: normalized.clone() })
    }

    /// `true` when the path would be refused.
    pub fn is_protected(&self, path: &str, facts: &PathFacts) -> (r: bool)
        ensures
            r == !(verdict(self@, path@, *facts) is Allowed),
    {
        self.validate(path, facts).is_err()
    }
}

/// What validation lets through respects the policy. A path comes back validated only as what
/// it resolves to, and only when it was given as an absolute path free of `..` that exists and
/// is not a filesystem root; and then either it is a `.app` bundle directly inside one of the
/// bundle roots, or it lies strictly inside an allowed root, is not a protected path, holds no
/// protected path below it, and lies in no protected tree.
pub proof fn lemma_validated_respects_policy(p: PolicyView, path: Seq<char>, facts: PathFacts)
    requires
        verdict(p, path, facts) is Allowed,
    ensures
        is_absolute(path),
        !parts_of(path).contains(seq!['.', '.']),
        parts_of(path).len() > 0,
        facts.exists,
        facts.resolved matches Ok(n) && verdict(p, path, facts) == Verdict::Allowed(n@) && ({
            let nv = path_view(n@);
            ||| is_app_bundle(p, nv, facts.resolved_is_dir)
            ||| {
                &&& exists|i: int| 0 <= i < p.allowed.len() && strictly_inside(nv, p.allowed[i])
                &&& forall|i: int| 0 <= i < p.exact.len() ==> !view_starts_with(#[trigger] p.exact[i], nv)
                &&& forall|i: int| 0 <= i < p.trees.len() ==> !view_starts_with(nv, #[trigger] p.trees[i])
            }
        }),
{
    if let Ok(n) = facts.resolved {
        let nv = path_view(n@);
        if !is_app_bundle(p, nv, facts.resolved_is_dir) {
            lemma_first_covered_none(p.exact, nv);
        }
    }
}

/// No protected path is at or below `nv` when none is found.
proof fn lemma_first_covered_none(exact: Seq<PathView>, nv: PathView)
    ensures
        first_covered(exact, nv) is None ==> forall|i: int| 0 <= i < exact.len() ==> !view_starts_with(#[trigger] exact[i], nv),
    decreases exact.len(),
{
    if exact.len() > 0 {
        lemma_first_covered_none(exact.drop_first(), nv);
        if first_covered(exact, nv) is None {
            assert forall|i: int| 0 <= i < exact.len() implies !view_starts_with(#[trigger] exact[i], nv) by {
                if i > 0 {
                    assert(exact[i] == exact.drop_first()[i - 1]);
                }
            }
        }
    }
}

/// A path that resolves inside a protected tree is refused, unless it is a `.app` bundle
/// directly inside a bundle root.
pub proof fn lemma_trees_are_refused(p: PolicyView, path: Seq<char>, facts: PathFacts, t: int)
    requires
        0 <= t < p.trees.len(),
        facts.resolved matches Ok(n) && view_starts_with(path_view(n@), p.trees[t]) && !is_app_bundle(p, path_view(n@), facts.resolved_is_dir),
    ensures
        !(verdict(p, path, facts) is Allowed),
{
    if verdict(p, path, facts) is Allowed {
        lemma_validated_respects_policy(p, path, facts);
    }
}

/// A protected path itself, and any directory holding one, is refused, unless it is a `.app`
/// bundle directly inside a bundle root.
pub proof fn lemma_exact_are_refused(p: PolicyView, path: Seq<char>, facts: PathFacts, e: int)
    requires
        0 <= e < p.exact.len(),
        facts.resolved matches Ok(n) && view_starts_with(p.exact[e], path_view(n@)) && !is_app_bundle(p, path_view(n@), facts.resolved_is_dir),
    ensures
        !(verdict(p, path, facts) is Allowed),
{
    if verdict(p, path, facts) is Allowed {
        lemma_validated_respects_policy(p, path, facts);
    }
}

} // verus!
