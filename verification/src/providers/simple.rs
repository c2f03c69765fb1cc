//! Declarative providers: a set of roots plus a few filters. Covers most cache locations.
//!
//! Where the roots are on a machine, and what is inside them, is read by the caller; what a
//! provider is, and which of what it finds it offers, is here.

use vstd::prelude::*;

use crate::models::{Category, RiskLevel};
use crate::paths::file_name_spec;
use crate::providers::custom::{old_enough, old_enough_spec};
use crate::providers::registry::ProviderEntry;
use crate::text::{owned, str_eq, str_views};

verus! {

/// How a root directory is turned into targets.
#[derive(Debug, Clone, Copy, PartialEq, Eq, Structural)]
pub enum RootMode {
    /// The root itself is one target (e.g. `~/.npm/_cacache`).
    Whole,
    /// Every direct child of the root is a target (e.g. each app under `~/Library/Caches`).
    Children,
}

/// A root directory for a [`SimpleProvider`].
#[derive(Debug, Clone)]
pub struct Root {
    pub path: String,
    pub mode: RootMode,
    /// Display label for `Whole` roots. Defaults to the last path component.
    pub label: Option<String>,
}

impl Root {
    pub fn whole(path: String) -> (r: Self)
        ensures
            r.path == path,
            r.mode == RootMode::Whole,
            r.label is None,
    {
        Root { path, mode: RootMode::Whole, label: None }
    }

    pub fn labelled(path: String, label: String) -> (r: Self)
        ensures
            r.path == path,
            r.mode == RootMode::Whole,
            r.label == Some(label),
    {
        Root { path, mode: RootMode::Whole, label: Some(label) }
    }

    pub fn children(path: String) -> (r: Self)
        ensures
            r.path == path,
            r.mode == RootMode::Children,
            r.label is None,
    {
        Root { path, mode: RootMode::Children, label: None }
    }
}

/// The name shown for a path: its last component, or the whole path when it has none.
pub open spec fn display_name(path: Seq<char>) -> Seq<char> {
    match file_name_spec(path) {
        Some(n) => n,
        None => path,
    }
}

/// The name shown for a path: its last component, or the whole path when it has none.
pub fn file_name(path: &str) -> (r: String)
    ensures
        r@ == display_name(path@),
{
    match crate::paths::file_name(path) {
        Some(n) => n,
        None => owned(path),
    }
}

/// Declarative provider: a set of roots plus a few filters.
#[derive(Debug, Clone)]
pub struct SimpleProvider {
    pub id: &'static str,
    pub name: &'static str,
    pub category: Category,
    pub description: &'static str,
    pub risk: RiskLevel,
    pub priority: u8,
    /// Child names (case-sensitive) to skip in `Children` mode.
    pub exclude_names: Vec<&'static str>,
    /// Only include entries not modified for at least this many days.
    pub min_age_days: Option<u32>,
    /// Targets that can only be deleted permanently (e.g. items already in the trash).
    pub permanent_only: bool,
}

impl SimpleProvider {
    /// A provider of the given kind, with the default priority for a specialised provider
    /// (60), no exclusions, no age limit, and targets that can go to the trash.
    pub fn new(
        id: &'static str,
        name: &'static str,
        category: Category,
        description: &'static str,
        risk: RiskLevel,
    ) -> (r: Self)
        ensures
            r.id == id,
            r.name == name,
            r.category == category,
            r.description == description,
            r.risk == risk,
            r.priority == 60,
            r.exclude_names@.len() == 0,
            r.min_age_days is None,
            !r.permanent_only,
    {
        SimpleProvider {
            id,
            name,
            category,
            description,
            risk,
            priority: 60,
            exclude_names: Vec::new(),
            min_age_days: None,
            permanent_only: false,
        }
    }

    pub fn priority(self, priority: u8) -> (r: Self)
        ensures
            r == (SimpleProvider { priority, ..self }),
    {
        SimpleProvider { priority, ..self }
    }

    pub fn exclude(self, names: Vec<&'static str>) -> (r: Self)
        ensures
            r == (SimpleProvider { exclude_names: names, ..self }),
    {
        SimpleProvider { exclude_names: names, ..self }
    }

    pub fn min_age_days(self, days: u32) -> (r: Self)
        ensures
            r == (SimpleProvider { min_age_days: Some(days), ..self }),
    {
        SimpleProvider { min_age_days: Some(days), ..self }
    }

    pub fn permanent_only(self) -> (r: Self)
        ensures
            r == (SimpleProvider { permanent_only: true, ..self }),
    {
        SimpleProvider { permanent_only: true, ..self }
    }

    /// What the registry keeps of this provider.
    pub fn entry(&self) -> (r: ProviderEntry)
        ensures
            r.id@ == self.id@,
            r.name@ == self.name@,
            r.category == self.category,
            r.description@ == self.description@,
            r.default_risk == self.risk,
            r.priority == self.priority,
            !r.custom,
    {
        ProviderEntry {
            id: owned(self.id),
            name: owned(self.name),
            category: self.category,
            description: owned(self.description),
            default_risk: self.risk,
            priority: self.priority,
            custom: false,
        }
    }

    /// Whether an entry of a `Children` root is skipped: Finder's `.DS_Store`, and the names
    /// this provider excludes.
    pub fn skips_child(&self, name: &str) -> (r: bool)
        ensures
            r == (name@ == ".DS_Store"@ || str_views(self.exclude_names@).contains(name@)),
    {
        if str_eq(name, ".DS_Store") {
            return true;
        }
        let mut i: usize = 0;
        while i < self.exclude_names.len()
            invariant
                i <= self.exclude_names@.len(),
                forall|j: int| 0 <= j < i ==> self.exclude_names@[j]@ != name@,
            decreases self.exclude_names@.len() - i,
        {
            if str_eq(self.exclude_names[i], name) {
                assert(str_views(self.exclude_names@)[i as int] == name@);
                return true;
            }
            i = i + 1;
        }
        proof {
            if str_views(self.exclude_names@).contains(name@) {
                let j = choose|j: int| 0 <= j < str_views(self.exclude_names@).len() && str_views(self.exclude_names@)[j] == name@;
                assert(self.exclude_names@[j]@ == name@);
            }
        }
        false
    }
}

/// The label of a `Whole` root: its own, or the name of its last component.
pub open spec fn root_label(root: Root) -> Seq<char> {
    match root.label {
        Some(l) => l@,
        None => display_name(root.path@),
    }
}

pub fn label_for(root: &Root) -> (r: String)
    ensures
        r@ == root_label(*root),
{
    match &root.label {
        Some(l) => l.clone(),
        None => file_name(root.path.as_str()),
    }
}

/// A direct child of a `Children` root, as the caller found it.
#[derive(Debug, Clone)]
pub struct ChildFacts {
    pub path: String,
    /// Seconds since it was last modified, when that could be read.
    pub age_secs: Option<u64>,
}

/// What the caller read of one root.
#[derive(Debug)]
pub struct RootFacts {
    pub exists: bool,
    /// Seconds since the root was last modified, when that could be read.
    pub age_secs: Option<u64>,
    /// The root's direct children, or why they could not be listed. Only read for
    /// `Children` roots; a `Whole` root leaves it empty.
    pub listing: Result<Vec<ChildFacts>, String>,
}

/// What a provider makes of one root or child.
#[derive(Debug, Clone)]
pub enum Finding {
    /// Offer `path`, shown as `label`, once it has been measured and validated.
    Offer { path: String, label: String },
    /// The root exists but its children could not be listed.
    Unreadable { path: String, message: String },
}

pub enum FindingView {
    Offer(Seq<char>, Seq<char>),
    Unreadable(Seq<char>, Seq<char>),
}

pub open spec fn finding_view(f: Finding) -> FindingView {
    match f {
        Finding::Offer { path, label } => FindingView::Offer(path@, label@),
        Finding::Unreadable { path, message } => FindingView::Unreadable(path@, message@),
    }
}

pub open spec fn findings_view(fs: Seq<Finding>) -> Seq<FindingView> {
    fs.map_values(|f: Finding| finding_view(f))
}

/// Whether a child named `name` is skipped by `p`.
pub open spec fn skips(p: SimpleProvider, name: Seq<char>) -> bool {
    name == ".DS_Store"@ || str_views(p.exclude_names@).contains(name)
}

/// The first `n` children of a `Children` root that `p` offers, each under its own name.
pub open spec fn child_offers(p: SimpleProvider, cs: Seq<ChildFacts>, n: int) -> Seq<FindingView>
    decreases n,
{
    if n <= 0 {
        Seq::empty()
    } else {
        let prev = child_offers(p, cs, n - 1);
        let c = cs[n - 1];
        if skips(p, display_name(c.path@)) || !old_enough_spec(p.min_age_days, c.age_secs) {
            prev
        } else {
            prev.push(FindingView::Offer(c.path@, display_name(c.path@)))
        }
    }
}

/// What `p` makes of one root: nothing when it is not there; a `Whole` root old enough is
/// offered under its label; a `Children` root offers each child it does not skip that is old
/// enough, or reports that it could not be listed.
pub open spec fn root_findings(p: SimpleProvider, root: Root, f: RootFacts) -> Seq<FindingView> {
    if !f.exists {
        Seq::empty()
    } else {
        match root.mode {
            RootMode::Whole => if old_enough_spec(p.min_age_days, f.age_secs) {
                seq![FindingView::Offer(root.path@, root_label(root))]
            } else {
                Seq::empty()
            },
            RootMode::Children => match f.listing {
                Err(m) => seq![FindingView::Unreadable(root.path@, m@)],
                Ok(cs) => child_offers(p, cs@, cs@.len() as int),
            },
        }
    }
}

/// What `p` makes of its first `n` roots, root by root.
pub open spec fn simple_findings(p: SimpleProvider, roots: Seq<Root>, facts: Seq<RootFacts>, n: int) -> Seq<FindingView>
    decreases n,
{
    if n <= 0 {
        Seq::empty()
    } else {
        simple_findings(p, roots, facts, n - 1) + root_findings(p, roots[n - 1], facts[n - 1])
    }
}

proof fn lemma_push_view(fs: Seq<Finding>, f: Finding)
    ensures
        findings_view(fs.push(f)) == findings_view(fs).push(finding_view(f)),
{
    assert(findings_view(fs.push(f)) =~= findings_view(fs).push(finding_view(f)));
}

impl SimpleProvider {
    /// What this provider offers from its roots, given what was read of each: `facts[i]`
    /// belongs to `roots[i]`. Measuring and validating each offer is the caller's next step.
    pub fn findings(&self, roots: &Vec<Root>, facts: &Vec<RootFacts>) -> (r: Vec<Finding>)
        requires
            facts@.len() == roots@.len(),
        ensures
            findings_view(r@) == simple_findings(*self, roots@, facts@, roots@.len() as int),
    {
        let mut out: Vec<Finding> = Vec::new();
        let mut i: usize = 0;
        while i < roots.len()
            invariant
                i <= roots@.len() == facts@.len(),
                findings_view(out@) == simple_findings(*self, roots@, facts@, i as int),
            decreases roots@.len() - i,
        {
            let root = &roots[i];
            let f = &facts[i];
            let ghost before = out@;
            if f.exists {
                match root.mode {
                    RootMode::Whole => {
                        if old_enough(self.min_age_days, f.age_secs) {
                            let label = label_for(root);
                            let x = Finding::Offer { path: root.path.clone(), label };
                            proof { lemma_push_view(out@, x); }
                            out.push(x);
                            assert(findings_view(out@) =~= findings_view(before) + root_findings(*self, *root, *f));
                        } else {
                            assert(findings_view(out@) =~= findings_view(before) + root_findings(*self, *root, *f));
                        }
                    },
                    RootMode::Children => {
                        match &f.listing {
                            Err(m) => {
                                let x = Finding::Unreadable { path: root.path.clone(), message: m.clone() };
                                proof { lemma_push_view(out@, x); }
                                out.push(x);
                                assert(findings_view(out@) =~= findings_view(before) + root_findings(*self, *root, *f));
                            },
                            Ok(cs) => {
                                let mut j: usize = 0;
                                while j < cs.len()
                                    invariant
                                        j <= cs@.len(),
                                        findings_view(out@) == findings_view(before) + child_offers(*self, cs@, j as int),
                                    decreases cs@.len() - j,
                                {
                                    let c = &cs[j];
                                    let name = file_name(c.path.as_str());
                                    if !(self.skips_child(name.as_str()) || !old_enough(self.min_age_days, c.age_secs)) {
                                        let x = Finding::Offer { path: c.path.clone(), label: name };
                                        proof { lemma_push_view(out@, x); }
                                        out.push(x);
                                    }
                                    assert(findings_view(out@) =~= findings_view(before) + child_offers(*self, cs@, j + 1));
                                    j = j + 1;
                                }
                            },
                        }
                    },
                }
            } else {
                assert(findings_view(out@) =~= findings_view(before) + root_findings(*self, *root, *f));
            }
            i = i + 1;
        }
        out
    }
}

} // verus!
