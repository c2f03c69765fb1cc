//! The registered providers, in display order.

use vstd::prelude::*;

use crate::models::{Category, ProviderInfo, RiskLevel};
use crate::providers::catalog::{builtin_info, builtin_order, default_entries, entry_view};
use crate::providers::custom::{CustomProvider, CUSTOM_PRIORITY};
use crate::text::{owned, str_eq};

verus! {

/// What the library keeps of a provider.
#[derive(Debug, Clone)]
pub struct ProviderEntry {
    /// Stable identifier, `snake_case`. Part of every target id.
    pub id: String,
    pub name: String,
    pub category: Category,
    pub description: String,
    /// Risk assigned to targets unless the provider decides otherwise per target.
    pub default_risk: RiskLevel,
    /// When two providers report overlapping paths the higher priority wins. Generic providers
    /// use a low priority so that specialised ones take precedence.
    pub priority: u8,
    /// Defined by the user rather than built in.
    pub custom: bool,
}

/// The priority a provider has when it does not say.
pub const DEFAULT_PRIORITY: u8 = 50;

/// Lookup table over providers.
#[derive(Debug, Clone)]
pub struct ProviderRegistry {
    pub ordered: Vec<ProviderEntry>,
}

/// The index of the provider `get(id)` finds: the last one registered under `id`, as a map
/// built from the list keeps.
pub open spec fn lookup(entries: Seq<ProviderEntry>, id: Seq<char>) -> Option<int>
    decreases entries.len(),
{
    if entries.len() == 0 {
        None
    } else if entries.last().id@ == id {
        Some(entries.len() - 1)
    } else {
        lookup(entries.drop_last(), id)
    }
}

proof fn lemma_lookup_in_range(entries: Seq<ProviderEntry>, id: Seq<char>)
    ensures
        lookup(entries, id) matches Some(i) ==> 0 <= i < entries.len() && entries[i].id@ == id,
    decreases entries.len(),
{
    if entries.len() > 0 && entries.last().id@ != id {
        lemma_lookup_in_range(entries.drop_last(), id);
    }
}

/// The priority overlaps are settled by for targets of provider `id`: that provider's, or the
/// default for an id nobody registered.
pub open spec fn priority_in(entries: Seq<ProviderEntry>, id: Seq<char>) -> int {
    match lookup(entries, id) {
        Some(i) => entries[i].priority as int,
        None => DEFAULT_PRIORITY as int,
    }
}

/// The first position of `id` in the registry, which orders scan results.
pub open spec fn first_position(entries: Seq<ProviderEntry>, id: Seq<char>) -> Option<int>
    decreases entries.len(),
{
    if entries.len() == 0 {
        None
    } else {
        match first_position(entries.drop_last(), id) {
            Some(p) => Some(p),
            None => if entries.last().id@ == id {
                Some(entries.len() - 1)
            } else {
                None
            },
        }
    }
}

pub proof fn lemma_first_position_range(entries: Seq<ProviderEntry>, id: Seq<char>)
    ensures
        first_position(entries, id) matches Some(p) ==> 0 <= p < entries.len(),
    decreases entries.len(),
{
    if entries.len() > 0 {
        lemma_first_position_range(entries.drop_last(), id);
    }
}

pub open spec fn info_of(info: ProviderInfo, e: ProviderEntry, available: bool) -> bool {
    &&& info.id@ == e.id@
    &&& info.name@ == e.name@
    &&& info.category == e.category
    &&& info.description@ == e.description@
    &&& info.default_risk == e.default_risk
    &&& info.available == available
    &&& info.custom == e.custom
}

/// Once found in a prefix, the first position stays where it was.
proof fn lemma_first_position_prefix(entries: Seq<ProviderEntry>, id: Seq<char>, n: int)
    requires
        0 <= n <= entries.len(),
    ensures
        first_position(entries.take(n), id) is Some ==> first_position(entries, id) == first_position(entries.take(n), id),
    decreases entries.len() - n,
{
    if n < entries.len() {
        lemma_first_position_prefix(entries, id, n + 1);
        assert(entries.take(n + 1).drop_last() == entries.take(n));
    } else {
        assert(entries.take(n) == entries);
    }
}

impl ProviderRegistry {
    pub fn new(providers: Vec<ProviderEntry>) -> (r: Self)
        ensures
            r.ordered@ == providers@,
    {
        ProviderRegistry { ordered: providers }
    }

    /// The provider registered under `id`; the last one when several share it.
    pub fn get(&self, id: &str) -> (r: Option<&ProviderEntry>)
        ensures
            match lookup(self.ordered@, id@) {
                Some(i) => r == Some(&self.ordered@[i]),
                None => r is None,
            },
    {
        let mut n: usize = self.ordered.len();
        assert(self.ordered@.take(n as int) == self.ordered@);
        while n > 0
            invariant
                n <= self.ordered@.len(),
                lookup(self.ordered@, id@) == lookup(self.ordered@.take(n as int), id@),
            decreases n,
        {
            proof {
                assert(self.ordered@.take(n as int).drop_last() == self.ordered@.take(n - 1));
                assert(self.ordered@.take(n as int).last() == self.ordered@[n - 1]);
            }
            if str_eq(self.ordered[n - 1].id.as_str(), id) {
                return Some(&self.ordered[n - 1]);
            }
            n = n - 1;
        }
        None
    }

    pub fn all(&self) -> (r: &Vec<ProviderEntry>)
        ensures
            r@ == self.ordered@,
    {
        &self.ordered
    }

    /// The priority that settles overlaps for targets of provider `id`.
    pub fn priority_of(&self, id: &str) -> (r: u8)
        ensures
            r == priority_in(self.ordered@, id@),
    {
        match self.get(id) {
            Some(p) => p.priority,
            None => DEFAULT_PRIORITY,
        }
    }

    /// The first position of `id` in the registry.
    pub fn position(&self, id: &str) -> (r: Option<usize>)
        ensures
            match first_position(self.ordered@, id@) {
                Some(i) => r == Some(i as usize),
                None => r is None,
            },
    {
        let mut i: usize = 0;
        while i < self.ordered.len()
            invariant
                i <= self.ordered@.len(),
                first_position(self.ordered@.take(i as int), id@) is None,
            decreases self.ordered@.len() - i,
        {
            proof {
                assert(self.ordered@.take(i + 1).drop_last() == self.ordered@.take(i as int));
                assert(self.ordered@.take(i + 1).last() == self.ordered@[i as int]);
                lemma_first_position_prefix(self.ordered@, id@, i + 1);
            }
            if str_eq(self.ordered[i].id.as_str(), id) {
                return Some(i);
            }
            i = i + 1;
        }
        assert(self.ordered@.take(self.ordered@.len() as int) == self.ordered@);
        None
    }

    /// What to list before any scan. `available[i]` says whether provider `i` has anything to
    /// look at on this machine.
    pub fn infos(&self, available: &Vec<bool>) -> (r: Vec<ProviderInfo>)
        requires
            available@.len() == self.ordered@.len(),
        ensures
            r@.len() == self.ordered@.len(),
            forall|i: int| 0 <= i < r@.len() ==> info_of(#[trigger] r@[i], self.ordered@[i], available@[i]),
    {
        let mut out: Vec<ProviderInfo> = Vec::new();
        let mut i: usize = 0;
        while i < self.ordered.len()
            invariant
                i <= self.ordered@.len(),
                available@.len() == self.ordered@.len(),
                out@.len() == i,
                forall|j: int| 0 <= j < i ==> info_of(#[trigger] out@[j], self.ordered@[j], available@[j]),
            decreases self.ordered@.len() - i,
        {
            let p = &self.ordered[i];
            out.push(ProviderInfo {
                id: owned(p.id.as_str()),
                name: owned(p.name.as_str()),
                category: p.category,
                description: owned(p.description.as_str()),
                default_risk: p.default_risk,
                available: available[i],
                custom: p.custom,
            });
            i = i + 1;
        }
        out
    }
}

/// Whether `e` is what the registry keeps of the user's provider `p`.
pub open spec fn custom_entry(e: ProviderEntry, p: CustomProvider) -> bool {
    &&& e.id@ == p.view_spec().id@
    &&& e.name@ == p.view_spec().name@
    &&& e.category == p.view_spec().category
    &&& e.description@ == p.view_spec().description@
    &&& e.default_risk == p.view_spec().risk
    &&& e.priority == CUSTOM_PRIORITY
    &&& e.custom
}

/// Whether the first entries of `entries` are the built-in providers, in display order.
pub open spec fn starts_with_defaults(entries: Seq<ProviderEntry>) -> bool {
    &&& entries.len() >= builtin_order().len()
    &&& forall|i: int| 0 <= i < builtin_order().len() ==> entry_view(#[trigger] entries[i]) == builtin_info(builtin_order()[i]) && !entries[i].custom
}

impl ProviderRegistry {
    /// The built-in providers.
    pub fn with_defaults() -> (r: Self)
        ensures
            r.ordered@.len() == builtin_order().len(),
            starts_with_defaults(r.ordered@),
    {
        ProviderRegistry { ordered: default_entries() }
    }

    /// The built-in providers plus the ones the user defined. The user's are appended, so a
    /// built-in always keeps its id.
    pub fn with_custom(custom: &Vec<CustomProvider>) -> (r: Self)
        ensures
            r.ordered@.len() == builtin_order().len() + custom@.len(),
            starts_with_defaults(r.ordered@),
            forall|j: int| 0 <= j < custom@.len() ==> custom_entry(#[trigger] r.ordered@[builtin_order().len() + j], custom@[j]),
    {
        let mut ordered = default_entries();
        let ghost n = ordered@.len();
        let mut j: usize = 0;
        while j < custom.len()
            invariant
                j <= custom@.len(),
                n == builtin_order().len(),
                ordered@.len() == n + j,
                starts_with_defaults(ordered@),
                forall|k: int| 0 <= k < j ==> custom_entry(#[trigger] ordered@[n + k], custom@[k]),
            decreases custom@.len() - j,
        {
            let ghost before = ordered@;
            ordered.push(custom[j].entry());
            proof {
                assert forall|k: int| 0 <= k < j + 1 implies custom_entry(#[trigger] ordered@[n + k], custom@[k]) by {
                    if k < j {
                        assert(ordered@[n + k] == before[n + k]);
                    }
                }
                assert forall|i: int| 0 <= i < builtin_order().len() implies entry_view(#[trigger] ordered@[i]) == builtin_info(builtin_order()[i]) && !ordered@[i].custom by {
                    assert(ordered@[i] == before[i]);
                }
            }
            j = j + 1;
        }
        ProviderRegistry { ordered }
    }
}

} // verus!
