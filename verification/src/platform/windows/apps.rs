//! Application discovery on Windows: the entries of the `Uninstall` registry keys.
//!
//! Reading the registry is the caller's part; which entries are applications, and what they
//! say of themselves, is decided here.

use vstd::prelude::*;

use crate::models::{make_id_spec, CleanupTarget};
use crate::platform::macos::apps::{field, field_of, opt_view};
use crate::platform::ApplicationInfo;
use crate::text::{chars_of, chars_equal, concat, owned, str_eq};

verus! {

/// The `Uninstall` keys applications are listed under: whether the key is under
/// `HKEY_LOCAL_MACHINE` (else `HKEY_CURRENT_USER`), its path, and the source its entries get.
pub open spec fn uninstall_keys_spec() -> Seq<(bool, Seq<char>, Seq<char>)> {
    seq![
        (true, "SOFTWARE\\Microsoft\\Windows\\CurrentVersion\\Uninstall"@, "registry"@),
        (true, "SOFTWARE\\WOW6432Node\\Microsoft\\Windows\\CurrentVersion\\Uninstall"@, "registry"@),
        (false, "SOFTWARE\\Microsoft\\Windows\\CurrentVersion\\Uninstall"@, "registry_user"@),
    ]
}

pub fn uninstall_keys() -> (r: Vec<(bool, &'static str, &'static str)>)
    ensures
        r@.map_values(|k: (bool, &'static str, &'static str)| (k.0, k.1@, k.2@)) == uninstall_keys_spec(),
{
    let mut v: Vec<(bool, &'static str, &'static str)> = Vec::new();
    v.push((true, "SOFTWARE\\Microsoft\\Windows\\CurrentVersion\\Uninstall", "registry"));
    v.push((true, "SOFTWARE\\WOW6432Node\\Microsoft\\Windows\\CurrentVersion\\Uninstall", "registry"));
    v.push((false, "SOFTWARE\\Microsoft\\Windows\\CurrentVersion\\Uninstall", "registry_user"));
    assert(v@.map_values(|k: (bool, &'static str, &'static str)| (k.0, k.1@, k.2@)) =~= uninstall_keys_spec());
    v
}

/// What an entry of an `Uninstall` key holds, as far as Prune reads it: each string value as
/// written, and the two numbers when they are there.
#[derive(Debug, Clone)]
pub struct RegistryFields {
    pub display_name: Option<String>,
    pub publisher: Option<String>,
    pub display_version: Option<String>,
    pub install_location: Option<String>,
    pub quiet_uninstall: Option<String>,
    pub uninstall: Option<String>,
    /// `SystemComponent`: 1 hides the entry from the list of programs.
    pub system_component: Option<u32>,
    /// `EstimatedSize`, in kilobytes.
    pub estimated_size_kb: Option<u32>,
}

/// Whether `s` begins with `prefix`.
pub open spec fn begins_with(s: Seq<char>, prefix: Seq<char>) -> bool {
    prefix.len() <= s.len() && s.take(prefix.len() as int) == prefix
}

fn text_begins_with(s: &str, prefix: &str) -> (r: bool)
    ensures
        r == begins_with(s@, prefix@),
{
    let cs = chars_of(s);
    let ps = chars_of(prefix);
    if ps.len() > cs.len() {
        return false;
    }
    let head = crate::text::string_of_range(cs.as_slice(), 0, ps.len());
    let hc = chars_of(head.as_str());
    chars_equal(hc.as_slice(), ps.as_slice())
}

/// Microsoft's own components: both the publisher and the name start with `Microsoft`.
pub open spec fn is_microsoft(publisher: Option<Seq<char>>, name: Seq<char>) -> bool {
    (publisher matches Some(p) && begins_with(p, "Microsoft"@)) && begins_with(name, "Microsoft"@)
}

/// The application an entry `key_name` of the key at `key_path` stands for: none when it has
/// no name or is hidden as a system component. Its id comes from the full key path, its
/// identifier is the entry's key name, its size is the estimate, and its uninstaller the quiet
/// one when there is one.
pub fn registry_app(key_path: &str, key_name: &str, source: &str, f: &RegistryFields) -> (r: Option<ApplicationInfo>)
    ensures
        (field(f.display_name) is None || f.system_component == Some(1u32)) ==> r is None,
        !(field(f.display_name) is None || f.system_component == Some(1u32)) ==> (r matches Some(a) && {
            &&& a.id@ == make_id_spec(
                vstd::utf8::encode_utf8("app"@),
                vstd::utf8::encode_utf8(key_path@ + "\\"@ + key_name@),
            )
            &&& Some(a.name@) == field(f.display_name)
            &&& a.path@ == match field(f.install_location) {
                Some(l) => l,
                None => Seq::empty(),
            }
            &&& opt_view(a.version) == field(f.display_version)
            &&& opt_view(a.bundle_id) == Some(key_name@)
            &&& opt_view(a.publisher) == field(f.publisher)
            &&& a.size_bytes == match f.estimated_size_kb {
                Some(kb) => Some((kb * 1024) as u64),
                None => None,
            }
            &&& a.modified_at is None
            &&& a.source@ == source@
            &&& a.is_system == is_microsoft(field(f.publisher), a.name@)
            &&& opt_view(a.uninstall_command) == match field(f.quiet_uninstall) {
                Some(q) => Some(q),
                None => field(f.uninstall),
            }
        }),
{
    let name = match field_of(&f.display_name) {
        Some(n) => n,
        None => {
            return None;
        },
    };
    if f.system_component == Some(1u32) {
        return None;
    }
    let publisher = field_of(&f.publisher);
    let is_system = match &publisher {
        Some(p) => text_begins_with(p.as_str(), "Microsoft") && text_begins_with(name.as_str(), "Microsoft"),
        None => false,
    };
    let with_sep = concat(key_path, "\\");
    let full_key = concat(with_sep.as_str(), key_name);
    let path = match field_of(&f.install_location) {
        Some(l) => l,
        None => String::new(),
    };
    let uninstall_command = match field_of(&f.quiet_uninstall) {
        Some(q) => Some(q),
        None => field_of(&f.uninstall),
    };
    let size_bytes = match f.estimated_size_kb {
        Some(kb) => Some(kb as u64 * 1024),
        None => None,
    };
    Some(ApplicationInfo {
        id: CleanupTarget::make_id("app", full_key.as_str()),
        name,
        path,
        version: field_of(&f.display_version),
        bundle_id: Some(owned(key_name)),
        publisher,
        size_bytes,
        modified_at: None,
        source: owned(source),
        is_system,
        uninstall_command,
    })
}

/// Whether two entries list the same program: the same name and version.
pub open spec fn same_listing(a: ApplicationInfo, b: ApplicationInfo) -> bool {
    a.name@ == b.name@ && opt_view(a.version) == opt_view(b.version)
}

/// The list with each entry that repeats the one kept before it left out (`Vec::dedup_by`):
/// one program registered under both views of the registry is listed once.
pub open spec fn without_repeats_spec(apps: Seq<ApplicationInfo>) -> Seq<ApplicationInfo>
    decreases apps.len(),
{
    if apps.len() == 0 {
        Seq::empty()
    } else {
        let kept = without_repeats_spec(apps.drop_last());
        if kept.len() > 0 && same_listing(kept.last(), apps.last()) {
            kept
        } else {
            kept.push(apps.last())
        }
    }
}

fn same_version(a: &Option<String>, b: &Option<String>) -> (r: bool)
    ensures
        r == (opt_view(*a) == opt_view(*b)),
{
    match (a, b) {
        (Some(x), Some(y)) => str_eq(x.as_str(), y.as_str()),
        (None, None) => true,
        _ => false,
    }
}

/// Leaves out each entry that repeats the one kept before it. Applied to the list sorted by
/// name, every program appears once.
pub fn without_repeats(apps: Vec<ApplicationInfo>) -> (r: Vec<ApplicationInfo>)
    ensures
        r@ == without_repeats_spec(apps@),
{
    let mut out: Vec<ApplicationInfo> = Vec::new();
    let mut i: usize = 0;
    while i < apps.len()
        invariant
            i <= apps@.len(),
            out@ == without_repeats_spec(apps@.take(i as int)),
        decreases apps@.len() - i,
    {
        proof {
            assert(apps@.take(i + 1).drop_last() =~= apps@.take(i as int));
            assert(apps@.take(i + 1).last() == apps@[i as int]);
        }
        let n = out.len();
        let repeat = n > 0 && str_eq(out[n - 1].name.as_str(), apps[i].name.as_str()) && same_version(&out[n - 1].version, &apps[i].version);
        if !repeat {
            out.push(crate::platform::macos::apps::copy_app(&apps[i]));
        }
        i = i + 1;
    }
    assert(apps@.take(apps@.len() as int) =~= apps@);
    out
}

} // verus!
