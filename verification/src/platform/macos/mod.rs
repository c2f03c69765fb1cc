//! macOS: what must never be touched, and launchd startup items.

use vstd::prelude::*;

use crate::paths::{join, join_spec, path_view, starts_with_spec};
use crate::safety::{is_app_bundle, lemma_exact_are_refused, lemma_trees_are_refused, policy_of, verdict, PathFacts};
use crate::platform::{KnownPaths, ProtectedPaths};
use crate::text::{owned, string_views};

pub mod apps;
pub mod startup;

verus! {

/// Where a macOS user's library lives.
pub open spec fn library(home: Seq<char>) -> Seq<char> {
    join_spec(home, "Library"@)
}

/// The roots removal is allowed in on macOS: home, the temp directory and `/private/tmp`.
pub open spec fn macos_allowed(home: Seq<char>, temp: Seq<char>) -> Seq<Seq<char>> {
    seq![home, temp, "/private/tmp"@]
}

/// The paths that may never be removed themselves on macOS: home, the library and its standard
/// folders, the user's own folders, the trash folder and the temp directory.
pub open spec fn macos_exact(home: Seq<char>, temp: Seq<char>) -> Seq<Seq<char>> {
    let lib = library(home);
    seq![
        home, lib, join_spec(lib, "Caches"@), join_spec(lib, "Logs"@),
        join_spec(lib, "Application Support"@), join_spec(lib, "Preferences"@),
        join_spec(lib, "Containers"@), join_spec(lib, "Group Containers"@),
        join_spec(lib, "Developer"@), join_spec(lib, "Developer/Xcode"@),
        join_spec(lib, "Developer/Xcode/DerivedData"@), join_spec(lib, "Developer/CoreSimulator"@),
        join_spec(home, ".Trash"@), join_spec(home, "Documents"@), join_spec(home, "Desktop"@),
        join_spec(home, "Downloads"@), join_spec(home, "Pictures"@), join_spec(home, "Movies"@),
        join_spec(home, "Music"@), join_spec(home, "Applications"@), join_spec(home, "Public"@),
        temp,
    ]
}

/// The trees never touched on macOS: the system, and the user's secrets and irreplaceable data.
pub open spec fn macos_trees(home: Seq<char>) -> Seq<Seq<char>> {
    let lib = library(home);
    seq![
        "/System"@, "/Library"@, "/usr"@, "/bin"@, "/sbin"@, "/etc"@, "/private/etc"@,
        "/var/db"@, "/private/var/db"@, "/Applications"@, "/Volumes"@, "/opt"@, "/cores"@,
        join_spec(home, ".ssh"@), join_spec(home, ".gnupg"@), join_spec(home, ".aws"@),
        join_spec(home, ".kube"@), join_spec(home, ".config/gh"@),
        join_spec(lib, "Keychains"@), join_spec(lib, "Mail"@), join_spec(lib, "Messages"@),
        join_spec(lib, "Photos"@), join_spec(lib, "Mobile Documents"@), join_spec(lib, "Cookies"@),
        join_spec(lib, "Safari"@), join_spec(lib, "Accounts"@), join_spec(lib, "Calendars"@),
        join_spec(lib, "Reminders"@), join_spec(lib, "Contacts"@), join_spec(lib, "Passes"@),
        join_spec(lib, "Wallet"@), join_spec(lib, "Application Support/MobileSync"@),
        join_spec(lib, "Application Support/AddressBook"@),
        join_spec(lib, "Application Support/CloudDocs"@),
        join_spec(lib, "Application Support/iCloud"@),
        join_spec(lib, "Developer/Xcode/UserData"@),
    ]
}

/// The directories whose `.app` children may be removed on macOS.
pub open spec fn macos_bundle_roots(home: Seq<char>) -> Seq<Seq<char>> {
    seq!["/Applications"@, join_spec(home, "Applications"@)]
}

/// On macOS nothing inside the system folders or the user's secrets and irreplaceable data is
/// ever removed: `/System`, `/Library`, `/usr`, `/bin`, `/sbin`, `/etc`, `/var/db` (and their
/// `/private` forms), `/Applications`, `/Volumes`, `/opt`, `/cores`; in the home folder `.ssh`,
/// `.gnupg`, `.aws`, `.kube`, `.config/gh`; in the library Keychains, Mail, Messages, Photos,
/// iCloud Drive, cookies, Safari, accounts, calendars, reminders, contacts, Wallet passes,
/// device backups, the address book and Xcode's user data. A path whose resolved form lies in
/// one of them is refused by a policy built from these protected paths (an `.app` bundle
/// directly in a bundle folder aside).
pub proof fn lemma_macos_keeps_secrets(
    p: ProtectedPaths,
    home: Seq<char>,
    secret: Seq<char>,
    path: Seq<char>,
    facts: PathFacts,
)
    requires
        string_views(p.trees@) == macos_trees(home),
        secret == "/System"@ ||
        secret == "/Library"@ ||
        secret == "/usr"@ ||
        secret == "/bin"@ ||
        secret == "/sbin"@ ||
        secret == "/etc"@ ||
        secret == "/private/etc"@ ||
        secret == "/var/db"@ ||
        secret == "/private/var/db"@ ||
        secret == "/Applications"@ ||
        secret == "/Volumes"@ ||
        secret == "/opt"@ ||
        secret == "/cores"@ ||
        secret == join_spec(home, ".ssh"@) ||
        secret == join_spec(home, ".gnupg"@) ||
        secret == join_spec(home, ".aws"@) ||
        secret == join_spec(home, ".kube"@) ||
        secret == join_spec(home, ".config/gh"@) ||
        secret == join_spec(join_spec(home, "Library"@), "Keychains"@) ||
        secret == join_spec(join_spec(home, "Library"@), "Mail"@) ||
        secret == join_spec(join_spec(home, "Library"@), "Messages"@) ||
        secret == join_spec(join_spec(home, "Library"@), "Photos"@) ||
        secret == join_spec(join_spec(home, "Library"@), "Mobile Documents"@) ||
        secret == join_spec(join_spec(home, "Library"@), "Cookies"@) ||
        secret == join_spec(join_spec(home, "Library"@), "Safari"@) ||
        secret == join_spec(join_spec(home, "Library"@), "Accounts"@) ||
        secret == join_spec(join_spec(home, "Library"@), "Calendars"@) ||
        secret == join_spec(join_spec(home, "Library"@), "Reminders"@) ||
        secret == join_spec(join_spec(home, "Library"@), "Contacts"@) ||
        secret == join_spec(join_spec(home, "Library"@), "Passes"@) ||
        secret == join_spec(join_spec(home, "Library"@), "Wallet"@) ||
        secret == join_spec(join_spec(home, "Library"@), "Application Support/MobileSync"@) ||
        secret == join_spec(join_spec(home, "Library"@), "Application Support/AddressBook"@) ||
        secret == join_spec(join_spec(home, "Library"@), "Application Support/CloudDocs"@) ||
        secret == join_spec(join_spec(home, "Library"@), "Application Support/iCloud"@) ||
        secret == join_spec(join_spec(home, "Library"@), "Developer/Xcode/UserData"@),
        facts.resolved matches Ok(n) && starts_with_spec(n@, secret) && !is_app_bundle(policy_of(p), path_view(n@), facts.resolved_is_dir),
    ensures
        !(verdict(policy_of(p), path, facts) is Allowed),
{
    assert(string_views(p.trees@).len() == p.trees@.len());
    assert(policy_of(p).trees.len() == p.trees@.len());
    assert forall|i: int| 0 <= i < p.trees@.len() implies #[trigger] policy_of(p).trees[i] == path_view(string_views(p.trees@)[i]) by {}
    if secret == "/System"@ {
        assert(string_views(p.trees@)[0] == secret);
        lemma_trees_are_refused(policy_of(p), path, facts, 0);
    } else if secret == "/Library"@ {
        assert(string_views(p.trees@)[1] == secret);
        lemma_trees_are_refused(policy_of(p), path, facts, 1);
    } else if secret == "/usr"@ {
        assert(string_views(p.trees@)[2] == secret);
        lemma_trees_are_refused(policy_of(p), path, facts, 2);
    } else if secret == "/bin"@ {
        assert(string_views(p.trees@)[3] == secret);
        lemma_trees_are_refused(policy_of(p), path, facts, 3);
    } else if secret == "/sbin"@ {
        assert(string_views(p.trees@)[4] == secret);
        lemma_trees_are_refused(policy_of(p), path, facts, 4);
    } else if secret == "/etc"@ {
        assert(string_views(p.trees@)[5] == secret);
        lemma_trees_are_refused(policy_of(p), path, facts, 5);
    } else if secret == "/private/etc"@ {
        assert(string_views(p.trees@)[6] == secret);
        lemma_trees_are_refused(policy_of(p), path, facts, 6);
    } else if secret == "/var/db"@ {
        assert(string_views(p.trees@)[7] == secret);
        lemma_trees_are_refused(policy_of(p), path, facts, 7);
    } else if secret == "/private/var/db"@ {
        assert(string_views(p.trees@)[8] == secret);
        lemma_trees_are_refused(policy_of(p), path, facts, 8);
    } else if secret == "/Applications"@ {
        assert(string_views(p.trees@)[9] == secret);
        lemma_trees_are_refused(policy_of(p), path, facts, 9);
    } else if secret == "/Volumes"@ {
        assert(string_views(p.trees@)[10] == secret);
        lemma_trees_are_refused(policy_of(p), path, facts, 10);
    } else if secret == "/opt"@ {
        assert(string_views(p.trees@)[11] == secret);
        lemma_trees_are_refused(policy_of(p), path, facts, 11);
    } else if secret == "/cores"@ {
        assert(string_views(p.trees@)[12] == secret);
        lemma_trees_are_refused(policy_of(p), path, facts, 12);
    } else if secret == join_spec(home, ".ssh"@) {
        assert(string_views(p.trees@)[13] == secret);
        lemma_trees_are_refused(policy_of(p), path, facts, 13);
    } else if secret == join_spec(home, ".gnupg"@) {
        assert(string_views(p.trees@)[14] == secret);
        lemma_trees_are_refused(policy_of(p), path, facts, 14);
    } else if secret == join_spec(home, ".aws"@) {
        assert(string_views(p.trees@)[15] == secret);
        lemma_trees_are_refused(policy_of(p), path, facts, 15);
    } else if secret == join_spec(home, ".kube"@) {
        assert(string_views(p.trees@)[16] == secret);
        lemma_trees_are_refused(policy_of(p), path, facts, 16);
    } else if secret == join_spec(home, ".config/gh"@) {
        assert(string_views(p.trees@)[17] == secret);
        lemma_trees_are_refused(policy_of(p), path, facts, 17);
    } else if secret == join_spec(join_spec(home, "Library"@), "Keychains"@) {
        assert(string_views(p.trees@)[18] == secret);
        lemma_trees_are_refused(policy_of(p), path, facts, 18);
    } else if secret == join_spec(join_spec(home, "Library"@), "Mail"@) {
        assert(string_views(p.trees@)[19] == secret);
        lemma_trees_are_refused(policy_of(p), path, facts, 19);
    } else if secret == join_spec(join_spec(home, "Library"@), "Messages"@) {
        assert(string_views(p.trees@)[20] == secret);
        lemma_trees_are_refused(policy_of(p), path, facts, 20);
    } else if secret == join_spec(join_spec(home, "Library"@), "Photos"@) {
        assert(string_views(p.trees@)[21] == secret);
        lemma_trees_are_refused(policy_of(p), path, facts, 21);
    } else if secret == join_spec(join_spec(home, "Library"@), "Mobile Documents"@) {
        assert(string_views(p.trees@)[22] == secret);
        lemma_trees_are_refused(policy_of(p), path, facts, 22);
    } else if secret == join_spec(join_spec(home, "Library"@), "Cookies"@) {
        assert(string_views(p.trees@)[23] == secret);
        lemma_trees_are_refused(policy_of(p), path, facts, 23);
    } else if secret == join_spec(join_spec(home, "Library"@), "Safari"@) {
        assert(string_views(p.trees@)[24] == secret);
        lemma_trees_are_refused(policy_of(p), path, facts, 24);
    } else if secret == join_spec(join_spec(home, "Library"@), "Accounts"@) {
        assert(string_views(p.trees@)[25] == secret);
        lemma_trees_are_refused(policy_of(p), path, facts, 25);
    } else if secret == join_spec(join_spec(home, "Library"@), "Calendars"@) {
        assert(string_views(p.trees@)[26] == secret);
        lemma_trees_are_refused(policy_of(p), path, facts, 26);
    } else if secret == join_spec(join_spec(home, "Library"@), "Reminders"@) {
        assert(string_views(p.trees@)[27] == secret);
        lemma_trees_are_refused(policy_of(p), path, facts, 27);
    } else if secret == join_spec(join_spec(home, "Library"@), "Contacts"@) {
        assert(string_views(p.trees@)[28] == secret);
        lemma_trees_are_refused(policy_of(p), path, facts, 28);
    } else if secret == join_spec(join_spec(home, "Library"@), "Passes"@) {
        assert(string_views(p.trees@)[29] == secret);
        lemma_trees_are_refused(policy_of(p), path, facts, 29);
    } else if secret == join_spec(join_spec(home, "Library"@), "Wallet"@) {
        assert(string_views(p.trees@)[30] == secret);
        lemma_trees_are_refused(policy_of(p), path, facts, 30);
    } else if secret == join_spec(join_spec(home, "Library"@), "Application Support/MobileSync"@) {
        assert(string_views(p.trees@)[31] == secret);
        lemma_trees_are_refused(policy_of(p), path, facts, 31);
    } else if secret == join_spec(join_spec(home, "Library"@), "Application Support/AddressBook"@) {
        assert(string_views(p.trees@)[32] == secret);
        lemma_trees_are_refused(policy_of(p), path, facts, 32);
    } else if secret == join_spec(join_spec(home, "Library"@), "Application Support/CloudDocs"@) {
        assert(string_views(p.trees@)[33] == secret);
        lemma_trees_are_refused(policy_of(p), path, facts, 33);
    } else if secret == join_spec(join_spec(home, "Library"@), "Application Support/iCloud"@) {
        assert(string_views(p.trees@)[34] == secret);
        lemma_trees_are_refused(policy_of(p), path, facts, 34);
    } else if secret == join_spec(join_spec(home, "Library"@), "Developer/Xcode/UserData"@) {
        assert(string_views(p.trees@)[35] == secret);
        lemma_trees_are_refused(policy_of(p), path, facts, 35);
    }
}

/// On macOS the folders a user's data is organised in are never removed themselves, nor is any
/// folder that holds one: the home folder, the library and its Caches, Logs, Application
/// Support, Preferences, Containers, Group Containers and Developer folders, the trash folder,
/// Documents, Desktop, Downloads, Pictures, Movies, Music, Applications, Public, and the temp
/// directory. (What is inside them may be.)
pub proof fn lemma_macos_keeps_folders(
    p: ProtectedPaths,
    home: Seq<char>,
    temp: Seq<char>,
    kept: Seq<char>,
    path: Seq<char>,
    facts: PathFacts,
)
    requires
        string_views(p.exact@) == macos_exact(home, temp),
        kept == home ||
        kept == join_spec(home, "Library"@) ||
        kept == join_spec(join_spec(home, "Library"@), "Caches"@) ||
        kept == join_spec(join_spec(home, "Library"@), "Logs"@) ||
        kept == join_spec(join_spec(home, "Library"@), "Application Support"@) ||
        kept == join_spec(join_spec(home, "Library"@), "Preferences"@) ||
        kept == join_spec(join_spec(home, "Library"@), "Containers"@) ||
        kept == join_spec(join_spec(home, "Library"@), "Group Containers"@) ||
        kept == join_spec(join_spec(home, "Library"@), "Developer"@) ||
        kept == join_spec(join_spec(home, "Library"@), "Developer/Xcode"@) ||
        kept == join_spec(join_spec(home, "Library"@), "Developer/Xcode/DerivedData"@) ||
        kept == join_spec(join_spec(home, "Library"@), "Developer/CoreSimulator"@) ||
        kept == join_spec(home, ".Trash"@) ||
        kept == join_spec(home, "Documents"@) ||
        kept == join_spec(home, "Desktop"@) ||
        kept == join_spec(home, "Downloads"@) ||
        kept == join_spec(home, "Pictures"@) ||
        kept == join_spec(home, "Movies"@) ||
        kept == join_spec(home, "Music"@) ||
        kept == join_spec(home, "Applications"@) ||
        kept == join_spec(home, "Public"@) ||
        kept == temp,
        facts.resolved matches Ok(n) && starts_with_spec(kept, n@) && !is_app_bundle(policy_of(p), path_view(n@), facts.resolved_is_dir),
    ensures
        !(verdict(policy_of(p), path, facts) is Allowed),
{
    assert(string_views(p.exact@).len() == p.exact@.len());
    assert(policy_of(p).exact.len() == p.exact@.len());
    assert forall|i: int| 0 <= i < p.exact@.len() implies #[trigger] policy_of(p).exact[i] == path_view(string_views(p.exact@)[i]) by {}
    if kept == home {
        assert(string_views(p.exact@)[0] == kept);
        lemma_exact_are_refused(policy_of(p), path, facts, 0);
    } else if kept == join_spec(home, "Library"@) {
        assert(string_views(p.exact@)[1] == kept);
        lemma_exact_are_refused(policy_of(p), path, facts, 1);
    } else if kept == join_spec(join_spec(home, "Library"@), "Caches"@) {
        assert(string_views(p.exact@)[2] == kept);
        lemma_exact_are_refused(policy_of(p), path, facts, 2);
    } else if kept == join_spec(join_spec(home, "Library"@), "Logs"@) {
        assert(string_views(p.exact@)[3] == kept);
        lemma_exact_are_refused(policy_of(p), path, facts, 3);
    } else if kept == join_spec(join_spec(home, "Library"@), "Application Support"@) {
        assert(string_views(p.exact@)[4] == kept);
        lemma_exact_are_refused(policy_of(p), path, facts, 4);
    } else if kept == join_spec(join_spec(home, "Library"@), "Preferences"@) {
        assert(string_views(p.exact@)[5] == kept);
        lemma_exact_are_refused(policy_of(p), path, facts, 5);
    } else if kept == join_spec(join_spec(home, "Library"@), "Containers"@) {
        assert(string_views(p.exact@)[6] == kept);
        lemma_exact_are_refused(policy_of(p), path, facts, 6);
    } else if kept == join_spec(join_spec(home, "Library"@), "Group Containers"@) {
        assert(string_views(p.exact@)[7] == kept);
        lemma_exact_are_refused(policy_of(p), path, facts, 7);
    } else if kept == join_spec(join_spec(home, "Library"@), "Developer"@) {
        assert(string_views(p.exact@)[8] == kept);
        lemma_exact_are_refused(policy_of(p), path, facts, 8);
    } else if kept == join_spec(join_spec(home, "Library"@), "Developer/Xcode"@) {
        assert(string_views(p.exact@)[9] == kept);
        lemma_exact_are_refused(policy_of(p), path, facts, 9);
    } else if kept == join_spec(join_spec(home, "Library"@), "Developer/Xcode/DerivedData"@) {
        assert(string_views(p.exact@)[10] == kept);
        lemma_exact_are_refused(policy_of(p), path, facts, 10);
    } else if kept == join_spec(join_spec(home, "Library"@), "Developer/CoreSimulator"@) {
        assert(string_views(p.exact@)[11] == kept);
        lemma_exact_are_refused(policy_of(p), path, facts, 11);
    } else if kept == join_spec(home, ".Trash"@) {
        assert(string_views(p.exact@)[12] == kept);
        lemma_exact_are_refused(policy_of(p), path, facts, 12);
    } else if kept == join_spec(home, "Documents"@) {
        assert(string_views(p.exact@)[13] == kept);
        lemma_exact_are_refused(policy_of(p), path, facts, 13);
    } else if kept == join_spec(home, "Desktop"@) {
        assert(string_views(p.exact@)[14] == kept);
        lemma_exact_are_refused(policy_of(p), path, facts, 14);
    } else if kept == join_spec(home, "Downloads"@) {
        assert(string_views(p.exact@)[15] == kept);
        lemma_exact_are_refused(policy_of(p), path, facts, 15);
    } else if kept == join_spec(home, "Pictures"@) {
        assert(string_views(p.exact@)[16] == kept);
        lemma_exact_are_refused(policy_of(p), path, facts, 16);
    } else if kept == join_spec(home, "Movies"@) {
        assert(string_views(p.exact@)[17] == kept);
        lemma_exact_are_refused(policy_of(p), path, facts, 17);
    } else if kept == join_spec(home, "Music"@) {
        assert(string_views(p.exact@)[18] == kept);
        lemma_exact_are_refused(policy_of(p), path, facts, 18);
    } else if kept == join_spec(home, "Applications"@) {
        assert(string_views(p.exact@)[19] == kept);
        lemma_exact_are_refused(policy_of(p), path, facts, 19);
    } else if kept == join_spec(home, "Public"@) {
        assert(string_views(p.exact@)[20] == kept);
        lemma_exact_are_refused(policy_of(p), path, facts, 20);
    } else if kept == temp {
        assert(string_views(p.exact@)[21] == kept);
        lemma_exact_are_refused(policy_of(p), path, facts, 21);
    }
}

/// What the safety layer must refuse to touch on macOS.
pub fn protected_paths(known: &KnownPaths) -> (r: ProtectedPaths)
    ensures
        string_views(r.allowed_roots@) == macos_allowed(known.home@, known.temp@),
        string_views(r.exact@) == macos_exact(known.home@, known.temp@),
        string_views(r.trees@) == macos_trees(known.home@),
        string_views(r.app_bundle_roots@) == macos_bundle_roots(known.home@),
{
    let home = known.home.as_str();
    let lib_s = join(home, "Library");
    let lib = lib_s.as_str();
    let mut allowed: Vec<String> = Vec::new();
    allowed.push(owned(home));
    allowed.push(known.temp.clone());
    allowed.push(owned("/private/tmp"));
    let mut exact: Vec<String> = Vec::new();
    exact.push(owned(home));
    exact.push(owned(lib));
    exact.push(join(lib, "Caches"));
    exact.push(join(lib, "Logs"));
    exact.push(join(lib, "Application Support"));
    exact.push(join(lib, "Preferences"));
    exact.push(join(lib, "Containers"));
    exact.push(join(lib, "Group Containers"));
    exact.push(join(lib, "Developer"));
    exact.push(join(lib, "Developer/Xcode"));
    exact.push(join(lib, "Developer/Xcode/DerivedData"));
    exact.push(join(lib, "Developer/CoreSimulator"));
    exact.push(join(home, ".Trash"));
    exact.push(join(home, "Documents"));
    exact.push(join(home, "Desktop"));
    exact.push(join(home, "Downloads"));
    exact.push(join(home, "Pictures"));
    exact.push(join(home, "Movies"));
    exact.push(join(home, "Music"));
    exact.push(join(home, "Applications"));
    exact.push(join(home, "Public"));
    exact.push(known.temp.clone());
    let mut trees: Vec<String> = Vec::new();
    trees.push(owned("/System"));
    trees.push(owned("/Library"));
    trees.push(owned("/usr"));
    trees.push(owned("/bin"));
    trees.push(owned("/sbin"));
    trees.push(owned("/etc"));
    trees.push(owned("/private/etc"));
    trees.push(owned("/var/db"));
    trees.push(owned("/private/var/db"));
    trees.push(owned("/Applications"));
    trees.push(owned("/Volumes"));
    trees.push(owned("/opt"));
    trees.push(owned("/cores"));
    trees.push(join(home, ".ssh"));
    trees.push(join(home, ".gnupg"));
    trees.push(join(home, ".aws"));
    trees.push(join(home, ".kube"));
    trees.push(join(home, ".config/gh"));
    trees.push(join(lib, "Keychains"));
    trees.push(join(lib, "Mail"));
    trees.push(join(lib, "Messages"));
    trees.push(join(lib, "Photos"));
    trees.push(join(lib, "Mobile Documents"));
    trees.push(join(lib, "Cookies"));
    trees.push(join(lib, "Safari"));
    trees.push(join(lib, "Accounts"));
    trees.push(join(lib, "Calendars"));
    trees.push(join(lib, "Reminders"));
    trees.push(join(lib, "Contacts"));
    trees.push(join(lib, "Passes"));
    trees.push(join(lib, "Wallet"));
    trees.push(join(lib, "Application Support/MobileSync"));
    trees.push(join(lib, "Application Support/AddressBook"));
    trees.push(join(lib, "Application Support/CloudDocs"));
    trees.push(join(lib, "Application Support/iCloud"));
    trees.push(join(lib, "Developer/Xcode/UserData"));
    let mut bundles: Vec<String> = Vec::new();
    bundles.push(owned("/Applications"));
    bundles.push(join(home, "Applications"));
    assert(string_views(allowed@) =~= macos_allowed(known.home@, known.temp@));
    assert(string_views(exact@) =~= macos_exact(known.home@, known.temp@));
    assert(string_views(trees@) =~= macos_trees(known.home@));
    assert(string_views(bundles@) =~= macos_bundle_roots(known.home@));
    ProtectedPaths { allowed_roots: allowed, exact, trees, app_bundle_roots: bundles }
}

} // verus!
