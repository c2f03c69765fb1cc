//! The fallback used where there is no dedicated platform (Linux, for now).

use vstd::prelude::*;

use crate::paths::{join, join_spec};
use crate::platform::{KnownPaths, ProtectedPaths};
use crate::text::{owned, string_views};

verus! {

pub open spec fn generic_exact(home: Seq<char>, temp: Seq<char>) -> Seq<Seq<char>> {
    seq![
        home, join_spec(home, ".cache"@), join_spec(home, ".config"@), join_spec(home, ".local"@),
        join_spec(home, ".local/share"@), temp,
    ]
}

pub open spec fn generic_trees(home: Seq<char>) -> Seq<Seq<char>> {
    seq![
        "/usr"@, "/bin"@, "/sbin"@, "/etc"@, "/var"@, "/boot"@, "/lib"@, "/opt"@,
        join_spec(home, ".ssh"@), join_spec(home, ".gnupg"@),
    ]
}

/// What the safety layer must refuse to touch on the fallback platform.
pub fn protected_paths(known: &KnownPaths) -> (r: ProtectedPaths)
    ensures
        string_views(r.allowed_roots@) == seq![known.home@, known.temp@],
        string_views(r.exact@) == generic_exact(known.home@, known.temp@),
        string_views(r.trees@) == generic_trees(known.home@),
        r.app_bundle_roots@.len() == 0,
{
    let home = known.home.as_str();
    let mut allowed: Vec<String> = Vec::new();
    allowed.push(owned(home));
    allowed.push(known.temp.clone());
    let mut exact: Vec<String> = Vec::new();
    exact.push(owned(home));
    exact.push(join(home, ".cache"));
    exact.push(join(home, ".config"));
    exact.push(join(home, ".local"));
    exact.push(join(home, ".local/share"));
    exact.push(known.temp.clone());
    let mut trees: Vec<String> = Vec::new();
    trees.push(owned("/usr"));
    trees.push(owned("/bin"));
    trees.push(owned("/sbin"));
    trees.push(owned("/etc"));
    trees.push(owned("/var"));
    trees.push(owned("/boot"));
    trees.push(owned("/lib"));
    trees.push(owned("/opt"));
    trees.push(join(home, ".ssh"));
    trees.push(join(home, ".gnupg"));
    assert(string_views(allowed@) =~= seq![known.home@, known.temp@]);
    assert(string_views(exact@) =~= generic_exact(known.home@, known.temp@));
    assert(string_views(trees@) =~= generic_trees(known.home@));
    ProtectedPaths { allowed_roots: allowed, exact, trees, app_bundle_roots: Vec::new() }
}

} // verus!
