//! Windows: what must never be touched, and which folders belong to an application.

use vstd::prelude::*;

use crate::paths::{join, join_spec, path_view, starts_with_spec};
use crate::safety::{is_app_bundle, lemma_trees_are_refused, policy_of, verdict, PathFacts};
use crate::platform::{KnownPaths, ProtectedPaths};
use crate::text::{owned, string_views};

pub mod apps;
pub mod rules;
pub mod startup;

verus! {

/// The environment variables the protected list is built from, each when set to an absolute
/// path.
#[derive(Debug, Clone)]
pub struct WindowsEnv {
    pub system_drive: Option<String>,
    pub windir: Option<String>,
    pub program_files: Option<String>,
    pub program_files_x86: Option<String>,
    pub program_data: Option<String>,
}

pub open spec fn or_else(o: Option<String>, d: Seq<char>) -> Seq<char> {
    match o {
        Some(s) => s@,
        None => d,
    }
}

pub open spec fn drive_of(env: WindowsEnv) -> Seq<char> {
    or_else(env.system_drive, "C:"@)
}

pub open spec fn local_of(known: KnownPaths) -> Seq<char> {
    or_else(known.local_app_data, join_spec(known.home@, "AppData\\Local"@))
}

pub open spec fn roaming_of(known: KnownPaths) -> Seq<char> {
    or_else(known.app_support, join_spec(known.home@, "AppData\\Roaming"@))
}

pub open spec fn windows_exact(known: KnownPaths) -> Seq<Seq<char>> {
    let home = known.home@;
    seq![
        home, join_spec(home, "AppData"@), local_of(known), roaming_of(known),
        join_spec(home, "AppData\\LocalLow"@), join_spec(local_of(known), "Temp"@),
        join_spec(home, "Documents"@), join_spec(home, "Desktop"@), join_spec(home, "Downloads"@),
        join_spec(home, "Pictures"@), join_spec(home, "Videos"@), join_spec(home, "Music"@),
        join_spec(home, "OneDrive"@), known.temp@,
    ]
}

pub open spec fn windows_trees(known: KnownPaths, env: WindowsEnv) -> Seq<Seq<char>> {
    let home = known.home@;
    let drive = drive_of(env);
    let local = local_of(known);
    let roaming = roaming_of(known);
    seq![
        or_else(env.windir, join_spec(drive, "Windows"@)),
        or_else(env.program_files, join_spec(drive, "Program Files"@)),
        or_else(env.program_files_x86, join_spec(drive, "Program Files (x86)"@)),
        or_else(env.program_data, join_spec(drive, "ProgramData"@)),
        join_spec(drive, "System Volume Information"@), join_spec(drive, "$Recycle.Bin"@),
        join_spec(drive, "Recovery"@), join_spec(drive, "Boot"@),
        join_spec(home, ".ssh"@), join_spec(home, ".gnupg"@), join_spec(home, ".aws"@),
        join_spec(home, ".kube"@), join_spec(home, "NTUSER.DAT"@),
        join_spec(local, "Microsoft\\Credentials"@), join_spec(roaming, "Microsoft\\Credentials"@),
        join_spec(roaming, "Microsoft\\Crypto"@), join_spec(roaming, "Microsoft\\Protect"@),
        join_spec(roaming, "Microsoft\\SystemCertificates"@), join_spec(local, "Microsoft\\Windows"@),
        join_spec(local, "Packages"@), join_spec(home, "OneDrive"@),
    ]
}

fn or_default(o: &Option<String>, d: String) -> (r: String)
    ensures
        r@ == or_else(*o, d@),
{
    match o {
        Some(s) => s.clone(),
        None => d,
    }
}

/// On Windows nothing inside the system folders or the user's secrets is ever removed: the
/// Windows folder, Program Files (both), ProgramData, System Volume Information, the recycle
/// bin, Recovery and Boot on the system drive; `.ssh`, `.gnupg`, `.aws`, `.kube`, the registry
/// hive NTUSER.DAT and OneDrive in the profile; the credential, crypto, protection and
/// certificate stores, the Windows shell data and app packages in local and roaming
/// application data. A path whose resolved form lies in one of them is refused by a policy
/// built from these protected paths (an `.app` bundle directly in a bundle folder aside).
pub proof fn lemma_windows_keeps_secrets(
    p: ProtectedPaths,
    known: KnownPaths,
    env: WindowsEnv,
    secret: Seq<char>,
    path: Seq<char>,
    facts: PathFacts,
)
    requires
        string_views(p.trees@) == windows_trees(known, env),
        secret == or_else(env.windir, join_spec(drive_of(env), "Windows"@)) ||
        secret == or_else(env.program_files, join_spec(drive_of(env), "Program Files"@)) ||
        secret == or_else(env.program_files_x86, join_spec(drive_of(env), "Program Files (x86)"@)) ||
        secret == or_else(env.program_data, join_spec(drive_of(env), "ProgramData"@)) ||
        secret == join_spec(drive_of(env), "System Volume Information"@) ||
        secret == join_spec(drive_of(env), "$Recycle.Bin"@) ||
        secret == join_spec(drive_of(env), "Recovery"@) ||
        secret == join_spec(drive_of(env), "Boot"@) ||
        secret == join_spec(known.home@, ".ssh"@) ||
        secret == join_spec(known.home@, ".gnupg"@) ||
        secret == join_spec(known.home@, ".aws"@) ||
        secret == join_spec(known.home@, ".kube"@) ||
        secret == join_spec(known.home@, "NTUSER.DAT"@) ||
        secret == join_spec(local_of(known), "Microsoft\\Credentials"@) ||
        secret == join_spec(roaming_of(known), "Microsoft\\Credentials"@) ||
        secret == join_spec(roaming_of(known), "Microsoft\\Crypto"@) ||
        secret == join_spec(roaming_of(known), "Microsoft\\Protect"@) ||
        secret == join_spec(roaming_of(known), "Microsoft\\SystemCertificates"@) ||
        secret == join_spec(local_of(known), "Microsoft\\Windows"@) ||
        secret == join_spec(local_of(known), "Packages"@) ||
        secret == join_spec(known.home@, "OneDrive"@),
        facts.resolved matches Ok(n) && starts_with_spec(n@, secret) && !is_app_bundle(policy_of(p), path_view(n@), facts.resolved_is_dir),
    ensures
        !(verdict(policy_of(p), path, facts) is Allowed),
{
    assert(string_views(p.trees@).len() == p.trees@.len());
    assert(policy_of(p).trees.len() == p.trees@.len());
    assert forall|i: int| 0 <= i < p.trees@.len() implies #[trigger] policy_of(p).trees[i] == path_view(string_views(p.trees@)[i]) by {}
    if secret == or_else(env.windir, join_spec(drive_of(env), "Windows"@)) {
        assert(string_views(p.trees@)[0] == secret);
        lemma_trees_are_refused(policy_of(p), path, facts, 0);
    } else if secret == or_else(env.program_files, join_spec(drive_of(env), "Program Files"@)) {
        assert(string_views(p.trees@)[1] == secret);
        lemma_trees_are_refused(policy_of(p), path, facts, 1);
    } else if secret == or_else(env.program_files_x86, join_spec(drive_of(env), "Program Files (x86)"@)) {
        assert(string_views(p.trees@)[2] == secret);
        lemma_trees_are_refused(policy_of(p), path, facts, 2);
    } else if secret == or_else(env.program_data, join_spec(drive_of(env), "ProgramData"@)) {
        assert(string_views(p.trees@)[3] == secret);
        lemma_trees_are_refused(policy_of(p), path, facts, 3);
    } else if secret == join_spec(drive_of(env), "System Volume Information"@) {
        assert(string_views(p.trees@)[4] == secret);
        lemma_trees_are_refused(policy_of(p), path, facts, 4);
    } else if secret == join_spec(drive_of(env), "$Recycle.Bin"@) {
        assert(string_views(p.trees@)[5] == secret);
        lemma_trees_are_refused(policy_of(p), path, facts, 5);
    } else if secret == join_spec(drive_of(env), "Recovery"@) {
        assert(string_views(p.trees@)[6] == secret);
        lemma_trees_are_refused(policy_of(p), path, facts, 6);
    } else if secret == join_spec(drive_of(env), "Boot"@) {
        assert(string_views(p.trees@)[7] == secret);
        lemma_trees_are_refused(policy_of(p), path, facts, 7);
    } else if secret == join_spec(known.home@, ".ssh"@) {
        assert(string_views(p.trees@)[8] == secret);
        lemma_trees_are_refused(policy_of(p), path, facts, 8);
    } else if secret == join_spec(known.home@, ".gnupg"@) {
        assert(string_views(p.trees@)[9] == secret);
        lemma_trees_are_refused(policy_of(p), path, facts, 9);
    } else if secret == join_spec(known.home@, ".aws"@) {
        assert(string_views(p.trees@)[10] == secret);
        lemma_trees_are_refused(policy_of(p), path, facts, 10);
    } else if secret == join_spec(known.home@, ".kube"@) {
        assert(string_views(p.trees@)[11] == secret);
        lemma_trees_are_refused(policy_of(p), path, facts, 11);
    } else if secret == join_spec(known.home@, "NTUSER.DAT"@) {
        assert(string_views(p.trees@)[12] == secret);
        lemma_trees_are_refused(policy_of(p), path, facts, 12);
    } else if secret == join_spec(local_of(known), "Microsoft\\Credentials"@) {
        assert(string_views(p.trees@)[13] == secret);
        lemma_trees_are_refused(policy_of(p), path, facts, 13);
    } else if secret == join_spec(roaming_of(known), "Microsoft\\Credentials"@) {
        assert(string_views(p.trees@)[14] == secret);
        lemma_trees_are_refused(policy_of(p), path, facts, 14);
    } else if secret == join_spec(roaming_of(known), "Microsoft\\Crypto"@) {
        assert(string_views(p.trees@)[15] == secret);
        lemma_trees_are_refused(policy_of(p), path, facts, 15);
    } else if secret == join_spec(roaming_of(known), "Microsoft\\Protect"@) {
        assert(string_views(p.trees@)[16] == secret);
        lemma_trees_are_refused(policy_of(p), path, facts, 16);
    } else if secret == join_spec(roaming_of(known), "Microsoft\\SystemCertificates"@) {
        assert(string_views(p.trees@)[17] == secret);
        lemma_trees_are_refused(policy_of(p), path, facts, 17);
    } else if secret == join_spec(local_of(known), "Microsoft\\Windows"@) {
        assert(string_views(p.trees@)[18] == secret);
        lemma_trees_are_refused(policy_of(p), path, facts, 18);
    } else if secret == join_spec(local_of(known), "Packages"@) {
        assert(string_views(p.trees@)[19] == secret);
        lemma_trees_are_refused(policy_of(p), path, facts, 19);
    } else if secret == join_spec(known.home@, "OneDrive"@) {
        assert(string_views(p.trees@)[20] == secret);
        lemma_trees_are_refused(policy_of(p), path, facts, 20);
    }
}

/// What the safety layer must refuse to touch on Windows.
pub fn protected_paths(known: &KnownPaths, env: &WindowsEnv) -> (r: ProtectedPaths)
    ensures
        string_views(r.allowed_roots@) == seq![known.home@, known.temp@],
        string_views(r.exact@) == windows_exact(*known),
        string_views(r.trees@) == windows_trees(*known, *env),
        r.app_bundle_roots@.len() == 0,
{
    let home = known.home.as_str();
    let drive = or_default(&env.system_drive, owned("C:"));
    let d = drive.as_str();
    let local = or_default(&known.local_app_data, join(home, "AppData\\Local"));
    let roaming = or_default(&known.app_support, join(home, "AppData\\Roaming"));
    let mut allowed: Vec<String> = Vec::new();
    allowed.push(owned(home));
    allowed.push(known.temp.clone());
    let mut exact: Vec<String> = Vec::new();
    exact.push(owned(home));
    exact.push(join(home, "AppData"));
    exact.push(local.clone());
    exact.push(roaming.clone());
    exact.push(join(home, "AppData\\LocalLow"));
    exact.push(join(local.as_str(), "Temp"));
    exact.push(join(home, "Documents"));
    exact.push(join(home, "Desktop"));
    exact.push(join(home, "Downloads"));
    exact.push(join(home, "Pictures"));
    exact.push(join(home, "Videos"));
    exact.push(join(home, "Music"));
    exact.push(join(home, "OneDrive"));
    exact.push(known.temp.clone());
    let mut trees: Vec<String> = Vec::new();
    trees.push(or_default(&env.windir, join(d, "Windows")));
    trees.push(or_default(&env.program_files, join(d, "Program Files")));
    trees.push(or_default(&env.program_files_x86, join(d, "Program Files (x86)")));
    trees.push(or_default(&env.program_data, join(d, "ProgramData")));
    trees.push(join(d, "System Volume Information"));
    trees.push(join(d, "$Recycle.Bin"));
    trees.push(join(d, "Recovery"));
    trees.push(join(d, "Boot"));
    trees.push(join(home, ".ssh"));
    trees.push(join(home, ".gnupg"));
    trees.push(join(home, ".aws"));
    trees.push(join(home, ".kube"));
    trees.push(join(home, "NTUSER.DAT"));
    trees.push(join(local.as_str(), "Microsoft\\Credentials"));
    trees.push(join(roaming.as_str(), "Microsoft\\Credentials"));
    trees.push(join(roaming.as_str(), "Microsoft\\Crypto"));
    trees.push(join(roaming.as_str(), "Microsoft\\Protect"));
    trees.push(join(roaming.as_str(), "Microsoft\\SystemCertificates"));
    trees.push(join(local.as_str(), "Microsoft\\Windows"));
    trees.push(join(local.as_str(), "Packages"));
    trees.push(join(home, "OneDrive"));
    assert(string_views(allowed@) =~= seq![known.home@, known.temp@]);
    assert(string_views(exact@) =~= windows_exact(*known));
    assert(string_views(trees@) =~= windows_trees(*known, *env));
    ProtectedPaths { allowed_roots: allowed, exact, trees, app_bundle_roots: Vec::new() }
}

} // verus!
