//! Deciding which processes Prune refuses to stop.
//!
//! Stopping the wrong process logs the user out, freezes the desktop or takes down the machine,
//! and unlike a deleted cache there is no trash to recover from. The rules are therefore
//! conservative and live in one pure function.

use vstd::prelude::*;

use crate::text::{ascii_lower, lemma_reads_as, str_eq, string_from, trim_seq, trimmed_chars, lower_seq};

verus! {

/// Why a process cannot be stopped.
#[derive(Debug, Clone, Copy, PartialEq, Eq, Structural)]
pub enum Protection {
    /// `init`/`launchd` and the kernel. Stopping these takes the machine down.
    SystemCritical,
    /// Owned by someone else, so stopping it would need administrator rights anyway.
    OtherUser,
    /// Prune itself. Stopping it mid-cleanup is never what the user meant.
    Ourselves,
}

pub open spec fn protection_message(p: Protection) -> Seq<char> {
    match p {
        Protection::SystemCritical => "part of the operating system; stopping it would take the machine down"@,
        Protection::OtherUser => "owned by another user, so it needs administrator rights"@,
        Protection::Ourselves => "this is Prune"@,
    }
}

impl Protection {
    pub fn message(self) -> (r: &'static str)
        ensures
            r@ == protection_message(self),
            r@.len() > 0,
    {
        proof {
            reveal_strlit("part of the operating system; stopping it would take the machine down");
            reveal_strlit("owned by another user, so it needs administrator rights");
            reveal_strlit("this is Prune");
        }
        match self {
            Protection::SystemCritical => "part of the operating system; stopping it would take the machine down",
            Protection::OtherUser => "owned by another user, so it needs administrator rights",
            Protection::Ourselves => "this is Prune",
        }
    }
}

/// Processes that keep the session or the machine alive, by lower-case name: macOS, Windows,
/// and Linux for completeness.
pub open spec fn critical_names() -> Seq<Seq<char>> {
    seq![
        "kernel_task"@, "launchd"@, "logind"@, "loginwindow"@, "windowserver"@,
        "systemuiserver"@, "coreaudiod"@, "opendirectoryd"@, "securityd"@, "distnoted"@,
        "notifyd"@, "configd"@, "diskarbitrationd"@, "mds"@, "mds_stores"@, "powerd"@,
        "watchdogd"@, "finder"@, "dock"@,
        "system"@, "system idle process"@, "smss.exe"@, "csrss.exe"@, "wininit.exe"@,
        "winlogon.exe"@, "services.exe"@, "lsass.exe"@, "lsaiso.exe"@, "svchost.exe"@,
        "dwm.exe"@, "explorer.exe"@, "fontdrvhost.exe"@, "sihost.exe"@, "ctfmon.exe"@,
        "systemd"@, "init"@, "dbus-daemon"@,
    ]
}

fn critical_list() -> (r: Vec<&'static str>)
    ensures
        crate::text::str_views(r@) == critical_names(),
{
    let mut v: Vec<&'static str> = Vec::new();
    v.push("kernel_task");
    v.push("launchd");
    v.push("logind");
    v.push("loginwindow");
    v.push("windowserver");
    v.push("systemuiserver");
    v.push("coreaudiod");
    v.push("opendirectoryd");
    v.push("securityd");
    v.push("distnoted");
    v.push("notifyd");
    v.push("configd");
    v.push("diskarbitrationd");
    v.push("mds");
    v.push("mds_stores");
    v.push("powerd");
    v.push("watchdogd");
    v.push("finder");
    v.push("dock");
    v.push("system");
    v.push("system idle process");
    v.push("smss.exe");
    v.push("csrss.exe");
    v.push("wininit.exe");
    v.push("winlogon.exe");
    v.push("services.exe");
    v.push("lsass.exe");
    v.push("lsaiso.exe");
    v.push("svchost.exe");
    v.push("dwm.exe");
    v.push("explorer.exe");
    v.push("fontdrvhost.exe");
    v.push("sihost.exe");
    v.push("ctfmon.exe");
    v.push("systemd");
    v.push("init");
    v.push("dbus-daemon");
    assert(crate::text::str_views(v@) =~= critical_names());
    v
}

/// Whether `name`, trimmed and lower-cased, is one of the critical names.
pub open spec fn is_critical(name: Seq<char>) -> bool {
    critical_names().contains(lower_seq(trim_seq(name)))
}

fn critical(name: &str) -> (r: bool)
    ensures
        r == is_critical(name@),
{
    let t = trimmed_chars(name);
    let l = ascii_lower(t.as_slice());
    let n = string_from(l.as_slice());
    let list = critical_list();
    let mut i: usize = 0;
    while i < list.len()
        invariant
            i <= list@.len(),
            crate::text::str_views(list@) == critical_names(),
            n@ == lower_seq(trim_seq(name@)),
            forall|j: int| 0 <= j < i ==> critical_names()[j] != n@,
        decreases list@.len() - i,
    {
        assert(crate::text::str_views(list@)[i as int] == list@[i as int]@);
        if str_eq(n.as_str(), list[i]) {
            return true;
        }
        i = i + 1;
    }
    proof {
        if critical_names().contains(n@) {
            let j = choose|j: int| 0 <= j < critical_names().len() && critical_names()[j] == n@;
            assert(critical_names()[j] != n@);
        }
    }
    false
}

/// Everything needed to judge one process.
#[derive(Debug, Clone, Copy)]
pub struct Candidate<'a> {
    pub pid: u32,
    pub name: &'a str,
    /// The owning user, when known.
    pub user: Option<&'a str>,
    /// The user Prune is running as.
    pub current_user: Option<&'a str>,
    /// Prune's own process id.
    pub self_pid: u32,
}

/// Why a process may not be stopped, in order of precedence: Prune itself, then the kernel and
/// init (pids 0 and 1) and the critical names, then anything owned by another user or by an
/// unknown owner while the current user is known.
pub open spec fn protection_of(c: Candidate) -> Option<Protection> {
    if c.pid == c.self_pid {
        Some(Protection::Ourselves)
    } else if c.pid <= 1 || is_critical(c.name@) {
        Some(Protection::SystemCritical)
    } else {
        match (c.user, c.current_user) {
            (Some(owner), Some(me)) => if owner@ != me@ {
                Some(Protection::OtherUser)
            } else {
                None
            },
            (None, Some(_)) => Some(Protection::OtherUser),
            _ => None,
        }
    }
}

/// The processes that keep a session or a machine alive are never offered for stopping (unless
/// the process is Prune itself, which has its own reason): kernel_task, launchd, loginwindow,
/// WindowServer, Finder, Dock and the rest on macOS; csrss.exe, lsass.exe, svchost.exe,
/// explorer.exe and the rest on Windows; systemd, init and dbus-daemon on Linux. The name is
/// compared trimmed and without regard to case.
pub proof fn lemma_session_processes_are_protected(c: Candidate)
    requires
        c.pid != c.self_pid,
    ensures
        lower_seq(trim_seq(c.name@)) == "kernel_task"@ ==> protection_of(c) == Some(Protection::SystemCritical),
        lower_seq(trim_seq(c.name@)) == "launchd"@ ==> protection_of(c) == Some(Protection::SystemCritical),
        lower_seq(trim_seq(c.name@)) == "logind"@ ==> protection_of(c) == Some(Protection::SystemCritical),
        lower_seq(trim_seq(c.name@)) == "loginwindow"@ ==> protection_of(c) == Some(Protection::SystemCritical),
        lower_seq(trim_seq(c.name@)) == "windowserver"@ ==> protection_of(c) == Some(Protection::SystemCritical),
        lower_seq(trim_seq(c.name@)) == "systemuiserver"@ ==> protection_of(c) == Some(Protection::SystemCritical),
        lower_seq(trim_seq(c.name@)) == "coreaudiod"@ ==> protection_of(c) == Some(Protection::SystemCritical),
        lower_seq(trim_seq(c.name@)) == "opendirectoryd"@ ==> protection_of(c) == Some(Protection::SystemCritical),
        lower_seq(trim_seq(c.name@)) == "securityd"@ ==> protection_of(c) == Some(Protection::SystemCritical),
        lower_seq(trim_seq(c.name@)) == "distnoted"@ ==> protection_of(c) == Some(Protection::SystemCritical),
        lower_seq(trim_seq(c.name@)) == "notifyd"@ ==> protection_of(c) == Some(Protection::SystemCritical),
        lower_seq(trim_seq(c.name@)) == "configd"@ ==> protection_of(c) == Some(Protection::SystemCritical),
        lower_seq(trim_seq(c.name@)) == "diskarbitrationd"@ ==> protection_of(c) == Some(Protection::SystemCritical),
        lower_seq(trim_seq(c.name@)) == "mds"@ ==> protection_of(c) == Some(Protection::SystemCritical),
        lower_seq(trim_seq(c.name@)) == "mds_stores"@ ==> protection_of(c) == Some(Protection::SystemCritical),
        lower_seq(trim_seq(c.name@)) == "powerd"@ ==> protection_of(c) == Some(Protection::SystemCritical),
        lower_seq(trim_seq(c.name@)) == "watchdogd"@ ==> protection_of(c) == Some(Protection::SystemCritical),
        lower_seq(trim_seq(c.name@)) == "finder"@ ==> protection_of(c) == Some(Protection::SystemCritical),
        lower_seq(trim_seq(c.name@)) == "dock"@ ==> protection_of(c) == Some(Protection::SystemCritical),
        lower_seq(trim_seq(c.name@)) == "system"@ ==> protection_of(c) == Some(Protection::SystemCritical),
        lower_seq(trim_seq(c.name@)) == "system idle process"@ ==> protection_of(c) == Some(Protection::SystemCritical),
        lower_seq(trim_seq(c.name@)) == "smss.exe"@ ==> protection_of(c) == Some(Protection::SystemCritical),
        lower_seq(trim_seq(c.name@)) == "csrss.exe"@ ==> protection_of(c) == Some(Protection::SystemCritical),
        lower_seq(trim_seq(c.name@)) == "wininit.exe"@ ==> protection_of(c) == Some(Protection::SystemCritical),
        lower_seq(trim_seq(c.name@)) == "winlogon.exe"@ ==> protection_of(c) == Some(Protection::SystemCritical),
        lower_seq(trim_seq(c.name@)) == "services.exe"@ ==> protection_of(c) == Some(Protection::SystemCritical),
        lower_seq(trim_seq(c.name@)) == "lsass.exe"@ ==> protection_of(c) == Some(Protection::SystemCritical),
        lower_seq(trim_seq(c.name@)) == "lsaiso.exe"@ ==> protection_of(c) == Some(Protection::SystemCritical),
        lower_seq(trim_seq(c.name@)) == "svchost.exe"@ ==> protection_of(c) == Some(Protection::SystemCritical),
        lower_seq(trim_seq(c.name@)) == "dwm.exe"@ ==> protection_of(c) == Some(Protection::SystemCritical),
        lower_seq(trim_seq(c.name@)) == "explorer.exe"@ ==> protection_of(c) == Some(Protection::SystemCritical),
        lower_seq(trim_seq(c.name@)) == "fontdrvhost.exe"@ ==> protection_of(c) == Some(Protection::SystemCritical),
        lower_seq(trim_seq(c.name@)) == "sihost.exe"@ ==> protection_of(c) == Some(Protection::SystemCritical),
        lower_seq(trim_seq(c.name@)) == "ctfmon.exe"@ ==> protection_of(c) == Some(Protection::SystemCritical),
        lower_seq(trim_seq(c.name@)) == "systemd"@ ==> protection_of(c) == Some(Protection::SystemCritical),
        lower_seq(trim_seq(c.name@)) == "init"@ ==> protection_of(c) == Some(Protection::SystemCritical),
        lower_seq(trim_seq(c.name@)) == "dbus-daemon"@ ==> protection_of(c) == Some(Protection::SystemCritical),
        c.name@ == "Dock"@ ==> protection_of(c) == Some(Protection::SystemCritical),
        c.name@ == "Finder"@ ==> protection_of(c) == Some(Protection::SystemCritical),
        c.name@ == "WindowServer"@ ==> protection_of(c) == Some(Protection::SystemCritical),
        c.name@ == "SystemUIServer"@ ==> protection_of(c) == Some(Protection::SystemCritical),
        c.name@ == "System Idle Process"@ ==> protection_of(c) == Some(Protection::SystemCritical),
        c.name@ == "System"@ ==> protection_of(c) == Some(Protection::SystemCritical),
{
    assert(critical_names()[0] == "kernel_task"@);
    assert(critical_names()[1] == "launchd"@);
    assert(critical_names()[2] == "logind"@);
    assert(critical_names()[3] == "loginwindow"@);
    assert(critical_names()[4] == "windowserver"@);
    assert(critical_names()[5] == "systemuiserver"@);
    assert(critical_names()[6] == "coreaudiod"@);
    assert(critical_names()[7] == "opendirectoryd"@);
    assert(critical_names()[8] == "securityd"@);
    assert(critical_names()[9] == "distnoted"@);
    assert(critical_names()[10] == "notifyd"@);
    assert(critical_names()[11] == "configd"@);
    assert(critical_names()[12] == "diskarbitrationd"@);
    assert(critical_names()[13] == "mds"@);
    assert(critical_names()[14] == "mds_stores"@);
    assert(critical_names()[15] == "powerd"@);
    assert(critical_names()[16] == "watchdogd"@);
    assert(critical_names()[17] == "finder"@);
    assert(critical_names()[18] == "dock"@);
    assert(critical_names()[19] == "system"@);
    assert(critical_names()[20] == "system idle process"@);
    assert(critical_names()[21] == "smss.exe"@);
    assert(critical_names()[22] == "csrss.exe"@);
    assert(critical_names()[23] == "wininit.exe"@);
    assert(critical_names()[24] == "winlogon.exe"@);
    assert(critical_names()[25] == "services.exe"@);
    assert(critical_names()[26] == "lsass.exe"@);
    assert(critical_names()[27] == "lsaiso.exe"@);
    assert(critical_names()[28] == "svchost.exe"@);
    assert(critical_names()[29] == "dwm.exe"@);
    assert(critical_names()[30] == "explorer.exe"@);
    assert(critical_names()[31] == "fontdrvhost.exe"@);
    assert(critical_names()[32] == "sihost.exe"@);
    assert(critical_names()[33] == "ctfmon.exe"@);
    assert(critical_names()[34] == "systemd"@);
    assert(critical_names()[35] == "init"@);
    assert(critical_names()[36] == "dbus-daemon"@);
    reveal_strlit("Dock");
    reveal_strlit("dock");
    lemma_reads_as("Dock"@, "dock"@);
    reveal_strlit("Finder");
    reveal_strlit("finder");
    lemma_reads_as("Finder"@, "finder"@);
    reveal_strlit("WindowServer");
    reveal_strlit("windowserver");
    lemma_reads_as("WindowServer"@, "windowserver"@);
    reveal_strlit("SystemUIServer");
    reveal_strlit("systemuiserver");
    lemma_reads_as("SystemUIServer"@, "systemuiserver"@);
    reveal_strlit("System Idle Process");
    reveal_strlit("system idle process");
    lemma_reads_as("System Idle Process"@, "system idle process"@);
    reveal_strlit("System");
    reveal_strlit("system");
    lemma_reads_as("System"@, "system"@);
}

/// `None` when the process may be stopped.
pub fn classify(candidate: Candidate<'_>) -> (r: Option<Protection>)
    ensures
        r == protection_of(candidate),
{
    if candidate.pid == candidate.self_pid {
        return Some(Protection::Ourselves);
    }
    // pid 0 and 1 are the kernel and the init process on every platform Prune targets.
    if candidate.pid <= 1 {
        return Some(Protection::SystemCritical);
    }
    if critical(candidate.name) {
        return Some(Protection::SystemCritical);
    }
    // Anything owned by someone else needs privileges Prune does not ask for.
    match (candidate.user, candidate.current_user) {
        (Some(owner), Some(me)) => {
            if !str_eq(owner, me) {
                Some(Protection::OtherUser)
            } else {
                None
            }
        },
        // An unknown owner usually means a system process the user cannot read.
        (None, Some(_)) => Some(Protection::OtherUser),
        _ => None,
    }
}

} // verus!
