//! What the rest of the library needs to know about the operating system: well-known
//! directories, protected directories, applications and startup items, as plain values.

use vstd::prelude::*;

use crate::error::PruneError;
use crate::models::RiskLevel;
use crate::paths::{join, join_spec};
use crate::text::owned;

pub mod generic;
pub mod macos;
pub mod sandbox;
pub mod startup_approved;
pub mod windows;

verus! {

/// Well-known user directories. Missing directories are simply `None`.
#[derive(Debug, Clone, Default)]
pub struct KnownPaths {
    pub home: String,
    /// Per-user cache root (`~/Library/Caches`, `%LOCALAPPDATA%`).
    pub user_cache: Option<String>,
    /// Per-user log root (`~/Library/Logs`).
    pub user_logs: Option<String>,
    /// Per-user application data (`~/Library/Application Support`, `%APPDATA%`).
    pub app_support: Option<String>,
    /// Local (non-roaming) application data. Same as `app_support` on macOS.
    pub local_app_data: Option<String>,
    pub temp: String,
    pub trash: Option<String>,
    pub downloads: Option<String>,
    /// Directories that commonly hold source code checkouts. Only existing ones are listed.
    pub project_roots: Vec<String>,
}

/// Paths the safety layer must refuse to touch.
#[derive(Debug, Clone, Default)]
pub struct ProtectedPaths {
    /// Roots Prune is *allowed* to delete inside. Everything else is refused.
    pub allowed_roots: Vec<String>,
    /// Exact paths that must never be removed themselves (but children may be).
    pub exact: Vec<String>,
    /// Whole trees that must never be touched, including all descendants.
    pub trees: Vec<String>,
    /// Directories whose *direct* `.app` children may be removed even though they are outside
    /// `allowed_roots` or inside a protected tree.
    pub app_bundle_roots: Vec<String>,
}

/// An installed application.
#[derive(Debug, Clone)]
pub struct ApplicationInfo {
    /// Stable id derived from the path (macOS) or registry key (Windows).
    pub id: String,
    pub name: String,
    /// Bundle path (macOS) or install location (Windows, may be empty).
    pub path: String,
    pub version: Option<String>,
    /// `CFBundleIdentifier` on macOS; the registry key name on Windows.
    pub bundle_id: Option<String>,
    pub publisher: Option<String>,
    /// `None` until measured.
    pub size_bytes: Option<u64>,
    /// Milliseconds since the Unix epoch.
    pub modified_at: Option<i64>,
    /// Where the entry came from: `applications`, `user_applications`, `registry`.
    pub source: String,
    /// Apple / Microsoft system component. Listed but never removable.
    pub is_system: bool,
    /// Windows: the vendor uninstaller command line. `None` on macOS.
    pub uninstall_command: Option<String>,
}

/// Kind of data an application leaves behind.
#[derive(Debug, Clone, Copy, PartialEq, Eq, Hash, Structural)]
pub enum AppDataKind {
    Application,
    Caches,
    ApplicationSupport,
    Preferences,
    Logs,
    Containers,
    SavedState,
    WebKit,
    HttpStorages,
    LaunchAgents,
    ApplicationScripts,
    CrashReports,
    LocalAppData,
    RoamingAppData,
}

pub open spec fn app_data_label(k: AppDataKind) -> Seq<char> {
    match k {
        AppDataKind::Application => "Application"@,
        AppDataKind::Caches => "Caches"@,
        AppDataKind::ApplicationSupport => "Application Support"@,
        AppDataKind::Preferences => "Preferences"@,
        AppDataKind::Logs => "Logs"@,
        AppDataKind::Containers => "Containers"@,
        AppDataKind::SavedState => "Saved State"@,
        AppDataKind::WebKit => "WebKit Storage"@,
        AppDataKind::HttpStorages => "HTTP Storage"@,
        AppDataKind::LaunchAgents => "Launch Agents"@,
        AppDataKind::ApplicationScripts => "Application Scripts"@,
        AppDataKind::CrashReports => "Crash Reports"@,
        AppDataKind::LocalAppData => "Local App Data"@,
        AppDataKind::RoamingAppData => "Roaming App Data"@,
    }
}

/// Default risk of removing each kind of data: caches and logs are safe, preferences low,
/// everything that holds state medium.
pub open spec fn app_data_risk(k: AppDataKind) -> RiskLevel {
    match k {
        AppDataKind::Caches | AppDataKind::Logs | AppDataKind::SavedState | AppDataKind::WebKit
        | AppDataKind::HttpStorages | AppDataKind::CrashReports => RiskLevel::Safe,
        AppDataKind::Preferences => RiskLevel::Low,
        _ => RiskLevel::Medium,
    }
}

impl AppDataKind {
    pub fn label(self) -> (r: &'static str)
        ensures
            r@ == app_data_label(self),
    {
        match self {
            AppDataKind::Application => "Application",
            AppDataKind::Caches => "Caches",
            AppDataKind::ApplicationSupport => "Application Support",
            AppDataKind::Preferences => "Preferences",
            AppDataKind::Logs => "Logs",
            AppDataKind::Containers => "Containers",
            AppDataKind::SavedState => "Saved State",
            AppDataKind::WebKit => "WebKit Storage",
            AppDataKind::HttpStorages => "HTTP Storage",
            AppDataKind::LaunchAgents => "Launch Agents",
            AppDataKind::ApplicationScripts => "Application Scripts",
            AppDataKind::CrashReports => "Crash Reports",
            AppDataKind::LocalAppData => "Local App Data",
            AppDataKind::RoamingAppData => "Roaming App Data",
        }
    }

    /// Default risk of removing this kind of data.
    pub fn risk(self) -> (r: RiskLevel)
        ensures
            r == app_data_risk(self),
    {
        match self {
            AppDataKind::Application => RiskLevel::Medium,
            AppDataKind::Caches | AppDataKind::Logs | AppDataKind::SavedState
            | AppDataKind::WebKit | AppDataKind::HttpStorages | AppDataKind::CrashReports => {
                RiskLevel::Safe
            },
            AppDataKind::Preferences => RiskLevel::Low,
            AppDataKind::ApplicationSupport | AppDataKind::Containers | AppDataKind::LaunchAgents
            | AppDataKind::ApplicationScripts | AppDataKind::LocalAppData
            | AppDataKind::RoamingAppData => RiskLevel::Medium,
        }
    }
}

/// A candidate location of application data.
#[derive(Debug, Clone)]
pub struct RelatedPath {
    pub kind: AppDataKind,
    pub path: String,
}

/// Who a startup item belongs to.
#[derive(Debug, Clone, Copy, PartialEq, Eq, Structural)]
pub enum StartupScope {
    /// Runs for this user only, and can be changed without administrator rights.
    User,
    /// Installed for every user. Changing it needs administrator rights, so Prune shows it
    /// read-only rather than asking for a password.
    System,
}

/// When an item actually runs.
#[derive(Debug, Clone, Copy, PartialEq, Eq, Structural)]
pub enum StartupTrigger {
    /// Starts at login / boot.
    AtLogin,
    /// Restarted whenever it exits.
    KeepAlive,
    /// Runs on a timer.
    Scheduled,
    /// Only starts when something asks for it (sockets, file watches, XPC).
    OnDemand,
}

/// Whether a permission has been granted to the running process.
#[derive(Debug, Clone, Copy, PartialEq, Eq, Structural)]
pub enum PermissionState {
    Granted,
    Denied,
    /// The OS has no such permission, so nothing is missing.
    NotApplicable,
}

/// What the running process is and is not allowed to read.
#[derive(Debug, Clone)]
pub struct Permissions {
    pub full_disk_access: PermissionState,
    /// Human-readable names of locations that were refused, for the UI to list.
    pub blocked: Vec<String>,
    /// Short instruction for granting it, or `None` when nothing is missing.
    pub how_to_grant: Option<String>,
}

impl Permissions {
    pub fn not_applicable() -> (r: Self)
        ensures
            r.full_disk_access == PermissionState::NotApplicable,
            r.blocked@.len() == 0,
            r.how_to_grant is None,
    {
        Permissions {
            full_disk_access: PermissionState::NotApplicable,
            blocked: Vec::new(),
            how_to_grant: None,
        }
    }
}

/// A program that starts by itself.
#[derive(Debug, Clone)]
pub struct StartupItem {
    /// Stable id derived from the source and the item's location.
    pub id: String,
    /// Human-readable name.
    pub name: String,
    /// launchd label (macOS) or registry value name (Windows).
    pub label: Option<String>,
    /// The plist, shortcut or registry key that defines the item.
    pub path: String,
    /// The program that gets executed.
    pub command: Option<String>,
    pub enabled: bool,
    /// `launch_agent`, `launch_daemon`, `registry_run`, `startup_folder`.
    pub source: String,
    pub scope: StartupScope,
    pub trigger: StartupTrigger,
    /// Whether Prune can change this item without administrator rights.
    pub can_toggle: bool,
    /// Why it cannot be toggled, when `can_toggle` is false.
    pub reason: Option<String>,
}

/// Folders under the home directory that commonly hold source code checkouts, in the order
/// they are tried.
pub open spec fn project_root_names() -> Seq<Seq<char>> {
    seq![
        "Projects"@,
        "projects"@,
        "Developer"@,
        "dev"@,
        "Dev"@,
        "workspace"@,
        "Workspace"@,
        "src"@,
        "code"@,
        "Code"@,
        "repos"@,
        "git"@,
        "GitHub"@,
        "Documents/GitHub"@,
        "Documents/Projects"@,
        "Documents/projects"@,
        "Documents/workspace"@,
        "Documents/dev"@,
        "Documents/code"@,
        "Desktop"@,
    ]
}

fn project_root_list() -> (r: Vec<&'static str>)
    ensures
        r@.map_values(|s: &'static str| s@) == project_root_names(),
{
    let mut v: Vec<&'static str> = Vec::new();
    v.push("Projects");
    v.push("projects");
    v.push("Developer");
    v.push("dev");
    v.push("Dev");
    v.push("workspace");
    v.push("Workspace");
    v.push("src");
    v.push("code");
    v.push("Code");
    v.push("repos");
    v.push("git");
    v.push("GitHub");
    v.push("Documents/GitHub");
    v.push("Documents/Projects");
    v.push("Documents/projects");
    v.push("Documents/workspace");
    v.push("Documents/dev");
    v.push("Documents/code");
    v.push("Desktop");
    assert(v@.map_values(|s: &'static str| s@) =~= project_root_names());
    v
}

/// Where project checkouts may be under `home`, before anything is checked on disk; the
/// caller keeps the directories that exist.
pub fn project_root_candidates(home: &str) -> (r: Vec<String>)
    ensures
        r@.len() == project_root_names().len(),
        forall|k: int| 0 <= k < r@.len() ==> (#[trigger] r@[k])@ == join_spec(home@, project_root_names()[k]),
{
    let list = project_root_list();
    let mut r: Vec<String> = Vec::new();
    let mut i: usize = 0;
    while i < list.len()
        invariant
            i <= list@.len(),
            list@.map_values(|s: &'static str| s@) == project_root_names(),
            r@.len() == i,
            forall|k: int| 0 <= k < i ==> (#[trigger] r@[k])@ == join_spec(home@, project_root_names()[k]),
        decreases list@.len() - i,
    {
        assert(project_root_names()[i as int] == list@[i as int]@);
        r.push(join(home, list[i]));
        i = i + 1;
    }
    r
}

/// Why an item cannot be switched, when it cannot: its own reason, or a general one.
pub open spec fn refusal(item: StartupItem) -> Seq<char> {
    match item.reason {
        Some(r) => r@,
        None => "this item cannot be changed"@,
    }
}

/// The error for an item that cannot be switched.
pub fn cannot_toggle(item: &StartupItem) -> (r: PruneError)
    ensures
        r matches PruneError::Other(m) && m@ == refusal(*item),
{
    match &item.reason {
        Some(r) => PruneError::Other(owned(r.as_str())),
        None => PruneError::Other(owned("this item cannot be changed")),
    }
}

} // verus!
