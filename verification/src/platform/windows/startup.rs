//! Windows startup entries: the `Run` registry keys and the Start Menu `Startup` folders.
//!
//! Enabling and disabling writes only to `StartupApproved`, the same per-user database Task
//! Manager uses. The original `Run` value or shortcut is never touched, so the change is
//! reversible and no program is uninstalled. Reading and writing the registry is the caller's
//! part; what an entry is, and where its switch lives, is decided here.

use vstd::prelude::*;

use crate::error::PruneError;
use crate::models::CleanupTarget;
use crate::paths::{stem, stem_of};
use crate::platform::{cannot_toggle, refusal, StartupItem, StartupScope, StartupTrigger};
use crate::text::{concat, owned, str_eq};

verus! {

/// Programs started for a user (under `HKEY_CURRENT_USER`) or for everyone (under
/// `HKEY_LOCAL_MACHINE`).
pub const RUN: &'static str = "SOFTWARE\\Microsoft\\Windows\\CurrentVersion\\Run";

/// The same for 32-bit programs on a 64-bit system.
pub const RUN_WOW: &'static str = "SOFTWARE\\WOW6432Node\\Microsoft\\Windows\\CurrentVersion\\Run";

/// Where the switch of a `Run` entry lives.
pub const APPROVED_RUN: &'static str = "SOFTWARE\\Microsoft\\Windows\\CurrentVersion\\Explorer\\StartupApproved\\Run";

/// Where the switch of a `Startup` folder entry lives.
pub const APPROVED_FOLDER: &'static str = "SOFTWARE\\Microsoft\\Windows\\CurrentVersion\\Explorer\\StartupApproved\\StartupFolder";

pub open spec fn opt_view(o: Option<String>) -> Option<Seq<char>> {
    match o {
        Some(s) => Some(s@),
        None => None,
    }
}

/// The item a value `name` of the `Run` key `subkey` stands for: its command is the value's
/// text (nothing when that is empty), and it is enabled as `StartupApproved` says (`enabled`,
/// read by the caller; on when nothing is recorded).
pub fn run_key_item(subkey: &str, name: &str, command: &str, enabled: bool, scope: StartupScope) -> (r: StartupItem)
    ensures
        ({
            let full = subkey@ + "\\"@ + name@;
            &&& r.id@ == crate::models::make_id_spec(vstd::utf8::encode_utf8("startup"@), vstd::utf8::encode_utf8(full))
            &&& r.name@ == name@
            &&& r.label matches Some(l) && l@ == name@
            &&& r.path@ == full
            &&& opt_view(r.command) == (if command@.len() == 0 { None } else { Some(command@) })
            &&& r.enabled == enabled
            &&& r.source@ == "registry_run"@
            &&& r.scope == scope
            &&& r.trigger == StartupTrigger::AtLogin
            &&& r.can_toggle == (scope == StartupScope::User)
            &&& (scope == StartupScope::User ==> r.reason is None)
            &&& (scope != StartupScope::User ==> (r.reason matches Some(m) && m@ == "Installed for all users; change it with administrator rights."@))
        }),
{
    let with_sep = concat(subkey, "\\");
    let full = concat(with_sep.as_str(), name);
    let can_toggle = scope == StartupScope::User;
    StartupItem {
        id: CleanupTarget::make_id("startup", full.as_str()),
        name: owned(name),
        label: Some(owned(name)),
        path: full,
        command: if command.is_empty() {
            None
        } else {
            Some(owned(command))
        },
        enabled,
        source: owned("registry_run"),
        scope,
        trigger: StartupTrigger::AtLogin,
        can_toggle,
        reason: if can_toggle {
            None
        } else {
            Some(owned("Installed for all users; change it with administrator rights."))
        },
    }
}

/// Whether an entry of a `Startup` folder is an item: a file, other than the folder's
/// `desktop.ini`.
pub fn is_startup_entry(file_name: &str, is_file: bool) -> (r: bool)
    ensures
        r == (is_file && file_name@ != "desktop.ini"@),
{
    is_file && !str_eq(file_name, "desktop.ini")
}

/// The item a file `file_name` at `path` in a `Startup` folder stands for: named after the
/// file without its extension, and enabled as `StartupApproved` says (`enabled`).
pub fn startup_folder_item(path: &str, file_name: &str, enabled: bool, scope: StartupScope) -> (r: StartupItem)
    ensures
        r.id@ == crate::models::make_id_spec(vstd::utf8::encode_utf8("startup"@), vstd::utf8::encode_utf8(path@)),
        r.name@ == stem_of(file_name@),
        r.label matches Some(l) && l@ == file_name@,
        r.path@ == path@,
        r.command is None,
        r.enabled == enabled,
        r.source@ == "startup_folder"@,
        r.scope == scope,
        r.trigger == StartupTrigger::AtLogin,
        r.can_toggle == (scope == StartupScope::User),
        scope == StartupScope::User ==> r.reason is None,
        scope != StartupScope::User ==> (r.reason matches Some(m) && m@ == "Shared by all users; change it with administrator rights."@),
{
    let can_toggle = scope == StartupScope::User;
    StartupItem {
        id: CleanupTarget::make_id("startup", path),
        name: stem(file_name),
        label: Some(owned(file_name)),
        path: owned(path),
        command: None,
        enabled,
        source: owned("startup_folder"),
        scope,
        trigger: StartupTrigger::AtLogin,
        can_toggle,
        reason: if can_toggle {
            None
        } else {
            Some(owned("Shared by all users; change it with administrator rights."))
        },
    }
}

/// Where the switch of `item` lives in `StartupApproved`, and the value it is kept under; or
/// why the item cannot be switched.
pub fn approved_key(item: &StartupItem) -> (r: Result<(&'static str, String), PruneError>)
    ensures
        !item.can_toggle ==> (r matches Err(PruneError::Other(m)) && m@ == refusal(*item)),
        item.can_toggle && item.label is None ==> (r matches Err(PruneError::Other(m)) && m@ == "item has no registry value name"@),
        item.can_toggle && item.label is Some ==> match r {
            Ok((key, name)) => {
                &&& Some(name@) == opt_view(item.label)
                &&& (item.source@ == "registry_run"@ && key@ == APPROVED_RUN@)
                    || (item.source@ == "startup_folder"@ && key@ == APPROVED_FOLDER@)
            },
            Err(e) => {
                &&& item.source@ != "registry_run"@
                &&& item.source@ != "startup_folder"@
                &&& e matches PruneError::Other(m) && m@ == "unsupported startup source: "@ + item.source@
            },
        },
{
    if !item.can_toggle {
        return Err(cannot_toggle(item));
    }
    let name = match &item.label {
        Some(l) => owned(l.as_str()),
        None => {
            return Err(PruneError::Other(owned("item has no registry value name")));
        },
    };
    if str_eq(item.source.as_str(), "registry_run") {
        Ok((APPROVED_RUN, name))
    } else if str_eq(item.source.as_str(), "startup_folder") {
        Ok((APPROVED_FOLDER, name))
    } else {
        Err(PruneError::Other(concat("unsupported startup source: ", item.source.as_str())))
    }
}

} // verus!
