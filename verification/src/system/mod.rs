//! What is running on the machine, and which of it Prune will refuse to stop.
//!
//! Reading the machine (volumes, processes, signals) is the caller's part; which volume is the
//! primary one, how the list is ordered and whether a process may be stopped are decided here.

use vstd::prelude::*;

use crate::error::PruneError;
use crate::paths::{same, same_path, starts_with, starts_with_spec};
use crate::platform::windows::rules::utf8_len;
use crate::text::{chars_of, concat, decimal_digits, decimal_text};

pub mod freshness;
pub mod protection;

use self::protection::{protection_message, protection_of, Candidate, Protection};

verus! {

/// How to stop a process: ask it to quit, or force it.
#[derive(Debug, Clone, Copy, PartialEq, Eq, Structural)]
pub enum StopMode {
    Ask,
    Force,
}

/// A volume as the system reports it.
#[derive(Debug, Clone)]
pub struct VolumeReading {
    pub name: String,
    pub mount_point: String,
    pub file_system: String,
    pub total_bytes: u64,
    pub available_bytes: u64,
    pub is_removable: bool,
}

/// A volume as shown.
#[derive(Debug, Clone)]
pub struct DiskStatus {
    pub name: String,
    pub mount_point: String,
    pub file_system: String,
    pub total_bytes: u64,
    pub available_bytes: u64,
    pub is_removable: bool,
    /// The volume the home directory is on.
    pub is_primary: bool,
}

/// Whether the volume mounted at `mount` holds `home`.
pub open spec fn holds_home(home: Seq<char>, mount: Seq<char>) -> bool {
    starts_with_spec(home, mount)
}

/// The volume the home directory is on: of those whose mount point holds it, the one with the
/// longest mount point (in bytes), the last of equals; -1 when none holds it.
pub open spec fn primary_index(home: Seq<char>, vols: Seq<VolumeReading>) -> int
    decreases vols.len(),
{
    if vols.len() == 0 {
        -1
    } else {
        let p = primary_index(home, vols.drop_last());
        let v = vols.last();
        if holds_home(home, v.mount_point@) && (p < 0 || utf8_len(vols[p].mount_point@) <= utf8_len(v.mount_point@)) {
            vols.len() - 1
        } else {
            p
        }
    }
}

/// How many bytes `s` takes in UTF-8.
fn byte_len(s: &str) -> (r: u128)
    ensures
        r == utf8_len(s@),
{
    let cs = chars_of(s);
    let mut total: u128 = 0;
    let mut i: usize = 0;
    while i < cs.len()
        invariant
            i <= cs@.len(),
            cs@ == s@,
            total == utf8_len(cs@.take(i as int)),
            total <= 4 * i,
        decreases cs@.len() - i,
    {
        let c = cs[i] as u32;
        let w: u128 = if c < 0x80 {
            1
        } else if c < 0x800 {
            2
        } else if c < 0x10000 {
            3
        } else {
            4
        };
        proof {
            assert(cs@.take(i + 1).drop_last() == cs@.take(i as int));
            assert(cs@.take(i + 1).last() == cs@[i as int]);
        }
        total = total + w;
        i = i + 1;
    }
    assert(cs@.take(cs@.len() as int) == cs@);
    total
}

pub fn primary_volume(home: &str, vols: &Vec<VolumeReading>) -> (r: Option<usize>)
    ensures
        match r {
            Some(i) => primary_index(home@, vols@) == i && i < vols@.len(),
            None => primary_index(home@, vols@) == -1,
        },
{
    let mut best: Option<usize> = None;
    let mut best_len: u128 = 0;
    let mut i: usize = 0;
    while i < vols.len()
        invariant
            i <= vols@.len(),
            match best {
                Some(b) => primary_index(home@, vols@.take(i as int)) == b && b < i && best_len == utf8_len(vols@[b as int].mount_point@),
                None => primary_index(home@, vols@.take(i as int)) == -1,
            },
        decreases vols@.len() - i,
    {
        proof {
            assert(vols@.take(i + 1).drop_last() =~= vols@.take(i as int));
            assert(vols@.take(i + 1).last() == vols@[i as int]);
            if let Some(b) = best {
                assert(vols@.take(i + 1)[b as int] == vols@[b as int]);
                assert(vols@.take(i as int)[b as int] == vols@[b as int]);
            }
        }
        if starts_with(home, vols[i].mount_point.as_str()) {
            let len = byte_len(vols[i].mount_point.as_str());
            let replace = match best {
                Some(_) => best_len <= len,
                None => true,
            };
            if replace {
                best = Some(i);
                best_len = len;
            }
        }
        i = i + 1;
    }
    proof {
        assert(vols@.take(vols@.len() as int) =~= vols@);
    }
    best
}

/// `a` is listed before `b`: the primary volume first, then bigger volumes first.
pub open spec fn disk_before(a: DiskStatus, b: DiskStatus) -> bool {
    (a.is_primary && !b.is_primary) || (a.is_primary == b.is_primary && a.total_bytes > b.total_bytes)
}

/// The volumes worth showing (those with a capacity), in order, each marked primary when its
/// mount point is the primary volume's (`primary`).
pub open spec fn shown_volumes(vols: Seq<VolumeReading>, primary: Option<Seq<char>>) -> Seq<DiskStatus>
    decreases vols.len(),
{
    if vols.len() == 0 {
        Seq::empty()
    } else {
        let rest = shown_volumes(vols.drop_last(), primary);
        let v = vols.last();
        if v.total_bytes > 0 {
            rest.push(status_of(v, primary matches Some(m) && same_path(v.mount_point@, m)))
        } else {
            rest
        }
    }
}

/// The volumes with a capacity, in the system's order, the primary one marked.
pub open spec fn volumes_with_capacity(home: Seq<char>, vols: Seq<VolumeReading>) -> Seq<DiskStatus> {
    shown_volumes(vols, if primary_index(home, vols) >= 0 { Some(vols[primary_index(home, vols)].mount_point@) } else { None })
}

/// The list with each volume dropped that repeats the capacity and free space of the one kept
/// before it (helper volumes that mirror the primary).
pub open spec fn without_mirrors(list: Seq<DiskStatus>) -> Seq<DiskStatus>
    decreases list.len(),
{
    if list.len() == 0 {
        Seq::empty()
    } else {
        let rest = without_mirrors(list.drop_last());
        let d = list.last();
        if rest.len() > 0 && rest.last().total_bytes == d.total_bytes && rest.last().available_bytes == d.available_bytes {
            rest
        } else {
            rest.push(d)
        }
    }
}

proof fn lemma_disk_before_transitive(a: DiskStatus, b: DiskStatus, c: DiskStatus)
    requires
        disk_before(a, b),
        disk_before(b, c),
    ensures
        disk_before(a, c),
{
}

/// `order` lists every volume of `list` once, none listed before one it should follow, and
/// volumes that tie keep their order.
pub open spec fn disk_order(list: Seq<DiskStatus>, order: Seq<usize>) -> bool {
    &&& crate::analyzer::is_ordering(order, list.len() as int)
    &&& forall|i: int, j: int| 0 <= i < j < order.len() ==> !disk_before(#[trigger] list[order[j] as int], #[trigger] list[order[i] as int])
    &&& forall|i: int, j: int| 0 <= i < j < order.len() && list[order[i] as int].is_primary == list[order[j] as int].is_primary
        && list[order[i] as int].total_bytes == list[order[j] as int].total_bytes ==> (#[trigger] order[i]) < (#[trigger] order[j])
}

fn disk_order_of(list: &Vec<DiskStatus>) -> (order: Vec<usize>)
    ensures
        disk_order(list@, order@),
{
    let ghost l = list@;
    let mut order: Vec<usize> = Vec::new();
    let mut i: usize = 0;
    while i < list.len()
        invariant
            i <= l.len(),
            l == list@,
            order@.len() == i,
            forall|a: int| 0 <= a < order@.len() ==> #[trigger] order@[a] < i,
            forall|a: int, b: int| 0 <= a < b < order@.len() ==> order@[a] != order@[b],
            forall|a: int, b: int| 0 <= a < b < order@.len() ==> !disk_before(#[trigger] l[order@[b] as int], #[trigger] l[order@[a] as int]),
            forall|a: int, b: int| 0 <= a < b < order@.len() && l[order@[a] as int].is_primary == l[order@[b] as int].is_primary
                && l[order@[a] as int].total_bytes == l[order@[b] as int].total_bytes ==> (#[trigger] order@[a]) < (#[trigger] order@[b]),
        decreases l.len() - i,
    {
        let mut p: usize = 0;
        while p < order.len() && !((list[i].is_primary && !list[order[p]].is_primary) || (list[i].is_primary == list[order[p]].is_primary && list[i].total_bytes > list[order[p]].total_bytes))
            invariant
                i < l.len(),
                l == list@,
                p <= order@.len(),
                forall|a: int| 0 <= a < order@.len() ==> #[trigger] order@[a] < i,
                forall|q: int| 0 <= q < p ==> !disk_before(l[i as int], #[trigger] l[order@[q] as int]),
            decreases order@.len() - p,
        {
            p = p + 1;
        }
        let ghost before = order@;
        order.insert(p, i);
        proof {
            assert(order@ == before.insert(p as int, i));
            assert forall|a: int, b: int| 0 <= a < b < order@.len() implies !disk_before(#[trigger] l[order@[b] as int], #[trigger] l[order@[a] as int]) by {
                if b < p {
                    assert(order@[a] == before[a] && order@[b] == before[b]);
                } else if b == p {
                    assert(order@[a] == before[a]);
                } else if a == p {
                    assert(order@[b] == before[b - 1]);
                    assert(disk_before(l[i as int], l[before[p as int] as int]));
                    if disk_before(l[before[b - 1] as int], l[i as int]) {
                        if b - 1 > p {
                            lemma_disk_before_transitive(l[before[b - 1] as int], l[i as int], l[before[p as int] as int]);
                        }
                    }
                } else if a < p {
                    assert(order@[a] == before[a] && order@[b] == before[b - 1]);
                } else {
                    assert(order@[a] == before[a - 1] && order@[b] == before[b - 1]);
                }
            }
            assert forall|a: int, b: int| 0 <= a < b < order@.len() implies order@[a] != order@[b] by {
                if b < p {
                    assert(order@[a] == before[a] && order@[b] == before[b]);
                } else if b == p {
                    assert(order@[a] == before[a]);
                } else if a == p {
                    assert(order@[b] == before[b - 1]);
                } else if a < p {
                    assert(order@[a] == before[a] && order@[b] == before[b - 1]);
                } else {
                    assert(order@[a] == before[a - 1] && order@[b] == before[b - 1]);
                }
            }
            assert forall|a: int, b: int| 0 <= a < b < order@.len() && l[order@[a] as int].is_primary == l[order@[b] as int].is_primary
                && l[order@[a] as int].total_bytes == l[order@[b] as int].total_bytes implies (#[trigger] order@[a]) < (#[trigger] order@[b]) by {
                if b < p {
                    assert(order@[a] == before[a] && order@[b] == before[b]);
                } else if b == p {
                    assert(order@[a] == before[a]);
                } else if a == p {
                    assert(order@[b] == before[b - 1]);
                    assert(disk_before(l[i as int], l[before[p as int] as int]));
                    if b - 1 > p {
                        assert(!disk_before(l[before[b - 1] as int], l[before[p as int] as int]));
                    }
                } else if a < p {
                    assert(order@[a] == before[a] && order@[b] == before[b - 1]);
                } else {
                    assert(order@[a] == before[a - 1] && order@[b] == before[b - 1]);
                }
            }
            assert forall|a: int| 0 <= a < order@.len() implies #[trigger] order@[a] < i + 1 by {
                if a < p {
                    assert(order@[a] == before[a]);
                } else if a > p {
                    assert(order@[a] == before[a - 1]);
                }
            }
        }
        i = i + 1;
    }
    order
}

fn copy_status(d: &DiskStatus) -> (r: DiskStatus)
    ensures
        r == *d,
{
    DiskStatus {
        name: d.name.clone(),
        mount_point: d.mount_point.clone(),
        file_system: d.file_system.clone(),
        total_bytes: d.total_bytes,
        available_bytes: d.available_bytes,
        is_removable: d.is_removable,
        is_primary: d.is_primary,
    }
}

/// The volumes as listed: those with a capacity, the primary one first, then biggest first
/// (ties keep the system's order), with mirrors of the volume before dropped.
pub fn disk_list(home: &str, vols: &Vec<VolumeReading>) -> (r: Vec<DiskStatus>)
    ensures
        exists|order: Seq<usize>| {
            &&& #[trigger] disk_order(volumes_with_capacity(home@, vols@), order)
            &&& r@ == without_mirrors(order.map_values(|k: usize| volumes_with_capacity(home@, vols@)[k as int]))
        },
{
    let primary = primary_volume(home, vols);
    let ghost pm: Option<Seq<char>> = match primary {
        Some(i) => Some(vols@[i as int].mount_point@),
        None => None,
    };
    let mut list: Vec<DiskStatus> = Vec::new();
    let mut i: usize = 0;
    while i < vols.len()
        invariant
            i <= vols@.len(),
            match primary {
                Some(p) => p < vols@.len() && pm == Some(vols@[p as int].mount_point@),
                None => pm is None,
            },
            list@ == shown_volumes(vols@.take(i as int), pm),
        decreases vols@.len() - i,
    {
        let v = &vols[i];
        proof {
            assert(vols@.take(i + 1).drop_last() =~= vols@.take(i as int));
            assert(vols@.take(i + 1).last() == vols@[i as int]);
        }
        if v.total_bytes > 0 {
            let is_primary = match primary {
                Some(p) => same(v.mount_point.as_str(), vols[p].mount_point.as_str()),
                None => false,
            };
            list.push(DiskStatus {
                name: v.name.clone(),
                mount_point: v.mount_point.clone(),
                file_system: v.file_system.clone(),
                total_bytes: v.total_bytes,
                available_bytes: v.available_bytes,
                is_removable: v.is_removable,
                is_primary,
            });
        }
        i = i + 1;
    }
    proof {
        assert(vols@.take(vols@.len() as int) =~= vols@);
    }
    let order = disk_order_of(&list);
    let ghost ordered = order@.map_values(|k: usize| list@[k as int]);
    let mut out: Vec<DiskStatus> = Vec::new();
    let mut j: usize = 0;
    while j < order.len()
        invariant
            j <= order@.len(),
            disk_order(list@, order@),
            ordered == order@.map_values(|k: usize| list@[k as int]),
            out@ == without_mirrors(ordered.take(j as int)),
        decreases order@.len() - j,
    {
        let d = &list[order[j]];
        proof {
            assert(ordered.take(j + 1).drop_last() =~= ordered.take(j as int));
            assert(ordered.take(j + 1).last() == list@[order@[j as int] as int]);
        }
        let n = out.len();
        let mirror = n > 0 && out[n - 1].total_bytes == d.total_bytes && out[n - 1].available_bytes == d.available_bytes;
        if !mirror {
            out.push(copy_status(d));
        }
        j = j + 1;
    }
    proof {
        assert(ordered.take(order@.len() as int) =~= ordered);
        assert(list@ == volumes_with_capacity(home@, vols@));
        assert(disk_order(volumes_with_capacity(home@, vols@), order@));
    }
    out
}

pub open spec fn status_of(v: VolumeReading, primary: bool) -> DiskStatus {
    DiskStatus {
        name: v.name,
        mount_point: v.mount_point,
        file_system: v.file_system,
        total_bytes: v.total_bytes,
        available_bytes: v.available_bytes,
        is_removable: v.is_removable,
        is_primary: primary,
    }
}

// ----- stopping a process -----

/// Why a process will not be stopped, as the error says it.
pub open spec fn refusal_text(name: Seq<char>, p: Protection) -> Seq<char> {
    name + " cannot be stopped: "@ + protection_message(p)
}

/// The check made before a process is stopped: the protection rules, applied to what the
/// process is now (by the time a request arrives its id may belong to something else).
pub fn stop_check(candidate: Candidate<'_>) -> (r: Result<(), PruneError>)
    ensures
        match protection_of(candidate) {
            Some(p) => (r matches Err(PruneError::Other(m)) && m@ == refusal_text(candidate.name@, p)),
            None => r is Ok,
        },
{
    match self::protection::classify(candidate) {
        Some(p) => {
            proof {
                reveal_strlit(" cannot be stopped: ");
            }
            let a = concat(candidate.name, " cannot be stopped: ");
            Err(PruneError::Other(concat(a.as_str(), p.message())))
        },
        None => Ok(()),
    }
}

/// The error for a process id that names no process.
pub fn no_such_process(pid: u32) -> (r: PruneError)
    ensures
        r matches PruneError::Other(m) && m@ == "no process with id "@ + decimal_digits(pid as nat),
{
    proof {
        reveal_strlit("no process with id ");
    }
    let n = decimal_text(pid as u64);
    PruneError::Other(concat("no process with id ", n.as_str()))
}

/// What asking a process to quit comes to where the system has no polite request to send
/// (no POSIX signals): a refusal that says so, rather than quietly forcing it, which would
/// lose unsaved work under a label that promised to ask first.
pub fn cannot_ask(name: &str) -> (r: PruneError)
    ensures
        r matches PruneError::Other(m) && m@ == name@ + " cannot be asked to quit on this system; only forcing it to stop is available, which loses anything unsaved"@,
{
    proof {
        reveal_strlit(" cannot be asked to quit on this system; only forcing it to stop is available, which loses anything unsaved");
    }
    PruneError::Other(concat(name, " cannot be asked to quit on this system; only forcing it to stop is available, which loses anything unsaved"))
}

/// What the signal's delivery comes to.
pub fn stop_outcome(name: &str, signalled: bool) -> (r: Result<(), PruneError>)
    ensures
        signalled ==> r is Ok,
        !signalled ==> (r matches Err(PruneError::Other(m)) && m@ == "the system refused to stop "@ + name@),
{
    if signalled {
        Ok(())
    } else {
        proof {
            reveal_strlit("the system refused to stop ");
        }
        Err(PruneError::Other(concat("the system refused to stop ", name)))
    }
}

} // verus!
