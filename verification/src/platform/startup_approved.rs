//! The byte format Windows uses to remember which startup entries a user switched off.
//!
//! `StartupApproved\Run` and `StartupApproved\StartupFolder` store one binary value per entry:
//! twelve bytes whose first byte carries the state and whose tail is a timestamp. Task Manager
//! writes `0x02` when an entry is enabled and `0x03` when it is disabled; Windows has also been
//! seen writing `0x06` for enabled and `0x07`/`0x09` for disabled, so the state is read from the
//! low bit rather than from an exact value.
//!
//! This is pure byte math, so it holds on any host; the registry code is a thin layer around it.

use vstd::prelude::*;

verus! {

/// Length Windows writes. Shorter values are padded, longer ones keep their tail.
pub const VALUE_LEN: usize = 12;

/// The state a value records: `None` for an empty value, otherwise whether its first byte is even.
pub open spec fn recorded_state(bytes: Seq<u8>) -> Option<bool> {
    if bytes.len() == 0 {
        None
    } else {
        Some(bytes[0] % 2 == 0)
    }
}

/// The value written for `enabled` over `existing`: at least twelve bytes, the state byte
/// (`2` enabled, `3` disabled), zeros up to byte twelve, and whatever followed beyond that.
pub open spec fn state_value(existing: Seq<u8>, enabled: bool) -> Seq<u8> {
    let len = if existing.len() < VALUE_LEN { VALUE_LEN as int } else { existing.len() as int };
    Seq::new(
        len as nat,
        |k: int|
            if k == 0 {
                if enabled {
                    2u8
                } else {
                    3u8
                }
            } else if k < VALUE_LEN {
                0u8
            } else {
                existing[k]
            },
    )
}

pub open spec fn existing_bytes(existing: Option<&[u8]>) -> Seq<u8> {
    match existing {
        Some(b) => b@,
        None => Seq::empty(),
    }
}

/// Reads the enabled state out of a `StartupApproved` value.
///
/// `None` when the value is empty, which callers treat as "enabled" because an entry with no
/// record has never been switched off.
pub fn is_enabled(bytes: &[u8]) -> (r: Option<bool>)
    ensures
        r == recorded_state(bytes@),
{
    if bytes.len() == 0 {
        None
    } else {
        Some(bytes[0] % 2 == 0)
    }
}

/// Produces the value to write for the requested state, preserving anything Windows put in the
/// bytes beyond the first twelve.
///
/// Bytes 1..4 are reserved and always zero; 4..12 hold the FILETIME of the change. Zeroing the
/// timestamp is what Windows itself writes for an entry that was never toggled, and it accepts
/// the value on the next login.
pub fn with_state(existing: Option<&[u8]>, enabled: bool) -> (r: Vec<u8>)
    ensures
        r@ == state_value(existing_bytes(existing), enabled),
{
    let ghost old_bytes = existing_bytes(existing);
    let mut bytes: Vec<u8> = Vec::new();
    match existing {
        Some(b) => {
            let mut i: usize = 0;
            while i < b.len()
                invariant
                    i <= b@.len(),
                    bytes@ == b@.take(i as int),
                decreases b@.len() - i,
            {
                bytes.push(b[i]);
                i = i + 1;
                assert(b@.take(i as int) == b@.take(i - 1).push(b@[i - 1]));
            }
            assert(b@.take(b@.len() as int) == b@);
        },
        None => {},
    }
    assert(bytes@ == old_bytes);
    while bytes.len() < VALUE_LEN
        invariant
            bytes@.len() <= VALUE_LEN || bytes@.len() == old_bytes.len(),
            old_bytes.len() >= VALUE_LEN ==> bytes@ == old_bytes,
            bytes@.len() >= old_bytes.len(),
            forall|k: int| 0 <= k < old_bytes.len() ==> bytes@[k] == old_bytes[k],
            forall|k: int| old_bytes.len() <= k < bytes@.len() ==> bytes@[k] == 0,
        decreases VALUE_LEN - bytes@.len(),
    {
        bytes.push(0);
    }
    bytes.set(0, if enabled {
        2
    } else {
        3
    });
    let mut k: usize = 1;
    while k < VALUE_LEN
        invariant
            1 <= k <= VALUE_LEN,
            bytes@.len() >= VALUE_LEN,
            bytes@.len() == if old_bytes.len() < VALUE_LEN { VALUE_LEN as int } else { old_bytes.len() as int },
            bytes@[0] == if enabled { 2u8 } else { 3u8 },
            forall|j: int| 1 <= j < k ==> bytes@[j] == 0,
            forall|j: int| VALUE_LEN <= j < bytes@.len() ==> bytes@[j] == old_bytes[j],
        decreases VALUE_LEN - k,
    {
        bytes.set(k, 0);
        k = k + 1;
    }
    assert(bytes@ =~= state_value(old_bytes, enabled));
    bytes
}

/// Writing a state and reading it back gives that state, whatever was there before.
pub proof fn lemma_state_round_trip(existing: Seq<u8>, enabled: bool)
    ensures
        recorded_state(state_value(existing, enabled)) == Some(enabled),
        state_value(existing, enabled).len() >= VALUE_LEN,
{
}

/// Writing twice keeps only the last state: the earlier write leaves nothing behind.
pub proof fn lemma_last_write_wins(existing: Seq<u8>, first: bool, second: bool)
    ensures
        state_value(state_value(existing, first), second) == state_value(existing, second),
{
    assert(state_value(state_value(existing, first), second) =~= state_value(existing, second));
}

/// Writing a value never loses bytes beyond the first twelve.
pub proof fn lemma_tail_kept(existing: Seq<u8>, enabled: bool)
    ensures
        forall|k: int| VALUE_LEN <= k < existing.len() ==> #[trigger] state_value(existing, enabled)[k] == existing[k],
        existing.len() >= VALUE_LEN ==> state_value(existing, enabled).len() == existing.len(),
{
}

} // verus!
