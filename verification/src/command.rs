use vstd::prelude::*;

verus! {

use crate::data::{DataStore, EntryV, StoredValue, bytes_from_vec};
use crate::expire::{is_expired, normalize_exptime, spec_is_expired, spec_normalize};
use crate::parse::Action;
use crate::response::{not_stored_response, stored_response, write_response};

/// Build the entry that a write command stores: the payload bytes with the
/// client's flags and the already-normalized expiration marker. The declared
/// byte count is the payload's length.
pub fn make_entry(flags: u16, exptime: isize, payload: Vec<u8>) -> (r: StoredValue)
    ensures
        r@ == (EntryV {
            payload: payload@,
            flags: flags,
            exptime: exptime as int,
            byte_count: payload@.len(),
        }),
{
    let count = payload.len();
    let mut v = StoredValue::new();
    v.set_flags(flags);
    v.set_exptime(exptime);
    v.set_byte_count(count);
    v.set_bytes(bytes_from_vec(payload));
    v
}

/// Whether a write command's precondition holds against the key's presence:
/// `set` always applies, `add` only to an absent key, and `replace`,
/// `append` and `prepend` only to a present one.
pub open spec fn spec_write_applies(action: Action, present: bool) -> bool {
    match action {
        Action::SetCmd => true,
        Action::AddCmd => !present,
        Action::ReplaceCmd => present,
        Action::AppendCmd => present,
        Action::PrependCmd => present,
    }
}

/// The entry that a write command stores when it applies: the new entry
/// itself, except that `append` and `prepend` keep the present payload and
/// concatenate the new payload after or before it, with flags and expiration
/// taken from the new write and the byte count equal to the combined length.
pub open spec fn spec_stored_entry(
    m: Map<Seq<char>, EntryV>,
    action: Action,
    key: Seq<char>,
    e: EntryV,
) -> EntryV {
    match action {
        Action::AppendCmd => EntryV {
            payload: m[key].payload + e.payload,
            flags: e.flags,
            exptime: e.exptime,
            byte_count: m[key].payload.len() + e.payload.len(),
        },
        Action::PrependCmd => EntryV {
            payload: e.payload + m[key].payload,
            flags: e.flags,
            exptime: e.exptime,
            byte_count: e.payload.len() + m[key].payload.len(),
        },
        _ => e,
    }
}

/// The store's contents after a write command: unchanged when the command
/// does not apply, and otherwise the key mapped to the stored entry.
pub open spec fn spec_apply_write(
    m: Map<Seq<char>, EntryV>,
    action: Action,
    key: Seq<char>,
    e: EntryV,
) -> Map<Seq<char>, EntryV> {
    if spec_write_applies(action, m.contains_key(key)) {
        m.insert(key, spec_stored_entry(m, action, key, e))
    } else {
        m
    }
}

/// Apply one write command to the store. The returned flag says whether the
/// entry was stored; the command mutates nothing when its precondition
/// fails.
pub fn execute_write(store: &mut DataStore, action: Action, key: String, entry: StoredValue) -> (stored: bool)
    ensures
        stored == spec_write_applies(action, old(store)@.contains_key(key@)),
        final(store)@ == spec_apply_write(old(store)@, action, key@, entry@),
{
    match action {
        Action::SetCmd => {
            store.set(key, entry);
            true
        },
        Action::AddCmd => {
            if !store.contains(&key) {
                store.set(key, entry);
                true
            } else {
                false
            }
        },
        Action::ReplaceCmd => {
            if store.contains(&key) {
                store.set(key, entry);
                true
            } else {
                false
            }
        },
        Action::AppendCmd => {
            match store.get(key.clone()) {
                Some(old_entry) => {
                    let mut data = old_entry.get_value();
                    let mut added = entry.get_value();
                    data.append(&mut added);
                    let combined = make_entry(entry.get_flags(), entry.get_exptime(), data);
                    store.set(key, combined);
                    true
                },
                None => false,
            }
        },
        Action::PrependCmd => {
            match store.get(key.clone()) {
                Some(old_entry) => {
                    let mut data = entry.get_value();
                    let mut kept = old_entry.get_value();
                    data.append(&mut kept);
                    let combined = make_entry(entry.get_flags(), entry.get_exptime(), data);
                    store.set(key, combined);
                    true
                },
                None => false,
            }
        },
    }
}

/// What a `get` returns: the key's entry when it is present and not expired
/// at `now`, and nothing otherwise.
pub open spec fn spec_get_result(m: Map<Seq<char>, EntryV>, key: Seq<char>, now: int) -> Option<
    EntryV,
> {
    if m.contains_key(key) && !spec_is_expired(m[key].exptime, now) {
        Some(m[key])
    } else {
        None
    }
}

/// The store's contents after a `get`: an entry observed expired is evicted,
/// and nothing else changes.
pub open spec fn spec_after_get(m: Map<Seq<char>, EntryV>, key: Seq<char>, now: int) -> Map<
    Seq<char>,
    EntryV,
> {
    if m.contains_key(key) && spec_is_expired(m[key].exptime, now) {
        m.remove(key)
    } else {
        m
    }
}

/// Apply one `get` to the store at instant `now`: return a snapshot of the
/// key's entry, treating an expired entry as a miss and lazily evicting it.
pub fn execute_get(store: &mut DataStore, key: String, now: isize) -> (r: Option<StoredValue>)
    ensures
        final(store)@ == spec_after_get(old(store)@, key@, now as int),
        match r {
            Some(v) => spec_get_result(old(store)@, key@, now as int) == Some(v@),
            None => spec_get_result(old(store)@, key@, now as int) is None,
        },
{
    match store.get(key.clone()) {
        Some(v) => {
            if is_expired(v.get_exptime(), now) {
                store.remove(&key);
                None
            } else {
                Some(v)
            }
        },
        None => None,
    }
}

/// Relies on `chrono::DateTime::<Utc>::from` applied to the system clock,
/// and `chrono::DateTime::timestamp`: the current time as whole seconds
/// since the Unix epoch, negative for an instant before it (the conversion
/// handles a pre-epoch clock without failing). Nothing is assumed of the
/// value.
#[verifier::external_body]
fn unix_now() -> (r: isize) {
    chrono::DateTime::<chrono::Utc>::from(std::time::SystemTime::now()).timestamp() as isize
}

/// The view of an optional response line.
pub open spec fn opt_string_view(r: Option<String>) -> Option<Seq<char>> {
    match r {
        Some(s) => Some(s@),
        None => None,
    }
}

/// The view of an optional entry snapshot.
pub open spec fn opt_entry_view(r: Option<StoredValue>) -> Option<EntryV> {
    match r {
        Some(v) => Some(v@),
        None => None,
    }
}

/// The entry that a write command taken at instant `now` asks to store.
pub open spec fn write_request_entry(flags: u16, raw_exptime: int, payload: Seq<u8>, now: int) -> EntryV {
    EntryV {
        payload: payload,
        flags: flags,
        exptime: spec_normalize(raw_exptime, now),
        byte_count: payload.len(),
    }
}

/// How one write command served at instant `now` relates the store's old and
/// new contents and the response: the store is updated as `spec_apply_write`
/// says for the entry normalized at `now`, and the response line is the
/// success or failure line, suppressed exactly when `noreply` was given.
pub open spec fn write_served(
    old_m: Map<Seq<char>, EntryV>,
    new_m: Map<Seq<char>, EntryV>,
    action: Action,
    key: Seq<char>,
    flags: u16,
    raw_exptime: int,
    payload: Seq<u8>,
    noreply: bool,
    resp: Option<Seq<char>>,
    now: int,
) -> bool {
    let e = write_request_entry(flags, raw_exptime, payload, now);
    let stored = spec_write_applies(action, old_m.contains_key(key));
    new_m == spec_apply_write(old_m, action, key, e) && resp == (if noreply {
        None
    } else if stored {
        Some(stored_response())
    } else {
        Some(not_stored_response())
    })
}

/// Serve one write command against the wall clock: normalize the expiration
/// at the current instant, apply the command, and return the response line,
/// or nothing when `noreply` suppresses it. The mutation does not depend on
/// `noreply`.
pub fn serve_write(
    store: &mut DataStore,
    action: Action,
    key: String,
    flags: u16,
    raw_exptime: isize,
    payload: Vec<u8>,
    noreply: bool,
) -> (r: Option<String>)
    ensures
        exists|now: int|
            write_served(
                old(store)@,
                final(store)@,
                action,
                key@,
                flags,
                raw_exptime as int,
                payload@,
                noreply,
                opt_string_view(r),
                now,
            ),
{
    let now = unix_now();
    let exptime = normalize_exptime(raw_exptime, now);
    let entry = make_entry(flags, exptime, payload);
    let stored = execute_write(store, action, key, entry);
    let r = if noreply {
        None
    } else {
        Some(write_response(stored))
    };
    proof {
        assert(write_served(
            old(store)@,
            store@,
            action,
            key@,
            flags,
            raw_exptime as int,
            payload@,
            noreply,
            opt_string_view(r),
            now as int,
        ));
    }
    r
}

/// How one `get` served at instant `now` relates the store's old and new
/// contents and the result.
pub open spec fn get_served(
    old_m: Map<Seq<char>, EntryV>,
    new_m: Map<Seq<char>, EntryV>,
    key: Seq<char>,
    r: Option<EntryV>,
    now: int,
) -> bool {
    new_m == spec_after_get(old_m, key, now) && r == spec_get_result(old_m, key, now)
}

/// Serve one `get` against the wall clock.
pub fn serve_get(store: &mut DataStore, key: String) -> (r: Option<StoredValue>)
    ensures
        exists|now: int| get_served(old(store)@, final(store)@, key@, opt_entry_view(r), now),
{
    let now = unix_now();
    let ghost k = key@;
    let r = execute_get(store, key, now);
    proof {
        assert(get_served(old(store)@, store@, k, opt_entry_view(r), now as int));
    }
    r
}

} // verus!
