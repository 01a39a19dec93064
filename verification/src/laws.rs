use vstd::prelude::*;

verus! {

use crate::command::{
    spec_after_get,
    spec_apply_write,
    spec_get_result,
    spec_stored_entry,
    spec_write_applies,
    write_served,
};
use crate::data::{EntryV, empty_contents};
use crate::expire::{spec_is_expired, spec_normalize};
use crate::parse::Action;
use crate::response::{value_header, value_response_bytes};
use vstd::utf8::encode_utf8;

/// A key never written reads as a miss: a `get` on a store that does not
/// hold the key returns nothing and changes nothing.
pub proof fn lemma_get_unwritten_miss(m: Map<Seq<char>, EntryV>, key: Seq<char>, now: int)
    requires
        !m.contains_key(key),
    ensures
        spec_get_result(m, key, now) is None,
        spec_after_get(m, key, now) == m,
{
}

/// On a fresh store every `get` is a miss, whatever the key.
pub proof fn lemma_fresh_store_misses(key: Seq<char>, now: int)
    ensures
        spec_get_result(empty_contents(), key, now) is None,
{
}

/// Round trip: a `set` followed immediately by a `get` of the same key
/// returns the entry unchanged — payload, flags, expiration marker and byte
/// count — provided the entry is not already expired at that instant.
pub proof fn lemma_set_then_get(m: Map<Seq<char>, EntryV>, key: Seq<char>, e: EntryV, now: int)
    requires
        !spec_is_expired(e.exptime, now),
    ensures
        ({
            let m2 = spec_apply_write(m, Action::SetCmd, key, e);
            spec_get_result(m2, key, now) == Some(e) && spec_after_get(m2, key, now) == m2
        }),
{
}

/// An `add` on an absent key stores; an `add` immediately after on the same
/// key does not apply, mutates nothing, and leaves the first entry
/// retrievable.
pub proof fn lemma_add_then_add(
    m: Map<Seq<char>, EntryV>,
    key: Seq<char>,
    e1: EntryV,
    e2: EntryV,
    now: int,
)
    requires
        !m.contains_key(key),
        !spec_is_expired(e1.exptime, now),
    ensures
        spec_write_applies(Action::AddCmd, m.contains_key(key)),
        ({
            let m1 = spec_apply_write(m, Action::AddCmd, key, e1);
            !spec_write_applies(Action::AddCmd, m1.contains_key(key)) && spec_apply_write(
                m1,
                Action::AddCmd,
                key,
                e2,
            ) == m1 && spec_get_result(m1, key, now) == Some(e1)
        }),
{
}

/// A `replace` on an absent key does not apply and performs no mutation.
pub proof fn lemma_replace_absent_no_mutation(m: Map<Seq<char>, EntryV>, key: Seq<char>, e: EntryV)
    requires
        !m.contains_key(key),
    ensures
        !spec_write_applies(Action::ReplaceCmd, m.contains_key(key)),
        spec_apply_write(m, Action::ReplaceCmd, key, e) == m,
{
}

/// A `replace` on a present key applies and overwrites the entry wholesale.
pub proof fn lemma_replace_present_overwrites(
    m: Map<Seq<char>, EntryV>,
    key: Seq<char>,
    e: EntryV,
)
    requires
        m.contains_key(key),
    ensures
        spec_write_applies(Action::ReplaceCmd, m.contains_key(key)),
        spec_apply_write(m, Action::ReplaceCmd, key, e) == m.insert(key, e),
{
}

/// Two `append`s in a row extend the payload at the end, in order: a key
/// holding some payload then appended with two more holds their
/// concatenation, first one first.
pub proof fn lemma_append_append(m: Map<Seq<char>, EntryV>, key: Seq<char>, e1: EntryV, e2: EntryV)
    requires
        m.contains_key(key),
    ensures
        ({
            let m2 = spec_apply_write(
                spec_apply_write(m, Action::AppendCmd, key, e1),
                Action::AppendCmd,
                key,
                e2,
            );
            m2.contains_key(key) && m2[key].payload == m[key].payload + e1.payload + e2.payload
        }),
{
}

/// `prepend` is `append`'s mirror: `append` stores the present payload
/// followed by the new one, `prepend` the new payload followed by the
/// present one.
pub proof fn lemma_prepend_mirrors_append(m: Map<Seq<char>, EntryV>, key: Seq<char>, e: EntryV)
    requires
        m.contains_key(key),
    ensures
        spec_apply_write(m, Action::AppendCmd, key, e)[key].payload == m[key].payload + e.payload,
        spec_apply_write(m, Action::PrependCmd, key, e)[key].payload == e.payload + m[key].payload,
{
}

/// A write with a negative expiration time is expired at every later read,
/// whatever instant it was written at.
pub proof fn lemma_negative_exptime_expires(raw: int, write_now: int, read_now: int)
    requires
        raw < 0,
    ensures
        spec_is_expired(spec_normalize(raw, write_now), read_now),
{
}

/// A write with expiration time zero never expires, however much time
/// elapses.
pub proof fn lemma_zero_exptime_never_expires(write_now: int, read_now: int)
    ensures
        !spec_is_expired(spec_normalize(0, write_now), read_now),
{
}

/// A write at a non-negative instant with a positive relative expiration
/// time is still retrievable exactly at the write instant plus that time,
/// and expired strictly after it.
pub proof fn lemma_positive_exptime_boundary(raw: int, write_now: int)
    requires
        raw > 0,
        write_now >= 0,
        write_now + raw <= isize::MAX,
    ensures
        !spec_is_expired(spec_normalize(raw, write_now), write_now + raw),
        forall|t: int| t > write_now + raw ==> spec_is_expired(spec_normalize(raw, write_now), t),
{
}

/// `set`s on distinct keys do not disturb each other: after both, each key
/// reads its own entry.
pub proof fn lemma_distinct_sets_persist(
    m: Map<Seq<char>, EntryV>,
    k1: Seq<char>,
    k2: Seq<char>,
    e1: EntryV,
    e2: EntryV,
    now: int,
)
    requires
        k1 != k2,
        !spec_is_expired(e1.exptime, now),
        !spec_is_expired(e2.exptime, now),
    ensures
        ({
            let m2 = spec_apply_write(
                spec_apply_write(m, Action::SetCmd, k1, e1),
                Action::SetCmd,
                k2,
                e2,
            );
            spec_get_result(m2, k1, now) == Some(e1) && spec_get_result(m2, k2, now) == Some(e2)
        }),
{
}

/// `set`s on distinct keys commute: the store's contents do not depend on
/// the order in which they land.
pub proof fn lemma_distinct_sets_commute(
    m: Map<Seq<char>, EntryV>,
    k1: Seq<char>,
    k2: Seq<char>,
    e1: EntryV,
    e2: EntryV,
)
    requires
        k1 != k2,
    ensures
        spec_apply_write(spec_apply_write(m, Action::SetCmd, k1, e1), Action::SetCmd, k2, e2)
            == spec_apply_write(spec_apply_write(m, Action::SetCmd, k2, e2), Action::SetCmd, k1, e1),
{
    assert(spec_apply_write(spec_apply_write(m, Action::SetCmd, k1, e1), Action::SetCmd, k2, e2)
        =~= spec_apply_write(spec_apply_write(m, Action::SetCmd, k2, e2), Action::SetCmd, k1, e1));
}

/// The byte response to a `get` hit carries the stored payload verbatim:
/// the bytes between the encoded header line and the encoded closing line
/// are exactly the entry's payload, whatever bytes it holds.
pub proof fn lemma_value_response_carries_payload(
    key: Seq<char>,
    flags: u16,
    byte_count: nat,
    payload: Seq<u8>,
)
    ensures
        ({
            let header = encode_utf8(value_header(key, flags, byte_count));
            value_response_bytes(key, flags, byte_count, payload).subrange(
                header.len() as int,
                (header.len() + payload.len()) as int,
            ) == payload
        }),
{
    let header = encode_utf8(value_header(key, flags, byte_count));
    assert(value_response_bytes(key, flags, byte_count, payload).subrange(
        header.len() as int,
        (header.len() + payload.len()) as int,
    ) =~= payload);
}

/// A `set` of an entry already expired at the read instant makes the
/// following `get` a miss, and the miss evicts the entry.
pub proof fn lemma_set_expired_then_get_evicts(
    m: Map<Seq<char>, EntryV>,
    key: Seq<char>,
    e: EntryV,
    now: int,
)
    requires
        spec_is_expired(e.exptime, now),
    ensures
        ({
            let m2 = spec_apply_write(m, Action::SetCmd, key, e);
            spec_get_result(m2, key, now) is None && spec_after_get(m2, key, now) == m2.remove(key)
        }),
{
}

/// Whether every entry a store holds is well formed: its declared byte count
/// is its payload's length.
pub open spec fn all_entries_wf(m: Map<Seq<char>, EntryV>) -> bool {
    forall|k: Seq<char>| m.contains_key(k) ==> (#[trigger] m[k]).wf()
}

/// Every write keeps the store's entries well formed, provided the written
/// entry is: `append` and `prepend` declare the combined payload's length as
/// the new byte count.
pub proof fn lemma_write_preserves_wf(
    m: Map<Seq<char>, EntryV>,
    action: Action,
    key: Seq<char>,
    e: EntryV,
)
    requires
        e.wf(),
        all_entries_wf(m),
    ensures
        all_entries_wf(spec_apply_write(m, action, key, e)),
{
    let m2 = spec_apply_write(m, action, key, e);
    assert forall|k: Seq<char>| m2.contains_key(k) implies (#[trigger] m2[k]).wf() by {
        if m2 != m && k == key {
            assert(m2[k] == spec_stored_entry(m, action, key, e));
        } else {
            assert(m2[k] == m[k]);
        }
    }
}

/// A `get` keeps the store's entries well formed: it only ever evicts.
pub proof fn lemma_get_preserves_wf(m: Map<Seq<char>, EntryV>, key: Seq<char>, now: int)
    requires
        all_entries_wf(m),
    ensures
        all_entries_wf(spec_after_get(m, key, now)),
{
}

/// `noreply` suppresses exactly the response line: a write served with
/// `noreply` performs the same mutation as the same write served without
/// it, returns no response where the other returns one.
pub proof fn lemma_noreply_only_suppresses_response(
    old_m: Map<Seq<char>, EntryV>,
    new_quiet: Map<Seq<char>, EntryV>,
    new_loud: Map<Seq<char>, EntryV>,
    action: Action,
    key: Seq<char>,
    flags: u16,
    raw_exptime: int,
    payload: Seq<u8>,
    r_quiet: Option<Seq<char>>,
    r_loud: Option<Seq<char>>,
    now: int,
)
    requires
        write_served(old_m, new_quiet, action, key, flags, raw_exptime, payload, true, r_quiet, now),
        write_served(old_m, new_loud, action, key, flags, raw_exptime, payload, false, r_loud, now),
    ensures
        new_quiet == new_loud,
        r_quiet is None,
        r_loud is Some,
{
}

} // verus!
