use vstd::prelude::*;

verus! {

/// Normalization of a client-supplied expiration time into the stored
/// marker: a negative value is kept as it is (the entry is already expired
/// at write time), zero means the entry never expires, and a positive value
/// is a relative number of seconds added to the current time to give an
/// absolute timestamp. An absolute timestamp too large for the machine's
/// signed word saturates to the largest representable marker.
pub open spec fn spec_normalize(raw: int, now: int) -> int {
    if raw < 0 {
        raw
    } else if raw == 0 {
        0
    } else if now + raw > isize::MAX {
        isize::MAX as int
    } else {
        now + raw
    }
}

/// An expiration marker denotes an expired entry at instant `now` when it is
/// negative (expired at write time), or positive and strictly in the past.
/// Zero never expires, and the boundary `now == expires_at` is not expired.
pub open spec fn spec_is_expired(expires_at: int, now: int) -> bool {
    expires_at < 0 || (expires_at > 0 && now > expires_at)
}

/// Turn a client-supplied relative or sentinel expiration time into the
/// absolute marker that is stored.
pub fn normalize_exptime(raw: isize, now: isize) -> (r: isize)
    ensures
        r as int == spec_normalize(raw as int, now as int),
{
    if raw < 0 {
        raw
    } else if raw == 0 {
        0
    } else if now > isize::MAX - raw {
        isize::MAX
    } else {
        now + raw
    }
}

/// Decide whether an entry whose stored marker is `expires_at` is expired at
/// the instant `now`.
pub fn is_expired(expires_at: isize, now: isize) -> (r: bool)
    ensures
        r == spec_is_expired(expires_at as int, now as int),
{
    if expires_at < 0 {
        true
    } else if expires_at == 0 {
        false
    } else {
        now > expires_at
    }
}

} // verus!
