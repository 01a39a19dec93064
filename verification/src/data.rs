use vstd::prelude::*;

verus! {

use bytes::Bytes;
use dashmap::DashMap;

/// `bytes::Bytes` holds an immutable byte payload; Verus sees the value as
/// opaque, so this declaration lets it stand in fields and signatures.
#[verifier::external_type_specification]
#[verifier::external_body]
pub struct ExBytes(Bytes);

/// The byte sequence that a `bytes::Bytes` value holds.
pub uninterp spec fn bytes_view(b: Bytes) -> Seq<u8>;

/// Relies on `bytes::Bytes::from` for `Vec<u8>`: the resulting value holds
/// exactly the vector's bytes.
#[verifier::external_body]
pub(crate) fn bytes_from_vec(v: Vec<u8>) -> (r: Bytes)
    ensures
        bytes_view(r) == v@,
{
    Bytes::from(v)
}

/// Relies on `<[u8]>::to_vec` reached through `Bytes`'s deref to `[u8]`:
/// the vector holds exactly the bytes of the payload.
#[verifier::external_body]
pub(crate) fn bytes_to_vec(b: &Bytes) -> (r: Vec<u8>)
    ensures
        r@ == bytes_view(*b),
{
    b.to_vec()
}

/// Relies on `bytes::Bytes::clone`: a clone is a shallow copy that holds the
/// same bytes.
pub assume_specification[ <Bytes as Clone>::clone ](b: &Bytes) -> (r: Bytes)
    ensures
        bytes_view(r) == bytes_view(*b),
;

/// Mathematical model of one stored entry: the payload bytes, the opaque
/// client flags, the normalized expiration marker, and the declared payload
/// length.
pub ghost struct EntryV {
    pub payload: Seq<u8>,
    pub flags: u16,
    pub exptime: int,
    pub byte_count: nat,
}

impl EntryV {
    /// A well-formed entry declares exactly its payload's length as its byte
    /// count. Every entry the command processor stores is well formed, even
    /// though the bare setters can build one that is not.
    pub open spec fn wf(self) -> bool {
        self.byte_count == self.payload.len()
    }
}

/// One stored unit of data: raw bytes, a 16-bit client tag echoed verbatim,
/// a signed expiration marker (negative: already expired; zero: never
/// expires; positive: absolute Unix timestamp), and the declared byte count.
#[derive(Clone, Debug)]
pub struct StoredValue {
    value: Bytes,
    flags: u16,
    exptime: isize,
    byte_count: usize,
}

impl View for StoredValue {
    type V = EntryV;

    closed spec fn view(&self) -> EntryV {
        EntryV {
            payload: bytes_view(self.value),
            flags: self.flags,
            exptime: self.exptime as int,
            byte_count: self.byte_count as nat,
        }
    }
}

impl StoredValue {
    /// An entry with an empty payload, zero flags, no expiration and a zero
    /// byte count.
    pub fn new() -> (r: Self)
        ensures
            r@ == (EntryV { payload: Seq::<u8>::empty(), flags: 0, exptime: 0, byte_count: 0 }),
    {
        StoredValue { value: bytes_from_vec(Vec::new()), flags: 0, exptime: 0, byte_count: 0 }
    }

    pub fn set_bytes(&mut self, value: Bytes)
        ensures
            final(self)@ == (EntryV { payload: bytes_view(value), ..old(self)@ }),
    {
        self.value = value;
    }

    pub fn set_flags(&mut self, flags: u16)
        ensures
            final(self)@ == (EntryV { flags: flags, ..old(self)@ }),
    {
        self.flags = flags;
    }

    pub fn set_exptime(&mut self, exptime: isize)
        ensures
            final(self)@ == (EntryV { exptime: exptime as int, ..old(self)@ }),
    {
        self.exptime = exptime;
    }

    pub fn set_byte_count(&mut self, byte_count: usize)
        ensures
            final(self)@ == (EntryV { byte_count: byte_count as nat, ..old(self)@ }),
    {
        self.byte_count = byte_count;
    }

    pub fn get_byte_count(&mut self) -> (r: usize)
        ensures
            r as nat == old(self)@.byte_count,
            *final(self) == *old(self),
    {
        self.byte_count
    }

    pub fn get_flags(&self) -> (r: u16)
        ensures
            r == self@.flags,
    {
        self.flags
    }

    pub fn get_exptime(&self) -> (r: isize)
        ensures
            r as int == self@.exptime,
    {
        self.exptime
    }

    /// A copy of the payload as a plain byte vector.
    pub fn get_value(&self) -> (r: Vec<u8>)
        ensures
            r@ == self@.payload,
    {
        bytes_to_vec(&self.value)
    }
}

impl Default for StoredValue {
    fn default() -> (r: Self)
        ensures
            r@ == (EntryV { payload: Seq::<u8>::empty(), flags: 0, exptime: 0, byte_count: 0 }),
    {
        StoredValue::new()
    }
}

/// `dashmap::DashMap` is a concurrent hash map; Verus sees a value of it as
/// opaque, so this declaration lets it stand in fields and signatures.
#[verifier::external_type_specification]
#[verifier::external_body]
#[verifier::reject_recursive_types(K)]
#[verifier::reject_recursive_types(V)]
#[verifier::reject_recursive_types(S)]
pub struct ExDashMap<K, V, S>(DashMap<K, V, S>);

/// The entries that the store's map holds, as a map from key text to the
/// model of the stored entry.
pub uninterp spec fn store_contents(m: DashMap<String, StoredValue>) -> Map<Seq<char>, EntryV>;

/// The contents of a store that holds no entries.
pub open spec fn empty_contents() -> Map<Seq<char>, EntryV> {
    Map::empty()
}

/// Relies on `dashmap::DashMap::new`: the new map holds no entries.
#[verifier::external_body]
fn map_new() -> (r: DashMap<String, StoredValue>)
    ensures
        store_contents(r) == empty_contents(),
{
    DashMap::new()
}

/// Relies on `dashmap::DashMap::get`, which returns the value stored under
/// the key if there is one; the entry is cloned so the caller owns a
/// snapshot that later writes cannot change.
#[verifier::external_body]
fn map_get(m: &DashMap<String, StoredValue>, key: &String) -> (r: Option<StoredValue>)
    ensures
        match r {
            Some(v) => store_contents(*m).contains_key(key@) && v@ == store_contents(*m)[key@],
            None => !store_contents(*m).contains_key(key@),
        },
{
    m.get(key).map(|v| v.clone())
}

/// Relies on `dashmap::DashMap::insert`, which maps the key to the new value
/// in place of any earlier one.
#[verifier::external_body]
fn map_insert(m: &mut DashMap<String, StoredValue>, key: String, value: StoredValue)
    ensures
        store_contents(*final(m)) == store_contents(*old(m)).insert(key@, value@),
{
    m.insert(key, value);
}

/// Relies on `dashmap::DashMap::contains_key`: whether the key has an entry.
#[verifier::external_body]
fn map_contains(m: &DashMap<String, StoredValue>, key: &String) -> (r: bool)
    ensures
        r == store_contents(*m).contains_key(key@),
{
    m.contains_key(key)
}

/// Relies on `dashmap::DashMap::remove`, which deletes the key's entry if
/// there is one and leaves the map unchanged otherwise.
#[verifier::external_body]
fn map_remove(m: &mut DashMap<String, StoredValue>, key: &String)
    ensures
        store_contents(*final(m)) == store_contents(*old(m)).remove(key@),
{
    m.remove(key);
}

/// Relies on `dashmap::DashMap::len`: the number of entries held.
#[verifier::external_body]
fn map_len(m: &DashMap<String, StoredValue>) -> (r: usize)
    ensures
        r as nat == store_contents(*m).len(),
{
    m.len()
}

/// Relies on `dashmap::DashMap::iter`, which walks every shard and yields
/// each entry of the map exactly once, in no particular order: every pair
/// handed out is an entry of the map, no key appears twice, and every key of
/// the map appears.
#[verifier::external_body]
fn map_pairs(m: &DashMap<String, StoredValue>) -> (r: Vec<(String, StoredValue)>)
    ensures
        r@.len() == store_contents(*m).len(),
        forall|i: int|
            0 <= i < r@.len() ==> store_contents(*m).contains_key(#[trigger] r@[i].0@) && r@[i].1@
                == store_contents(*m)[r@[i].0@],
        forall|i: int, j: int| 0 <= i < j < r@.len() ==> r@[i].0@ != r@[j].0@,
        forall|k: Seq<char>|
            #[trigger] store_contents(*m).contains_key(k) ==> exists|i: int|
                0 <= i < r@.len() && #[trigger] r@[i].0@ == k,
{
    m.iter().map(|e| (e.key().clone(), e.value().clone())).collect()
}

/// A mapping from key to entry. Lookups return the most recently stored
/// entry for a key; the store itself does not interpret expiration, which is
/// the command processor's concern.
pub struct DataStore {
    store: DashMap<String, StoredValue>,
}

impl View for DataStore {
    type V = Map<Seq<char>, EntryV>;

    closed spec fn view(&self) -> Map<Seq<char>, EntryV> {
        store_contents(self.store)
    }
}

impl DataStore {
    /// An empty store.
    pub fn new() -> (r: Self)
        ensures
            r@ == empty_contents(),
    {
        DataStore { store: map_new() }
    }

    /// Snapshot read: the entry most recently stored under the key, if any,
    /// cloned so the caller cannot observe later writes to the same slot.
    pub fn get(&self, key: String) -> (r: Option<StoredValue>)
        ensures
            match r {
                Some(v) => self@.contains_key(key@) && v@ == self@[key@],
                None => !self@.contains_key(key@),
            },
    {
        map_get(&self.store, &key)
    }

    /// Unconditional insert-or-replace.
    pub fn set(&mut self, key: String, value: StoredValue)
        ensures
            final(self)@ == old(self)@.insert(key@, value@),
    {
        map_insert(&mut self.store, key, value);
    }

    /// Existence check, independent of expiration, which is the caller's
    /// concern.
    pub fn contains(&self, key: &String) -> (r: bool)
        ensures
            r == self@.contains_key(key@),
    {
        map_contains(&self.store, key)
    }

    /// Deletes the slot if present; a no-op otherwise.
    pub fn remove(&mut self, key: &String)
        ensures
            final(self)@ == old(self)@.remove(key@),
    {
        map_remove(&mut self.store, key);
    }

    /// The number of entries held.
    pub fn len(&self) -> (r: usize)
        ensures
            r as nat == self@.len(),
    {
        map_len(&self.store)
    }

    /// Snapshot traversal for diagnostics, with no ordering guarantee: every
    /// pair handed out is an entry of the store, each key appears exactly
    /// once, and every key of the store appears.
    pub fn iterate(&self) -> (r: Vec<(String, StoredValue)>)
        ensures
            r@.len() == self@.len(),
            forall|i: int|
                0 <= i < r@.len() ==> self@.contains_key(#[trigger] r@[i].0@) && r@[i].1@
                    == self@[r@[i].0@],
            forall|i: int, j: int| 0 <= i < j < r@.len() ==> r@[i].0@ != r@[j].0@,
            forall|k: Seq<char>|
                #[trigger] self@.contains_key(k) ==> exists|i: int|
                    0 <= i < r@.len() && #[trigger] r@[i].0@ == k,
    {
        map_pairs(&self.store)
    }
}

impl Default for DataStore {
    fn default() -> (r: Self)
        ensures
            r@ == empty_contents(),
    {
        DataStore::new()
    }
}

} // verus!
