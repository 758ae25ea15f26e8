//! The persistent ordered map: byte-string keys and values kept in a region
//! of stable memory, in ascending key order.
//!
//! The map itself is the B-tree of `ic_stable_structures`, and nothing is
//! proved of that crate. The functions named `stable_*` state what its
//! functions do; the methods of `BTreeMap` and the rest of the library are
//! verified against these statements.
//!
//! The statements hold of a region that is bound to one map at a time and
//! holds nothing but what was written through this type. On any other
//! region, or where the host refuses to grow the region, that crate panics.

use vstd::prelude::*;
use crate::bytes::{ascending, bytes_lt, keys_rise, lists, map_of};
use crate::bytes::{lemma_listing_of_nothing, lemma_replace_then_list};

verus! {

/// The longest key or value, in bytes, whose length the stored format can
/// record.
pub const MAX_ENTRY_LEN: usize = 0xffff_ffff;

/// A region of stable memory, as the memory manager of
/// `ic_stable_structures` hands it out. Each map is given a region of its
/// own.
#[verifier::external_body]
pub struct DefaultMemory(
    pub ic_stable_structures::memory_manager::VirtualMemory<ic_stable_structures::DefaultMemoryImpl>,
);

/// A `ic_stable_structures::BTreeMap` from byte strings to byte strings in
/// one region of stable memory.
#[verifier::external_body]
pub struct BTreeMap {
    data: ic_stable_structures::BTreeMap<
        Vec<u8>,
        Vec<u8>,
        ic_stable_structures::memory_manager::VirtualMemory<ic_stable_structures::DefaultMemoryImpl>,
    >,
}

/// The bindings that a map holds.
pub uninterp spec fn stored_entries(map: BTreeMap) -> Map<Seq<u8>, Seq<u8>>;

/// The region that a map is bound to: the memory that it was made on, as
/// `ic_stable_structures::BTreeMap::into_memory` would give it back.
pub uninterp spec fn bound_region(map: BTreeMap) -> DefaultMemory;

impl View for BTreeMap {
    type V = Map<Seq<u8>, Seq<u8>>;

    open spec fn view(&self) -> Map<Seq<u8>, Seq<u8>> {
        stored_entries(*self)
    }
}

/// `std::ops::Bound`, one end of an interval: no limit, a limit that
/// belongs to the interval, or one that does not. The variants are read
/// from std itself, so nothing is assumed of them.
#[verifier::external_type_specification]
#[verifier::reject_recursive_types(T)]
pub struct ExBound<T>(std::ops::Bound<T>);

/// One end of a key interval.
pub type KeyBound = std::ops::Bound<Vec<u8>>;

/// Whether `key` lies in the interval from `lower` to `upper`.
pub open spec fn within(lower: KeyBound, upper: KeyBound, key: Seq<u8>) -> bool {
    &&& match lower {
        KeyBound::Unbounded => true,
        KeyBound::Included(low) => low@ == key || bytes_lt(low@, key),
        KeyBound::Excluded(low) => bytes_lt(low@, key),
    }
    &&& match upper {
        KeyBound::Unbounded => true,
        KeyBound::Included(high) => high@ == key || bytes_lt(key, high@),
        KeyBound::Excluded(high) => bytes_lt(key, high@),
    }
}

/// The bindings of `m` whose keys lie in the interval.
pub open spec fn restricted(m: Map<Seq<u8>, Seq<u8>>, lower: KeyBound, upper: KeyBound) -> Map<
    Seq<u8>,
    Seq<u8>,
> {
    m.restrict(Set::new(|key: Seq<u8>| within(lower, upper, key)))
}

/// The map without bindings.
pub open spec fn no_entries() -> Map<Seq<u8>, Seq<u8>> {
    Map::empty()
}

/// The rank of a key of the map: the key itself.
pub open spec fn byte_rank() -> spec_fn(Seq<u8>) -> Seq<u8> {
    |key: Seq<u8>| key
}

/// The bindings that a vector of owned pairs spells.
pub open spec fn pairs_view(pairs: Seq<(Vec<u8>, Vec<u8>)>) -> Seq<(Seq<u8>, Seq<u8>)> {
    pairs.map_values(|pair: (Vec<u8>, Vec<u8>)| (pair.0@, pair.1@))
}

/// `ic_stable_structures::BTreeMap::init`: the map that the region holds, or
/// a new empty one where it holds none; the map keeps the memory it is given.
/// What the region holds is not known here: nothing is said of the bindings.
#[verifier::external_body]
fn stable_init(memory: DefaultMemory) -> (map: BTreeMap)
    ensures
        bound_region(map) == memory,
{
    BTreeMap { data: ic_stable_structures::BTreeMap::init(memory.0) }
}

/// `ic_stable_structures::BTreeMap::get`: the value stored under the key,
/// if there is one.
#[verifier::external_body]
fn stable_get(map: &BTreeMap, key: &Vec<u8>) -> (value: Option<Vec<u8>>)
    ensures
        match value {
            Some(value) => stored_entries(*map).contains_key(key@) && stored_entries(*map)[key@]
                == value@,
            None => !stored_entries(*map).contains_key(key@),
        },
{
    map.data.get(key)
}

/// `ic_stable_structures::BTreeMap::insert`: binds the key to the value and
/// returns what the key was bound to before. The stored format records a
/// length in four bytes, hence the limits.
#[verifier::external_body]
fn stable_insert(map: &mut BTreeMap, key: Vec<u8>, value: Vec<u8>) -> (previous: Option<Vec<u8>>)
    requires
        key@.len() <= MAX_ENTRY_LEN,
        value@.len() <= MAX_ENTRY_LEN,
    ensures
        stored_entries(*final(map)) == stored_entries(*old(map)).insert(key@, value@),
        match previous {
            Some(previous) => stored_entries(*old(map)).contains_key(key@) && stored_entries(
                *old(map),
            )[key@] == previous@,
            None => !stored_entries(*old(map)).contains_key(key@),
        },
{
    map.data.insert(key, value)
}

/// `ic_stable_structures::BTreeMap::remove`: unbinds the key and returns
/// what it was bound to.
#[verifier::external_body]
fn stable_remove(map: &mut BTreeMap, key: &Vec<u8>) -> (previous: Option<Vec<u8>>)
    ensures
        stored_entries(*final(map)) == stored_entries(*old(map)).remove(key@),
        match previous {
            Some(previous) => stored_entries(*old(map)).contains_key(key@) && stored_entries(
                *old(map),
            )[key@] == previous@,
            None => !stored_entries(*old(map)).contains_key(key@),
        },
{
    map.data.remove(key)
}

/// `ic_stable_structures::BTreeMap::iter`, each entry turned into an owned
/// pair: all bindings, sorted by key. Byte vectors are ordered
/// lexicographically.
#[verifier::external_body]
fn stable_iter(map: &BTreeMap) -> (pairs: Vec<(Vec<u8>, Vec<u8>)>)
    ensures
        lists(pairs_view(pairs@), stored_entries(*map), byte_rank()),
{
    map.data.iter().map(|entry| entry.into_pair()).collect()
}

/// `ic_stable_structures::BTreeMap::range`, each entry turned into an owned
/// pair: the bindings whose keys the interval holds, sorted by key. An
/// interval that holds no key, as one whose lower end lies above its upper
/// end, gives none.
#[verifier::external_body]
fn stable_range(map: &BTreeMap, lower: KeyBound, upper: KeyBound) -> (pairs: Vec<(Vec<u8>, Vec<u8>)>)
    ensures
        lists(pairs_view(pairs@), restricted(stored_entries(*map), lower, upper), byte_rank()),
{
    map.data.range((lower, upper)).map(|entry| entry.into_pair()).collect()
}

/// `ic_stable_structures::BTreeMap::clear_new`: unbinds every key.
#[verifier::external_body]
fn stable_clear(map: &mut BTreeMap)
    ensures
        stored_entries(*final(map)) == no_entries(),
{
    map.data.clear_new()
}

impl BTreeMap {
    /// Binds the map to its region of stable memory. The bindings are those
    /// that were written to the region before; a region never written to
    /// gives an empty map.
    pub fn init(memory: DefaultMemory) -> (map: BTreeMap)
        ensures
            map.region() == memory,
    {
        stable_init(memory)
    }

    /// The region of stable memory that the map is bound to.
    pub open spec fn region(self) -> DefaultMemory {
        bound_region(self)
    }

    /// The value bound to `key`, if any.
    pub fn get(&self, key: &Vec<u8>) -> (value: Option<Vec<u8>>)
        ensures
            match value {
                Some(value) => self@.contains_key(key@) && self@[key@] == value@,
                None => !self@.contains_key(key@),
            },
    {
        stable_get(self, key)
    }

    /// Binds `key` to `value`, and returns the value that it replaces.
    pub fn insert(&mut self, key: Vec<u8>, value: Vec<u8>) -> (previous: Option<Vec<u8>>)
        requires
            key@.len() <= MAX_ENTRY_LEN,
            value@.len() <= MAX_ENTRY_LEN,
        ensures
            final(self)@ == old(self)@.insert(key@, value@),
            match previous {
                Some(previous) => old(self)@.contains_key(key@) && old(self)@[key@] == previous@,
                None => !old(self)@.contains_key(key@),
            },
    {
        stable_insert(self, key, value)
    }

    /// Unbinds `key`, and returns the value that it was bound to.
    pub fn remove(&mut self, key: &Vec<u8>) -> (previous: Option<Vec<u8>>)
        ensures
            final(self)@ == old(self)@.remove(key@),
            match previous {
                Some(previous) => old(self)@.contains_key(key@) && old(self)@[key@] == previous@,
                None => !old(self)@.contains_key(key@),
            },
    {
        stable_remove(self, key)
    }

    /// All bindings, in ascending key order.
    pub fn iter_pairs(&self) -> (pairs: Vec<(Vec<u8>, Vec<u8>)>)
        ensures
            lists(pairs_view(pairs@), self@, byte_rank()),
    {
        stable_iter(self)
    }

    /// The bindings whose keys lie between `lower` and `upper`, in ascending
    /// key order.
    pub fn range_pairs(&self, lower: KeyBound, upper: KeyBound) -> (pairs: Vec<(Vec<u8>, Vec<u8>)>)
        ensures
            lists(pairs_view(pairs@), restricted(self@, lower, upper), byte_rank()),
    {
        stable_range(self, lower, upper)
    }

    /// Unbinds every key.
    pub fn clear(&mut self)
        ensures
            final(self)@ == no_entries(),
    {
        stable_clear(self)
    }

    /// Replaces all bindings by those of `pairs`, in their order: a later
    /// binding of a key replaces an earlier one.
    pub fn replace_all(&mut self, pairs: &Vec<(Vec<u8>, Vec<u8>)>)
        requires
            storable(pairs@),
        ensures
            final(self)@ == map_of(pairs_view(pairs@)),
    {
        self.clear();
        assert(self@ =~= map_of(pairs_view(pairs@).take(0)));
        let mut i: usize = 0;
        while i < pairs.len()
            invariant
                i <= pairs.len(),
                storable(pairs@),
                self@ == map_of(pairs_view(pairs@).take(i as int)),
            decreases pairs.len() - i,
        {
            let ghost listed = pairs_view(pairs@);
            assert(listed.take(i + 1).drop_last() =~= listed.take(i as int));
            assert(listed.take(i + 1).last() == listed[i as int]);
            let key = pairs[i].0.clone();
            let value = pairs[i].1.clone();
            self.insert(key, value);
            i += 1;
        }
        assert(pairs_view(pairs@).take(pairs.len() as int) =~= pairs_view(pairs@));
    }
}

/// Whether the map can store every binding of the sequence.
pub open spec fn storable(pairs: Seq<(Vec<u8>, Vec<u8>)>) -> bool {
    forall|i: int|
        0 <= i < pairs.len() ==> (#[trigger] pairs[i]).0@.len() <= MAX_ENTRY_LEN && pairs[i].1@.len()
            <= MAX_ENTRY_LEN
}

/// Whether the keys of the bindings rise strictly, so that the bindings
/// come back as they are when they replace the content of a map and the map
/// is listed.
pub fn in_key_order(pairs: &Vec<(Vec<u8>, Vec<u8>)>) -> (rising: bool)
    ensures
        rising == ascending(pairs_view(pairs@), byte_rank()),
{
    let mut keys: Vec<Vec<u8>> = Vec::new();
    let mut i: usize = 0;
    while i < pairs.len()
        invariant
            i <= pairs.len(),
            keys.len() == i,
            forall|j: int| 0 <= j < i ==> (#[trigger] keys[j])@ == pairs[j].0@,
        decreases pairs.len() - i,
    {
        keys.push(pairs[i].0.clone());
        i += 1;
    }
    let rising = keys_rise(&keys);
    proof {
        let listed = pairs_view(pairs@);
        if rising {
            assert forall|i: int, j: int| 0 <= i < j < listed.len() implies bytes_lt(
                byte_rank()(#[trigger] listed[i].0),
                byte_rank()(#[trigger] listed[j].0),
            ) by {
                assert(bytes_lt(keys[i]@, keys[j]@));
            }
        } else {
            let (i, j) = choose|i: int, j: int|
                0 <= i < j < keys.len() && !bytes_lt(#[trigger] keys[i]@, #[trigger] keys[j]@);
            assert(!bytes_lt(byte_rank()(listed[i].0), byte_rank()(listed[j].0)));
        }
    }
    rising
}

/// A map that was cleared lists nothing.
pub proof fn lemma_clear_then_iterate(listing: Seq<(Seq<u8>, Seq<u8>)>)
    requires
        lists(listing, no_entries(), byte_rank()),
    ensures
        listing == Seq::<(Seq<u8>, Seq<u8>)>::empty(),
{
    lemma_listing_of_nothing(listing, byte_rank());
}

/// Bindings with strictly rising keys that replaced the content of a map
/// are what the map lists, in their order.
pub proof fn lemma_replace_then_iterate(
    data: Seq<(Seq<u8>, Seq<u8>)>,
    listing: Seq<(Seq<u8>, Seq<u8>)>,
)
    requires
        ascending(data, byte_rank()),
        lists(listing, map_of(data), byte_rank()),
    ensures
        listing == data,
{
    lemma_replace_then_list(data, listing, byte_rank());
}

/// What a range lists is what the whole map lists between the bounds: the
/// keys are those of the map that lie in the interval, each with its value,
/// in ascending order.
pub proof fn lemma_range_lists_the_interval(
    m: Map<Seq<u8>, Seq<u8>>,
    lower: KeyBound,
    upper: KeyBound,
    listing: Seq<(Seq<u8>, Seq<u8>)>,
)
    requires
        lists(listing, restricted(m, lower, upper), byte_rank()),
    ensures
        forall|i: int|
            0 <= i < listing.len() ==> m.contains_key(#[trigger] listing[i].0) && within(
                lower,
                upper,
                listing[i].0,
            ) && m[listing[i].0] == listing[i].1,
        forall|i: int, j: int|
            0 <= i < j < listing.len() ==> bytes_lt(#[trigger] listing[i].0, #[trigger] listing[j].0),
        forall|key: Seq<u8>|
            m.contains_key(key) && within(lower, upper, key) ==> exists|i: int|
                0 <= i < listing.len() && #[trigger] listing[i].0 == key,
{
    let part = restricted(m, lower, upper);
    assert forall|i: int| 0 <= i < listing.len() implies m.contains_key(#[trigger] listing[i].0)
        && within(lower, upper, listing[i].0) && m[listing[i].0] == listing[i].1 by {
        assert(part.contains_key(listing[i].0));
    }
    assert forall|i: int, j: int| 0 <= i < j < listing.len() implies bytes_lt(
        #[trigger] listing[i].0,
        #[trigger] listing[j].0,
    ) by {
        assert(bytes_lt(byte_rank()(listing[i].0), byte_rank()(listing[j].0)));
    }
    assert forall|key: Seq<u8>| m.contains_key(key) && within(lower, upper, key) implies exists|
        i: int,
    | 0 <= i < listing.len() && #[trigger] listing[i].0 == key by {
        assert(part.contains_key(key));
    }
}

} // verus!
