//! The child index: the instances that this instance has created or
//! adopted, each with its descriptor.

use vstd::prelude::*;
use crate::bytes::{ascending, bytes_lt, lists, map_of};
use crate::codec::{decode_descriptor, descriptor_bytes, descriptor_of, encode_descriptor, is_descriptor};
use crate::codec::{fits, lemma_descriptor_round_trip, ChildDescriptor, ChildRecord};
use crate::identity::{principal_phrase, Identity, MAX_IDENTITY_LEN};
use crate::structures::{byte_rank, pairs_view, BTreeMap, DefaultMemory};

verus! {

/// A lookup in the child index that found nothing.
#[derive(Debug, PartialEq, Eq)]
pub enum ChildIndexError {
    /// The identity is not a child of this instance.
    NotFound(Identity),
}

/// The child index as exported and imported.
pub type ChildIndexData = Vec<(Identity, ChildDescriptor)>;

/// The children that a map of byte strings spells: the bindings whose key is
/// short enough for an identity and whose value spells a descriptor.
pub open spec fn children_of(raw: Map<Seq<u8>, Seq<u8>>) -> Map<Seq<u8>, ChildRecord> {
    Map::new(
        |id: Seq<u8>| id.len() <= MAX_IDENTITY_LEN && raw.contains_key(id) && is_descriptor(raw[id]),
        |id: Seq<u8>| descriptor_of(raw[id]),
    )
}

/// The bindings that exported data spells.
pub open spec fn data_view(data: Seq<(Identity, ChildDescriptor)>) -> Seq<(Seq<u8>, ChildRecord)> {
    data.map_values(|entry: (Identity, ChildDescriptor)| (entry.0@, entry.1@))
}

/// Whether the map can store the descriptor.
pub open spec fn storable(record: ChildRecord) -> bool {
    fits(descriptor_bytes(record).len())
}

/// Whether the map can store every descriptor of the data.
pub open spec fn all_storable(data: Seq<(Identity, ChildDescriptor)>) -> bool {
    forall|i: int| 0 <= i < data.len() ==> storable(#[trigger] data[i].1@)
}

/// The child index, kept in a persistent map from the bytes of an identity
/// to the bytes of a descriptor.
pub struct ChildIndex {
    map: BTreeMap,
}

impl View for ChildIndex {
    type V = Map<Seq<u8>, ChildRecord>;

    closed spec fn view(&self) -> Map<Seq<u8>, ChildRecord> {
        children_of(self.map@)
    }
}

impl ChildIndex {
    /// Binds the index to its region of stable memory.
    pub fn init(memory: DefaultMemory) -> (index: ChildIndex)
        ensures
            index.region() == memory,
    {
        ChildIndex { map: BTreeMap::init(memory) }
    }

    /// The region of stable memory that holds the index.
    pub closed spec fn region(self) -> DefaultMemory {
        self.map.region()
    }

    /// The descriptor of the child `id`, if `id` is a child.
    pub fn get(&self, id: &Identity) -> (descriptor: Option<ChildDescriptor>)
        ensures
            match descriptor {
                Some(descriptor) => self@.contains_key(id@) && self@[id@] == descriptor@,
                None => !self@.contains_key(id@),
            },
    {
        proof {
            id.lemma_view_len();
        }
        let key = id.to_bytes();
        match self.map.get(&key) {
            Some(bytes) => decode_descriptor(&bytes),
            None => None,
        }
    }

    /// Whether `id` is a child.
    pub fn contains(&self, id: &Identity) -> (found: bool)
        ensures
            found == self@.contains_key(id@),
    {
        self.get(id).is_some()
    }

    /// The descriptor of the child `id`, or the failure that carries `id`.
    pub fn try_get(&self, id: &Identity) -> (found: Result<ChildDescriptor, ChildIndexError>)
        ensures
            match found {
                Ok(descriptor) => self@.contains_key(id@) && self@[id@] == descriptor@,
                Err(error) => !self@.contains_key(id@) && error == ChildIndexError::NotFound(*id),
            },
    {
        match self.get(id) {
            Some(descriptor) => Ok(descriptor),
            None => Err(ChildIndexError::NotFound(*id)),
        }
    }

    /// Records `id` as a child with this descriptor, in place of any
    /// descriptor it had.
    pub fn set(&mut self, id: Identity, descriptor: &ChildDescriptor)
        requires
            storable(descriptor@),
        ensures
            final(self)@ == old(self)@.insert(id@, descriptor@),
    {
        let key = id.to_bytes();
        let value = encode_descriptor(descriptor);
        proof {
            id.lemma_view_len();
            lemma_descriptor_round_trip(descriptor@);
        }
        let ghost before = self.map@;
        self.map.insert(key, value);
        proof {
            assert(children_of(self.map@) =~= children_of(before).insert(id@, descriptor@));
        }
    }

    /// Strikes `id` from the children, and returns the descriptor it had.
    pub fn remove(&mut self, id: &Identity) -> (descriptor: Option<ChildDescriptor>)
        ensures
            final(self)@ == old(self)@.remove(id@),
            match descriptor {
                Some(descriptor) => old(self)@.contains_key(id@) && old(self)@[id@] == descriptor@,
                None => !old(self)@.contains_key(id@),
            },
    {
        proof {
            id.lemma_view_len();
        }
        let key = id.to_bytes();
        let ghost before = self.map@;
        let previous = self.map.remove(&key);
        proof {
            assert(children_of(self.map@) =~= children_of(before).remove(id@));
        }
        match previous {
            Some(bytes) => decode_descriptor(&bytes),
            None => None,
        }
    }

    /// All children with their descriptors, in ascending order of identity.
    pub fn get_all(&self) -> (data: ChildIndexData)
        ensures
            lists(data_view(data@), self@, byte_rank()),
    {
        let pairs = self.map.iter_pairs();
        let mut data: Vec<(Identity, ChildDescriptor)> = Vec::new();
        let ghost mut picked: Seq<int> = Seq::empty();
        let mut i: usize = 0;
        while i < pairs.len()
            invariant
                i <= pairs.len(),
                lists(pairs_view(pairs@), self.map@, byte_rank()),
                picked.len() == data.len(),
                forall|j: int| 0 <= j < picked.len() ==> 0 <= #[trigger] picked[j] < i,
                forall|j: int, k: int| 0 <= j < k < picked.len() ==> picked[j] < picked[k],
                forall|j: int|
                    0 <= j < data.len() ==> (#[trigger] data[j].0@) == pairs[picked[j]].0@
                        && is_descriptor(pairs[picked[j]].1@) && data[j].1@ == descriptor_of(
                        pairs[picked[j]].1@,
                    ),
                forall|p: int|
                    0 <= p < i && (#[trigger] pairs[p].0@).len() <= MAX_IDENTITY_LEN && is_descriptor(
                        pairs[p].1@,
                    ) ==> exists|j: int| 0 <= j < picked.len() && #[trigger] picked[j] == p,
            decreases pairs.len() - i,
        {
            let id = Identity::from_slice(pairs[i].0.as_slice());
            let descriptor = decode_descriptor(&pairs[i].1);
            match (id, descriptor) {
                (Some(id), Some(descriptor)) => {
                    proof {
                        let ghost before = picked;
                        picked = picked.push(i as int);
                        assert forall|p: int|
                            0 <= p < i + 1 && (#[trigger] pairs[p].0@).len() <= MAX_IDENTITY_LEN
                                && is_descriptor(pairs[p].1@) implies exists|j: int|
                            0 <= j < picked.len() && #[trigger] picked[j] == p by {
                            if p < i {
                                let j = choose|j: int| 0 <= j < before.len() && #[trigger] before[j] == p;
                                assert(picked[j] == p);
                            } else {
                                assert(picked[picked.len() - 1] == p);
                            }
                        }
                    }
                    data.push((id, descriptor));
                },
                _ => {},
            }
            i += 1;
        }
        proof {
            let listed = data_view(data@);
            let keyed = pairs_view(pairs@);
            let raw = self.map@;
            assert forall|j: int| 0 <= j < listed.len() implies self@.contains_key(
                #[trigger] listed[j].0,
            ) && self@[listed[j].0] == listed[j].1 by {
                let p = picked[j];
                assert(keyed[p].0 == data[j].0@);
                assert(raw.contains_key(keyed[p].0));
                data[j].0.lemma_view_len();
            }
            assert forall|j: int, k: int| 0 <= j < k < listed.len() implies bytes_lt(
                byte_rank()(#[trigger] listed[j].0),
                byte_rank()(#[trigger] listed[k].0),
            ) by {
                let p = picked[j];
                let q = picked[k];
                assert(bytes_lt(byte_rank()(keyed[p].0), byte_rank()(keyed[q].0)));
            }
            assert forall|id: Seq<u8>| #[trigger] self@.contains_key(id) implies exists|j: int|
                0 <= j < listed.len() && #[trigger] listed[j].0 == id by {
                assert(raw.contains_key(id));
                let p = choose|p: int| 0 <= p < keyed.len() && #[trigger] keyed[p].0 == id;
                assert(pairs[p].0@ == id);
                assert(keyed[p].1 == raw[id]);
                let j = choose|j: int| 0 <= j < picked.len() && #[trigger] picked[j] == p;
                assert(listed[j].0 == id);
            }
        }
        data
    }

    /// Replaces all children by those of `data`, in their order: a later
    /// entry of an identity replaces an earlier one.
    pub fn replace_all(&mut self, data: &ChildIndexData)
        requires
            all_storable(data@),
        ensures
            final(self)@ == map_of(data_view(data@)),
    {
        self.map.clear();
        assert(self@ =~= map_of(data_view(data@).take(0)));
        let mut i: usize = 0;
        while i < data.len()
            invariant
                i <= data.len(),
                all_storable(data@),
                self@ == map_of(data_view(data@).take(i as int)),
            decreases data.len() - i,
        {
            let ghost listed = data_view(data@);
            assert(listed.take(i + 1).drop_last() =~= listed.take(i as int));
            assert(listed.take(i + 1).last() == listed[i as int]);
            let id = data[i].0;
            self.set(id, &data[i].1);
            i += 1;
        }
        assert(data_view(data@).take(data.len() as int) =~= data_view(data@));
    }
}

/// A child that was recorded is found with its descriptor, whatever is
/// recorded of other identities afterwards, until it is struck.
pub proof fn lemma_set_then_get(
    children: Map<Seq<u8>, ChildRecord>,
    id: Seq<u8>,
    record: ChildRecord,
    other: Seq<u8>,
    other_record: ChildRecord,
)
    ensures
        children.insert(id, record).contains_key(id),
        children.insert(id, record)[id] == record,
        other != id ==> children.insert(id, record).insert(other, other_record).contains_key(id)
            && children.insert(id, record).insert(other, other_record)[id] == record,
        other != id ==> children.insert(id, record).remove(other).contains_key(id)
            && children.insert(id, record).remove(other)[id] == record,
        !children.insert(id, record).remove(id).contains_key(id),
{
}

/// Whether the identities rise strictly, so that the data comes back as it
/// is when it is imported and exported again.
pub fn in_export_order(data: &ChildIndexData) -> (rising: bool)
    ensures
        rising == ascending(data_view(data@), byte_rank()),
{
    let mut keys: Vec<Vec<u8>> = Vec::new();
    let mut i: usize = 0;
    while i < data.len()
        invariant
            i <= data.len(),
            keys.len() == i,
            forall|j: int| 0 <= j < i ==> (#[trigger] keys[j])@ == data[j].0@,
        decreases data.len() - i,
    {
        keys.push(data[i].0.to_bytes());
        i += 1;
    }
    let rising = crate::bytes::keys_rise(&keys);
    proof {
        let listed = data_view(data@);
        if rising {
            assert forall|i: int, j: int| 0 <= i < j < listed.len() implies bytes_lt(
                byte_rank()(#[trigger] listed[i].0),
                byte_rank()(#[trigger] listed[j].0),
            ) by {
                assert(bytes_lt(keys[i]@, keys[j]@));
            }
        } else {
            let (i, j) = choose|i: int, j: int|
                0 <= i < j < keys.len() && !bytes_lt(#[trigger] keys[i]@, #[trigger] keys[j]@);
            assert(!bytes_lt(byte_rank()(listed[i].0), byte_rank()(listed[j].0)));
        }
    }
    rising
}

/// Children that were imported are what the index exports, in their order,
/// provided that their identities rise strictly.
pub proof fn lemma_replace_all_then_get_all(
    data: Seq<(Seq<u8>, ChildRecord)>,
    exported: Seq<(Seq<u8>, ChildRecord)>,
)
    requires
        ascending(data, byte_rank()),
        lists(exported, map_of(data), byte_rank()),
    ensures
        exported == data,
{
    crate::bytes::lemma_replace_then_list(data, exported, byte_rank());
}

/// The words of a failed lookup.
pub open spec fn child_index_message(error: ChildIndexError) -> Seq<char> {
    match error {
        ChildIndexError::NotFound(id) => principal_phrase(id, "' is not in the child index"@),
    }
}

impl ChildIndexError {
    /// The failure in words.
    pub fn message(&self) -> (text: String)
        ensures
            text@ == child_index_message(*self),
    {
        match self {
            ChildIndexError::NotFound(id) => id.phrase("' is not in the child index"),
        }
    }
}

} // verus!
