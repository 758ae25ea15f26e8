//! The named registry: which instance currently fills each role.

use vstd::prelude::*;
use crate::bytes::{ascending, bytes_lt, lists, map_of};
use crate::codec::{decode_name, encode_name, fits, is_name_key, name_key, name_rank};
use crate::codec::{lemma_name_key_injective, lemma_name_key_round_trip, lemma_name_rank_injective};
use crate::identity::{Identity, MAX_IDENTITY_LEN};
use crate::structures::{byte_rank, pairs_view, BTreeMap, DefaultMemory};

verus! {

/// A lookup in the named registry that found nothing.
#[derive(Debug, PartialEq, Eq)]
pub enum SubnetIndexError {
    /// No instance fills the role of this name.
    CanisterNotFound(String),
}

/// The registry as exported and imported: names with the identities that
/// fill them.
pub type SubnetIndexData = Vec<(String, Identity)>;

/// The names that a map of byte strings spells, each with its identity: the
/// bindings whose key is the key of a name and whose value is short enough
/// for an identity.
pub open spec fn names_of(raw: Map<Seq<u8>, Seq<u8>>) -> Map<Seq<char>, Seq<u8>> {
    Map::new(
        |name: Seq<char>|
            raw.contains_key(name_key(name)) && raw[name_key(name)].len() <= MAX_IDENTITY_LEN,
        |name: Seq<char>| raw[name_key(name)],
    )
}

/// The bindings that exported data spells.
pub open spec fn data_view(data: Seq<(String, Identity)>) -> Seq<(Seq<char>, Seq<u8>)> {
    data.map_values(|entry: (String, Identity)| (entry.0@, entry.1@))
}

/// Whether every name of the data has a key that the map can store.
pub open spec fn storable(data: Seq<(String, Identity)>) -> bool {
    forall|i: int| 0 <= i < data.len() ==> fits(name_key(#[trigger] data[i].0@).len())
}

/// The named registry, kept in a persistent map from the key of a name to
/// the bytes of an identity.
pub struct SubnetIndex {
    map: BTreeMap,
}

impl View for SubnetIndex {
    type V = Map<Seq<char>, Seq<u8>>;

    closed spec fn view(&self) -> Map<Seq<char>, Seq<u8>> {
        names_of(self.map@)
    }
}

impl SubnetIndex {
    /// Binds the registry to its region of stable memory.
    pub fn init(memory: DefaultMemory) -> (index: SubnetIndex)
        ensures
            index.region() == memory,
    {
        SubnetIndex { map: BTreeMap::init(memory) }
    }

    /// The region of stable memory that holds the registry.
    pub closed spec fn region(self) -> DefaultMemory {
        self.map.region()
    }

    /// All entries, in ascending order of the names' keys.
    pub fn get_data(&self) -> (data: SubnetIndexData)
        ensures
            lists(data_view(data@), self@, name_rank()),
    {
        let pairs = self.map.iter_pairs();
        let mut data: Vec<(String, Identity)> = Vec::new();
        let ghost mut picked: Seq<int> = Seq::empty();
        let mut i: usize = 0;
        while i < pairs.len()
            invariant
                i <= pairs.len(),
                lists(pairs_view(pairs@), self.map@, byte_rank()),
                picked.len() == data.len(),
                forall|j: int| 0 <= j < picked.len() ==> 0 <= #[trigger] picked[j] < i,
                forall|j: int, k: int| 0 <= j < k < picked.len() ==> picked[j] < picked[k],
                forall|j: int|
                    0 <= j < data.len() ==> name_key(#[trigger] data[j].0@) == pairs[picked[j]].0@
                        && data[j].1@ == pairs[picked[j]].1@,
                forall|p: int|
                    0 <= p < i && is_name_key(#[trigger] pairs[p].0@) && pairs[p].1@.len()
                        <= MAX_IDENTITY_LEN ==> exists|j: int|
                        0 <= j < picked.len() && #[trigger] picked[j] == p,
            decreases pairs.len() - i,
        {
            let key = pairs[i].0.clone();
            let name = decode_name(key);
            let id = Identity::from_slice(pairs[i].1.as_slice());
            match (name, id) {
                (Some(name), Some(id)) => {
                    proof {
                        crate::codec::lemma_key_name_round_trip(pairs[i as int].0@);
                        let ghost before = picked;
                        picked = picked.push(i as int);
                        assert forall|p: int|
                            0 <= p < i + 1 && is_name_key(#[trigger] pairs[p].0@) && pairs[p].1@.len()
                                <= MAX_IDENTITY_LEN implies exists|j: int|
                            0 <= j < picked.len() && #[trigger] picked[j] == p by {
                            if p < i {
                                let j = choose|j: int| 0 <= j < before.len() && #[trigger] before[j] == p;
                                assert(picked[j] == p);
                            } else {
                                assert(picked[picked.len() - 1] == p);
                            }
                        }
                    }
                    data.push((name, id));
                },
                _ => {},
            }
            i += 1;
        }
        proof {
            let listed = data_view(data@);
            let keyed = pairs_view(pairs@);
            let raw = self.map@;
            assert forall|j: int| 0 <= j < listed.len() implies self@.contains_key(
                #[trigger] listed[j].0,
            ) && self@[listed[j].0] == listed[j].1 by {
                let p = picked[j];
                assert(keyed[p].0 == name_key(data[j].0@));
                assert(raw.contains_key(keyed[p].0));
                data[j].1.lemma_view_len();
            }
            assert forall|j: int, k: int| 0 <= j < k < listed.len() implies bytes_lt(
                name_rank()(#[trigger] listed[j].0),
                name_rank()(#[trigger] listed[k].0),
            ) by {
                let p = picked[j];
                let q = picked[k];
                assert(bytes_lt(byte_rank()(keyed[p].0), byte_rank()(keyed[q].0)));
            }
            assert forall|name: Seq<char>| #[trigger] self@.contains_key(name) implies exists|j: int|
                0 <= j < listed.len() && #[trigger] listed[j].0 == name by {
                let key = name_key(name);
                assert(raw.contains_key(key));
                let p = choose|p: int| 0 <= p < keyed.len() && #[trigger] keyed[p].0 == key;
                lemma_name_key_round_trip(name);
                assert(pairs[p].0@ == key);
                assert(keyed[p].1 == raw[key]);
                let j = choose|j: int| 0 <= j < picked.len() && #[trigger] picked[j] == p;
                lemma_name_key_injective(data[j].0@, name);
                assert(listed[j].0 == name);
            }
        }
        data
    }

    /// The identity that fills the role `path`, if one does.
    pub fn get_canister(&self, path: &str) -> (id: Option<Identity>)
        ensures
            match id {
                Some(id) => self@.contains_key(path@) && self@[path@] == id@,
                None => !self@.contains_key(path@),
            },
    {
        let key = encode_name(path);
        match self.map.get(&key) {
            Some(bytes) => Identity::from_slice(bytes.as_slice()),
            None => None,
        }
    }

    /// The identity that fills the role `path`, or the failure that names
    /// the role.
    pub fn try_get_canister(&self, path: &str) -> (found: Result<Identity, SubnetIndexError>)
        ensures
            match found {
                Ok(id) => self@.contains_key(path@) && self@[path@] == id@,
                Err(SubnetIndexError::CanisterNotFound(name)) => !self@.contains_key(path@)
                    && name@ == path@,
            },
    {
        match self.get_canister(path) {
            Some(id) => Ok(id),
            None => Err(SubnetIndexError::CanisterNotFound(String::from_str(path))),
        }
    }

    /// Whether `id` is the identity that fills the role `path`.
    pub fn holds_role(&self, path: &str, id: &Identity) -> (holds: bool)
        ensures
            holds == (self@.contains_key(path@) && self@[path@] == id@),
    {
        match self.get_canister(path) {
            Some(holder) => holder.same(id),
            None => false,
        }
    }

    /// Lets `id` fill the role `path`, in place of whoever filled it.
    pub fn set_canister(&mut self, path: &str, id: Identity)
        requires
            fits(name_key(path@).len()),
        ensures
            final(self)@ == old(self)@.insert(path@, id@),
    {
        let key = encode_name(path);
        let value = id.to_bytes();
        proof {
            id.lemma_view_len();
        }
        let ghost before = self.map@;
        self.map.insert(key, value);
        proof {
            let after = self.map@;
            let wanted = names_of(before).insert(path@, id@);
            assert forall|name: Seq<char>| #[trigger]
                names_of(after).contains_key(name) == wanted.contains_key(name) && (
                wanted.contains_key(name) ==> names_of(after)[name] == wanted[name]) by {
                if name_key(name) == name_key(path@) {
                    lemma_name_key_injective(name, path@);
                }
            }
            assert(names_of(after) =~= names_of(before).insert(path@, id@));
        }
    }

    /// Replaces all entries by those of `data`, in their order: a later entry
    /// of a name replaces an earlier one.
    pub fn set_data(&mut self, data: SubnetIndexData)
        requires
            storable(data@),
        ensures
            final(self)@ == map_of(data_view(data@)),
    {
        self.map.clear();
        assert(self@ =~= map_of(data_view(data@).take(0)));
        let mut i: usize = 0;
        while i < data.len()
            invariant
                i <= data.len(),
                storable(data@),
                self@ == map_of(data_view(data@).take(i as int)),
            decreases data.len() - i,
        {
            let ghost listed = data_view(data@);
            assert(listed.take(i + 1).drop_last() =~= listed.take(i as int));
            assert(listed.take(i + 1).last() == listed[i as int]);
            let id = data[i].1;
            self.set_canister(data[i].0.as_str(), id);
            i += 1;
        }
        assert(data_view(data@).take(data.len() as int) =~= data_view(data@));
    }
}

/// Whether the keys of the names rise strictly, so that the data comes back
/// as it is when it is imported and exported again.
pub fn in_export_order(data: &SubnetIndexData) -> (rising: bool)
    ensures
        rising == ascending(data_view(data@), name_rank()),
{
    let mut keys: Vec<Vec<u8>> = Vec::new();
    let mut i: usize = 0;
    while i < data.len()
        invariant
            i <= data.len(),
            keys.len() == i,
            forall|j: int| 0 <= j < i ==> (#[trigger] keys[j])@ == name_key(data[j].0@),
        decreases data.len() - i,
    {
        keys.push(encode_name(data[i].0.as_str()));
        i += 1;
    }
    let rising = crate::bytes::keys_rise(&keys);
    proof {
        let listed = data_view(data@);
        if rising {
            assert forall|i: int, j: int| 0 <= i < j < listed.len() implies bytes_lt(
                name_rank()(#[trigger] listed[i].0),
                name_rank()(#[trigger] listed[j].0),
            ) by {
                assert(bytes_lt(keys[i]@, keys[j]@));
            }
        } else {
            let (i, j) = choose|i: int, j: int|
                0 <= i < j < keys.len() && !bytes_lt(#[trigger] keys[i]@, #[trigger] keys[j]@);
            assert(!bytes_lt(name_rank()(listed[i].0), name_rank()(listed[j].0)));
        }
    }
    rising
}

/// Entries that were imported are what the registry exports, in their
/// order, provided that the keys of their names rise strictly.
pub proof fn lemma_set_data_then_get_data(
    data: Seq<(Seq<char>, Seq<u8>)>,
    exported: Seq<(Seq<char>, Seq<u8>)>,
)
    requires
        ascending(data, name_rank()),
        lists(exported, map_of(data), name_rank()),
    ensures
        exported == data,
{
    lemma_name_rank_injective();
    crate::bytes::lemma_replace_then_list(data, exported, name_rank());
}

/// A role that was set is found with the identity that it was set to, and
/// setting it leaves the other roles as they were.
pub proof fn lemma_set_then_get(
    roles: Map<Seq<char>, Seq<u8>>,
    name: Seq<char>,
    id: Seq<u8>,
    other: Seq<char>,
)
    ensures
        roles.insert(name, id).contains_key(name),
        roles.insert(name, id)[name] == id,
        other != name ==> roles.insert(name, id).contains_key(other) == roles.contains_key(other),
        other != name && roles.contains_key(other) ==> roles.insert(name, id)[other] == roles[other],
{
}

/// The words of a failed lookup.
pub open spec fn subnet_index_message(error: SubnetIndexError) -> Seq<char> {
    match error {
        SubnetIndexError::CanisterNotFound(name) => "canister not found: "@ + name@,
    }
}

impl SubnetIndexError {
    /// The failure in words.
    pub fn message(&self) -> (text: String)
        ensures
            text@ == subnet_index_message(*self),
    {
        match self {
            SubnetIndexError::CanisterNotFound(name) => String::from_str(
                "canister not found: ",
            ).concat(name.as_str()),
        }
    }
}

} // verus!
