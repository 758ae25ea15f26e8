//! How names and child descriptors are written as byte strings of the
//! persistent map.

use vstd::prelude::*;
use vstd::utf8::{decode_utf8, encode_utf8, valid_utf8};
use vstd::utf8::{decode_utf8_encode_utf8, encode_utf8_decode_utf8, encode_utf8_valid_utf8};
use vstd::bytes::{spec_u64_from_le_bytes, spec_u64_to_le_bytes, u64_from_le_bytes, u64_to_le_bytes};
use vstd::bytes::lemma_auto_spec_u64_to_from_le_bytes;
use vstd::slice::{slice_subrange, slice_to_vec};

verus! {

/// The key under which a name is stored: its UTF-8 bytes.
pub open spec fn name_key(name: Seq<char>) -> Seq<u8> {
    encode_utf8(name)
}

/// Whether a key is the key of some name.
pub open spec fn is_name_key(key: Seq<u8>) -> bool {
    valid_utf8(key)
}

/// The name that a key stands for.
pub open spec fn key_name(key: Seq<u8>) -> Seq<char>
    recommends
        is_name_key(key),
{
    decode_utf8(key)
}

/// The rank of a name among the keys of the map: its key.
pub open spec fn name_rank() -> spec_fn(Seq<char>) -> Seq<u8> {
    |name: Seq<char>| name_key(name)
}

/// A name is read back from its key.
pub proof fn lemma_name_key_round_trip(name: Seq<char>)
    ensures
        is_name_key(name_key(name)),
        key_name(name_key(name)) == name,
{
    encode_utf8_valid_utf8(name);
    encode_utf8_decode_utf8(name);
}

/// A key of a name is the key of the name that it stands for.
pub proof fn lemma_key_name_round_trip(key: Seq<u8>)
    requires
        is_name_key(key),
    ensures
        name_key(key_name(key)) == key,
{
    decode_utf8_encode_utf8(key);
}

/// Different names have different keys.
pub proof fn lemma_name_key_injective(a: Seq<char>, b: Seq<char>)
    requires
        name_key(a) == name_key(b),
    ensures
        a == b,
{
    lemma_name_key_round_trip(a);
    lemma_name_key_round_trip(b);
}

/// Different names have different ranks.
pub proof fn lemma_name_rank_injective()
    ensures
        crate::bytes::injective(name_rank()),
{
    assert forall|a: Seq<char>, b: Seq<char>| #[trigger]
        name_rank()(a) == #[trigger] name_rank()(b) implies a == b by {
        lemma_name_key_injective(a, b);
    }
}

/// `String::from_utf8`: the string that the bytes spell, where they are
/// valid UTF-8, and nothing where they are not.
#[verifier::external_body]
fn string_from_utf8(bytes: Vec<u8>) -> (text: Option<String>)
    ensures
        match text {
            Some(text) => valid_utf8(bytes@) && text@ == decode_utf8(bytes@),
            None => !valid_utf8(bytes@),
        },
{
    match String::from_utf8(bytes) {
        Ok(text) => Some(text),
        Err(_) => None,
    }
}

/// Whether a byte string of this length can be stored in the persistent
/// map.
pub open spec fn fits(len: nat) -> bool {
    len <= crate::structures::MAX_ENTRY_LEN
}

/// Whether the key of the name can be stored in the persistent map.
pub fn name_fits(name: &str) -> (yes: bool)
    ensures
        yes == fits(name_key(name@).len()),
{
    let key = encode_name(name);
    key.len() <= crate::structures::MAX_ENTRY_LEN
}

/// The key of a name.
pub fn encode_name(name: &str) -> (key: Vec<u8>)
    ensures
        key@ == name_key(name@),
{
    name.as_bytes_vec()
}

/// The name that a key stands for, if it is the key of a name.
pub fn decode_name(key: Vec<u8>) -> (name: Option<String>)
    ensures
        match name {
            Some(name) => is_name_key(key@) && name@ == key_name(key@),
            None => !is_name_key(key@),
        },
{
    string_from_utf8(key)
}

/// What this instance records of a child: the role it was created for and
/// the time of its creation.
#[derive(Debug, PartialEq, Eq)]
pub struct ChildDescriptor {
    pub role: String,
    pub created_at: u64,
}

impl Clone for ChildDescriptor {
    fn clone(&self) -> (copy: ChildDescriptor)
        ensures
            copy@ == self@,
    {
        ChildDescriptor { role: self.role.clone(), created_at: self.created_at }
    }
}

/// A child descriptor as a plain value.
pub struct ChildRecord {
    pub role: Seq<char>,
    pub created_at: u64,
}

impl View for ChildDescriptor {
    type V = ChildRecord;

    open spec fn view(&self) -> ChildRecord {
        ChildRecord { role: self.role@, created_at: self.created_at }
    }
}

/// The bytes of a descriptor: the time in eight bytes, least significant
/// first, then the key of the role.
pub open spec fn descriptor_bytes(record: ChildRecord) -> Seq<u8> {
    spec_u64_to_le_bytes(record.created_at) + name_key(record.role)
}

/// Whether the bytes are those of some descriptor.
pub open spec fn is_descriptor(bytes: Seq<u8>) -> bool {
    bytes.len() >= 8 && is_name_key(bytes.skip(8))
}

/// The descriptor that the bytes spell.
pub open spec fn descriptor_of(bytes: Seq<u8>) -> ChildRecord
    recommends
        is_descriptor(bytes),
{
    ChildRecord {
        role: key_name(bytes.skip(8)),
        created_at: spec_u64_from_le_bytes(bytes.take(8)),
    }
}

/// A descriptor is read back from its bytes.
pub proof fn lemma_descriptor_round_trip(record: ChildRecord)
    ensures
        is_descriptor(descriptor_bytes(record)),
        descriptor_of(descriptor_bytes(record)) == record,
        descriptor_bytes(record).len() == 8 + name_key(record.role).len(),
{
    lemma_auto_spec_u64_to_from_le_bytes();
    lemma_name_key_round_trip(record.role);
    let bytes = descriptor_bytes(record);
    assert(bytes.skip(8) =~= name_key(record.role));
    assert(bytes.take(8) =~= spec_u64_to_le_bytes(record.created_at));
}

/// Whether the bytes of the descriptor can be stored in the persistent map.
pub fn descriptor_fits(descriptor: &ChildDescriptor) -> (yes: bool)
    ensures
        yes == fits(descriptor_bytes(descriptor@).len()),
{
    let bytes = encode_descriptor(descriptor);
    bytes.len() <= crate::structures::MAX_ENTRY_LEN
}

/// The bytes of a descriptor.
pub fn encode_descriptor(descriptor: &ChildDescriptor) -> (bytes: Vec<u8>)
    ensures
        bytes@ == descriptor_bytes(descriptor@),
{
    let mut bytes = u64_to_le_bytes(descriptor.created_at);
    let role = encode_name(descriptor.role.as_str());
    bytes.extend_from_slice(role.as_slice());
    assert(bytes@ =~= descriptor_bytes(descriptor@));
    bytes
}

/// The descriptor that the bytes spell, if they spell one.
pub fn decode_descriptor(bytes: &Vec<u8>) -> (descriptor: Option<ChildDescriptor>)
    ensures
        match descriptor {
            Some(descriptor) => is_descriptor(bytes@) && descriptor@ == descriptor_of(bytes@),
            None => !is_descriptor(bytes@),
        },
{
    if bytes.len() < 8 {
        return None;
    }
    let created_at = u64_from_le_bytes(slice_subrange(bytes.as_slice(), 0, 8));
    let tail = slice_to_vec(slice_subrange(bytes.as_slice(), 8, bytes.len()));
    assert(tail@ =~= bytes@.skip(8));
    assert(bytes@.subrange(0, 8) =~= bytes@.take(8));
    match decode_name(tail) {
        Some(role) => Some(ChildDescriptor { role, created_at }),
        None => None,
    }
}

} // verus!
