//! Identities: the opaque tokens that name a caller or an instance.

use vstd::prelude::*;

verus! {

/// The longest identity that the platform issues, in bytes.
pub const MAX_IDENTITY_LEN: usize = 29;

/// An identity: at most `MAX_IDENTITY_LEN` bytes, compared byte by byte.
///
/// The value is a fixed buffer and a length, so it is `Copy`; the bytes past
/// the length are zero, which makes the derived `==` agree with the view.
#[derive(Clone, Copy, Debug, PartialEq, Eq, Hash)]
pub struct Identity {
    len: u8,
    bytes: [u8; 29],
}

impl View for Identity {
    type V = Seq<u8>;

    closed spec fn view(&self) -> Seq<u8> {
        self.bytes@.take(
            if self.len <= 29 {
                self.len as int
            } else {
                29
            },
        )
    }
}

impl Identity {
    #[verifier::type_invariant]
    spec fn well_formed(self) -> bool {
        &&& self.len <= 29
        &&& forall|i: int| self.len <= i < 29 ==> self.bytes[i] == 0
    }

    /// No identity is longer than `MAX_IDENTITY_LEN`.
    pub proof fn lemma_view_len(self)
        ensures
            self@.len() <= MAX_IDENTITY_LEN,
    {
    }

    /// The identity that `bytes` spell, if they are few enough.
    pub fn from_slice(bytes: &[u8]) -> (id: Option<Identity>)
        ensures
            match id {
                Some(id) => bytes@.len() <= MAX_IDENTITY_LEN && id@ == bytes@,
                None => bytes@.len() > MAX_IDENTITY_LEN,
            },
    {
        if bytes.len() > 29 {
            return None;
        }
        let mut buf: [u8; 29] = [0u8; 29];
        let mut i: usize = 0;
        while i < bytes.len()
            invariant
                i <= bytes.len() <= 29,
                forall|j: int| 0 <= j < i ==> buf[j] == bytes[j],
                forall|j: int| i <= j < 29 ==> buf[j] == 0,
            decreases bytes.len() - i,
        {
            buf[i] = bytes[i];
            i += 1;
        }
        let id = Identity { len: bytes.len() as u8, bytes: buf };
        assert(id@ =~= bytes@);
        Some(id)
    }

    /// The bytes of the identity.
    pub fn to_bytes(&self) -> (bytes: Vec<u8>)
        ensures
            bytes@ == self@,
    {
        proof {
            use_type_invariant(self);
        }
        let mut out: Vec<u8> = Vec::new();
        let mut i: usize = 0;
        while i < self.len as usize
            invariant
                i <= self.len <= 29,
                out@ == self.bytes@.take(i as int),
            decreases self.len - i,
        {
            out.push(self.bytes[i]);
            assert(self.bytes@.take(i + 1) =~= self.bytes@.take(i as int).push(self.bytes[i as int]));
            i += 1;
        }
        out
    }

    /// How many bytes the identity has.
    pub fn len(&self) -> (n: usize)
        ensures
            n == self@.len(),
    {
        proof {
            use_type_invariant(self);
        }
        self.len as usize
    }

    /// Whether two identities are the same.
    pub fn same(&self, other: &Identity) -> (same: bool)
        ensures
            same == (self@ == other@),
    {
        proof {
            use_type_invariant(self);
            use_type_invariant(other);
        }
        if self.len != other.len {
            assert(self@.len() != other@.len());
            return false;
        }
        let mut i: usize = 0;
        while i < self.len as usize
            invariant
                i <= self.len <= 29,
                self.len == other.len,
                forall|j: int| 0 <= j < i ==> self.bytes[j] == other.bytes[j],
            decreases self.len - i,
        {
            if self.bytes[i] != other.bytes[i] {
                assert(self@[i as int] != other@[i as int]);
                return false;
            }
            i += 1;
        }
        assert(self@ =~= other@);
        true
    }
}

/// The text form of the identity with these bytes, as `candid` writes a
/// principal: a checksum and the bytes in base 32, in groups of five.
pub uninterp spec fn principal_text(bytes: Seq<u8>) -> Seq<char>;

/// `candid::Principal::to_text`, applied to the principal that
/// `candid::Principal::from_slice` makes of the bytes. The text depends on
/// the bytes alone. `from_slice` panics on more than 29 bytes.
#[verifier::external_body]
fn principal_to_text(bytes: &Vec<u8>) -> (text: String)
    requires
        bytes@.len() <= MAX_IDENTITY_LEN,
    ensures
        text@ == principal_text(bytes@),
{
    candid::Principal::from_slice(bytes.as_slice()).to_text()
}

/// The words "principal '", the text of the identity, and `rest`.
pub open spec fn principal_phrase(id: Identity, rest: Seq<char>) -> Seq<char> {
    "principal '"@ + principal_text(id@) + rest
}

impl Identity {
    /// Whether this identity comes before `other` in the order of
    /// identities, which is the lexicographic order of their bytes.
    pub fn precedes(&self, other: &Identity) -> (before: bool)
        ensures
            before == crate::bytes::bytes_lt(self@, other@),
    {
        let mine = self.to_bytes();
        let theirs = other.to_bytes();
        crate::bytes::precedes(&mine, &theirs)
    }

    /// The identity in text form.
    pub fn to_text(&self) -> (text: String)
        ensures
            text@ == principal_text(self@),
    {
        proof {
            self.lemma_view_len();
        }
        let bytes = self.to_bytes();
        principal_to_text(&bytes)
    }

    /// A phrase about the identity: "principal '", its text, and `rest`.
    pub fn phrase(&self, rest: &str) -> (text: String)
        ensures
            text@ == principal_phrase(*self, rest@),
    {
        let mut text = String::from_str("principal '");
        let name = self.to_text();
        text.append(name.as_str());
        text.append(rest);
        text
    }
}

} // verus!
