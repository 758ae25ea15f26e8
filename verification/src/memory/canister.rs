//! The hierarchy state of an instance: its root and, unless it is a root
//! itself, its parent.

use vstd::prelude::*;
use crate::identity::{Identity, MAX_IDENTITY_LEN};
use crate::structures::{BTreeMap, DefaultMemory};

verus! {

/// A read of the hierarchy state that found nothing.
#[derive(Debug, PartialEq, Eq)]
pub enum CanisterStateError {
    /// No root was ever set.
    RootNotDefined,
}

/// The hierarchy state as a plain value.
pub struct Position {
    pub root: Option<Seq<u8>>,
    pub parent: Option<Seq<u8>>,
}

/// The key under which the root is stored.
pub open spec fn root_key() -> Seq<u8> {
    seq![0u8]
}

/// The key under which the parent is stored.
pub open spec fn parent_key() -> Seq<u8> {
    seq![1u8]
}

/// The identity stored under `key`, if the bytes there are short enough for
/// one.
pub open spec fn slot(raw: Map<Seq<u8>, Seq<u8>>, key: Seq<u8>) -> Option<Seq<u8>> {
    if raw.contains_key(key) && raw[key].len() <= MAX_IDENTITY_LEN {
        Some(raw[key])
    } else {
        None
    }
}

/// The hierarchy state that a map of byte strings spells.
pub open spec fn position_of(raw: Map<Seq<u8>, Seq<u8>>) -> Position {
    Position { root: slot(raw, root_key()), parent: slot(raw, parent_key()) }
}

/// What a read of the root gives.
pub open spec fn root_lookup(position: Position) -> Result<Seq<u8>, CanisterStateError> {
    match position.root {
        Some(root) => Ok(root),
        None => Err(CanisterStateError::RootNotDefined),
    }
}

/// The state after the root was set.
pub open spec fn with_root(position: Position, root: Seq<u8>) -> Position {
    Position { root: Some(root), parent: position.parent }
}

/// The state after the parent was set or struck.
pub open spec fn with_parent(position: Position, parent: Option<Seq<u8>>) -> Position {
    Position { root: position.root, parent }
}

/// The state with neither root nor parent.
pub open spec fn vacant() -> Position {
    Position { root: None, parent: None }
}

/// The read of the root fails with `RootNotDefined` as long as no root was
/// set, whatever was done to the parent; once a root was set it gives that
/// root. An instance without a parent, as a root instance is, has `None`
/// for its parent, also after its root was set.
pub proof fn lemma_root_and_parent(position: Position, root: Seq<u8>, parent: Option<Seq<u8>>)
    ensures
        root_lookup(vacant()) == Err::<Seq<u8>, CanisterStateError>(CanisterStateError::RootNotDefined),
        root_lookup(with_parent(vacant(), parent)) == Err::<Seq<u8>, CanisterStateError>(
            CanisterStateError::RootNotDefined,
        ),
        root_lookup(with_root(position, root)) == Ok::<Seq<u8>, CanisterStateError>(root),
        root_lookup(with_parent(with_root(position, root), parent)) == Ok::<
            Seq<u8>,
            CanisterStateError,
        >(root),
        with_root(vacant(), root).parent == None::<Seq<u8>>,
        with_root(position, root).parent == position.parent,
{
}

/// The hierarchy state, kept in a persistent map under two fixed keys.
pub struct CanisterState {
    map: BTreeMap,
}

impl View for CanisterState {
    type V = Position;

    closed spec fn view(&self) -> Position {
        position_of(self.map@)
    }
}

impl CanisterState {
    /// Binds the state to its region of stable memory.
    pub fn init(memory: DefaultMemory) -> (state: CanisterState)
        ensures
            state.region() == memory,
    {
        CanisterState { map: BTreeMap::init(memory) }
    }

    /// The region of stable memory that holds the state.
    pub closed spec fn region(self) -> DefaultMemory {
        self.map.region()
    }

    /// Forgets root and parent.
    pub fn clear(&mut self)
        ensures
            final(self)@ == vacant(),
    {
        self.map.clear();
    }

    fn read(&self, key: Vec<u8>) -> (id: Option<Identity>)
        ensures
            match id {
                Some(id) => slot(self.map@, key@) == Some(id@),
                None => slot(self.map@, key@) is None,
            },
    {
        match self.map.get(&key) {
            Some(bytes) => Identity::from_slice(bytes.as_slice()),
            None => None,
        }
    }

    /// The root, or the failure that says that none was set.
    pub fn get_root(&self) -> (root: Result<Identity, CanisterStateError>)
        ensures
            match root {
                Ok(id) => root_lookup(self@) == Ok::<Seq<u8>, CanisterStateError>(id@),
                Err(error) => root_lookup(self@) == Err::<Seq<u8>, CanisterStateError>(error),
            },
    {
        let key: Vec<u8> = vec![0u8];
        assert(key@ =~= root_key());
        match self.read(key) {
            Some(id) => Ok(id),
            None => Err(CanisterStateError::RootNotDefined),
        }
    }

    /// Sets the root.
    pub fn set_root(&mut self, id: Identity)
        ensures
            final(self)@ == with_root(old(self)@, id@),
    {
        let key: Vec<u8> = vec![0u8];
        assert(key@ =~= root_key());
        assert(root_key() != parent_key()) by {
            assert(root_key()[0] != parent_key()[0]);
        }
        proof {
            id.lemma_view_len();
        }
        self.map.insert(key, id.to_bytes());
    }

    /// The parent; a root instance has none.
    pub fn get_parent(&self) -> (parent: Option<Identity>)
        ensures
            match parent {
                Some(id) => self@.parent == Some(id@),
                None => self@.parent is None,
            },
    {
        let key: Vec<u8> = vec![1u8];
        assert(key@ =~= parent_key());
        self.read(key)
    }

    /// Sets the parent, or strikes it where `parent` is `None`.
    pub fn set_parent(&mut self, parent: Option<Identity>)
        ensures
            final(self)@ == with_parent(
                old(self)@,
                match parent {
                    Some(id) => Some(id@),
                    None => None,
                },
            ),
    {
        let key: Vec<u8> = vec![1u8];
        assert(key@ =~= parent_key());
        assert(root_key() != parent_key()) by {
            assert(root_key()[0] != parent_key()[0]);
        }
        match parent {
            Some(id) => {
                proof {
                    id.lemma_view_len();
                }
                self.map.insert(key, id.to_bytes());
            },
            None => {
                self.map.remove(&key);
            },
        }
    }

    /// Whether `id` is the parent.
    pub fn has_parent(&self, id: &Identity) -> (is_parent: bool)
        ensures
            is_parent == (self@.parent == Some(id@)),
    {
        match self.get_parent() {
            Some(parent) => parent.same(id),
            None => false,
        }
    }
}

/// The words of a failed read.
pub open spec fn canister_state_message(error: CanisterStateError) -> Seq<char> {
    match error {
        CanisterStateError::RootNotDefined => "the root canister is not defined"@,
    }
}

impl CanisterStateError {
    /// The failure in words.
    pub fn message(&self) -> (text: String)
        ensures
            text@ == canister_state_message(*self),
    {
        match self {
            CanisterStateError::RootNotDefined => String::from_str("the root canister is not defined"),
        }
    }
}

} // verus!
