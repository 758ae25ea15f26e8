//! The persistent records of an instance, each in a region of its own.

pub mod app;
pub mod canister;
pub mod child;
pub mod subnet;

use vstd::prelude::*;
use crate::codec::ChildRecord;

verus! {

/// The persistent records of one instance: its place among root and parent,
/// its children, and the named registry. They are made once at startup,
/// each on a region of its own, and handed to whoever needs them.
pub struct Hierarchy {
    pub state: canister::CanisterState,
    pub children: child::ChildIndex,
    pub subnet: subnet::SubnetIndex,
}

/// The persistent records as plain values.
pub struct Standing {
    pub position: canister::Position,
    pub children: Map<Seq<u8>, ChildRecord>,
    pub roles: Map<Seq<char>, Seq<u8>>,
}

impl View for Hierarchy {
    type V = Standing;

    open spec fn view(&self) -> Standing {
        Standing { position: self.state@, children: self.children@, roles: self.subnet@ }
    }
}

/// What can go wrong in the persistent records.
#[derive(Debug, PartialEq, Eq)]
pub enum MemoryError {
    /// The application state refused an order.
    AppStateError(app::AppStateError),
    /// The hierarchy state has no root.
    CanisterStateError(canister::CanisterStateError),
    /// The child index has no such child.
    ChildIndexError(child::ChildIndexError),
    /// The named registry has no such entry.
    SubnetIndexError(subnet::SubnetIndexError),
}

impl From<app::AppStateError> for MemoryError {
    fn from(error: app::AppStateError) -> (converted: MemoryError) {
        MemoryError::AppStateError(error)
    }
}

impl vstd::std_specs::convert::FromSpecImpl<app::AppStateError> for MemoryError {
    open spec fn obeys_from_spec() -> bool {
        true
    }

    open spec fn from_spec(error: app::AppStateError) -> MemoryError {
        MemoryError::AppStateError(error)
    }
}

impl From<canister::CanisterStateError> for MemoryError {
    fn from(error: canister::CanisterStateError) -> (converted: MemoryError) {
        MemoryError::CanisterStateError(error)
    }
}

impl vstd::std_specs::convert::FromSpecImpl<canister::CanisterStateError> for MemoryError {
    open spec fn obeys_from_spec() -> bool {
        true
    }

    open spec fn from_spec(error: canister::CanisterStateError) -> MemoryError {
        MemoryError::CanisterStateError(error)
    }
}

impl From<child::ChildIndexError> for MemoryError {
    fn from(error: child::ChildIndexError) -> (converted: MemoryError) {
        MemoryError::ChildIndexError(error)
    }
}

impl vstd::std_specs::convert::FromSpecImpl<child::ChildIndexError> for MemoryError {
    open spec fn obeys_from_spec() -> bool {
        true
    }

    open spec fn from_spec(error: child::ChildIndexError) -> MemoryError {
        MemoryError::ChildIndexError(error)
    }
}

impl From<subnet::SubnetIndexError> for MemoryError {
    fn from(error: subnet::SubnetIndexError) -> (converted: MemoryError) {
        MemoryError::SubnetIndexError(error)
    }
}

impl vstd::std_specs::convert::FromSpecImpl<subnet::SubnetIndexError> for MemoryError {
    open spec fn obeys_from_spec() -> bool {
        true
    }

    open spec fn from_spec(error: subnet::SubnetIndexError) -> MemoryError {
        MemoryError::SubnetIndexError(error)
    }
}

/// The words of a failure of the persistent records: those of the failure
/// inside.
pub open spec fn memory_message(error: MemoryError) -> Seq<char> {
    match error {
        MemoryError::AppStateError(inner) => app::app_state_message(inner),
        MemoryError::CanisterStateError(inner) => canister::canister_state_message(inner),
        MemoryError::ChildIndexError(inner) => child::child_index_message(inner),
        MemoryError::SubnetIndexError(inner) => subnet::subnet_index_message(inner),
    }
}

impl MemoryError {
    /// The failure in words.
    pub fn message(&self) -> (text: String)
        ensures
            text@ == memory_message(*self),
    {
        match self {
            MemoryError::AppStateError(inner) => inner.message(),
            MemoryError::CanisterStateError(inner) => inner.message(),
            MemoryError::ChildIndexError(inner) => inner.message(),
            MemoryError::SubnetIndexError(inner) => inner.message(),
        }
    }
}

} // verus!
