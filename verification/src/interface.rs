//! What the instance asks of the platform and of other instances, as far as
//! the library decides it.

pub mod ic;
pub mod state;

use vstd::prelude::*;

verus! {

/// What can go wrong in a call to the platform.
#[derive(Debug, PartialEq, Eq)]
pub enum InterfaceError {
    /// A call to the management interface failed.
    IcError(ic::IcError),
}

impl From<ic::IcError> for InterfaceError {
    fn from(error: ic::IcError) -> (converted: InterfaceError) {
        InterfaceError::IcError(error)
    }
}

impl vstd::std_specs::convert::FromSpecImpl<ic::IcError> for InterfaceError {
    open spec fn obeys_from_spec() -> bool {
        true
    }

    open spec fn from_spec(error: ic::IcError) -> InterfaceError {
        InterfaceError::IcError(error)
    }
}

/// The words of a failure of the interface: those of the failure inside.
pub open spec fn interface_message(error: InterfaceError) -> Seq<char> {
    match error {
        InterfaceError::IcError(inner) => ic::ic_message(inner),
    }
}

impl InterfaceError {
    /// The failure in words.
    pub fn message(&self) -> (text: String)
        ensures
            text@ == interface_message(*self),
    {
        match self {
            InterfaceError::IcError(inner) => inner.message(),
        }
    }
}

} // verus!
