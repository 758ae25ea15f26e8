//! Calls to the platform's management interface: their failures, and what
//! the instance decides between one call and the next when it creates or
//! upgrades another instance. The calls themselves are made elsewhere; each
//! function here takes the reply of one call and says what follows.

use vstd::prelude::*;
use crate::bytes::same_bytes;
use crate::identity::Identity;
use crate::interface::InterfaceError;
use crate::Error;

verus! {

/// Why a call to the management interface failed.
#[derive(Debug, PartialEq, Eq)]
pub enum IcError {
    /// The call was rejected, or failed on the way.
    CallFailed(String),
    /// The arguments could not be encoded.
    CandidError(String),
    /// The reply could not be decoded.
    CandidDecodeFailed(String),
    /// The module to install is the module that is installed.
    WasmHashMatches,
}

/// The budget that a new instance is created with.
pub const CREATE_CANISTER_CYCLES: u128 = 5_000_000_000_000;

/// The reply of a call: what it returned, or the words of its failure.
pub type Reply<T> = Result<T, String>;

/// The library's failure for a call that failed with `message`.
pub open spec fn call_failure(message: String) -> Error {
    Error::InterfaceError(InterfaceError::IcError(IcError::CallFailed(message)))
}

/// The library's failure for a module that is installed already.
pub open spec fn same_module_failure() -> Error {
    Error::InterfaceError(InterfaceError::IcError(IcError::WasmHashMatches))
}

/// What a call returned, or the library's failure for the call.
pub fn call_result<T>(reply: Reply<T>) -> (result: Result<T, Error>)
    ensures
        result == match reply {
            Ok(value) => Ok::<T, Error>(value),
            Err(message) => Err(call_failure(message)),
        },
{
    match reply {
        Ok(value) => Ok(value),
        Err(message) => Err(Error::InterfaceError(InterfaceError::IcError(IcError::CallFailed(message)))),
    }
}

/// After the call that creates an instance: the instance to install the
/// module into, or the failure of the call.
pub fn after_create(reply: Reply<Identity>) -> (next: Result<Identity, Error>)
    ensures
        next == match reply {
            Ok(canister) => Ok::<Identity, Error>(canister),
            Err(message) => Err(call_failure(message)),
        },
{
    match reply {
        Ok(canister) => Ok(canister),
        Err(message) => Err(Error::InterfaceError(InterfaceError::IcError(IcError::CallFailed(message)))),
    }
}

/// After the call that installs the module into the new instance
/// `canister`: the identity of the new instance, or the failure of the call.
pub fn after_install(canister: Identity, reply: Reply<()>) -> (done: Result<Identity, Error>)
    ensures
        done == match reply {
            Ok(_) => Ok::<Identity, Error>(canister),
            Err(message) => Err(call_failure(message)),
        },
{
    match reply {
        Ok(_) => Ok(canister),
        Err(message) => Err(Error::InterfaceError(InterfaceError::IcError(IcError::CallFailed(message)))),
    }
}

/// What an upgrade does once the status of the instance is known.
pub open spec fn upgrade_decision(status: Reply<Option<Vec<u8>>>, wanted: Seq<u8>) -> Result<(), Error> {
    match status {
        Err(message) => Err(call_failure(message)),
        Ok(Some(installed)) => if installed@ == wanted {
            Err(same_module_failure())
        } else {
            Ok(())
        },
        Ok(None) => Ok(()),
    }
}

/// Before an upgrade, after the call that asks for the status of the
/// instance: `status` holds the hash of the module that is installed, if
/// one is, and `wanted` is the hash of the module to install. The upgrade
/// goes on unless the call failed or the two hashes are the same.
pub fn before_upgrade(status: Reply<Option<Vec<u8>>>, wanted: &Vec<u8>) -> (go: Result<(), Error>)
    ensures
        go == upgrade_decision(status, wanted@),
{
    match status {
        Err(message) => Err(Error::InterfaceError(InterfaceError::IcError(IcError::CallFailed(message)))),
        Ok(Some(installed)) => {
            if same_bytes(&installed, wanted) {
                Err(Error::InterfaceError(InterfaceError::IcError(IcError::WasmHashMatches)))
            } else {
                Ok(())
            }
        },
        Ok(None) => Ok(()),
    }
}

/// After the call that installs the module in an upgrade: done, or the
/// failure of the call.
pub fn after_upgrade(reply: Reply<()>) -> (done: Result<(), Error>)
    ensures
        done == match reply {
            Ok(_) => Ok::<(), Error>(()),
            Err(message) => Err(call_failure(message)),
        },
{
    match reply {
        Ok(_) => Ok(()),
        Err(message) => Err(Error::InterfaceError(InterfaceError::IcError(IcError::CallFailed(message)))),
    }
}

/// The words of a failed call.
pub open spec fn ic_message(error: IcError) -> Seq<char> {
    match error {
        IcError::CallFailed(words) => "call rejected: "@ + words@,
        IcError::CandidError(words) => "candid error: "@ + words@,
        IcError::CandidDecodeFailed(words) => "candid error: "@ + words@,
        IcError::WasmHashMatches => "wasm hash matches"@,
    }
}

impl IcError {
    /// The failure in words.
    pub fn message(&self) -> (text: String)
        ensures
            text@ == ic_message(*self),
    {
        match self {
            IcError::CallFailed(words) => String::from_str("call rejected: ").concat(words.as_str()),
            IcError::CandidError(words) => String::from_str("candid error: ").concat(words.as_str()),
            IcError::CandidDecodeFailed(words) => String::from_str("candid error: ").concat(
                words.as_str(),
            ),
            IcError::WasmHashMatches => String::from_str("wasm hash matches"),
        }
    }
}

} // verus!
