//! Authorization rules and persistent hierarchy records for a service
//! instance: who may call a protected operation, and where the instance
//! stands among its root, parent, children and named siblings.

pub mod auth;
pub mod bytes;
pub mod codec;
pub mod identity;
pub mod interface;
pub mod memory;
pub mod serialize;
pub mod structures;

use vstd::prelude::*;

verus! {

/// Every failure that the library reports.
#[derive(Debug, PartialEq, Eq)]
pub enum Error {
    /// A caller was refused.
    AuthError(auth::AuthError),
    /// A call to the platform failed.
    InterfaceError(interface::InterfaceError),
    /// A persistent record could not answer.
    MemoryError(memory::MemoryError),
}

/// The level of a log line.
#[derive(Clone, Copy, Debug, PartialEq, Eq)]
pub enum Log {
    Okay,
    Perf,
    Info,
    Warn,
    Error,
}

impl From<auth::AuthError> for Error {
    fn from(error: auth::AuthError) -> (converted: Error) {
        Error::AuthError(error)
    }
}

impl vstd::std_specs::convert::FromSpecImpl<auth::AuthError> for Error {
    open spec fn obeys_from_spec() -> bool {
        true
    }

    open spec fn from_spec(error: auth::AuthError) -> Error {
        Error::AuthError(error)
    }
}

impl From<interface::InterfaceError> for Error {
    fn from(error: interface::InterfaceError) -> (converted: Error) {
        Error::InterfaceError(error)
    }
}

impl vstd::std_specs::convert::FromSpecImpl<interface::InterfaceError> for Error {
    open spec fn obeys_from_spec() -> bool {
        true
    }

    open spec fn from_spec(error: interface::InterfaceError) -> Error {
        Error::InterfaceError(error)
    }
}

impl From<memory::MemoryError> for Error {
    fn from(error: memory::MemoryError) -> (converted: Error) {
        Error::MemoryError(error)
    }
}

impl vstd::std_specs::convert::FromSpecImpl<memory::MemoryError> for Error {
    open spec fn obeys_from_spec() -> bool {
        true
    }

    open spec fn from_spec(error: memory::MemoryError) -> Error {
        Error::MemoryError(error)
    }
}

/// The words of a failure: those of the failure inside.
pub open spec fn error_message(error: Error) -> Seq<char> {
    match error {
        Error::AuthError(inner) => auth::auth_message(inner),
        Error::InterfaceError(inner) => interface::interface_message(inner),
        Error::MemoryError(inner) => memory::memory_message(inner),
    }
}

impl Error {
    /// The failure in words.
    pub fn message(&self) -> (text: String)
        ensures
            text@ == error_message(*self),
    {
        match self {
            Error::AuthError(inner) => inner.message(),
            Error::InterfaceError(inner) => inner.message(),
            Error::MemoryError(inner) => inner.message(),
        }
    }
}

/// The mark that a log line of the level begins with.
pub open spec fn log_mark(level: Log) -> Seq<char> {
    match level {
        Log::Okay => "\x1b[32mOK\x1b[0m: "@,
        Log::Perf => "\x1b[35mPERF\x1b[0m: "@,
        Log::Info => "\x1b[34mINFO\x1b[0m: "@,
        Log::Warn => "\x1b[33mWARN\x1b[0m: "@,
        Log::Error => "\x1b[31mERROR\x1b[0m: "@,
    }
}

/// A log line: the mark of the level, then the message.
pub fn log_line(level: Log, message: &str) -> (line: String)
    ensures
        line@ == log_mark(level) + message@,
{
    let mark = match level {
        Log::Okay => String::from_str("\x1b[32mOK\x1b[0m: "),
        Log::Perf => String::from_str("\x1b[35mPERF\x1b[0m: "),
        Log::Info => String::from_str("\x1b[34mINFO\x1b[0m: "),
        Log::Warn => String::from_str("\x1b[33mWARN\x1b[0m: "),
        Log::Error => String::from_str("\x1b[31mERROR\x1b[0m: "),
    };
    mark.concat(message)
}

/// A thousand cycles.
pub const KC: u128 = 1_000;

/// A million cycles.
pub const MC: u128 = 1_000_000;

/// A billion cycles.
pub const BC: u128 = 1_000_000_000;

/// A trillion cycles.
pub const TC: u128 = 1_000_000_000_000;

/// A quadrillion cycles.
pub const QC: u128 = 1_000_000_000_000_000;

} // verus!
