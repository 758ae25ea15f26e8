//! The failures of the byte codec, and the words in which they are
//! reported.

use vstd::prelude::*;

verus! {

/// Why a value could not be written as bytes, or read from them.
#[derive(Debug, PartialEq, Eq)]
pub enum SerializeError {
    /// The value could not be written.
    Serialize(String),
    /// The bytes do not spell a value of the wanted type.
    Deserialize(String),
}

/// What a second, untyped reading of bytes gave: the value in debug form,
/// or the reason why this reading failed too.
pub open spec fn dump_view(dump: Result<String, String>) -> Result<Seq<char>, Seq<char>> {
    match dump {
        Ok(value) => Ok(value@),
        Err(reason) => Err(reason@),
    }
}

/// The report of a failed reading: the cause, then the untyped value in
/// brackets, or the failure of the untyped reading.
pub open spec fn deserialize_message(cause: Seq<char>, dump: Result<Seq<char>, Seq<char>>) -> Seq<
    char,
> {
    match dump {
        Ok(value) => "failed to deserialize: "@ + cause + " ("@ + value + ")"@,
        Err(reason) => "failed to deserialize: "@ + cause + ". DEBUG FAILED "@ + reason,
    }
}

/// The failure of a writing, with the codec's own words.
pub fn serialize_error(cause: &str) -> (error: SerializeError)
    ensures
        error matches SerializeError::Serialize(message) && message@ == cause@,
{
    SerializeError::Serialize(String::from_str(cause))
}

/// The failure of a reading. `cause` is what the codec said; `dump` is what
/// reading the same bytes as an untyped value gave.
pub fn deserialize_error(cause: &str, dump: &Result<String, String>) -> (error: SerializeError)
    ensures
        error matches SerializeError::Deserialize(message) && message@ == deserialize_message(
            cause@,
            dump_view(*dump),
        ),
{
    let mut message = String::from_str("failed to deserialize: ");
    message.append(cause);
    match dump {
        Ok(value) => {
            message.append(" (");
            message.append(value.as_str());
            message.append(")");
        },
        Err(reason) => {
            message.append(". DEBUG FAILED ");
            message.append(reason.as_str());
        },
    }
    SerializeError::Deserialize(message)
}

/// The words of a failure of the codec.
pub open spec fn serialize_message(error: SerializeError) -> Seq<char> {
    match error {
        SerializeError::Serialize(words) => "serialize error: "@ + words@,
        SerializeError::Deserialize(words) => "deserialize error: "@ + words@,
    }
}

impl SerializeError {
    /// The failure in words.
    pub fn message(&self) -> (text: String)
        ensures
            text@ == serialize_message(*self),
    {
        match self {
            SerializeError::Serialize(words) => String::from_str("serialize error: ").concat(
                words.as_str(),
            ),
            SerializeError::Deserialize(words) => String::from_str("deserialize error: ").concat(
                words.as_str(),
            ),
        }
    }
}

} // verus!
