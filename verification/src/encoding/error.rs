//! What can go wrong while bytes are written or read.

use crate::confinement::ConfinementError;
use vstd::prelude::*;

verus! {

/// Why bytes could not be decoded.
#[derive(PartialEq, Eq, Clone, Debug)]
pub enum DecodeError {
    /// The source ended before the value was complete.
    UnexpectedEof,
    /// A text is not valid UTF-8.
    Utf8,
    /// A text restricted to ASCII holds a byte outside ASCII.
    Ascii,
    /// A length lies outside the bounds of its type.
    Confinement(ConfinementError),
    /// A tag that the enumeration or union does not declare, after the name
    /// of the type.
    EnumTagNotKnown(String, u8),
}

/// A `DecodeError` as a mathematical value.
pub enum DecodeFailure {
    UnexpectedEof,
    Utf8,
    Ascii,
    Confinement(ConfinementError),
    EnumTagNotKnown(Seq<char>, u8),
}

impl DecodeError {
    /// The error as a mathematical value.
    pub open spec fn view(&self) -> DecodeFailure {
        match self {
            DecodeError::UnexpectedEof => DecodeFailure::UnexpectedEof,
            DecodeError::Utf8 => DecodeFailure::Utf8,
            DecodeError::Ascii => DecodeFailure::Ascii,
            DecodeError::Confinement(e) => DecodeFailure::Confinement(*e),
            DecodeError::EnumTagNotKnown(name, tag) => DecodeFailure::EnumTagNotKnown(name@, *tag),
        }
    }
}

/// Why a value could not be serialized.
#[derive(PartialEq, Eq, Copy, Clone, Debug, Structural)]
pub enum SerializeError {
    /// The encoding is longer than the declared maximum.
    Confinement(ConfinementError),
}

impl From<ConfinementError> for SerializeError {
    fn from(e: ConfinementError) -> (r: SerializeError) {
        SerializeError::Confinement(e)
    }
}

impl vstd::std_specs::convert::FromSpecImpl<ConfinementError> for SerializeError {
    open spec fn obeys_from_spec() -> bool {
        true
    }

    open spec fn from_spec(e: ConfinementError) -> SerializeError {
        SerializeError::Confinement(e)
    }
}

/// Why bytes could not be deserialized.
#[derive(PartialEq, Eq, Clone, Debug)]
pub enum DeserializeError {
    /// The bytes do not decode.
    Decode(DecodeError),
    /// The value was decoded and bytes are left over.
    DataNotEntirelyConsumed,
}

impl From<DecodeError> for DeserializeError {
    fn from(e: DecodeError) -> (r: DeserializeError) {
        DeserializeError::Decode(e)
    }
}

impl vstd::std_specs::convert::FromSpecImpl<DecodeError> for DeserializeError {
    open spec fn obeys_from_spec() -> bool {
        true
    }

    open spec fn from_spec(e: DecodeError) -> DeserializeError {
        DeserializeError::Decode(e)
    }
}

/// A `DeserializeError` as a mathematical value.
pub enum DeserializeFailure {
    Decode(DecodeFailure),
    DataNotEntirelyConsumed,
}

impl DeserializeError {
    /// The error as a mathematical value.
    pub open spec fn view(&self) -> DeserializeFailure {
        match self {
            DeserializeError::Decode(e) => DeserializeFailure::Decode(e@),
            DeserializeError::DataNotEntirelyConsumed => {
                DeserializeFailure::DataNotEntirelyConsumed
            },
        }
    }
}

} // verus!
