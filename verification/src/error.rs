//! The kinds of failure, and the message by which each is reported to the host.

use vstd::prelude::*;
use vstd::string::*;

verus! {

/// Why a transform could not be built or a value could not be remapped.
#[derive(Debug, PartialEq, Eq)]
pub enum RemapError {
    /// The source did not compile; the text holds the rendered diagnostics.
    Compile(String),
    /// A host value of a type that the engine's model has no place for; the
    /// text is the name of that type.
    UnsupportedType(String),
    /// A host float that is a NaN.
    InvalidFloat,
    /// The program failed while it ran; the text is the engine's own message.
    RemapFailure(String),
}

/// The mathematical model of a [`RemapError`].
pub enum RemapFault {
    Compile(Seq<char>),
    UnsupportedType(Seq<char>),
    InvalidFloat,
    RemapFailure(Seq<char>),
}

impl View for RemapError {
    type V = RemapFault;

    open spec fn view(&self) -> RemapFault {
        match self {
            RemapError::Compile(text) => RemapFault::Compile(text@),
            RemapError::UnsupportedType(name) => RemapFault::UnsupportedType(name@),
            RemapError::InvalidFloat => RemapFault::InvalidFloat,
            RemapError::RemapFailure(text) => RemapFault::RemapFailure(text@),
        }
    }
}

/// The message of a failure, as the host reads it.
pub open spec fn message_of(fault: RemapFault) -> Seq<char> {
    match fault {
        RemapFault::Compile(text) => text,
        RemapFault::UnsupportedType(_) => "Unsupported type"@,
        RemapFault::InvalidFloat => "Provided float value is NaN"@,
        RemapFault::RemapFailure(text) => "remap failure: "@ + text,
    }
}

impl RemapError {
    /// The message by which this failure is reported to the host.
    pub fn message(&self) -> (r: String)
        ensures
            r@ == message_of(self@),
    {
        match self {
            RemapError::Compile(text) => text.clone(),
            RemapError::UnsupportedType(_) => String::from_str("Unsupported type"),
            RemapError::InvalidFloat => String::from_str("Provided float value is NaN"),
            RemapError::RemapFailure(text) => String::from_str("remap failure: ").concat(
                text.as_str(),
            ),
        }
    }
}

} // verus!
