use vstd::prelude::*;

verus! {

/// Library-wide error taxonomy: decoding failures of the loose-object codec,
/// namespace kind mismatches discovered while walking a reference chain, and
/// malformed path-fragment input.
#[derive(Debug)]
pub enum Error {
    /// The compressed buffer is not a well-formed zlib stream.
    InvalidZlibData,
    /// The inflated buffer holds no NUL delimiter between header and content.
    NullCharacterNotFound,
    /// The header bytes before the NUL delimiter are not well-formed UTF-8.
    EncodingError,
    /// The header has fewer than two tokens, or its length token is not a
    /// decimal number that fits in 64 bits.
    InvalidHeader,
    /// The header's first token names no known object kind.
    InvalidTypeName,
    /// The declared length in the header differs from the content's size.
    LengthMismatch,
    /// The object database could not be opened or initialized.
    OdbInitializationFailed { detail: String },
    /// A namespace (or namespace reference) did not have the kind a typed
    /// wrapper expected: `t1` names the expected wrapper, `t2` the actual kind.
    NamespaceMismatch { t1: String, t2: String },
    /// A path fragment does not follow the `domain@user:repository` grammar;
    /// carries the offending input.
    MalformedFragment(String),
}

impl PartialEq for Error {
    fn eq(&self, other: &Error) -> (r: bool) {
        match (self, other) {
            (Error::InvalidZlibData, Error::InvalidZlibData) => true,
            (Error::NullCharacterNotFound, Error::NullCharacterNotFound) => true,
            (Error::EncodingError, Error::EncodingError) => true,
            (Error::InvalidHeader, Error::InvalidHeader) => true,
            (Error::InvalidTypeName, Error::InvalidTypeName) => true,
            (Error::LengthMismatch, Error::LengthMismatch) => true,
            (
                Error::OdbInitializationFailed { detail: a },
                Error::OdbInitializationFailed { detail: b },
            ) => *a == *b,
            (
                Error::NamespaceMismatch { t1: a1, t2: a2 },
                Error::NamespaceMismatch { t1: b1, t2: b2 },
            ) => *a1 == *b1 && *a2 == *b2,
            (Error::MalformedFragment(a), Error::MalformedFragment(b)) => *a == *b,
            _ => false,
        }
    }
}

impl vstd::std_specs::cmp::PartialEqSpecImpl for Error {
    open spec fn obeys_eq_spec() -> bool {
        true
    }

    open spec fn eq_spec(&self, other: &Error) -> bool {
        match (self, other) {
            (Error::InvalidZlibData, Error::InvalidZlibData) => true,
            (Error::NullCharacterNotFound, Error::NullCharacterNotFound) => true,
            (Error::EncodingError, Error::EncodingError) => true,
            (Error::InvalidHeader, Error::InvalidHeader) => true,
            (Error::InvalidTypeName, Error::InvalidTypeName) => true,
            (Error::LengthMismatch, Error::LengthMismatch) => true,
            (
                Error::OdbInitializationFailed { detail: a },
                Error::OdbInitializationFailed { detail: b },
            ) => a@ == b@,
            (
                Error::NamespaceMismatch { t1: a1, t2: a2 },
                Error::NamespaceMismatch { t1: b1, t2: b2 },
            ) => a1@ == b1@ && a2@ == b2@,
            (Error::MalformedFragment(a), Error::MalformedFragment(b)) => a@ == b@,
            _ => false,
        }
    }
}

} // verus!
