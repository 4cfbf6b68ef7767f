use vstd::prelude::*;

verus! {

/// Ways a single field of an API object can fail to parse.
#[derive(Clone, Copy, Debug, PartialEq, Eq, Structural)]
pub enum FieldError {
    /// Exactly one of the field's accepted key spellings must be present.
    MissingField,
    /// A string-encoded integer held a non-digit or overflowed its width.
    MalformedNumber,
    /// An address or digest was not `0x`-prefixed hex of the right length.
    MalformedHex,
    /// The JSON value had the wrong shape for this field.
    UnexpectedType,
}

/// A field-level failure together with the key under which the field is
/// reported; the whole record fails atomically.
#[derive(Debug, PartialEq, Eq)]
pub struct RecordParseError {
    pub field: String,
    pub error: FieldError,
}

/// Why a whole response document was rejected; envelope parsing is
/// all-or-nothing, so one bad record fails everything.
#[derive(Debug, PartialEq, Eq)]
pub enum EnvelopeError {
    /// The response body was not JSON at all.
    MalformedJson,
    /// The top level of the document was not an object.
    UnexpectedShape,
    /// A field of the envelope itself (status, message, result) was bad.
    Envelope(RecordParseError),
    /// A record inside `result` was bad; the index names the element.
    Record(usize, RecordParseError),
}

/// Fatal outcomes of one fetch; there is no partial success and no retry.
#[derive(Debug, PartialEq, Eq)]
pub enum FetchError {
    /// The API credential was absent from configuration.
    ConfigMissing,
    /// The transport failed; all causes are collapsed into this one value.
    TransportError,
    /// The response could not be parsed.
    ParseError(EnvelopeError),
}

} // verus!
