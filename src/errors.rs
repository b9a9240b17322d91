//! The single error domain of the client.
use vstd::prelude::*;

verus! {

/// The status code that a reply header carries when the call succeeded.
pub const OK_CODE: u32 = 200;

/// Whether a reply header code reports success.
pub fn is_ok(code: u32) -> (r: bool)
    ensures
        r == (code == OK_CODE),
{
    code == OK_CODE
}

/// A malformed or unsupported schema.
#[derive(Clone, Debug)]
pub enum SchemaError {
    /// Schema text that does not parse; carries the parser's message.
    Malformed(String),
    /// The top level of the schema is not a record.
    NotRecord,
    /// A union that does not have exactly two branches with null first;
    /// carries the number of branches it has.
    InvalidUnion(usize),
    /// A composite kind, or any kind outside the supported set.
    Unsupported,
}

/// Row bytes that are inconsistent with the structural schema.
#[derive(Clone, Copy, Debug, PartialEq, Eq)]
pub enum DecodeError {
    /// The buffer ended in the middle of a value.
    UnexpectedEof,
    /// A variable-length integer longer than ten bytes.
    IntegerOverflow,
    /// A 32-bit integer value out of range.
    IntOutOfRange,
    /// A boolean byte other than 0 or 1.
    InvalidBool,
    /// A negative length prefix.
    NegativeLength,
    /// Text bytes that are not valid UTF-8.
    InvalidUtf8,
    /// A union branch index outside the union.
    InvalidUnionIndex,
    /// A composite or otherwise unsupported kind met while decoding.
    UnsupportedKind,
    /// The structural schema of a row is not a record.
    NotRecord,
}

/// An application-level failure reported by the server.
#[derive(Clone, Debug)]
pub struct ServerError {
    pub code: u32,
    pub msg: String,
}

/// Every failure that a public operation of the client can report.
#[derive(Clone, Debug)]
pub enum Error {
    Schema(SchemaError),
    Decode(DecodeError),
    Server(ServerError),
    /// A transport, timeout or metadata-construction failure.
    Client(String),
}

} // verus!
