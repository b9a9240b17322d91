//! The structural (wire) schema that describes how a row is encoded.
use vstd::prelude::*;

verus! {

/// One node of a structural schema, as received from the server.
///
/// Composite kinds carry no detail: this library only needs to know that they
/// are present in order to reject them.
#[derive(Debug)]
pub enum AvroSchema {
    Null,
    Boolean,
    Int,
    Long,
    Float,
    Double,
    Bytes,
    String,
    TimestampMillis,
    /// A union of the listed branches, in declared order.
    Union(Vec<AvroSchema>),
    /// A record with its fields in declared order.
    Record(Vec<RecordField>),
    Array,
    /// A map from strings to values.
    StringMap,
    Enum,
    Fixed,
    Decimal,
    Uuid,
    Date,
    TimeMillis,
    TimeMicros,
    TimestampMicros,
    Duration,
}

/// A named field of a record schema.
#[derive(Debug)]
pub struct RecordField {
    pub name: String,
    pub schema: AvroSchema,
}

} // verus!
