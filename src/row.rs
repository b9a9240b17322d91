//! The tabular model: column kinds, schemas, datums, rows and responses.
use vstd::prelude::*;
use crate::avro::{AvroSchema, RecordField};
use crate::convert::{decode_field, decode_fields, decode_row, parse_one_row};
use crate::errors::{Error, SchemaError};

verus! {

/// One decoded cell value.
///
/// Floating-point cells hold the IEEE-754 bit pattern of the value, exactly
/// as it was read from the wire.
#[derive(Clone, Debug, PartialEq, Eq)]
pub enum Datum {
    Null,
    /// Milliseconds since the Unix epoch.
    Timestamp(i64),
    /// Bits of a 64-bit float.
    Double(u64),
    /// Bits of a 32-bit float.
    Float(u32),
    Varbinary(Vec<u8>),
    String(String),
    /// Unsigned 64-bit values sent by the server arrive here too: the wire
    /// format has no unsigned kind, so values above the signed range read as
    /// negative numbers.
    Int64(i64),
    Int32(i32),
    Boolean(bool),
}

/// The mathematical value of a `Datum`.
pub enum DatumView {
    Null,
    Timestamp(i64),
    Double(u64),
    Float(u32),
    Varbinary(Seq<u8>),
    String(Seq<char>),
    Int64(i64),
    Int32(i32),
    Boolean(bool),
}

impl View for Datum {
    type V = DatumView;

    open spec fn view(&self) -> DatumView {
        match self {
            Datum::Null => DatumView::Null,
            Datum::Timestamp(v) => DatumView::Timestamp(*v),
            Datum::Double(v) => DatumView::Double(*v),
            Datum::Float(v) => DatumView::Float(*v),
            Datum::Varbinary(v) => DatumView::Varbinary(v@),
            Datum::String(v) => DatumView::String(v@),
            Datum::Int64(v) => DatumView::Int64(*v),
            Datum::Int32(v) => DatumView::Int32(*v),
            Datum::Boolean(v) => DatumView::Boolean(*v),
        }
    }
}

/// The values of a sequence of datums.
pub open spec fn datums_view(ds: Seq<Datum>) -> Seq<DatumView> {
    ds.map_values(|d: Datum| d@)
}

/// The supported column kinds.
#[derive(Clone, Copy, Debug, PartialEq, Eq, Structural)]
pub enum ColumnDataType {
    Null,
    TimestampMillis,
    Double,
    Float,
    Bytes,
    String,
    Int64,
    Int32,
    Boolean,
}

/// The kind of a primitive (non-union) schema node, if it is supported.
pub open spec fn primitive_type(s: AvroSchema) -> Option<ColumnDataType> {
    match s {
        AvroSchema::Null => Some(ColumnDataType::Null),
        AvroSchema::Boolean => Some(ColumnDataType::Boolean),
        AvroSchema::Int => Some(ColumnDataType::Int32),
        AvroSchema::Long => Some(ColumnDataType::Int64),
        AvroSchema::Float => Some(ColumnDataType::Float),
        AvroSchema::Double => Some(ColumnDataType::Double),
        AvroSchema::Bytes => Some(ColumnDataType::Bytes),
        AvroSchema::String => Some(ColumnDataType::String),
        AvroSchema::TimestampMillis => Some(ColumnDataType::TimestampMillis),
        _ => None,
    }
}

/// Whether a union is the nullable shape: two branches, null first.
pub open spec fn is_nullable_union(branches: Seq<AvroSchema>) -> bool {
    branches.len() == 2 && branches[0] is Null
}

/// The column kind of a field schema: a supported primitive maps to its kind,
/// a nullable union to the kind of its second branch; anything else has none.
pub open spec fn column_type(s: AvroSchema) -> Option<ColumnDataType> {
    match s {
        AvroSchema::Union(branches) => if is_nullable_union(branches@) {
            primitive_type(branches@[1])
        } else {
            None
        },
        _ => primitive_type(s),
    }
}

/// The kind that a datum value carries.
pub open spec fn datum_type(d: DatumView) -> ColumnDataType {
    match d {
        DatumView::Null => ColumnDataType::Null,
        DatumView::Timestamp(_) => ColumnDataType::TimestampMillis,
        DatumView::Double(_) => ColumnDataType::Double,
        DatumView::Float(_) => ColumnDataType::Float,
        DatumView::Varbinary(_) => ColumnDataType::Bytes,
        DatumView::String(_) => ColumnDataType::String,
        DatumView::Int64(_) => ColumnDataType::Int64,
        DatumView::Int32(_) => ColumnDataType::Int32,
        DatumView::Boolean(_) => ColumnDataType::Boolean,
    }
}

fn primitive_from_avro(schema: &AvroSchema) -> (r: Option<ColumnDataType>)
    ensures
        r == primitive_type(*schema),
{
    match schema {
        AvroSchema::Null => Some(ColumnDataType::Null),
        AvroSchema::Boolean => Some(ColumnDataType::Boolean),
        AvroSchema::Int => Some(ColumnDataType::Int32),
        AvroSchema::Long => Some(ColumnDataType::Int64),
        AvroSchema::Float => Some(ColumnDataType::Float),
        AvroSchema::Double => Some(ColumnDataType::Double),
        AvroSchema::Bytes => Some(ColumnDataType::Bytes),
        AvroSchema::String => Some(ColumnDataType::String),
        AvroSchema::TimestampMillis => Some(ColumnDataType::TimestampMillis),
        _ => None,
    }
}

impl ColumnDataType {
    /// Resolves the column kind of one field schema.
    ///
    /// A union that is not the nullable shape is rejected with
    /// `InvalidUnion`; every other unsupported node with `Unsupported`.
    pub fn try_from_avro(schema: &AvroSchema) -> (r: Result<ColumnDataType, SchemaError>)
        ensures
            r is Ok <==> column_type(*schema) is Some,
            r is Ok ==> r->Ok_0 == column_type(*schema)->0,
            r matches Err(SchemaError::InvalidUnion(_)) <==> (schema is Union
                && !is_nullable_union(schema->Union_0@)),
    {
        match schema {
            AvroSchema::Union(branches) => {
                if branches.len() != 2 {
                    return Err(SchemaError::InvalidUnion(branches.len()));
                }
                match &branches[0] {
                    AvroSchema::Null => {},
                    _ => {
                        return Err(SchemaError::InvalidUnion(2));
                    },
                }
                match primitive_from_avro(&branches[1]) {
                    Some(t) => Ok(t),
                    None => Err(SchemaError::Unsupported),
                }
            },
            _ => match primitive_from_avro(schema) {
                Some(t) => Ok(t),
                None => Err(SchemaError::Unsupported),
            },
        }
    }
}

/// One decoded row: a datum per column, in column order.
#[derive(Clone, Debug)]
pub struct Row {
    pub datums: Vec<Datum>,
}

impl Row {
    /// An empty row with room for `n` datums.
    pub fn with_column_num(n: usize) -> (r: Row)
        ensures
            r.datums@.len() == 0,
    {
        Row { datums: Vec::with_capacity(n) }
    }
}

/// The name and kind of one column.
#[derive(Clone, Debug)]
pub struct ColumnSchema {
    pub data_type: ColumnDataType,
    pub name: String,
}

/// The columns of a response, in order. A column's index is found by its
/// name; names are unique within a schema.
#[derive(Clone, Debug)]
pub struct Schema {
    pub column_schemas: Vec<ColumnSchema>,
}

/// Whether a structural schema is a record whose every field resolves to a
/// supported column kind.
pub open spec fn schema_resolves(s: AvroSchema) -> bool {
    &&& s is Record
    &&& forall|i: int|
        0 <= i < s->Record_0@.len() ==> (#[trigger] column_type(s->Record_0@[i].schema)) is Some
}

/// Whether `cs` lists, in order, the name and resolved kind of each field.
pub open spec fn columns_of(cs: Seq<ColumnSchema>, fs: Seq<RecordField>) -> bool {
    &&& cs.len() == fs.len()
    &&& forall|i: int|
        0 <= i < cs.len() ==> (#[trigger] cs[i]).name@ == fs[i].name@ && cs[i].data_type
            == column_type(fs[i].schema)->0
}

impl Default for Schema {
    fn default() -> (r: Schema)
        ensures
            r.column_schemas@.len() == 0,
    {
        Schema { column_schemas: Vec::new() }
    }
}

impl Schema {
    /// The number of columns.
    pub fn num_cols(&self) -> (r: usize)
        ensures
            r == self.column_schemas@.len(),
    {
        self.column_schemas.len()
    }

    /// The index of the first column named `name`, if any.
    pub fn col_idx(&self, name: &str) -> (r: Option<usize>)
        ensures
            match r {
                Some(i) => i < self.column_schemas@.len() && self.column_schemas@[i as int].name@
                    == name@ && forall|j: int|
                    0 <= j < i ==> (#[trigger] self.column_schemas@[j]).name@ != name@,
                None => forall|j: int|
                    0 <= j < self.column_schemas@.len() ==> (#[trigger] self.column_schemas@[j]).name@
                        != name@,
            },
    {
        let key = name.to_owned();
        let mut i: usize = 0;
        while i < self.column_schemas.len()
            invariant
                i <= self.column_schemas@.len(),
                key@ == name@,
                forall|j: int| 0 <= j < i ==> (#[trigger] self.column_schemas@[j]).name@ != name@,
            decreases self.column_schemas@.len() - i,
        {
            if self.column_schemas[i].name == key {
                return Some(i);
            }
            i = i + 1;
        }
        None
    }

    /// Builds the column list of a record schema, resolving each field's kind
    /// in declared order.
    pub fn try_from_avro(avro_schema: &AvroSchema) -> (r: Result<Schema, SchemaError>)
        ensures
            r is Ok <==> schema_resolves(*avro_schema),
            r is Ok ==> columns_of(r->Ok_0.column_schemas@, avro_schema->Record_0@),
            !(avro_schema is Record) ==> r matches Err(SchemaError::NotRecord),
    {
        let fields = match avro_schema {
            AvroSchema::Record(fields) => fields,
            _ => return Err(SchemaError::NotRecord),
        };
        let mut column_schemas: Vec<ColumnSchema> = Vec::with_capacity(fields.len());
        let mut i: usize = 0;
        while i < fields.len()
            invariant
                avro_schema is Record,
                avro_schema->Record_0@ == fields@,
                i <= fields@.len(),
                column_schemas@.len() == i,
                forall|j: int| 0 <= j < i ==> (#[trigger] column_type(fields@[j].schema)) is Some,
                forall|j: int|
                    0 <= j < i ==> (#[trigger] column_schemas@[j]).name@ == fields@[j].name@
                        && column_schemas@[j].data_type == column_type(fields@[j].schema)->0,
            decreases fields@.len() - i,
        {
            let data_type = match ColumnDataType::try_from_avro(&fields[i].schema) {
                Ok(t) => t,
                Err(e) => return Err(e),
            };
            column_schemas.push(ColumnSchema { data_type, name: fields[i].name.clone() });
            i = i + 1;
        }
        Ok(Schema { column_schemas })
    }
}

/// The result of a query.
///
/// A response without columns acknowledges a write or a definition
/// statement and carries the number of affected rows; otherwise it carries
/// the decoded rows.
#[derive(Clone, Debug)]
pub struct QueryResponse {
    pub schema: Schema,
    pub rows: Vec<Row>,
    pub affected_rows: u32,
}

/// Whether a schema node is of a composite or otherwise unsupported kind.
pub open spec fn is_composite(s: AvroSchema) -> bool {
    match s {
        AvroSchema::Array | AvroSchema::StringMap | AvroSchema::Record(_) | AvroSchema::Enum
        | AvroSchema::Fixed | AvroSchema::Decimal | AvroSchema::Uuid | AvroSchema::Date
        | AvroSchema::TimeMillis | AvroSchema::TimeMicros | AvroSchema::TimestampMicros
        | AvroSchema::Duration => true,
        _ => false,
    }
}

/// Whether a datum value fits a field: it carries the field's kind, or it is
/// the null of a nullable field.
pub open spec fn datum_fits(d: DatumView, field: AvroSchema) -> bool {
    datum_type(d) == column_type(field)->0 || (d is Null && field is Union)
}

/// A union that is not two branches with null first makes a record schema
/// unresolvable, so a reply with it fails on its schema whatever its rows.
pub proof fn lemma_invalid_union_rejected(s: AvroSchema, i: int)
    requires
        s is Record,
        0 <= i < s->Record_0@.len(),
        s->Record_0@[i].schema is Union,
        !is_nullable_union(s->Record_0@[i].schema->Union_0@),
    ensures
        column_type(s->Record_0@[i].schema) is None,
        !schema_resolves(s),
{
}

/// A field of a composite kind, bare or as the value branch of a nullable
/// union, makes a record schema unresolvable: it is rejected when the schema
/// is resolved, before any row is decoded.
pub proof fn lemma_composite_rejected(s: AvroSchema, i: int)
    requires
        s is Record,
        0 <= i < s->Record_0@.len(),
        is_composite(s->Record_0@[i].schema) || (s->Record_0@[i].schema is Union
            && is_nullable_union(s->Record_0@[i].schema->Union_0@) && is_composite(
            s->Record_0@[i].schema->Union_0@[1],
        )),
    ensures
        column_type(s->Record_0@[i].schema) is None,
        !schema_resolves(s),
{
}

/// A field value of a supported kind decodes to a datum of that kind, or to
/// null where the field is nullable.
pub proof fn lemma_decode_preserves_kind(field: AvroSchema, b: Seq<u8>, p: int)
    requires
        column_type(field) is Some,
        decode_field(field, b, p) is Ok,
    ensures
        datum_fits(decode_field(field, b, p)->Ok_0.0, field),
{
}

/// Every datum of a row decoded against a resolvable schema fits its field.
pub proof fn lemma_row_kinds(s: AvroSchema, b: Seq<u8>)
    requires
        schema_resolves(s),
        decode_row(s, b) is Ok,
    ensures
        forall|i: int|
            0 <= i < s->Record_0@.len() ==> datum_fits(
                #[trigger] decode_row(s, b)->Ok_0[i],
                s->Record_0@[i].schema,
            ),
{
    lemma_fields_kinds(s, b, s->Record_0@.len());
}

proof fn lemma_fields_kinds(s: AvroSchema, b: Seq<u8>, k: nat)
    requires
        schema_resolves(s),
        k <= s->Record_0@.len(),
    ensures
        decode_fields(s->Record_0@, b, k) matches Ok((ds, _)) ==> ds.len() == k && forall|i: int|
            0 <= i < k ==> datum_fits(#[trigger] ds[i], s->Record_0@[i].schema),
    decreases k,
{
    if k > 0 {
        let fs = s->Record_0@;
        lemma_fields_kinds(s, b, (k - 1) as nat);
        if let Ok((ds, p)) = decode_fields(fs, b, (k - 1) as nat) {
            if decode_field(fs[k - 1].schema, b, p) is Ok {
                assert(column_type(fs[k - 1].schema) is Some);
                lemma_decode_preserves_kind(fs[k - 1].schema, b, p);
            }
        }
    }
}

/// Every decoded row has one datum per record field.
pub proof fn lemma_decoded_row_width(s: AvroSchema, b: Seq<u8>)
    requires
        decode_row(s, b) is Ok,
    ensures
        s is Record,
        decode_row(s, b)->Ok_0.len() == s->Record_0@.len(),
{
    lemma_decode_fields_len(s->Record_0@, b, s->Record_0@.len());
}

proof fn lemma_decode_fields_len(fs: Seq<RecordField>, b: Seq<u8>, k: nat)
    ensures
        decode_fields(fs, b, k) is Ok ==> decode_fields(fs, b, k)->Ok_0.0.len() == k,
    decreases k,
{
    if k > 0 {
        lemma_decode_fields_len(fs, b, (k - 1) as nat);
    }
}

impl QueryResponse {
    /// A response over `schema` with room for `n` rows and no affected rows.
    pub fn with_capacity(schema: Schema, n: usize) -> (r: QueryResponse)
        ensures
            r.schema == schema,
            r.rows@.len() == 0,
            r.affected_rows == 0,
    {
        QueryResponse { schema, affected_rows: 0, rows: Vec::with_capacity(n) }
    }

    /// Whether the response has columns.
    pub fn has_schema(&self) -> (r: bool)
        ensures
            r == (self.schema.column_schemas@.len() > 0),
    {
        self.column_count() > 0
    }

    fn column_count(&self) -> (r: usize)
        ensures
            r == self.schema.column_schemas@.len(),
    {
        self.schema.num_cols()
    }

    /// Assembles a response from the parts of an ok reply.
    ///
    /// `structural` is the parsed schema of the reply, or `None` when the reply
    /// carried no schema text; `rows` are the encoded rows, in order. With no
    /// schema the response is an acknowledgement carrying `affected_rows`.
    /// Otherwise the schema is resolved once and every row is decoded against
    /// it; the first failure fails the whole assembly.
    pub fn from_reply_parts(structural: &Option<AvroSchema>, rows: &Vec<Vec<u8>>, affected_rows: u32) -> (r: Result<QueryResponse, Error>)
        ensures
            *structural is None ==> (r matches Ok(resp) && resp.schema.column_schemas@.len() == 0
                && resp.rows@.len() == 0 && resp.affected_rows == affected_rows),
            *structural matches Some(s) ==> {
                &&& r is Ok <==> (schema_resolves(s) && forall|i: int|
                    0 <= i < rows@.len() ==> (#[trigger] decode_row(s, rows@[i]@)) is Ok)
                &&& (r matches Err(Error::Schema(_))) <==> !schema_resolves(s)
                &&& r matches Ok(resp) ==> {
                    &&& columns_of(resp.schema.column_schemas@, s->Record_0@)
                    &&& resp.rows@.len() == rows@.len()
                    &&& forall|i: int|
                        0 <= i < rows@.len() ==> datums_view((#[trigger] resp.rows@[i]).datums@)
                            == decode_row(s, rows@[i]@)->Ok_0
                            && resp.rows@[i].datums@.len() == resp.schema.column_schemas@.len()
                    &&& resp.affected_rows == 0
                }
            },
    {
        let s = match structural {
            None => {
                return Ok(
                    QueryResponse { schema: Schema::default(), rows: Vec::new(), affected_rows },
                );
            },
            Some(s) => s,
        };
        let schema = match Schema::try_from_avro(s) {
            Ok(schema) => schema,
            Err(e) => return Err(Error::Schema(e)),
        };
        let mut resp = QueryResponse::with_capacity(schema, rows.len());
        let mut i: usize = 0;
        while i < rows.len()
            invariant
                *structural == Some(*s),
                schema_resolves(*s),
                columns_of(resp.schema.column_schemas@, s->Record_0@),
                resp.affected_rows == 0,
                i <= rows@.len(),
                resp.rows@.len() == i,
                forall|j: int| 0 <= j < i ==> (#[trigger] decode_row(*s, rows@[j]@)) is Ok,
                forall|j: int|
                    0 <= j < i ==> datums_view((#[trigger] resp.rows@[j]).datums@) == decode_row(
                        *s,
                        rows@[j]@,
                    )->Ok_0 && resp.rows@[j].datums@.len() == resp.schema.column_schemas@.len(),
            decreases rows@.len() - i,
        {
            let mut row = Row::with_column_num(resp.column_count());
            match parse_one_row(s, rows[i].as_slice(), &mut row) {
                Ok(()) => {},
                Err(e) => return Err(Error::Decode(e)),
            }
            proof {
                assert(datums_view(row.datums@) =~= decode_row(*s, rows@[i as int]@)->Ok_0);
                lemma_decoded_row_width(*s, rows@[i as int]@);
                assert(row.datums@.len() == datums_view(row.datums@).len());
            }
            resp.rows.push(row);
            i = i + 1;
        }
        Ok(resp)
    }
}

} // verus!
