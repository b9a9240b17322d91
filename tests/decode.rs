use ceresdb_client::{
    check_header, parse_one_row, write_result_from_reply, AvroSchema, ColumnDataType, Datum,
    DecodeError, Error, QueryResponse, RecordField, ReplyHeader, Row, Schema, SchemaError,
};

fn field(name: &str, schema: AvroSchema) -> RecordField {
    RecordField { name: name.to_string(), schema }
}

fn nullable(inner: AvroSchema) -> AvroSchema {
    AvroSchema::Union(vec![AvroSchema::Null, inner])
}

fn ts_value_schema() -> AvroSchema {
    AvroSchema::Record(vec![
        field("ts", nullable(AvroSchema::TimestampMillis)),
        field("value", AvroSchema::Double),
    ])
}

fn ts_value_row(ts: u8, value: f64) -> Vec<u8> {
    // branch 1 of the union, then the zig-zag varint of `ts` (< 64), then the double
    let mut b = vec![0x02, ts * 2];
    b.extend_from_slice(&value.to_le_bytes());
    b
}

fn decode(schema: &AvroSchema, raw: &[u8]) -> Result<Vec<Datum>, DecodeError> {
    let mut row = Row::with_column_num(4);
    parse_one_row(schema, raw, &mut row).map(|()| row.datums)
}

#[test]
fn timestamp_and_double_row() {
    let schema = ts_value_schema();
    let mut raw = vec![0x02, 0xD0, 0x0F];
    raw.extend_from_slice(&3.14f64.to_le_bytes());
    let datums = decode(&schema, &raw).unwrap();
    assert_eq!(datums, vec![Datum::Timestamp(1000), Datum::Double(3.14f64.to_bits())]);
}

#[test]
fn null_branch_decodes_to_null() {
    let schema = ts_value_schema();
    let mut raw = vec![0x00];
    raw.extend_from_slice(&1.5f64.to_le_bytes());
    let datums = decode(&schema, &raw).unwrap();
    assert_eq!(datums, vec![Datum::Null, Datum::Double(1.5f64.to_bits())]);
}

#[test]
fn every_supported_kind_round_trips() {
    let schema = AvroSchema::Record(vec![
        field("n", AvroSchema::Null),
        field("b", AvroSchema::Boolean),
        field("i", AvroSchema::Int),
        field("l", AvroSchema::Long),
        field("f", AvroSchema::Float),
        field("d", AvroSchema::Double),
        field("y", AvroSchema::Bytes),
        field("s", AvroSchema::String),
        field("t", AvroSchema::TimestampMillis),
    ]);
    let mut raw = vec![0x01, 0x01, 0x96, 0x01];
    raw.extend_from_slice(&2.5f32.to_le_bytes());
    raw.extend_from_slice(&(-0.25f64).to_le_bytes());
    raw.extend_from_slice(&[0x04, 0xAB, 0xCD]);
    raw.push(0x0C);
    raw.extend_from_slice("héllo".as_bytes());
    raw.push(0x00);
    let datums = decode(&schema, &raw).unwrap();
    assert_eq!(
        datums,
        vec![
            Datum::Null,
            Datum::Boolean(true),
            Datum::Int32(-1),
            Datum::Int64(75),
            Datum::Float(2.5f32.to_bits()),
            Datum::Double((-0.25f64).to_bits()),
            Datum::Varbinary(vec![0xAB, 0xCD]),
            Datum::String("héllo".to_string()),
            Datum::Timestamp(0),
        ]
    );
}

#[test]
fn large_negative_long() {
    let schema = AvroSchema::Record(vec![field("l", AvroSchema::Long)]);
    let raw = [0xFF, 0xFF, 0xFF, 0xFF, 0xFF, 0xFF, 0xFF, 0xFF, 0xFF, 0x01];
    assert_eq!(decode(&schema, &raw).unwrap(), vec![Datum::Int64(i64::MIN)]);
}

#[test]
fn decode_errors() {
    let long = AvroSchema::Record(vec![field("l", AvroSchema::Long)]);
    assert_eq!(decode(&long, &[0x80]), Err(DecodeError::UnexpectedEof));
    assert_eq!(decode(&long, &[0xFF; 11]), Err(DecodeError::IntegerOverflow));
    let int = AvroSchema::Record(vec![field("i", AvroSchema::Int)]);
    assert_eq!(decode(&int, &[0x80, 0x80, 0x80, 0x80, 0x10]), Err(DecodeError::IntOutOfRange));
    let boolean = AvroSchema::Record(vec![field("b", AvroSchema::Boolean)]);
    assert_eq!(decode(&boolean, &[0x02]), Err(DecodeError::InvalidBool));
    let bytes = AvroSchema::Record(vec![field("y", AvroSchema::Bytes)]);
    assert_eq!(decode(&bytes, &[0x01]), Err(DecodeError::NegativeLength));
    assert_eq!(decode(&bytes, &[0x06, 0x01]), Err(DecodeError::UnexpectedEof));
    let text = AvroSchema::Record(vec![field("s", AvroSchema::String)]);
    assert_eq!(decode(&text, &[0x02, 0xFF]), Err(DecodeError::InvalidUtf8));
    let union = AvroSchema::Record(vec![field("u", nullable(AvroSchema::Long))]);
    assert_eq!(decode(&union, &[0x04, 0x00]), Err(DecodeError::InvalidUnionIndex));
    let array = AvroSchema::Record(vec![field("a", AvroSchema::Array)]);
    assert_eq!(decode(&array, &[0x00]), Err(DecodeError::UnsupportedKind));
    assert_eq!(decode(&AvroSchema::Long, &[0x00]), Err(DecodeError::NotRecord));
    let double = AvroSchema::Record(vec![field("d", AvroSchema::Double)]);
    assert_eq!(decode(&double, &[0x00; 7]), Err(DecodeError::UnexpectedEof));
}

#[test]
fn failed_row_is_left_unchanged() {
    let schema = ts_value_schema();
    let mut row = Row::with_column_num(2);
    row.datums.push(Datum::Int32(7));
    assert!(parse_one_row(&schema, &[0x02, 0x02, 0x00], &mut row).is_err());
    assert_eq!(row.datums, vec![Datum::Int32(7)]);
}

#[test]
fn column_types_resolve() {
    assert_eq!(
        ColumnDataType::try_from_avro(&AvroSchema::Int).unwrap(),
        ColumnDataType::Int32
    );
    assert_eq!(
        ColumnDataType::try_from_avro(&nullable(AvroSchema::String)).unwrap(),
        ColumnDataType::String
    );
    assert_eq!(
        ColumnDataType::try_from_avro(&AvroSchema::TimestampMillis).unwrap(),
        ColumnDataType::TimestampMillis
    );
}

#[test]
fn bad_unions_are_rejected() {
    let three = AvroSchema::Union(vec![AvroSchema::Null, AvroSchema::Long, AvroSchema::Int]);
    assert!(matches!(ColumnDataType::try_from_avro(&three), Err(SchemaError::InvalidUnion(3))));
    let first_not_null = AvroSchema::Union(vec![AvroSchema::Long, AvroSchema::Null]);
    assert!(matches!(
        ColumnDataType::try_from_avro(&first_not_null),
        Err(SchemaError::InvalidUnion(2))
    ));
    let schema = AvroSchema::Record(vec![field("u", first_not_null)]);
    let r = QueryResponse::from_reply_parts(&Some(schema), &vec![vec![0xFF]], 0);
    assert!(matches!(r, Err(Error::Schema(SchemaError::InvalidUnion(2)))));
}

#[test]
fn composite_kinds_are_rejected() {
    for s in [
        AvroSchema::Array,
        AvroSchema::StringMap,
        AvroSchema::Record(vec![]),
        AvroSchema::Enum,
        AvroSchema::Fixed,
        AvroSchema::Decimal,
        AvroSchema::Uuid,
        AvroSchema::Date,
        AvroSchema::TimeMillis,
        AvroSchema::TimeMicros,
        AvroSchema::TimestampMicros,
        AvroSchema::Duration,
        nullable(AvroSchema::Date),
    ] {
        assert!(matches!(ColumnDataType::try_from_avro(&s), Err(SchemaError::Unsupported)));
        let schema = AvroSchema::Record(vec![field("c", s)]);
        let r = QueryResponse::from_reply_parts(&Some(schema), &vec![vec![]], 0);
        assert!(matches!(r, Err(Error::Schema(SchemaError::Unsupported))));
    }
}

#[test]
fn schema_resolution() {
    let schema = Schema::try_from_avro(&ts_value_schema()).unwrap();
    assert_eq!(schema.num_cols(), 2);
    assert_eq!(schema.column_schemas[0].name, "ts");
    assert_eq!(schema.column_schemas[0].data_type, ColumnDataType::TimestampMillis);
    assert_eq!(schema.column_schemas[1].data_type, ColumnDataType::Double);
    assert_eq!(schema.col_idx("value"), Some(1));
    assert_eq!(schema.col_idx("ts"), Some(0));
    assert_eq!(schema.col_idx("missing"), None);
    assert!(matches!(Schema::try_from_avro(&AvroSchema::Long), Err(SchemaError::NotRecord)));
}

#[test]
fn empty_schema_is_an_acknowledgement() {
    let resp = QueryResponse::from_reply_parts(&None, &vec![], 5).unwrap();
    assert_eq!(resp.schema.num_cols(), 0);
    assert!(resp.rows.is_empty());
    assert_eq!(resp.affected_rows, 5);
    assert!(!resp.has_schema());
}

#[test]
fn rows_keep_input_order() {
    let rows = vec![ts_value_row(1, 1.0), ts_value_row(2, 2.0), ts_value_row(3, 3.0)];
    let resp = QueryResponse::from_reply_parts(&Some(ts_value_schema()), &rows, 9).unwrap();
    assert!(resp.has_schema());
    assert_eq!(resp.affected_rows, 0);
    assert_eq!(resp.rows.len(), 3);
    for (i, row) in resp.rows.iter().enumerate() {
        assert_eq!(row.datums.len(), resp.schema.num_cols());
        assert_eq!(row.datums[0], Datum::Timestamp(i as i64 + 1));
        assert_eq!(row.datums[1], Datum::Double((i as f64 + 1.0).to_bits()));
    }
}

#[test]
fn one_bad_row_fails_the_response() {
    let rows = vec![ts_value_row(1, 1.0), vec![0x02]];
    let r = QueryResponse::from_reply_parts(&Some(ts_value_schema()), &rows, 0);
    assert!(matches!(r, Err(Error::Decode(DecodeError::UnexpectedEof))));
}

#[test]
fn server_error_carries_code_and_message() {
    let header = ReplyHeader { code: 500, error: "overloaded".to_string() };
    match check_header(&header) {
        Err(Error::Server(e)) => {
            assert_eq!(e.code, 500);
            assert_eq!(e.msg, "overloaded");
        }
        _ => panic!("expected a server error"),
    }
    let ok = ReplyHeader { code: 200, error: String::new() };
    assert!(check_header(&ok).is_ok());
}

#[test]
fn write_result_from_ok_and_failed_replies() {
    let ok = ReplyHeader { code: 200, error: String::new() };
    let w = write_result_from_reply(&ok, vec!["cpu".to_string()], 3, 1).unwrap();
    assert_eq!(w.metrics, vec!["cpu".to_string()]);
    assert_eq!((w.success, w.failed), (3, 1));
    let bad = ReplyHeader { code: 401, error: "denied".to_string() };
    let r = write_result_from_reply(&bad, vec![], 3, 1);
    assert!(matches!(r, Err(Error::Server(e)) if e.code == 401 && e.msg == "denied"));
}
