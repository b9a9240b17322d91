//! Decoding of schema-driven binary rows into datums.
//!
//! A row is the binary encoding of a record: its fields follow one another in
//! declared order with no delimiter, so the bytes that a value takes are known
//! only by walking the schema.
use vstd::prelude::*;
use crate::avro::{AvroSchema, RecordField};
use crate::errors::DecodeError;
use crate::row::{
    column_type, datum_fits, datum_type, datums_view, primitive_type, Datum, DatumView, Row,
};

verus! {

/// The text that UTF-8 bytes spell, or `None` where they are not valid UTF-8.
pub uninterp spec fn utf8_decode(b: Seq<u8>) -> Option<Seq<char>>;

/// Relies on `String::from_utf8`: it succeeds exactly on valid UTF-8 and
/// then holds the text those bytes spell.
#[verifier::external_body]
fn utf8_string(b: Vec<u8>) -> (r: Option<String>)
    ensures
        r is Some <==> utf8_decode(b@) is Some,
        r is Some ==> r->0@ == utf8_decode(b@)->0,
{
    String::from_utf8(b).ok()
}

/// The unsigned variable-length integer that starts at `p`, read as seven
/// bits per byte, least significant group first, with `j` groups already
/// folded into `acc`. Yields the value and the position after it.
pub open spec fn varint_from(b: Seq<u8>, p: int, j: u64, acc: u64) -> Result<(u64, int), DecodeError>
    decreases 10 - j,
{
    if j > 9 {
        Err(DecodeError::IntegerOverflow)
    } else if p < 0 || p >= b.len() {
        Err(DecodeError::UnexpectedEof)
    } else {
        let byte = b[p];
        let next = acc | (((byte & 0x7f) as u64) << ((j * 7) as u64));
        if byte >> 7u8 == 0 {
            Ok((next, p + 1))
        } else {
            varint_from(b, p + 1, (j + 1) as u64, next)
        }
    }
}

/// Zig-zag decoding: even codes are non-negative, odd codes negative.
pub open spec fn unzag(z: u64) -> i64 {
    if z & 1 == 0 {
        (z >> 1u64) as i64
    } else {
        (!(z >> 1u64)) as i64
    }
}

/// The signed integer encoded at `p`, and the position after it.
pub open spec fn read_long(b: Seq<u8>, p: int) -> Result<(i64, int), DecodeError> {
    match varint_from(b, p, 0, 0) {
        Ok((z, q)) => Ok((unzag(z), q)),
        Err(e) => Err(e),
    }
}

/// Four bytes at `p`, little-endian.
pub open spec fn le_u32(b: Seq<u8>, p: int) -> u32 {
    (b[p] as u32) | ((b[p + 1] as u32) << 8u32) | ((b[p + 2] as u32) << 16u32) | ((b[p + 3] as u32)
        << 24u32)
}

/// Eight bytes at `p`, little-endian.
pub open spec fn le_u64(b: Seq<u8>, p: int) -> u64 {
    (le_u32(b, p) as u64) | ((le_u32(b, p + 4) as u64) << 32u64)
}

/// The length-prefixed byte string at `p`, and the position after it.
pub open spec fn read_bytes(b: Seq<u8>, p: int) -> Result<(Seq<u8>, int), DecodeError> {
    match read_long(b, p) {
        Ok((n, q)) => if n < 0 {
            Err(DecodeError::NegativeLength)
        } else if q + n > b.len() {
            Err(DecodeError::UnexpectedEof)
        } else {
            Ok((b.subrange(q, q + n), q + n))
        },
        Err(e) => Err(e),
    }
}

/// The datum that a value of a non-union schema node encoded at `p` decodes
/// to, and the position after it. Composite kinds are not decoded.
pub open spec fn decode_plain(s: AvroSchema, b: Seq<u8>, p: int) -> Result<(DatumView, int), DecodeError> {
    match s {
        AvroSchema::Null => Ok((DatumView::Null, p)),
        AvroSchema::Boolean => if p >= b.len() {
            Err(DecodeError::UnexpectedEof)
        } else if b[p] == 0 {
            Ok((DatumView::Boolean(false), p + 1))
        } else if b[p] == 1 {
            Ok((DatumView::Boolean(true), p + 1))
        } else {
            Err(DecodeError::InvalidBool)
        },
        AvroSchema::Int => match read_long(b, p) {
            Ok((v, q)) => if i32::MIN <= v <= i32::MAX {
                Ok((DatumView::Int32(v as i32), q))
            } else {
                Err(DecodeError::IntOutOfRange)
            },
            Err(e) => Err(e),
        },
        AvroSchema::Long => match read_long(b, p) {
            Ok((v, q)) => Ok((DatumView::Int64(v), q)),
            Err(e) => Err(e),
        },
        AvroSchema::TimestampMillis => match read_long(b, p) {
            Ok((v, q)) => Ok((DatumView::Timestamp(v), q)),
            Err(e) => Err(e),
        },
        AvroSchema::Float => if p + 4 > b.len() {
            Err(DecodeError::UnexpectedEof)
        } else {
            Ok((DatumView::Float(le_u32(b, p)), p + 4))
        },
        AvroSchema::Double => if p + 8 > b.len() {
            Err(DecodeError::UnexpectedEof)
        } else {
            Ok((DatumView::Double(le_u64(b, p)), p + 8))
        },
        AvroSchema::Bytes => match read_bytes(b, p) {
            Ok((v, q)) => Ok((DatumView::Varbinary(v), q)),
            Err(e) => Err(e),
        },
        AvroSchema::String => match read_bytes(b, p) {
            Ok((v, q)) => match utf8_decode(v) {
                Some(t) => Ok((DatumView::String(t), q)),
                None => Err(DecodeError::InvalidUtf8),
            },
            Err(e) => Err(e),
        },
        _ => Err(DecodeError::UnsupportedKind),
    }
}

/// The datum that a field value encoded at `p` decodes to: a union value is
/// its branch index followed by a value of that branch, which becomes the
/// datum itself.
pub open spec fn decode_field(s: AvroSchema, b: Seq<u8>, p: int) -> Result<(DatumView, int), DecodeError> {
    match s {
        AvroSchema::Union(branches) => match read_long(b, p) {
            Ok((i, q)) => if 0 <= i < branches@.len() {
                decode_plain(branches@[i as int], b, q)
            } else {
                Err(DecodeError::InvalidUnionIndex)
            },
            Err(e) => Err(e),
        },
        _ => decode_plain(s, b, p),
    }
}

/// The datums of the first `k` fields of a record encoded from the start of
/// `b`, and the position after them.
pub open spec fn decode_fields(fs: Seq<RecordField>, b: Seq<u8>, k: nat) -> Result<(Seq<DatumView>, int), DecodeError>
    decreases k,
{
    if k == 0 {
        Ok((Seq::empty(), 0))
    } else {
        match decode_fields(fs, b, (k - 1) as nat) {
            Ok((ds, p)) => match decode_field(fs[k - 1].schema, b, p) {
                Ok((d, q)) => Ok((ds.push(d), q)),
                Err(e) => Err(e),
            },
            Err(e) => Err(e),
        }
    }
}

/// The datums of one row encoded in `b` against a record schema.
pub open spec fn decode_row(s: AvroSchema, b: Seq<u8>) -> Result<Seq<DatumView>, DecodeError> {
    match s {
        AvroSchema::Record(fs) => match decode_fields(fs@, b, fs@.len()) {
            Ok((ds, _)) => Ok(ds),
            Err(e) => Err(e),
        },
        _ => Err(DecodeError::NotRecord),
    }
}

fn read_varint(b: &[u8], p: usize) -> (r: Result<(u64, usize), DecodeError>)
    requires
        p <= b@.len(),
    ensures
        match r {
            Ok((z, q)) => varint_from(b@, p as int, 0, 0) == Ok::<(u64, int), DecodeError>(
                (z, q as int),
            ),
            Err(e) => varint_from(b@, p as int, 0, 0) == Err::<(u64, int), DecodeError>(e),
        },
{
    let mut acc: u64 = 0;
    let mut j: u64 = 0;
    let mut q: usize = p;
    loop
        invariant
            j <= 10,
            q as int == p as int + j as int,
            varint_from(b@, p as int, 0, 0) == varint_from(b@, q as int, j, acc),
        decreases 10 - j,
    {
        if j > 9 {
            return Err(DecodeError::IntegerOverflow);
        }
        if q >= b.len() {
            return Err(DecodeError::UnexpectedEof);
        }
        let byte = b[q];
        acc = acc | (((byte & 0x7f) as u64) << (j * 7));
        if byte >> 7u8 == 0 {
            return Ok((acc, q + 1));
        }
        j = j + 1;
        q = q + 1;
    }
}

fn read_long_at(b: &[u8], p: usize) -> (r: Result<(i64, usize), DecodeError>)
    requires
        p <= b@.len(),
    ensures
        match r {
            Ok((v, q)) => read_long(b@, p as int) == Ok::<(i64, int), DecodeError>((v, q as int))
                && q <= b@.len(),
            Err(e) => read_long(b@, p as int) == Err::<(i64, int), DecodeError>(e),
        },
{
    match read_varint(b, p) {
        Ok((z, q)) => {
            proof { lemma_varint_end(b@, p as int, 0, 0); }
            let v: i64 = if z & 1 == 0 {
                (z >> 1u64) as i64
            } else {
                (!(z >> 1u64)) as i64
            };
            Ok((v, q))
        },
        Err(e) => Err(e),
    }
}

/// A successful variable-length read ends within the buffer.
proof fn lemma_varint_end(b: Seq<u8>, p: int, j: u64, acc: u64)
    ensures
        varint_from(b, p, j, acc) matches Ok((_, q)) ==> p < q <= b.len(),
    decreases 10 - j,
{
    if j <= 9 && 0 <= p < b.len() && b[p] >> 7u8 != 0 {
        lemma_varint_end(b, p + 1, (j + 1) as u64, acc | (((b[p] & 0x7f) as u64) << ((j * 7) as u64)));
    }
}

fn read_u32_le(b: &[u8], p: usize) -> (r: u32)
    requires
        p + 4 <= b@.len(),
    ensures
        r == le_u32(b@, p as int),
{
    (b[p] as u32) | ((b[p + 1] as u32) << 8u32) | ((b[p + 2] as u32) << 16u32) | ((b[p + 3] as u32)
        << 24u32)
}

fn read_bytes_at(b: &[u8], p: usize) -> (r: Result<(Vec<u8>, usize), DecodeError>)
    requires
        p <= b@.len(),
    ensures
        match r {
            Ok((v, q)) => read_bytes(b@, p as int) == Ok::<(Seq<u8>, int), DecodeError>(
                (v@, q as int),
            ) && q <= b@.len(),
            Err(e) => read_bytes(b@, p as int) == Err::<(Seq<u8>, int), DecodeError>(e),
        },
{
    let (n, q) = match read_long_at(b, p) {
        Ok(x) => x,
        Err(e) => return Err(e),
    };
    if n < 0 {
        return Err(DecodeError::NegativeLength);
    }
    if n as u64 > (b.len() - q) as u64 {
        return Err(DecodeError::UnexpectedEof);
    }
    let end: usize = q + n as usize;
    let mut v: Vec<u8> = Vec::with_capacity(n as usize);
    let mut k: usize = q;
    while k < end
        invariant
            q <= k <= end,
            end <= b@.len(),
            v@ == b@.subrange(q as int, k as int),
        decreases end - k,
    {
        v.push(b[k]);
        k = k + 1;
        proof {
            assert(v@ =~= b@.subrange(q as int, k as int));
        }
    }
    Ok((v, end))
}

/// Decodes one value of a non-union schema node starting at `p`.
fn decode_value(s: &AvroSchema, b: &[u8], p: usize) -> (r: Result<(Datum, usize), DecodeError>)
    requires
        p <= b@.len(),
    ensures
        match r {
            Ok((d, q)) => decode_plain(*s, b@, p as int) == Ok::<(DatumView, int), DecodeError>(
                (d@, q as int),
            ) && q <= b@.len(),
            Err(e) => decode_plain(*s, b@, p as int) == Err::<(DatumView, int), DecodeError>(e),
        },
{
    match s {
        AvroSchema::Null => Ok((Datum::Null, p)),
        AvroSchema::Boolean => {
            if p >= b.len() {
                Err(DecodeError::UnexpectedEof)
            } else if b[p] == 0 {
                Ok((Datum::Boolean(false), p + 1))
            } else if b[p] == 1 {
                Ok((Datum::Boolean(true), p + 1))
            } else {
                Err(DecodeError::InvalidBool)
            }
        },
        AvroSchema::Int => match read_long_at(b, p) {
            Ok((v, q)) => {
                if i32::MIN as i64 <= v && v <= i32::MAX as i64 {
                    Ok((Datum::Int32(v as i32), q))
                } else {
                    Err(DecodeError::IntOutOfRange)
                }
            },
            Err(e) => Err(e),
        },
        AvroSchema::Long => match read_long_at(b, p) {
            Ok((v, q)) => Ok((Datum::Int64(v), q)),
            Err(e) => Err(e),
        },
        AvroSchema::TimestampMillis => match read_long_at(b, p) {
            Ok((v, q)) => Ok((Datum::Timestamp(v), q)),
            Err(e) => Err(e),
        },
        AvroSchema::Float => {
            if b.len() - p < 4 {
                Err(DecodeError::UnexpectedEof)
            } else {
                Ok((Datum::Float(read_u32_le(b, p)), p + 4))
            }
        },
        AvroSchema::Double => {
            if b.len() - p < 8 {
                Err(DecodeError::UnexpectedEof)
            } else {
                let lo = read_u32_le(b, p);
                let hi = read_u32_le(b, p + 4);
                Ok((Datum::Double((lo as u64) | ((hi as u64) << 32u64)), p + 8))
            }
        },
        AvroSchema::Bytes => match read_bytes_at(b, p) {
            Ok((v, q)) => Ok((Datum::Varbinary(v), q)),
            Err(e) => Err(e),
        },
        AvroSchema::String => match read_bytes_at(b, p) {
            Ok((v, q)) => match utf8_string(v) {
                Some(t) => Ok((Datum::String(t), q)),
                None => Err(DecodeError::InvalidUtf8),
            },
            Err(e) => Err(e),
        },
        _ => Err(DecodeError::UnsupportedKind),
    }
}

/// Decodes the value of one record field starting at `p`; a union value
/// becomes the datum of the branch that it selects.
fn decode_field_at(s: &AvroSchema, b: &[u8], p: usize) -> (r: Result<(Datum, usize), DecodeError>)
    requires
        p <= b@.len(),
    ensures
        match r {
            Ok((d, q)) => decode_field(*s, b@, p as int) == Ok::<(DatumView, int), DecodeError>(
                (d@, q as int),
            ) && q <= b@.len(),
            Err(e) => decode_field(*s, b@, p as int) == Err::<(DatumView, int), DecodeError>(e),
        },
{
    match s {
        AvroSchema::Union(branches) => match read_long_at(b, p) {
            Ok((i, q)) => {
                if 0 <= i && (i as u64) < (branches.len() as u64) {
                    decode_value(&branches[i as usize], b, q)
                } else {
                    Err(DecodeError::InvalidUnionIndex)
                }
            },
            Err(e) => Err(e),
        },
        _ => decode_value(s, b, p),
    }
}

/// Once the first fields of a row fail to decode, so does the whole row.
proof fn lemma_decode_fields_err(fs: Seq<RecordField>, b: Seq<u8>, i: nat, k: nat)
    requires
        i <= k,
        decode_fields(fs, b, i) is Err,
    ensures
        decode_fields(fs, b, k) == decode_fields(fs, b, i),
    decreases k - i,
{
    if i < k {
        lemma_decode_fields_err(fs, b, i, (k - 1) as nat);
    }
}

/// Decodes one row encoded in `raw` against the record schema `schema` and
/// appends its datums to `row`, one per field in declared order. On failure
/// `row` is left as it was: no partial row is produced.
pub fn parse_one_row(schema: &AvroSchema, raw: &[u8], row: &mut Row) -> (r: Result<(), DecodeError>)
    ensures
        match r {
            Ok(()) => decode_row(*schema, raw@) is Ok && datums_view(final(row).datums@)
                == datums_view(old(row).datums@) + decode_row(*schema, raw@)->Ok_0,
            Err(e) => decode_row(*schema, raw@) == Err::<Seq<DatumView>, DecodeError>(e)
                && *final(row) == *old(row),
        },
{
    let fields = match schema {
        AvroSchema::Record(fields) => fields,
        _ => return Err(DecodeError::NotRecord),
    };
    let mut datums: Vec<Datum> = Vec::with_capacity(fields.len());
    let mut p: usize = 0;
    let mut i: usize = 0;
    proof {
        assert(datums_view(datums@) =~= Seq::<DatumView>::empty());
    }
    while i < fields.len()
        invariant
            schema->Record_0@ == fields@,
            schema is Record,
            i <= fields@.len(),
            p <= raw@.len(),
            decode_fields(fields@, raw@, i as nat) == Ok::<(Seq<DatumView>, int), DecodeError>(
                (datums_view(datums@), p as int),
            ),
        decreases fields@.len() - i,
    {
        match decode_field_at(&fields[i].schema, raw, p) {
            Ok((d, q)) => {
                proof {
                    assert(datums_view(datums@.push(d)) =~= datums_view(datums@).push(d@));
                }
                datums.push(d);
                p = q;
            },
            Err(e) => {
                proof {
                    let k = (i + 1) as nat;
                    assert(decode_fields(fields@, raw@, k) == Err::<(Seq<DatumView>, int), DecodeError>(e));
                    lemma_decode_fields_err(fields@, raw@, k, fields@.len());
                    assert(decode_fields(fields@, raw@, fields@.len()) == Err::<(Seq<DatumView>, int), DecodeError>(e));
                    assert(decode_row(*schema, raw@) == Err::<Seq<DatumView>, DecodeError>(e));
                }
                return Err(e);
            },
        }
        i = i + 1;
    }
    proof {
        assert(datums_view(row.datums@ + datums@) =~= datums_view(row.datums@) + datums_view(
            datums@,
        ));
    }
    row.datums.append(&mut datums);
    Ok(())
}

/// The variable-length encoding of `z`: seven bits per byte, least
/// significant group first, the high bit set on every byte but the last.
pub open spec fn varint_bytes(z: u64) -> Seq<u8>
    decreases z,
{
    if z < 128 {
        seq![z as u8]
    } else {
        seq![(z % 128 + 128) as u8] + varint_bytes(z / 128)
    }
}

proof fn lemma_group_facts(z: u64)
    ensures
        z % 128 == z & 0x7f,
        z / 128 == z >> 7u64,
        z < 128 ==> (z as u8) >> 7u8 == 0 && ((z as u8) & 0x7f) as u64 == z,
        ((z % 128 + 128) as u8) >> 7u8 == 1,
        (((z % 128 + 128) as u8) & 0x7f) as u64 == z % 128,
{
    assert(z % 128 == z & 0x7f) by (bit_vector);
    assert(z / 128 == z >> 7u64) by (bit_vector);
    assert(z < 128 ==> (z as u8) >> 7u8 == 0 && ((z as u8) & 0x7f) as u64 == z) by (bit_vector);
    assert(((z % 128 + 128) as u8) >> 7u8 == 1) by (bit_vector);
    assert((((z % 128 + 128) as u8) & 0x7f) as u64 == z % 128) by (bit_vector);
}

proof fn lemma_shift_split(acc: u64, z: u64, s: u64)
    requires
        s <= 56,
    ensures
        (acc | ((z & 0x7f) << s)) | ((z >> 7u64) << (s + 7) as u64) == acc | (z << s),
{
    assert((acc | ((z & 0x7f) << s)) | ((z >> 7u64) << (s + 7) as u64) == acc | (z << s))
        by (bit_vector)
        requires
            s <= 56,
    ;
}

proof fn lemma_shift_bound(acc: u64, z: u64, s: u64)
    requires
        s <= 56,
        acc < (1u64 << s),
    ensures
        (acc | ((z & 0x7f) << s)) < (1u64 << (s + 7) as u64),
{
    assert((acc | ((z & 0x7f) << s)) < (1u64 << (s + 7) as u64)) by (bit_vector)
        requires
            s <= 56,
            acc < (1u64 << s),
    ;
}

proof fn lemma_high_bound(z: u64, j: u64)
    requires
        j <= 8,
        z >> (64 - 7 * j) as u64 == 0,
    ensures
        (z >> 7u64) >> (64 - 7 * (j + 1)) as u64 == 0,
{
    let a = (64 - 7 * j) as u64;
    let b = (64 - 7 * (j + 1)) as u64;
    assert(a == b + 7);
    assert((z >> a == 0 && a == b + 7 && b <= 64) ==> (z >> 7u64) >> b == 0) by (bit_vector);
}

/// Reading the encoding of `z` from group `j` on, with the lower groups
/// already folded into `acc`, yields `z` placed above them.
proof fn lemma_varint_read(b: Seq<u8>, p: int, z: u64, j: u64, acc: u64)
    requires
        0 <= p,
        p + varint_bytes(z).len() <= b.len(),
        b.subrange(p, p + varint_bytes(z).len()) == varint_bytes(z),
        j <= 9,
        acc < (1u64 << (j * 7) as u64),
        j == 0 || z >> (64 - 7 * j) as u64 == 0,
    ensures
        varint_from(b, p, j, acc) == Ok::<(u64, int), DecodeError>(
            (acc | (z << (j * 7) as u64), p + varint_bytes(z).len()),
        ),
    decreases z,
{
    let n = varint_bytes(z).len();
    assert(b[p] == varint_bytes(z)[0]);
    lemma_group_facts(z);
    if z < 128 {
        assert(z & 0x7f == z);
    } else {
        let z2 = z / 128;
        let s = (j * 7) as u64;
        if j == 9 {
            assert(z >> 1u64 == 0 ==> z < 128) by (bit_vector);
        }
        assert(j <= 8);
        let next = acc | ((z & 0x7f) << s);
        lemma_shift_bound(acc, z, s);
        lemma_shift_split(acc, z, s);
        if j == 0 {
            assert(z >> 7u64 >> 57u64 == 0) by (bit_vector);
        } else {
            lemma_high_bound(z, j);
        }
        let tail = varint_bytes(z2);
        assert(varint_bytes(z) == seq![(z % 128 + 128) as u8] + tail);
        assert(b.subrange(p + 1, p + 1 + tail.len()) =~= tail) by {
            assert forall|k: int| 0 <= k < tail.len() implies b.subrange(p + 1, p + 1 + tail.len())[k]
                == tail[k] by {
                assert(b.subrange(p, p + n)[k + 1] == varint_bytes(z)[k + 1]);
            }
        }
        assert(((j + 1) * 7) as u64 == (s + 7) as u64);
        lemma_varint_read(b, p + 1, z2, (j + 1) as u64, next);
    }
}

/// Zig-zag encoding: `v` at even codes when non-negative, odd codes when
/// negative.
pub open spec fn zig(v: i64) -> u64 {
    if v >= 0 {
        (2 * v) as u64
    } else {
        (2 * (-(v + 1)) + 1) as u64
    }
}

/// Zig-zag decoding undoes zig-zag encoding.
pub proof fn lemma_unzag_zig(v: i64)
    ensures
        unzag(zig(v)) == v,
{
    let m: u64 = if v >= 0 { v as u64 } else { (-(v + 1)) as u64 };
    assert(m < 0x8000_0000_0000_0000u64 ==> ((2 * m) as u64) & 1 == 0 && ((2 * m) as u64) >> 1u64 == m
        && ((2 * m + 1) as u64) & 1 == 1 && ((2 * m + 1) as u64) >> 1u64 == m
        && !m == (0xFFFF_FFFF_FFFF_FFFFu64 - m) as u64) by (bit_vector);
    if v < 0 {
        assert(v < 0 ==> (!((-(v + 1)) as u64)) as i64 == v) by (bit_vector);
    }
}

/// Reading the encoding of `v` yields `v`.
proof fn lemma_read_long_encoded(b: Seq<u8>, p: int, v: i64)
    requires
        0 <= p,
        p + varint_bytes(zig(v)).len() <= b.len(),
        b.subrange(p, p + varint_bytes(zig(v)).len()) == varint_bytes(zig(v)),
    ensures
        read_long(b, p) == Ok::<(i64, int), DecodeError>((v, p + varint_bytes(zig(v)).len())),
{
    let z = zig(v);
    assert(1u64 << 0u64 == 1) by (bit_vector);
    assert(0u64 | (z << 0u64) == z) by (bit_vector);
    lemma_varint_read(b, p, z, 0, 0);
    lemma_unzag_zig(v);
}

/// Four bytes of `x`, little-endian.
pub open spec fn le_bytes32(x: u32) -> Seq<u8> {
    seq![x as u8, (x >> 8u32) as u8, (x >> 16u32) as u8, (x >> 24u32) as u8]
}

proof fn lemma_split(b: Seq<u8>, p: int, x: Seq<u8>, y: Seq<u8>)
    requires
        0 <= p,
        p + x.len() + y.len() <= b.len(),
        b.subrange(p, p + x.len() + y.len()) == x + y,
    ensures
        b.subrange(p, p + x.len()) == x,
        b.subrange(p + x.len(), p + x.len() + y.len()) == y,
{
    assert forall|k: int| 0 <= k < x.len() implies b.subrange(p, p + x.len())[k] == x[k] by {
        assert(b.subrange(p, p + x.len() + y.len())[k] == (x + y)[k]);
    }
    assert forall|k: int| 0 <= k < y.len() implies b.subrange(
        p + x.len(),
        p + x.len() + y.len(),
    )[k] == y[k] by {
        assert(b.subrange(p, p + x.len() + y.len())[x.len() + k] == (x + y)[x.len() + k]);
        assert(b.subrange(p, p + x.len() + y.len())[x.len() + k] == b[p + x.len() + k]);
        assert((x + y)[x.len() + k] == y[k]);
    }
    assert(b.subrange(p, p + x.len()) =~= x);
    assert(b.subrange(p + x.len(), p + x.len() + y.len()) =~= y);
}

proof fn lemma_le_u32_encoded(b: Seq<u8>, p: int, x: u32)
    requires
        0 <= p,
        p + 4 <= b.len(),
        b.subrange(p, p + 4) == le_bytes32(x),
    ensures
        le_u32(b, p) == x,
{
    assert(b[p] == b.subrange(p, p + 4)[0]);
    assert(b[p + 1] == b.subrange(p, p + 4)[1]);
    assert(b[p + 2] == b.subrange(p, p + 4)[2]);
    assert(b[p + 3] == b.subrange(p, p + 4)[3]);
    assert(((x as u8) as u32) | ((((x >> 8u32) as u8) as u32) << 8u32) | ((((x >> 16u32) as u8)
        as u32) << 16u32) | ((((x >> 24u32) as u8) as u32) << 24u32) == x) by (bit_vector);
}

/// The encoding of a datum value on the wire. Text is left out: its bytes
/// are whatever UTF-8 spells it.
pub open spec fn encode_datum(d: DatumView) -> Seq<u8> {
    match d {
        DatumView::Null => Seq::empty(),
        DatumView::Boolean(v) => seq![if v { 1u8 } else { 0u8 }],
        DatumView::Int32(v) => varint_bytes(zig(v as i64)),
        DatumView::Int64(v) => varint_bytes(zig(v)),
        DatumView::Timestamp(v) => varint_bytes(zig(v)),
        DatumView::Float(x) => le_bytes32(x),
        DatumView::Double(x) => le_bytes32(x as u32) + le_bytes32((x >> 32u64) as u32),
        DatumView::Varbinary(v) => varint_bytes(zig(v.len() as i64)) + v,
        DatumView::String(_) => Seq::empty(),
    }
}

/// Decoding the encoding of a datum value, against a schema node of the
/// datum's kind, gives back that datum and consumes exactly its bytes.
pub proof fn lemma_decode_round_trip(s: AvroSchema, d: DatumView, b: Seq<u8>, p: int)
    requires
        primitive_type(s) == Some(datum_type(d)),
        !(d is String),
        d matches DatumView::Varbinary(v) ==> v.len() <= i64::MAX,
        0 <= p,
        p + encode_datum(d).len() <= b.len(),
        b.subrange(p, p + encode_datum(d).len()) == encode_datum(d),
    ensures
        decode_plain(s, b, p) == Ok::<(DatumView, int), DecodeError>(
            (d, p + encode_datum(d).len()),
        ),
{
    let e = encode_datum(d);
    match d {
        DatumView::Boolean(_) => {
            assert(b[p] == e[0]);
        },
        DatumView::Int32(v) => {
            lemma_read_long_encoded(b, p, v as i64);
        },
        DatumView::Int64(v) => {
            lemma_read_long_encoded(b, p, v);
        },
        DatumView::Timestamp(v) => {
            lemma_read_long_encoded(b, p, v);
        },
        DatumView::Float(x) => {
            lemma_le_u32_encoded(b, p, x);
        },
        DatumView::Double(x) => {
            lemma_split(b, p, le_bytes32(x as u32), le_bytes32((x >> 32u64) as u32));
            lemma_le_u32_encoded(b, p, x as u32);
            lemma_le_u32_encoded(b, p + 4, (x >> 32u64) as u32);
            assert((((x as u32) as u64) | ((((x >> 32u64) as u32) as u64) << 32u64)) == x)
                by (bit_vector);
        },
        DatumView::Varbinary(v) => {
            let n = v.len() as i64;
            let pre = varint_bytes(zig(n));
            lemma_split(b, p, pre, v);
            lemma_read_long_encoded(b, p, n);
        },
        _ => {},
    }
}

/// Decoding length-prefixed UTF-8 bytes against a text schema node gives back
/// the text they spell.
pub proof fn lemma_decode_text_round_trip(b: Seq<u8>, p: int, u: Seq<u8>, t: Seq<char>)
    requires
        utf8_decode(u) == Some(t),
        u.len() <= i64::MAX,
        0 <= p,
        p + varint_bytes(zig(u.len() as i64)).len() + u.len() <= b.len(),
        b.subrange(p, p + varint_bytes(zig(u.len() as i64)).len() + u.len()) == varint_bytes(
            zig(u.len() as i64),
        ) + u,
    ensures
        decode_plain(AvroSchema::String, b, p) == Ok::<(DatumView, int), DecodeError>(
            (DatumView::String(t), p + varint_bytes(zig(u.len() as i64)).len() + u.len()),
        ),
{
    let pre = varint_bytes(zig(u.len() as i64));
    lemma_split(b, p, pre, u);
    lemma_read_long_encoded(b, p, u.len() as i64);
}

/// The encoding of a field value: a nullable field first names its branch,
/// null or value.
pub open spec fn encode_field(field: AvroSchema, d: DatumView) -> Seq<u8> {
    if field is Union {
        varint_bytes(zig(if d is Null { 0 } else { 1 })) + encode_datum(d)
    } else {
        encode_datum(d)
    }
}

/// Decoding the encoding of a field value that fits the field gives back the
/// datum and consumes exactly its bytes.
pub proof fn lemma_decode_field_round_trip(field: AvroSchema, d: DatumView, b: Seq<u8>, p: int)
    requires
        column_type(field) is Some,
        datum_fits(d, field),
        !(d is String),
        d matches DatumView::Varbinary(v) ==> v.len() <= i64::MAX,
        0 <= p,
        p + encode_field(field, d).len() <= b.len(),
        b.subrange(p, p + encode_field(field, d).len()) == encode_field(field, d),
    ensures
        decode_field(field, b, p) == Ok::<(DatumView, int), DecodeError>(
            (d, p + encode_field(field, d).len()),
        ),
{
    if let AvroSchema::Union(branches) = field {
        let i: i64 = if d is Null { 0 } else { 1 };
        let pre = varint_bytes(zig(i));
        lemma_split(b, p, pre, encode_datum(d));
        lemma_read_long_encoded(b, p, i);
        lemma_decode_round_trip(branches@[i as int], d, b, p + pre.len());
    } else {
        lemma_decode_round_trip(field, d, b, p);
    }
}

} // verus!
