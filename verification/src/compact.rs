//! Writing the records of page headers in Thrift's compact protocol.
//!
//! A record is a list of numbered fields. A field starts with a byte that holds its type and the
//! distance of its number from that of the field before it; a boolean is part of that byte. The
//! list ends with a zero byte.
use thrift::protocol::{TCompactOutputProtocol, TFieldIdentifier, TOutputProtocol, TType};
use vstd::prelude::*;

use crate::errors::ParquetError;

verus! {

/// A value in a record.
pub enum CompactValue {
    Bool(bool),
    I32(i32),
    I64(i64),
    Binary(Seq<u8>),
    Struct(Seq<CompactField>),
}

/// A field of a record.
pub struct CompactField {
    pub id: int,
    pub value: CompactValue,
}

/// `n` in groups of seven bits, least significant first; every byte but the last has its top bit
/// set.
pub open spec fn varint(n: nat) -> Seq<u8>
    decreases n,
{
    if n < 128 {
        seq![n as u8]
    } else {
        seq![(n % 128 + 128) as u8] + varint(n / 128)
    }
}

/// The numbers 0, -1, 1, -2, 2 and so on, counted from zero.
pub open spec fn zigzag(i: int) -> nat {
    if i >= 0 {
        (2 * i) as nat
    } else {
        (-2 * i - 1) as nat
    }
}

/// The number that stands for the type of a value. That of a boolean holds the value.
pub open spec fn type_code(v: CompactValue) -> int {
    match v {
        CompactValue::Bool(b) => if b {
            1
        } else {
            2
        },
        CompactValue::I32(_) => 5,
        CompactValue::I64(_) => 6,
        CompactValue::Binary(_) => 8,
        CompactValue::Struct(_) => 12,
    }
}

/// The bytes of a value behind the start of its field.
pub open spec fn encode_value(v: CompactValue) -> Seq<u8>
    decreases v,
{
    match v {
        CompactValue::Bool(_) => Seq::empty(),
        CompactValue::I32(i) => varint(zigzag(i as int)),
        CompactValue::I64(i) => varint(zigzag(i as int)),
        CompactValue::Binary(b) => varint((b.len() as u32) as nat) + b,
        CompactValue::Struct(fields) => encode_fields(fields).push(0),
    }
}

/// The number of the last of some fields.
pub open spec fn last_id(fields: Seq<CompactField>) -> int {
    if fields.len() == 0 {
        0
    } else {
        fields.last().id
    }
}

/// The byte that starts a field whose number is `delta` above that of the field before it.
pub open spec fn field_start(delta: int, code: int) -> u8 {
    (delta * 16 + code) as u8
}

/// The bytes of some fields. The number of each is at least one and at most fourteen above that of
/// the field before it.
pub open spec fn encode_fields(fields: Seq<CompactField>) -> Seq<u8>
    decreases fields,
{
    if fields.len() == 0 {
        Seq::empty()
    } else {
        let head = fields.drop_last();
        let field = fields.last();
        encode_fields(head).push(field_start(field.id - last_id(head), type_code(field.value)))
            + encode_value(field.value)
    }
}

/// The bytes of a record.
pub open spec fn encode_struct(fields: Seq<CompactField>) -> Seq<u8> {
    encode_value(CompactValue::Struct(fields))
}

/// `fields` and one more, where it has a value.
pub open spec fn with_opt(fields: Seq<CompactField>, id: int, value: Option<CompactValue>) -> Seq<
    CompactField,
> {
    match value {
        Some(value) => fields.push(CompactField { id, value }),
        None => fields,
    }
}

/// The type of a field that is no boolean.
#[derive(Clone, Copy, Debug, PartialEq, Eq, Structural)]
pub enum FieldType {
    I32,
    I64,
    Binary,
    Struct,
}

/// The number that stands for a field's type.
pub open spec fn field_type_code(t: FieldType) -> int {
    match t {
        FieldType::I32 => 5,
        FieldType::I64 => 6,
        FieldType::Binary => 8,
        FieldType::Struct => 12,
    }
}

/// `thrift::Error`: what a protocol reports where its transport fails.
#[verifier::external_type_specification]
#[verifier::external_body]
pub struct ExThriftError(thrift::Error);

/// `TCompactOutputProtocol::write_field_begin` of a new protocol over `out`, for a field that is
/// no boolean: writes one byte, the field's number above its type. A new protocol has written no
/// field, so the number is the distance from zero; up to fourteen it fits the byte. Writing to a
/// vector does not fail.
#[verifier::external_body]
fn write_field_begin(out: &mut Vec<u8>, field_type: FieldType, delta: i16) -> (r: Result<
    (),
    thrift::Error,
>)
    requires
        0 < delta < 15,
    ensures
        r is Ok,
        final(out)@ == old(out)@.push(field_start(delta as int, field_type_code(field_type))),
{
    let field_type = match field_type {
        FieldType::I32 => TType::I32,
        FieldType::I64 => TType::I64,
        FieldType::Binary => TType::String,
        FieldType::Struct => TType::Struct,
    };
    let identifier = TFieldIdentifier { name: None, field_type, id: Some(delta) };
    TCompactOutputProtocol::new(out).write_field_begin(&identifier)
}

/// `TCompactOutputProtocol::write_bool` of a new protocol over `out`, behind the start of a boolean
/// field: writes one byte, the field's number above a type that holds the value. Writing to a
/// vector does not fail.
#[verifier::external_body]
fn write_bool(out: &mut Vec<u8>, delta: i16, value: bool) -> (r: Result<(), thrift::Error>)
    requires
        0 < delta < 15,
    ensures
        r is Ok,
        final(out)@ == old(out)@.push(
            field_start(delta as int, type_code(CompactValue::Bool(value))),
        ),
{
    let mut protocol = TCompactOutputProtocol::new(out);
    let identifier = TFieldIdentifier { name: None, field_type: TType::Bool, id: Some(delta) };
    protocol.write_field_begin(&identifier)?;
    protocol.write_bool(value)
}

/// `TCompactOutputProtocol::write_i32` of a new protocol over `out`: writes the number in groups of
/// seven bits. Writing to a vector does not fail.
#[verifier::external_body]
fn write_i32(out: &mut Vec<u8>, value: i32) -> (r: Result<(), thrift::Error>)
    ensures
        r is Ok,
        final(out)@ == old(out)@ + varint(zigzag(value as int)),
{
    TCompactOutputProtocol::new(out).write_i32(value)
}

/// `TCompactOutputProtocol::write_i64` of a new protocol over `out`: writes the number in groups of
/// seven bits. Writing to a vector does not fail.
#[verifier::external_body]
fn write_i64(out: &mut Vec<u8>, value: i64) -> (r: Result<(), thrift::Error>)
    ensures
        r is Ok,
        final(out)@ == old(out)@ + varint(zigzag(value as int)),
{
    TCompactOutputProtocol::new(out).write_i64(value)
}

/// `TCompactOutputProtocol::write_bytes` of a new protocol over `out`: writes the length as a 32-bit
/// number in groups of seven bits, and the bytes. Writing to a vector does not fail.
#[verifier::external_body]
fn write_bytes(out: &mut Vec<u8>, value: &[u8]) -> (r: Result<(), thrift::Error>)
    ensures
        r is Ok,
        final(out)@ == old(out)@ + varint((value@.len() as u32) as nat) + value@,
{
    TCompactOutputProtocol::new(out).write_bytes(value)
}

/// `TCompactOutputProtocol::write_field_stop` of a new protocol over `out`: writes a zero byte.
/// Writing to a vector does not fail.
#[verifier::external_body]
fn write_field_stop(out: &mut Vec<u8>) -> (r: Result<(), thrift::Error>)
    ensures
        r is Ok,
        final(out)@ == old(out)@.push(0),
{
    TCompactOutputProtocol::new(out).write_field_stop()
}

/// The outcome of a write, as an outcome of this library.
fn outcome(r: Result<(), thrift::Error>) -> (o: Result<(), ParquetError>)
    ensures
        r is Ok <==> o is Ok,
        o matches Err(e) ==> e is HeaderNotWritten,
{
    match r {
        Ok(()) => Ok(()),
        Err(_) => Err(ParquetError::HeaderNotWritten),
    }
}

/// A record that is being written behind `start`.
pub open spec fn writing(out: Seq<u8>, start: Seq<u8>, fields: Seq<CompactField>) -> bool {
    out == start + encode_fields(fields)
}

/// Writes a boolean field `delta` numbers above the field before it.
pub fn put_bool(out: &mut Vec<u8>, delta: i16, value: bool) -> (r: Result<(), ParquetError>)
    requires
        0 < delta < 15,
    ensures
        r is Ok,
        forall|start: Seq<u8>, fields: Seq<CompactField>| #[trigger]
            writing(old(out)@, start, fields) ==> writing(
                final(out)@,
                start,
                fields.push(
                    CompactField { id: last_id(fields) + delta, value: CompactValue::Bool(value) },
                ),
            ),
{
    let r = outcome(write_bool(out, delta, value));
    proof {
        lemma_put(old(out)@, out@, delta as int, CompactValue::Bool(value));
    }
    r
}

/// Writes a field of 32 bits `delta` numbers above the field before it.
pub fn put_i32(out: &mut Vec<u8>, delta: i16, value: i32) -> (r: Result<(), ParquetError>)
    requires
        0 < delta < 15,
    ensures
        r is Ok,
        forall|start: Seq<u8>, fields: Seq<CompactField>| #[trigger]
            writing(old(out)@, start, fields) ==> writing(
                final(out)@,
                start,
                fields.push(
                    CompactField { id: last_id(fields) + delta, value: CompactValue::I32(value) },
                ),
            ),
{
    outcome(write_field_begin(out, FieldType::I32, delta))?;
    let r = outcome(write_i32(out, value));
    proof {
        lemma_put(old(out)@, out@, delta as int, CompactValue::I32(value));
    }
    r
}

/// Writes a field of 64 bits `delta` numbers above the field before it.
pub fn put_i64(out: &mut Vec<u8>, delta: i16, value: i64) -> (r: Result<(), ParquetError>)
    requires
        0 < delta < 15,
    ensures
        r is Ok,
        forall|start: Seq<u8>, fields: Seq<CompactField>| #[trigger]
            writing(old(out)@, start, fields) ==> writing(
                final(out)@,
                start,
                fields.push(
                    CompactField { id: last_id(fields) + delta, value: CompactValue::I64(value) },
                ),
            ),
{
    outcome(write_field_begin(out, FieldType::I64, delta))?;
    let r = outcome(write_i64(out, value));
    proof {
        lemma_put(old(out)@, out@, delta as int, CompactValue::I64(value));
    }
    r
}

/// Writes a field of bytes `delta` numbers above the field before it.
pub fn put_binary(out: &mut Vec<u8>, delta: i16, value: &[u8]) -> (r: Result<(), ParquetError>)
    requires
        0 < delta < 15,
    ensures
        r is Ok,
        forall|start: Seq<u8>, fields: Seq<CompactField>| #[trigger]
            writing(old(out)@, start, fields) ==> writing(
                final(out)@,
                start,
                fields.push(
                    CompactField {
                        id: last_id(fields) + delta,
                        value: CompactValue::Binary(value@),
                    },
                ),
            ),
{
    outcome(write_field_begin(out, FieldType::Binary, delta))?;
    let r = outcome(write_bytes(out, value));
    proof {
        assert(out@ =~= old(out)@.push(field_start(delta as int, 8)) + encode_value(
            CompactValue::Binary(value@),
        ));
        lemma_put(old(out)@, out@, delta as int, CompactValue::Binary(value@));
    }
    r
}

/// Writes the start of a field that holds a record, `delta` numbers above the field before it.
pub fn begin_struct(out: &mut Vec<u8>, delta: i16) -> (r: Result<(), ParquetError>)
    requires
        0 < delta < 15,
    ensures
        r is Ok,
        final(out)@ == old(out)@.push(field_start(delta as int, 12)),
{
    outcome(write_field_begin(out, FieldType::Struct, delta))
}

/// Ends a record.
pub fn end_struct(out: &mut Vec<u8>) -> (r: Result<(), ParquetError>)
    ensures
        r is Ok,
        final(out)@ == old(out)@.push(0),
{
    outcome(write_field_stop(out))
}

/// The start of a field and its value behind some fields are those fields and one more.
proof fn lemma_put(before: Seq<u8>, after: Seq<u8>, delta: int, value: CompactValue)
    requires
        after == before.push(field_start(delta, type_code(value))) + encode_value(value),
    ensures
        forall|start: Seq<u8>, fields: Seq<CompactField>| #[trigger]
            writing(before, start, fields) ==> writing(
                after,
                start,
                fields.push(CompactField { id: last_id(fields) + delta, value }),
            ),
{
    assert forall|start: Seq<u8>, fields: Seq<CompactField>| #[trigger]
        writing(before, start, fields) implies writing(
        after,
        start,
        fields.push(CompactField { id: last_id(fields) + delta, value }),
    ) by {
        lemma_one_more(start, fields, after, last_id(fields) + delta, value);
    }
}

/// A field behind some fields.
pub proof fn lemma_one_more(
    start: Seq<u8>,
    fields: Seq<CompactField>,
    out: Seq<u8>,
    id: int,
    value: CompactValue,
)
    requires
        out == (start + encode_fields(fields)).push(
            field_start(id - last_id(fields), type_code(value)),
        ) + encode_value(value),
    ensures
        writing(out, start, fields.push(CompactField { id, value })),
{
    let more = fields.push(CompactField { id, value });
    assert(more.drop_last() =~= fields);
    assert(out =~= start + encode_fields(more));
}

/// The value of the field with the number `id`, where there is one.
pub open spec fn value_of(fields: Seq<CompactField>, id: int) -> Option<CompactValue>
    decreases fields.len(),
{
    if fields.len() == 0 {
        None
    } else if fields.last().id == id {
        Some(fields.last().value)
    } else {
        value_of(fields.drop_last(), id)
    }
}

/// A field that is added is found under its number, and the others under theirs.
pub proof fn added_fields_are_found(
    fields: Seq<CompactField>,
    id: int,
    value: Option<CompactValue>,
    other: int,
)
    ensures
        value_of(Seq::<CompactField>::empty(), other) is None,
        value is Some ==> value_of(with_opt(fields, id, value), id) == value,
        value is None || other != id ==> value_of(with_opt(fields, id, value), other) == value_of(
            fields,
            other,
        ),
        value matches Some(v) ==> with_opt(fields, id, value) == fields.push(
            CompactField { id, value: v },
        ),
{
    if let Some(v) = value {
        assert(fields.push(CompactField { id, value: v }).drop_last() =~= fields);
    }
}

/// The numbers of the protocol: what stands for the types, how a field starts, and in which order
/// positive and negative numbers are counted.
pub proof fn numbers_of_the_protocol(
    v: CompactValue,
    t: FieldType,
    delta: int,
    code: int,
    i: int,
    j: int,
)
    ensures
        v == CompactValue::Bool(true) ==> type_code(v) == 1,
        v == CompactValue::Bool(false) ==> type_code(v) == 2,
        v is I32 ==> type_code(v) == 5,
        v is I64 ==> type_code(v) == 6,
        v is Binary ==> type_code(v) == 8,
        v is Struct ==> type_code(v) == 12,
        t is I32 ==> field_type_code(t) == 5,
        t is I64 ==> field_type_code(t) == 6,
        t is Binary ==> field_type_code(t) == 8,
        t is Struct ==> field_type_code(t) == 12,
        0 < delta < 15 && 0 <= code < 16 ==> field_start(delta, code) / 16 == delta && field_start(
            delta,
            code,
        ) % 16 == code,
        i >= 0 ==> zigzag(i) == 2 * i,
        i < 0 ==> zigzag(i) == -2 * i - 1,
        zigzag(i) == zigzag(j) ==> i == j,
{
}

/// A number below 128 is one byte; of a greater one the first byte holds the lowest seven bits, with
/// the top bit set, and the rest of the number follows.
pub proof fn numbers_go_seven_bits_at_a_time(n: nat)
    ensures
        n < 128 ==> varint(n).len() == 1 && varint(n)[0] == n,
        n >= 128 ==> varint(n).len() > 1 && varint(n)[0] == 128 + n % 128 && varint(n).skip(1)
            == varint(n / 128),
    decreases n,
{
    if n >= 128 {
        assert(varint(n).skip(1) =~= varint(n / 128));
        numbers_go_seven_bits_at_a_time(n / 128);
    }
}

/// A record is its fields, one behind the other, and a zero. A field is a byte with the distance of
/// its number from the one before and its type, and its value behind it: nothing for a truth value, a
/// number in groups of seven bits, bytes with their number in front, or a record.
pub proof fn records_are_fields_and_a_zero(
    fields: Seq<CompactField>,
    id: int,
    value: CompactValue,
)
    ensures
        encode_struct(fields) == encode_fields(fields).push(0),
        encode_fields(Seq::<CompactField>::empty()).len() == 0,
        ({
            let start = field_start(
                id - if fields.len() == 0 {
                    0
                } else {
                    fields.last().id
                },
                type_code(value),
            );
            let more = encode_fields(fields.push(CompactField { id, value }));
            let front = encode_fields(fields).push(start);
            &&& value is Bool ==> more == front
            &&& value matches CompactValue::I32(i) ==> more == front + varint(zigzag(i as int))
            &&& value matches CompactValue::I64(i) ==> more == front + varint(zigzag(i as int))
            &&& value matches CompactValue::Binary(b) ==> (b.len() <= u32::MAX ==> more == front
                + varint(b.len()) + b)
            &&& value matches CompactValue::Struct(inner) ==> more == front + encode_struct(inner)
        }),
{
    let all = fields.push(CompactField { id, value });
    assert(all.drop_last() =~= fields);
    let start = field_start(id - last_id(fields), type_code(value));
    let front = encode_fields(fields).push(start);
    assert(encode_fields(all) == front + encode_value(value));
    if value is Bool {
        assert(front + Seq::<u8>::empty() =~= front);
    }
    if let CompactValue::Binary(b) = value {
        assert(front + (varint((b.len() as u32) as nat) + b) =~= front + varint(
            (b.len() as u32) as nat,
        ) + b);
    }
}

} // verus!
