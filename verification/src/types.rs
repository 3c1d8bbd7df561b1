//! Arrow types, and which of them columns can be read into.
//!
//! The variants of `arrow_schema::DataType` are told apart in groups, each by a function of its own
//! that hands over what a variant holds. Which types are joinable is decided from that.
use arrow_schema::{DataType, Field, Fields, TimeUnit as ArrowTimeUnit, UnionFields};
use vstd::prelude::*;

verus! {

/// The type of an Arrow array.
#[verifier::external_type_specification]
#[verifier::external_body]
pub struct ExDataType(DataType);

/// A part of an Arrow type that has parts: its name, its type, and whether it may be null.
#[verifier::external_type_specification]
#[verifier::external_body]
pub struct ExField(Field);

/// The parts of a struct.
#[verifier::external_type_specification]
#[verifier::external_body]
pub struct ExFields(Fields);

/// The alternatives of a union.
#[verifier::external_type_specification]
#[verifier::external_body]
pub struct ExUnionFields(UnionFields);

/// The unit of a time.
#[verifier::external_type_specification]
#[verifier::external_body]
pub struct ExTimeUnit(ArrowTimeUnit);

/// A type of numbers.
#[derive(Clone, Copy, Debug, PartialEq, Eq, Structural)]
pub enum NumberType {
    Int8,
    Int16,
    Int32,
    Int64,
    UInt8,
    UInt16,
    UInt32,
    UInt64,
    Float16,
    Float32,
    Float64,
}

/// A type of decimals, with precision and scale.
#[derive(Clone, Copy, Debug, PartialEq, Eq, Structural)]
pub enum DecimalType {
    Decimal32(u8, i8),
    Decimal64(u8, i8),
    Decimal128(u8, i8),
    Decimal256(u8, i8),
}

/// A type of times.
#[derive(Debug)]
pub enum TimeType {
    Timestamp,
    Date32,
    Date64,
    Time32(ArrowTimeUnit),
    Time64(ArrowTimeUnit),
    Duration,
    Interval,
}

/// A type of nothing, of truth values or of byte strings.
#[derive(Clone, Copy, Debug, PartialEq, Eq, Structural)]
pub enum PlainType {
    Null,
    Boolean,
    Binary,
    LargeBinary,
    BinaryView,
    FixedSizeBinary(i32),
    Utf8,
    LargeUtf8,
    Utf8View,
}

/// A type of lists.
#[derive(Debug)]
pub enum ListType {
    List(Field),
    ListView(Field),
    LargeList(Field),
    LargeListView(Field),
    FixedSizeList(Field, i32),
}

/// A type that is made up of others.
#[derive(Debug)]
pub enum CompositeType {
    Struct(Fields),
    Union(UnionFields),
    /// `Map`.
    MapOf(Field),
    Dictionary(DataType, DataType),
    RunEndEncoded(Field, Field),
}

/// The units of times.
#[derive(Clone, Copy, Debug, PartialEq, Eq, Structural)]
pub enum Unit {
    Second,
    Millisecond,
    Microsecond,
    Nanosecond,
}

/// What numbers a type is of, where it is of numbers.
pub uninterp spec fn number_type(t: DataType) -> Option<NumberType>;

/// What decimals a type is of, where it is of decimals.
pub uninterp spec fn decimal_type(t: DataType) -> Option<DecimalType>;

/// What times a type is of, where it is of times.
pub uninterp spec fn time_type(t: DataType) -> Option<TimeType>;

/// Whether a type is of nothing, truth values or byte strings, and of which.
pub uninterp spec fn plain_type(t: DataType) -> Option<PlainType>;

/// What lists a type is of, where it is of lists.
pub uninterp spec fn list_type(t: DataType) -> Option<ListType>;

/// What a type is made up of, where it is.
pub uninterp spec fn composite_type(t: DataType) -> Option<CompositeType>;

/// How many levels of other types a type has below it.
pub uninterp spec fn type_depth(t: DataType) -> nat;

/// Which unit a unit is.
pub uninterp spec fn time_unit(u: ArrowTimeUnit) -> Unit;

/// The type of a part.
pub uninterp spec fn field_type(f: Field) -> DataType;

/// Whether a part may be null.
pub uninterp spec fn field_nullable(f: Field) -> bool;

/// The parts of a struct.
pub uninterp spec fn struct_fields(f: Fields) -> Seq<Field>;

/// The alternatives of a union.
pub uninterp spec fn union_fields(f: UnionFields) -> Seq<Field>;

/// Tells the variants of `DataType` for numbers apart.
#[verifier::external_body]
fn number_of(t: &DataType) -> (r: Option<NumberType>)
    ensures
        r == number_type(*t),
{
    match t {
        DataType::Int8 => Some(NumberType::Int8),
        DataType::Int16 => Some(NumberType::Int16),
        DataType::Int32 => Some(NumberType::Int32),
        DataType::Int64 => Some(NumberType::Int64),
        DataType::UInt8 => Some(NumberType::UInt8),
        DataType::UInt16 => Some(NumberType::UInt16),
        DataType::UInt32 => Some(NumberType::UInt32),
        DataType::UInt64 => Some(NumberType::UInt64),
        DataType::Float16 => Some(NumberType::Float16),
        DataType::Float32 => Some(NumberType::Float32),
        DataType::Float64 => Some(NumberType::Float64),
        _ => None,
    }
}

/// Tells the variants of `DataType` for decimals apart.
#[verifier::external_body]
fn decimal_of(t: &DataType) -> (r: Option<DecimalType>)
    ensures
        r == decimal_type(*t),
{
    match t {
        DataType::Decimal32(p, s) => Some(DecimalType::Decimal32(*p, *s)),
        DataType::Decimal64(p, s) => Some(DecimalType::Decimal64(*p, *s)),
        DataType::Decimal128(p, s) => Some(DecimalType::Decimal128(*p, *s)),
        DataType::Decimal256(p, s) => Some(DecimalType::Decimal256(*p, *s)),
        _ => None,
    }
}

/// Tells the variants of `DataType` for times apart. The unit is handed over where not every unit
/// has arrays.
#[verifier::external_body]
fn time_of(t: &DataType) -> (r: Option<TimeType>)
    ensures
        r == time_type(*t),
{
    match t {
        DataType::Timestamp(_, _) => Some(TimeType::Timestamp),
        DataType::Date32 => Some(TimeType::Date32),
        DataType::Date64 => Some(TimeType::Date64),
        DataType::Time32(unit) => Some(TimeType::Time32(*unit)),
        DataType::Time64(unit) => Some(TimeType::Time64(*unit)),
        DataType::Duration(_) => Some(TimeType::Duration),
        DataType::Interval(_) => Some(TimeType::Interval),
        _ => None,
    }
}

/// Tells the variants of `DataType` for nothing, truth values and byte strings apart.
#[verifier::external_body]
fn plain_of(t: &DataType) -> (r: Option<PlainType>)
    ensures
        r == plain_type(*t),
{
    match t {
        DataType::Null => Some(PlainType::Null),
        DataType::Boolean => Some(PlainType::Boolean),
        DataType::Binary => Some(PlainType::Binary),
        DataType::LargeBinary => Some(PlainType::LargeBinary),
        DataType::BinaryView => Some(PlainType::BinaryView),
        DataType::FixedSizeBinary(size) => Some(PlainType::FixedSizeBinary(*size)),
        DataType::Utf8 => Some(PlainType::Utf8),
        DataType::LargeUtf8 => Some(PlainType::LargeUtf8),
        DataType::Utf8View => Some(PlainType::Utf8View),
        _ => None,
    }
}

/// The part that lists are of.
pub open spec fn list_field(l: ListType) -> Field {
    match l {
        ListType::List(f) => f,
        ListType::ListView(f) => f,
        ListType::LargeList(f) => f,
        ListType::LargeListView(f) => f,
        ListType::FixedSizeList(f, _) => f,
    }
}

/// Tells the variants of `DataType` for lists apart. A type is a finite tree, so the type of what is
/// in the lists has fewer levels below it.
#[verifier::external_body]
fn list_of(t: &DataType) -> (r: Option<ListType>)
    ensures
        r == list_type(*t),
        r matches Some(l) ==> type_depth(field_type(list_field(l))) < type_depth(*t),
{
    match t {
        DataType::List(f) => Some(ListType::List(f.as_ref().clone())),
        DataType::ListView(f) => Some(ListType::ListView(f.as_ref().clone())),
        DataType::LargeList(f) => Some(ListType::LargeList(f.as_ref().clone())),
        DataType::LargeListView(f) => Some(ListType::LargeListView(f.as_ref().clone())),
        DataType::FixedSizeList(f, n) => Some(ListType::FixedSizeList(f.as_ref().clone(), *n)),
        _ => None,
    }
}

/// How long the lists of a type are, where they all have one length.
pub open spec fn list_length(t: DataType) -> Option<i32> {
    match list_type(t) {
        Some(ListType::FixedSizeList(_, n)) => Some(n),
        _ => None,
    }
}

/// How long the lists of a type are, where they all have one length.
pub(crate) fn length_of_lists(t: &DataType) -> (n: Option<i32>)
    ensures
        n == list_length(*t),
{
    match list_of(t) {
        Some(ListType::FixedSizeList(_, n)) => Some(n),
        _ => None,
    }
}

/// The types that a type is made up of.
pub open spec fn parts(c: CompositeType) -> Seq<DataType> {
    match c {
        CompositeType::Struct(f) => struct_fields(f).map_values(|f: Field| field_type(f)),
        CompositeType::Union(f) => union_fields(f).map_values(|f: Field| field_type(f)),
        CompositeType::MapOf(f) => seq![field_type(f)],
        CompositeType::Dictionary(k, v) => seq![k, v],
        CompositeType::RunEndEncoded(e, v) => seq![field_type(e), field_type(v)],
    }
}

/// Tells the variants of `DataType` that are made up of others apart. A type is a finite tree, so
/// what it is made up of has fewer levels below it.
#[verifier::external_body]
fn composite_of(t: &DataType) -> (r: Option<CompositeType>)
    ensures
        r == composite_type(*t),
        r matches Some(c) ==> forall|i: int|
            0 <= i < parts(c).len() ==> type_depth(#[trigger] parts(c)[i]) < type_depth(*t),
{
    match t {
        DataType::Struct(f) => Some(CompositeType::Struct(f.clone())),
        DataType::Union(f, _) => Some(CompositeType::Union(f.clone())),
        DataType::Map(f, _) => Some(CompositeType::MapOf(f.as_ref().clone())),
        DataType::Dictionary(k, v) => Some(
            CompositeType::Dictionary(k.as_ref().clone(), v.as_ref().clone()),
        ),
        DataType::RunEndEncoded(e, v) => Some(
            CompositeType::RunEndEncoded(e.as_ref().clone(), v.as_ref().clone()),
        ),
        _ => None,
    }
}

/// Tells the variants of `TimeUnit` apart.
#[verifier::external_body]
fn unit_of(u: &ArrowTimeUnit) -> (r: Unit)
    ensures
        r == time_unit(*u),
{
    match u {
        ArrowTimeUnit::Second => Unit::Second,
        ArrowTimeUnit::Millisecond => Unit::Millisecond,
        ArrowTimeUnit::Microsecond => Unit::Microsecond,
        ArrowTimeUnit::Nanosecond => Unit::Nanosecond,
    }
}

/// `Field::data_type`: the type of a part.
#[verifier::external_body]
fn type_of_field(f: &Field) -> (t: &DataType)
    ensures
        *t == field_type(*f),
{
    f.data_type()
}

/// `Field::is_nullable`: whether a part may be null.
#[verifier::external_body]
fn is_nullable(f: &Field) -> (b: bool)
    ensures
        b == field_nullable(*f),
{
    f.is_nullable()
}

/// `Fields` as the parts that it holds.
#[verifier::external_body]
fn fields_of_struct(f: &Fields) -> (r: Vec<Field>)
    ensures
        r@ == struct_fields(*f),
{
    f.iter().map(|field| field.as_ref().clone()).collect()
}

/// `UnionFields::iter`: the alternatives, in their order.
#[verifier::external_body]
fn fields_of_union(f: &UnionFields) -> (r: Vec<Field>)
    ensures
        r@ == union_fields(*f),
{
    f.iter().map(|entry| entry.1.as_ref().clone()).collect()
}

/// `DataType`'s `==`. Two types are the same where it says so.
#[verifier::external_body]
pub(crate) fn same_type(a: &DataType, b: &DataType) -> (same: bool)
    ensures
        same == (*a == *b),
{
    a == b
}

/// Whether there are arrays of a type of times: a time of day that is 32 bits wide counts seconds
/// or milliseconds, and one that is 64 bits wide microseconds or nanoseconds.
pub open spec fn time_has_arrays(t: TimeType) -> bool {
    match t {
        TimeType::Time32(u) => time_unit(u) is Second || time_unit(u) is Millisecond,
        TimeType::Time64(u) => time_unit(u) is Microsecond || time_unit(u) is Nanosecond,
        _ => true,
    }
}

/// Whether there are arrays of a type of nothing, truth values or byte strings: a length is not
/// negative.
pub open spec fn plain_has_arrays(t: PlainType) -> bool {
    t matches PlainType::FixedSizeBinary(size) ==> size >= 0
}

/// Whether a type is not made up of others and has arrays.
pub open spec fn is_flat(t: DataType) -> bool {
    ||| number_type(t) is Some
    ||| decimal_type(t) is Some
    ||| (time_type(t) matches Some(k) && time_has_arrays(k))
    ||| (plain_type(t) matches Some(k) && plain_has_arrays(k))
}

/// Whether the rows of a type are found by offsets of 32 bits.
pub open spec fn has_narrow_offsets(t: DataType) -> bool {
    plain_type(t) == Some(PlainType::Utf8) || plain_type(t) == Some(PlainType::Binary)
}

/// Whether a type is one that dictionaries can have keys of: integers.
pub open spec fn is_key(t: DataType) -> bool {
    number_type(t) matches Some(n) && !(n is Float16 || n is Float32 || n is Float64)
}

/// How many bytes wide numbers are.
pub open spec fn number_width(n: NumberType) -> nat {
    match n {
        NumberType::Int8 | NumberType::UInt8 => 1,
        NumberType::Int16 | NumberType::UInt16 | NumberType::Float16 => 2,
        NumberType::Int32 | NumberType::UInt32 | NumberType::Float32 => 4,
        NumberType::Int64 | NumberType::UInt64 | NumberType::Float64 => 8,
    }
}

/// How many bytes wide the keys of a type of dictionary entries are.
pub open spec fn key_width(t: DataType) -> Option<nat> {
    match composite_type(t) {
        Some(CompositeType::Dictionary(k, _)) => match number_type(k) {
            Some(n) => Some(number_width(n)),
            None => None,
        },
        _ => None,
    }
}

/// How many bytes wide the integers are that an array of a type has in its `i`th buffer to say where
/// its rows are: offsets, sizes, keys and views. Other buffers count as bytes.
pub open spec fn buffer_width(t: DataType, i: int) -> nat {
    match (list_type(t), composite_type(t), plain_type(t)) {
        (Some(ListType::List(_) | ListType::ListView(_)), _, _) => 4,
        (Some(ListType::LargeList(_) | ListType::LargeListView(_)), _, _) => 8,
        (_, Some(CompositeType::MapOf(_)), _) => 4,
        (_, Some(CompositeType::Union(_)), _) => if i == 1 {
            4
        } else {
            1
        },
        (_, Some(CompositeType::Dictionary(_, _)), _) => match key_width(t) {
            Some(width) => width,
            None => 1,
        },
        (_, _, Some(PlainType::Utf8 | PlainType::Binary)) => if i == 0 {
            4
        } else {
            1
        },
        (_, _, Some(PlainType::LargeUtf8 | PlainType::LargeBinary)) => if i == 0 {
            8
        } else {
            1
        },
        (_, _, Some(PlainType::Utf8View | PlainType::BinaryView)) => if i == 0 {
            16
        } else {
            1
        },
        _ => 1,
    }
}

/// How many bytes wide the ends of the runs of a type are, where it has runs.
pub open spec fn run_end_width(t: DataType) -> nat {
    match composite_type(t) {
        Some(CompositeType::RunEndEncoded(e, _)) => match number_type(field_type(e)) {
            Some(n) => number_width(n),
            None => 1,
        },
        _ => 1,
    }
}

/// Whether it is known what buffers an array of a type has: byte strings of one length, also those
/// that are keys of a dictionary, do not have a negative length.
pub open spec fn has_layout(t: DataType) -> bool
    decreases type_depth(t),
{
    &&& plain_type(t) matches Some(PlainType::FixedSizeBinary(size)) ==> size >= 0
    &&& composite_type(t) matches Some(CompositeType::Dictionary(k, _)) ==> type_depth(k)
        < type_depth(t) ==> has_layout(k)
}

/// Whether places in arrays of a type are sums of two integers that are as long as a machine word of
/// 32 bits, or longer.
pub open spec fn needs_long_words(t: DataType) -> bool {
    ||| list_type(t) matches Some(ListType::LargeListView(_))
    ||| plain_type(t) == Some(PlainType::Utf8View)
    ||| plain_type(t) == Some(PlainType::BinaryView)
}

/// Whether a type is one that runs can end with.
pub open spec fn is_run_end(t: DataType) -> bool {
    number_type(t) matches Some(n) && (n is Int16 || n is Int32 || n is Int64)
}

/// Whether a part can be that of a map: a struct of a key that is never null and a value.
pub open spec fn is_entry(f: Field) -> bool {
    !field_nullable(f) && match composite_type(field_type(f)) {
        Some(CompositeType::Struct(fields)) => struct_fields(fields).len() == 2 && !field_nullable(
            struct_fields(fields)[0],
        ),
        _ => false,
    }
}

/// Whether lists in dictionaries and unions can be of a type. Dictionaries and unions are put together
/// value by value. That stops where values run out of keys or of the ends of runs, where they are
/// views that can overlap, and where they are intervals that do not stand where integers do. Room is
/// made for what is in lists as if every list had one value, which can be any size with byte strings
/// and lists of one length.
pub open spec fn is_item(t: DataType) -> bool
    decreases type_depth(t),
{
    ||| is_flat(t) && time_type(t) != Some(TimeType::Interval) && fixed_length(t) is None
    ||| match list_type(t) {
        Some(ListType::List(f)) => type_depth(field_type(f)) < type_depth(t) && is_item(
            field_type(f),
        ),
        Some(ListType::LargeList(f)) => type_depth(field_type(f)) < type_depth(t) && is_item(
            field_type(f),
        ),
        _ => false,
    }
    ||| match composite_type(t) {
        Some(CompositeType::Struct(f)) => forall|i: int|
            0 <= i < struct_fields(f).len() ==> type_depth(
                field_type(#[trigger] struct_fields(f)[i]),
            ) < type_depth(t) && is_item(field_type(struct_fields(f)[i])),
        Some(CompositeType::MapOf(f)) => is_entry(f) && type_depth(field_type(f)) < type_depth(t)
            && is_item(field_type(f)),
        _ => false,
    }
}

/// Whether dictionaries can have values of a type: what can be in lists, and byte strings and lists
/// of one length, for which as much room is made as they need.
pub open spec fn is_value(t: DataType) -> bool
    decreases type_depth(t),
{
    ||| is_item(t)
    ||| is_flat(t) && fixed_length(t) is Some
    ||| match list_type(t) {
        Some(ListType::FixedSizeList(f, size)) => size >= 0 && type_depth(field_type(f))
            < type_depth(t) && is_value(field_type(f)),
        _ => false,
    }
    ||| match composite_type(t) {
        Some(CompositeType::Struct(f)) => forall|i: int|
            0 <= i < struct_fields(f).len() ==> type_depth(
                field_type(#[trigger] struct_fields(f)[i]),
            ) < type_depth(t) && is_value(field_type(struct_fields(f)[i])),
        _ => false,
    }
}

/// Whether unions can have an alternative of a type: what can be in lists, and byte strings of one
/// length.
pub open spec fn is_alternative(t: DataType) -> bool {
    is_item(t) || (is_flat(t) && fixed_length(t) is Some)
}

/// How long the byte strings of a type are, where they all have one length.
pub open spec fn fixed_length(t: DataType) -> Option<i32> {
    match plain_type(t) {
        Some(PlainType::FixedSizeBinary(size)) => Some(size),
        _ => None,
    }
}

/// How many bytes room is made for with each row of a type, for alternatives that have one length.
pub open spec fn reserved_width(t: DataType) -> nat {
    match composite_type(t) {
        Some(CompositeType::Union(f)) => reserved_for(union_fields(f)),
        _ => 0,
    }
}

/// How many bytes the byte strings of one length among the alternatives have.
pub open spec fn reserved_for(fields: Seq<Field>) -> nat
    decreases fields.len(),
{
    if fields.len() == 0 {
        0
    } else {
        reserved_for(fields.drop_last()) + match fixed_length(field_type(fields.last())) {
            Some(size) if size >= 0 => size as nat,
            _ => 0,
        }
    }
}

/// Whether there are arrays of a type and Arrow can put them one behind another.
pub open spec fn is_joinable(t: DataType) -> bool
    decreases type_depth(t),
{
    ||| is_flat(t)
    ||| match list_type(t) {
        Some(l) => {
            let child = field_type(list_field(l));
            &&& l matches ListType::FixedSizeList(_, size) ==> size >= 0
            &&& type_depth(child) < type_depth(t)
            &&& is_joinable(child)
        },
        None => false,
    }
    ||| match composite_type(t) {
        Some(CompositeType::Struct(f)) => forall|i: int|
            0 <= i < struct_fields(f).len() ==> type_depth(
                field_type(#[trigger] struct_fields(f)[i]),
            ) < type_depth(t) && is_joinable(field_type(struct_fields(f)[i])),
        Some(CompositeType::Union(f)) => forall|i: int|
            0 <= i < union_fields(f).len() ==> is_alternative(
                field_type(#[trigger] union_fields(f)[i]),
            ),
        Some(CompositeType::MapOf(f)) => is_entry(f) && type_depth(field_type(f)) < type_depth(t)
            && is_joinable(field_type(f)),
        Some(CompositeType::Dictionary(k, v)) => is_key(k) && is_value(v),
        Some(CompositeType::RunEndEncoded(e, v)) => is_run_end(field_type(e)) && !field_nullable(e)
            && type_depth(field_type(v)) < type_depth(t) && is_joinable(field_type(v)),
        None => false,
    }
}

/// Whether nothing in a type that is made up of others is found by offsets of 32 bits or by keys:
/// it is made up of structs, runs, lists of one length and lists with offsets of 64 bits, down to
/// flat types.
pub open spec fn is_wide(t: DataType) -> bool
    decreases type_depth(t),
{
    ||| is_flat(t)
    ||| match list_type(t) {
        Some(l) => {
            let child = field_type(list_field(l));
            &&& l is LargeList || l is LargeListView || l is FixedSizeList
            &&& type_depth(child) < type_depth(t)
            &&& is_wide(child)
        },
        None => false,
    }
    ||| match composite_type(t) {
        Some(CompositeType::Struct(f)) => forall|i: int|
            0 <= i < struct_fields(f).len() ==> type_depth(
                field_type(#[trigger] struct_fields(f)[i]),
            ) < type_depth(t) && is_wide(field_type(struct_fields(f)[i])),
        Some(CompositeType::RunEndEncoded(_, v)) => type_depth(field_type(v)) < type_depth(t)
            && is_wide(field_type(v)),
        _ => false,
    }
}

/// Whether a type is not made up of others and has arrays.
pub fn is_flat_type(t: &DataType) -> (b: bool)
    ensures
        b == is_flat(*t),
{
    if number_of(t).is_some() || decimal_of(t).is_some() {
        return true;
    }
    match time_of(t) {
        Some(TimeType::Time32(unit)) => {
            return matches!(unit_of(&unit), Unit::Second | Unit::Millisecond)
                || is_flat_plain_type(t);
        },
        Some(TimeType::Time64(unit)) => {
            return matches!(unit_of(&unit), Unit::Microsecond | Unit::Nanosecond)
                || is_flat_plain_type(t);
        },
        Some(_) => {
            return true;
        },
        None => {},
    }
    is_flat_plain_type(t)
}

fn is_flat_plain_type(t: &DataType) -> (b: bool)
    ensures
        b == (plain_type(*t) matches Some(k) && plain_has_arrays(k)),
{
    match plain_of(t) {
        Some(PlainType::FixedSizeBinary(size)) => size >= 0,
        Some(_) => true,
        None => false,
    }
}

fn length_of_bytes(t: &DataType) -> (n: Option<i32>)
    ensures
        n == fixed_length(*t),
{
    match plain_of(t) {
        Some(PlainType::FixedSizeBinary(size)) => Some(size),
        _ => None,
    }
}

proof fn lemma_reserved_front(fields: Seq<Field>, i: int)
    requires
        0 <= i <= fields.len(),
    ensures
        reserved_for(fields.take(i)) <= reserved_for(fields),
    decreases fields.len(),
{
    if i < fields.len() {
        lemma_reserved_front(fields.drop_last(), i);
        assert(fields.drop_last().take(i) =~= fields.take(i));
    } else {
        assert(fields.take(i) =~= fields);
    }
}

/// How many bytes room is made for with each row of a type, unless they cannot be counted.
pub(crate) fn width_reserved(t: &DataType) -> (width: Option<usize>)
    ensures
        match width {
            Some(w) => w == reserved_width(*t),
            None => reserved_width(*t) > usize::MAX,
        },
{
    let fields = match composite_of(t) {
        Some(CompositeType::Union(f)) => fields_of_union(&f),
        _ => {
            return Some(0);
        },
    };
    let mut width: usize = 0;
    let mut i: usize = 0;
    while i < fields.len()
        invariant
            i <= fields@.len(),
            reserved_width(*t) == reserved_for(fields@),
            width == reserved_for(fields@.take(i as int)),
        decreases fields@.len() - i,
    {
        proof {
            assert(fields@.take(i + 1).drop_last() =~= fields@.take(i as int));
            lemma_reserved_front(fields@, i + 1);
        }
        if let Some(size) = length_of_bytes(type_of_field(&fields[i])) {
            if size >= 0 {
                width = match width.checked_add(size as usize) {
                    Some(sum) => sum,
                    None => {
                        return None;
                    },
                };
            }
        }
        i = i + 1;
    }
    assert(fields@.take(i as int) =~= fields@);
    Some(width)
}

#[verifier::loop_isolation(false)]
fn is_item_type(t: &DataType) -> (b: bool)
    ensures
        b == is_item(*t),
    decreases type_depth(*t),
{
    let interval: bool = match time_of(t) {
        Some(TimeType::Interval) => true,
        _ => false,
    };
    if !interval && length_of_bytes(t).is_none() && is_flat_type(t) {
        return true;
    }
    match list_of(t) {
        Some(ListType::List(f)) => {
            if is_item_type(type_of_field(&f)) {
                return true;
            }
        },
        Some(ListType::LargeList(f)) => {
            if is_item_type(type_of_field(&f)) {
                return true;
            }
        },
        _ => {},
    }
    match composite_of(t) {
        Some(CompositeType::Struct(f)) => {
            let ghost c = CompositeType::Struct(f);
            let fields = fields_of_struct(&f);
            let mut i: usize = 0;
            while i < fields.len()
                invariant
                    i <= fields@.len(),
                    forall|k: int|
                        0 <= k < i ==> type_depth(field_type(#[trigger] struct_fields(f)[k]))
                            < type_depth(*t) && is_item(field_type(struct_fields(f)[k])),
                decreases fields@.len() - i,
            {
                let part = type_of_field(&fields[i]);
                assert(parts(c)[i as int] == *part);
                if !is_item_type(part) {
                    assert(!is_item(field_type(struct_fields(f)[i as int])));
                    return false;
                }
                i = i + 1;
            }
            true
        },
        Some(CompositeType::MapOf(f)) => {
            assert(parts(CompositeType::MapOf(f))[0] == field_type(f));
            is_entry_field(&f) && is_item_type(type_of_field(&f))
        },
        _ => false,
    }
}

#[verifier::loop_isolation(false)]
fn is_value_type(t: &DataType) -> (b: bool)
    ensures
        b == is_value(*t),
    decreases type_depth(*t),
{
    if is_item_type(t) || (length_of_bytes(t).is_some() && is_flat_type(t)) {
        return true;
    }
    if let Some(ListType::FixedSizeList(f, size)) = list_of(t) {
        if size >= 0 && is_value_type(type_of_field(&f)) {
            return true;
        }
    }
    match composite_of(t) {
        Some(CompositeType::Struct(f)) => {
            let ghost c = CompositeType::Struct(f);
            let fields = fields_of_struct(&f);
            let mut i: usize = 0;
            while i < fields.len()
                invariant
                    i <= fields@.len(),
                    forall|k: int|
                        0 <= k < i ==> type_depth(field_type(#[trigger] struct_fields(f)[k]))
                            < type_depth(*t) && is_value(field_type(struct_fields(f)[k])),
                decreases fields@.len() - i,
            {
                let part = type_of_field(&fields[i]);
                assert(parts(c)[i as int] == *part);
                if !is_value_type(part) {
                    assert(!is_value(field_type(struct_fields(f)[i as int])));
                    return false;
                }
                i = i + 1;
            }
            true
        },
        _ => false,
    }
}

fn is_alternative_type(t: &DataType) -> (b: bool)
    ensures
        b == is_alternative(*t),
{
    is_item_type(t) || (length_of_bytes(t).is_some() && is_flat_type(t))
}

fn is_run_end_type(t: &DataType) -> (b: bool)
    ensures
        b == is_run_end(*t),
{
    match number_of(t) {
        Some(NumberType::Int16) => true,
        Some(NumberType::Int32) => true,
        Some(NumberType::Int64) => true,
        _ => false,
    }
}

/// How many bytes wide the keys of a type of dictionary entries are.
pub(crate) fn width_of_keys(t: &DataType) -> (width: Option<u8>)
    ensures
        match width {
            Some(w) => key_width(*t) == Some(w as nat) && (w == 1 || w == 2 || w == 4 || w == 8),
            None => key_width(*t) is None,
        },
{
    match composite_of(t) {
        Some(CompositeType::Dictionary(k, _)) => match number_of(&k) {
            Some(NumberType::Int8 | NumberType::UInt8) => Some(1),
            Some(NumberType::Int16 | NumberType::UInt16 | NumberType::Float16) => Some(2),
            Some(NumberType::Int32 | NumberType::UInt32 | NumberType::Float32) => Some(4),
            Some(_) => Some(8),
            None => None,
        },
        _ => None,
    }
}

fn width_of_number(n: NumberType) -> (width: usize)
    ensures
        width == number_width(n),
        width > 0,
{
    match n {
        NumberType::Int8 | NumberType::UInt8 => 1,
        NumberType::Int16 | NumberType::UInt16 | NumberType::Float16 => 2,
        NumberType::Int32 | NumberType::UInt32 | NumberType::Float32 => 4,
        NumberType::Int64 | NumberType::UInt64 | NumberType::Float64 => 8,
    }
}

/// How many bytes wide the integers in the `i`th buffer of an array of a type are.
pub(crate) fn width_of_buffer(t: &DataType, i: usize) -> (width: usize)
    ensures
        width == buffer_width(*t, i as int),
        width > 0,
{
    match list_of(t) {
        Some(ListType::List(_)) => {
            return 4;
        },
        Some(ListType::ListView(_)) => {
            return 4;
        },
        Some(ListType::LargeList(_)) => {
            return 8;
        },
        Some(ListType::LargeListView(_)) => {
            return 8;
        },
        _ => {},
    }
    match composite_of(t) {
        Some(CompositeType::MapOf(_)) => {
            return 4;
        },
        Some(CompositeType::Union(_)) => {
            return if i == 1 {
                4
            } else {
                1
            };
        },
        Some(CompositeType::Dictionary(k, _)) => {
            return match number_of(&k) {
                Some(n) => width_of_number(n),
                None => 1,
            };
        },
        _ => {},
    }
    if i > 0 {
        return 1;
    }
    match plain_of(t) {
        Some(PlainType::Utf8 | PlainType::Binary) => 4,
        Some(PlainType::LargeUtf8 | PlainType::LargeBinary) => 8,
        Some(PlainType::Utf8View | PlainType::BinaryView) => 16,
        _ => 1,
    }
}

/// How many bytes wide the ends of the runs of a type are, where it has runs.
pub(crate) fn width_of_run_ends(t: &DataType) -> (width: usize)
    ensures
        width == run_end_width(*t),
        width > 0,
{
    match composite_of(t) {
        Some(CompositeType::RunEndEncoded(e, _)) => match number_of(type_of_field(&e)) {
            Some(n) => width_of_number(n),
            None => 1,
        },
        _ => 1,
    }
}

/// Whether it is known what buffers an array of a type has.
pub(crate) fn is_layout_known(t: &DataType) -> (b: bool)
    ensures
        b == has_layout(*t),
    decreases type_depth(*t),
{
    if let Some(PlainType::FixedSizeBinary(size)) = plain_of(t) {
        if size < 0 {
            return false;
        }
    }
    match composite_of(t) {
        Some(CompositeType::Dictionary(k, v)) => {
            assert(parts(CompositeType::Dictionary(k, v))[0] == k);
            is_layout_known(&k)
        },
        _ => true,
    }
}

/// Whether places in arrays of a type need machine words of more than 32 bits.
pub(crate) fn are_long_words_needed(t: &DataType) -> (b: bool)
    ensures
        b == needs_long_words(*t),
{
    if let Some(ListType::LargeListView(_)) = list_of(t) {
        return true;
    }
    match plain_of(t) {
        Some(PlainType::Utf8View | PlainType::BinaryView) => true,
        _ => false,
    }
}

fn is_key_type(t: &DataType) -> (b: bool)
    ensures
        b == is_key(*t),
{
    match number_of(t) {
        Some(NumberType::Float16) => false,
        Some(NumberType::Float32) => false,
        Some(NumberType::Float64) => false,
        Some(_) => true,
        None => false,
    }
}

fn is_entry_field(f: &Field) -> (b: bool)
    ensures
        b == is_entry(*f),
{
    if is_nullable(f) {
        return false;
    }
    match composite_of(type_of_field(f)) {
        Some(CompositeType::Struct(fields)) => {
            let fields = fields_of_struct(&fields);
            fields.len() == 2 && !is_nullable(&fields[0])
        },
        _ => false,
    }
}

/// Whether there are arrays of a type and Arrow can put them one behind another.
#[verifier::loop_isolation(false)]
pub fn is_joinable_type(t: &DataType) -> (b: bool)
    ensures
        b == is_joinable(*t),
    decreases type_depth(*t),
{
    if is_flat_type(t) {
        return true;
    }
    if let Some(l) = list_of(t) {
        let (child, size): (&Field, i32) = match &l {
            ListType::List(f) => (f, 0),
            ListType::ListView(f) => (f, 0),
            ListType::LargeList(f) => (f, 0),
            ListType::LargeListView(f) => (f, 0),
            ListType::FixedSizeList(f, size) => (f, *size),
        };
        if size >= 0 && is_joinable_type(type_of_field(child)) {
            return true;
        }
    }
    match composite_of(t) {
        Some(CompositeType::Struct(f)) => {
            let ghost c = CompositeType::Struct(f);
            let fields = fields_of_struct(&f);
            let mut i: usize = 0;
            while i < fields.len()
                invariant
                    i <= fields@.len(),
                    forall|k: int|
                        0 <= k < i ==> type_depth(field_type(#[trigger] struct_fields(f)[k]))
                            < type_depth(*t) && is_joinable(field_type(struct_fields(f)[k])),
                decreases fields@.len() - i,
            {
                let part = type_of_field(&fields[i]);
                assert(parts(c)[i as int] == *part);
                if !is_joinable_type(part) {
                    assert(!is_joinable(field_type(struct_fields(f)[i as int])));
                    return false;
                }
                i = i + 1;
            }
            true
        },
        Some(CompositeType::Union(f)) => {
            let fields = fields_of_union(&f);
            let mut i: usize = 0;
            while i < fields.len()
                invariant
                    i <= fields@.len(),
                    forall|k: int|
                        0 <= k < i ==> is_alternative(field_type(#[trigger] union_fields(f)[k])),
                decreases fields@.len() - i,
            {
                if !is_alternative_type(type_of_field(&fields[i])) {
                    assert(!is_alternative(field_type(union_fields(f)[i as int])));
                    return false;
                }
                i = i + 1;
            }
            true
        },
        Some(CompositeType::MapOf(f)) => {
            assert(parts(CompositeType::MapOf(f))[0] == field_type(f));
            is_entry_field(&f) && is_joinable_type(type_of_field(&f))
        },
        Some(CompositeType::Dictionary(k, v)) => is_key_type(&k) && is_value_type(&v),
        Some(CompositeType::RunEndEncoded(e, v)) => {
            assert(parts(CompositeType::RunEndEncoded(e, v))[1] == field_type(v));
            is_run_end_type(type_of_field(&e)) && !is_nullable(&e) && is_joinable_type(
                type_of_field(&v),
            )
        },
        None => false,
    }
}

/// Whether nothing in a type that is made up of others is found by offsets of 32 bits or by keys.
#[verifier::loop_isolation(false)]
pub fn is_wide_type(t: &DataType) -> (b: bool)
    ensures
        b == is_wide(*t),
    decreases type_depth(*t),
{
    if is_flat_type(t) {
        return true;
    }
    match list_of(t) {
        Some(ListType::LargeList(f)) => {
            if is_wide_type(type_of_field(&f)) {
                return true;
            }
        },
        Some(ListType::LargeListView(f)) => {
            if is_wide_type(type_of_field(&f)) {
                return true;
            }
        },
        Some(ListType::FixedSizeList(f, _)) => {
            if is_wide_type(type_of_field(&f)) {
                return true;
            }
        },
        _ => {},
    }
    match composite_of(t) {
        Some(CompositeType::Struct(f)) => {
            let ghost c = CompositeType::Struct(f);
            let fields = fields_of_struct(&f);
            let mut i: usize = 0;
            while i < fields.len()
                invariant
                    i <= fields@.len(),
                    forall|k: int|
                        0 <= k < i ==> type_depth(field_type(#[trigger] struct_fields(f)[k]))
                            < type_depth(*t) && is_wide(field_type(struct_fields(f)[k])),
                decreases fields@.len() - i,
            {
                let part = type_of_field(&fields[i]);
                assert(parts(c)[i as int] == *part);
                if !is_wide_type(part) {
                    assert(!is_wide(field_type(struct_fields(f)[i as int])));
                    return false;
                }
                i = i + 1;
            }
            true
        },
        Some(CompositeType::RunEndEncoded(e, v)) => {
            assert(parts(CompositeType::RunEndEncoded(e, v))[1] == field_type(v));
            is_wide_type(type_of_field(&v))
        },
        _ => false,
    }
}

/// Numbers and decimals always have arrays. Times of day have them in seconds and milliseconds where
/// they are 32 bits wide, and in microseconds and nanoseconds where they are 64 bits wide; other times
/// always do. Byte strings of one length have them unless the length is negative, and so have other
/// byte strings, truth values and nothing. No other type is flat.
pub proof fn flat_types_have_arrays(t: DataType)
    ensures
        number_type(t) is Some || decimal_type(t) is Some ==> is_flat(t),
        number_type(t) is None && decimal_type(t) is None && plain_type(t) is None ==> {
            &&& time_type(t) is None ==> !is_flat(t)
            &&& time_type(t) matches Some(TimeType::Time32(u)) ==> (is_flat(t) <==> time_unit(
                u,
            ) is Second || time_unit(u) is Millisecond)
            &&& time_type(t) matches Some(TimeType::Time64(u)) ==> (is_flat(t) <==> time_unit(
                u,
            ) is Microsecond || time_unit(u) is Nanosecond)
            &&& time_type(t) matches Some(k) ==> (k is Timestamp || k is Date32 || k is Date64
                || k is Duration || k is Interval ==> is_flat(t))
        },
        number_type(t) is None && decimal_type(t) is None && time_type(t) is None ==> {
            &&& plain_type(t) is None ==> !is_flat(t)
            &&& plain_type(t) matches Some(PlainType::FixedSizeBinary(size)) ==> (is_flat(t)
                <==> size >= 0)
            &&& plain_type(t) matches Some(k) ==> (!(k is FixedSizeBinary) ==> is_flat(t))
        },
        has_narrow_offsets(t) <==> (plain_type(t) matches Some(k) && (k is Utf8 || k is Binary)),
        has_narrow_offsets(t) ==> is_flat(t),
{
}

/// Integers can be keys of dictionaries, and those of 16, 32 and 64 bits with a sign can end runs. A
/// number is as many bytes wide as its type has bits, by eight.
pub proof fn numbers_have_their_width(t: DataType, n: NumberType)
    requires
        number_type(t) == Some(n),
    ensures
        is_key(t) <==> !(n is Float16) && !(n is Float32) && !(n is Float64),
        is_run_end(t) <==> n is Int16 || n is Int32 || n is Int64,
        n is Int8 || n is UInt8 ==> number_width(n) == 1,
        n is Int16 || n is UInt16 || n is Float16 ==> number_width(n) == 2,
        n is Int32 || n is UInt32 || n is Float32 ==> number_width(n) == 4,
        n is Int64 || n is UInt64 || n is Float64 ==> number_width(n) == 8,
{
}

/// Arrays of a type that is made up of others can be put together where those of the others can:
/// lists unless their one length is negative, structs, maps of entries that are never null with keys
/// that are never null, and runs that end with integers that are never null. Dictionaries need
/// integers as keys. Flat types always can.
pub proof fn made_up_types_are_joinable(t: DataType)
    ensures
        is_flat(t) ==> is_joinable(t),
        list_type(t) matches Some(l) ==> {
            let child = field_type(list_field(l));
            &&& (l matches ListType::FixedSizeList(_, size) ==> size >= 0) && type_depth(child)
                < type_depth(t) && is_joinable(child) ==> is_joinable(t)
            &&& !is_flat(t) && composite_type(t) is None && is_joinable(t) ==> is_joinable(child)
                && (l matches ListType::FixedSizeList(_, size) ==> size >= 0)
        },
        composite_type(t) matches Some(CompositeType::Dictionary(k, v)) ==> (!is_flat(t)
            && list_type(t) is None && is_joinable(t) ==> is_key(k)),
        composite_type(t) matches Some(CompositeType::MapOf(f)) ==> (!is_flat(t) && list_type(
            t,
        ) is None && is_joinable(t) ==> !field_nullable(f) && is_joinable(field_type(f))),
        composite_type(t) matches Some(CompositeType::RunEndEncoded(e, v)) ==> (!is_flat(t)
            && list_type(t) is None && is_joinable(t) ==> is_run_end(field_type(e))
            && !field_nullable(e) && is_joinable(field_type(v))),
        composite_type(t) matches Some(CompositeType::Struct(f)) ==> (!is_flat(t) && list_type(
            t,
        ) is None && is_joinable(t) ==> forall|i: int|
            0 <= i < struct_fields(f).len() ==> is_joinable(
                field_type(#[trigger] struct_fields(f)[i]),
            )),
        !is_flat(t) && list_type(t) is None && composite_type(t) is None ==> !is_joinable(t),
{
}

/// A type with offsets of 32 bits or with keys in it is not wide.
pub proof fn narrow_types_are_not_wide(t: DataType)
    requires
        !is_flat(t),
    ensures
        composite_type(t) is None && (list_type(t) matches Some(l) && (l is List || l is ListView))
            ==> !is_wide(t),
        list_type(t) is None && (composite_type(t) matches Some(c) && (c is Dictionary || c is Union
            || c is MapOf)) ==> !is_wide(t),
        composite_type(t) is None && (list_type(t) matches Some(l) && is_wide(t)) ==> is_wide(
            field_type(list_field(list_type(t)->0)),
        ),
        list_type(t) is None && composite_type(t) is None ==> !is_wide(t),
{
}

/// Offsets and sizes of lists and maps and offsets of byte strings are four bytes wide, or eight in
/// the large variants; views are sixteen; keys are as wide as their type; and the second buffer of a
/// union holds offsets of four bytes.
pub proof fn buffers_hold_integers_of_their_width(t: DataType)
    ensures
        list_type(t) matches Some(l) ==> {
            &&& l is List || l is ListView ==> buffer_width(t, 0) == 4 && buffer_width(t, 1) == 4
            &&& l is LargeList || l is LargeListView ==> buffer_width(t, 0) == 8 && buffer_width(t, 1)
                == 8
        },
        list_type(t) is None ==> (composite_type(t) matches Some(c) ==> {
            &&& c is MapOf ==> buffer_width(t, 0) == 4
            &&& c is Union ==> buffer_width(t, 0) == 1 && buffer_width(t, 1) == 4
            &&& c matches CompositeType::Dictionary(k, _) ==> (number_type(k) matches Some(n)
                ==> buffer_width(t, 0) == number_width(n))
        }),
        list_type(t) is None && composite_type(t) is None ==> (plain_type(t) matches Some(k) ==> {
            &&& k is Utf8 || k is Binary ==> buffer_width(t, 0) == 4 && buffer_width(t, 1) == 1
            &&& k is LargeUtf8 || k is LargeBinary ==> buffer_width(t, 0) == 8 && buffer_width(t, 1)
                == 1
            &&& k is Utf8View || k is BinaryView ==> buffer_width(t, 0) == 16 && buffer_width(t, 1)
                == 1
        }),
        composite_type(t) matches Some(CompositeType::RunEndEncoded(e, _)) ==> (number_type(
            field_type(e),
        ) matches Some(n) ==> run_end_width(t) == number_width(n)),
{
}

/// The layout of byte strings of one length is known unless the length is negative, and that of
/// dictionary entries is the layout of their keys. Views and large views of lists need long machine
/// words.
pub proof fn layouts_are_known(t: DataType)
    ensures
        plain_type(t) matches Some(PlainType::FixedSizeBinary(size)) ==> (size < 0 ==> !has_layout(
            t,
        )),
        fixed_length(t) is None && composite_type(t) is None ==> has_layout(t),
        composite_type(t) matches Some(CompositeType::Dictionary(k, _)) ==> (type_depth(k)
            < type_depth(t) && has_layout(t) ==> has_layout(k)),
        needs_long_words(t) <==> (list_type(t) matches Some(l) && l is LargeListView) || (plain_type(
            t,
        ) matches Some(k) && (k is Utf8View || k is BinaryView)),
{
}

/// Room is made for byte strings of one length in unions, for each alternative of that kind, and in no
/// other arrays.
pub proof fn room_is_made_for_alternatives(t: DataType, fields: Seq<Field>, f: Field)
    ensures
        !(composite_type(t) matches Some(CompositeType::Union(_))) ==> reserved_width(t) == 0,
        composite_type(t) matches Some(CompositeType::Union(u)) ==> reserved_width(t)
            == reserved_for(union_fields(u)),
        reserved_for(Seq::<Field>::empty()) == 0,
        plain_type(field_type(f)) matches Some(PlainType::FixedSizeBinary(size)) ==> (size >= 0
            ==> reserved_for(fields.push(f)) == reserved_for(fields) + size),
        !(plain_type(field_type(f)) matches Some(PlainType::FixedSizeBinary(_))) ==> reserved_for(
            fields.push(f),
        ) == reserved_for(fields),
{
    assert(fields.push(f).drop_last() =~= fields);
}

/// What dictionaries and unions hold is flat or made up of lists, maps and structs of what they can
/// hold; it is never an interval, a dictionary, a union, a view of lists or runs.
pub proof fn values_are_put_together_one_by_one(t: DataType)
    ensures
        is_item(t) ==> is_value(t) && is_alternative(t),
        list_type(t) is None && composite_type(t) is None ==> {
            &&& is_value(t) ==> is_flat(t)
            &&& is_alternative(t) ==> is_flat(t)
            &&& time_type(t) matches Some(k) ==> (k is Interval ==> !is_item(t))
            &&& plain_type(t) matches Some(k) ==> (k is FixedSizeBinary ==> !is_item(t))
        },
        list_type(t) is None && !is_flat(t) ==> (composite_type(t) matches Some(c) ==> (
        c is Dictionary || c is Union || c is RunEndEncoded ==> !is_value(t) && !is_alternative(t))),
        composite_type(t) is None && !is_flat(t) ==> (list_type(t) matches Some(l) ==> {
            &&& l is ListView || l is LargeListView ==> !is_value(t) && !is_alternative(t)
            &&& l is FixedSizeList ==> !is_alternative(t)
        }),
{
}

} // verus!
