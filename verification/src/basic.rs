//! The enumerations of the file format and the order that a column's type gives its values.
use vstd::prelude::*;

verus! {

/// How the values of a column are stored.
#[allow(non_camel_case_types)]
#[derive(Clone, Copy, Debug, PartialEq, Eq, Structural)]
pub enum Type {
    BOOLEAN,
    INT32,
    INT64,
    INT96,
    FLOAT,
    DOUBLE,
    BYTE_ARRAY,
    FIXED_LEN_BYTE_ARRAY,
}

/// What the stored values of a column mean, in the older of the format's two vocabularies.
#[allow(non_camel_case_types)]
#[derive(Clone, Copy, Debug, PartialEq, Eq, Structural)]
pub enum ConvertedType {
    NONE,
    UTF8,
    MAP,
    MAP_KEY_VALUE,
    LIST,
    ENUM,
    DECIMAL,
    DATE,
    TIME_MILLIS,
    TIME_MICROS,
    TIMESTAMP_MILLIS,
    TIMESTAMP_MICROS,
    UINT_8,
    UINT_16,
    UINT_32,
    UINT_64,
    INT_8,
    INT_16,
    INT_32,
    INT_64,
    JSON,
    BSON,
    INTERVAL,
}

/// The unit that a time or a timestamp counts.
#[derive(Clone, Copy, Debug, PartialEq, Eq, Structural)]
pub enum TimeUnit {
    Millis,
    Micros,
    Nanos,
}

/// What the stored values of a column mean.
#[derive(Clone, Copy, Debug, PartialEq, Eq, Structural)]
pub enum LogicalType {
    String,
    MapGroup,
    ListGroup,
    Enum,
    Decimal { scale: i32, precision: i32 },
    Date,
    Time { is_adjusted_to_utc: bool, unit: TimeUnit },
    Timestamp { is_adjusted_to_utc: bool, unit: TimeUnit },
    Integer { bit_width: i8, is_signed: bool },
    Unknown,
    Json,
    Bson,
    Uuid,
    Float16,
}

/// How the payload of a page is encoded.
#[allow(non_camel_case_types)]
#[derive(Clone, Copy, Debug, PartialEq, Eq, Structural)]
pub enum Encoding {
    PLAIN,
    PLAIN_DICTIONARY,
    RLE,
    BIT_PACKED,
    DELTA_BINARY_PACKED,
    DELTA_LENGTH_BYTE_ARRAY,
    DELTA_BYTE_ARRAY,
    RLE_DICTIONARY,
    BYTE_STREAM_SPLIT,
    IGNITION,
}

/// Which codec compresses the pages of a column.
#[allow(non_camel_case_types)]
#[derive(Clone, Copy, Debug, PartialEq, Eq, Structural)]
pub enum Compression {
    UNCOMPRESSED,
    SNAPPY,
    GZIP(u32),
    LZO,
    BROTLI(u32),
    LZ4,
    ZSTD(i32),
    LZ4_RAW,
}

/// What a page holds.
#[allow(non_camel_case_types)]
#[derive(Clone, Copy, Debug, PartialEq, Eq, Structural)]
pub enum PageType {
    DATA_PAGE,
    INDEX_PAGE,
    DICTIONARY_PAGE,
    DATA_PAGE_V2,
    DECODER_PAGE,
}

/// The order of the values of a column.
#[allow(non_camel_case_types)]
#[derive(Clone, Copy, Debug, PartialEq, Eq, Structural)]
pub enum SortOrder {
    SIGNED,
    UNSIGNED,
    UNDEFINED,
}

/// How the minima and maxima of successive pages are ordered.
#[allow(non_camel_case_types)]
#[derive(Clone, Copy, Debug, PartialEq, Eq, Structural)]
pub enum BoundaryOrder {
    UNORDERED,
    ASCENDING,
    DESCENDING,
}

/// At which levels statistics are kept.
#[derive(Clone, Copy, Debug, PartialEq, Eq, Structural)]
pub enum EnabledStatistics {
    Disabled,
    Chunk,
    Page,
}

/// The number that stands for a page type in a page header.
pub open spec fn page_type_code(t: PageType) -> i32 {
    match t {
        PageType::DATA_PAGE => 0,
        PageType::INDEX_PAGE => 1,
        PageType::DICTIONARY_PAGE => 2,
        PageType::DATA_PAGE_V2 => 3,
        PageType::DECODER_PAGE => 4,
    }
}

/// The number that stands for an encoding in a page header.
pub open spec fn encoding_code(e: Encoding) -> i32 {
    match e {
        Encoding::PLAIN => 0,
        Encoding::PLAIN_DICTIONARY => 2,
        Encoding::RLE => 3,
        Encoding::BIT_PACKED => 4,
        Encoding::DELTA_BINARY_PACKED => 5,
        Encoding::DELTA_LENGTH_BYTE_ARRAY => 6,
        Encoding::DELTA_BYTE_ARRAY => 7,
        Encoding::RLE_DICTIONARY => 8,
        Encoding::BYTE_STREAM_SPLIT => 9,
        Encoding::IGNITION => 10,
    }
}

impl PageType {
    /// The number that stands for this page type in a page header.
    pub fn code(&self) -> (code: i32)
        ensures
            code == page_type_code(*self),
    {
        match self {
            PageType::DATA_PAGE => 0,
            PageType::INDEX_PAGE => 1,
            PageType::DICTIONARY_PAGE => 2,
            PageType::DATA_PAGE_V2 => 3,
            PageType::DECODER_PAGE => 4,
        }
    }
}

impl Encoding {
    /// The number that stands for this encoding in a page header.
    pub fn code(&self) -> (code: i32)
        ensures
            code == encoding_code(*self),
    {
        match self {
            Encoding::PLAIN => 0,
            Encoding::PLAIN_DICTIONARY => 2,
            Encoding::RLE => 3,
            Encoding::BIT_PACKED => 4,
            Encoding::DELTA_BINARY_PACKED => 5,
            Encoding::DELTA_LENGTH_BYTE_ARRAY => 6,
            Encoding::DELTA_BYTE_ARRAY => 7,
            Encoding::RLE_DICTIONARY => 8,
            Encoding::BYTE_STREAM_SPLIT => 9,
            Encoding::IGNITION => 10,
        }
    }
}

/// The order of a column that has neither a logical nor a converted type.
pub open spec fn default_order(t: Type) -> SortOrder {
    match t {
        Type::BOOLEAN | Type::BYTE_ARRAY | Type::FIXED_LEN_BYTE_ARRAY => SortOrder::UNSIGNED,
        Type::INT32 | Type::INT64 | Type::FLOAT | Type::DOUBLE => SortOrder::SIGNED,
        Type::INT96 => SortOrder::UNDEFINED,
    }
}

/// The order of a column without a logical type.
pub open spec fn converted_order(converted: ConvertedType, physical: Type) -> SortOrder {
    match converted {
        ConvertedType::UTF8 | ConvertedType::JSON | ConvertedType::BSON | ConvertedType::ENUM
        | ConvertedType::UINT_8 | ConvertedType::UINT_16 | ConvertedType::UINT_32
        | ConvertedType::UINT_64 => SortOrder::UNSIGNED,
        ConvertedType::INT_8 | ConvertedType::INT_16 | ConvertedType::INT_32
        | ConvertedType::INT_64 | ConvertedType::DECIMAL | ConvertedType::DATE
        | ConvertedType::TIME_MILLIS | ConvertedType::TIME_MICROS
        | ConvertedType::TIMESTAMP_MILLIS | ConvertedType::TIMESTAMP_MICROS => SortOrder::SIGNED,
        ConvertedType::LIST | ConvertedType::MAP | ConvertedType::MAP_KEY_VALUE
        | ConvertedType::INTERVAL => SortOrder::UNDEFINED,
        ConvertedType::NONE => default_order(physical),
    }
}

/// The order of a column: that of its logical type where it has one.
pub open spec fn column_order(
    logical: Option<LogicalType>,
    converted: ConvertedType,
    physical: Type,
) -> SortOrder {
    match logical {
        Some(LogicalType::Integer { is_signed, .. }) => if is_signed {
            SortOrder::SIGNED
        } else {
            SortOrder::UNSIGNED
        },
        Some(LogicalType::String) | Some(LogicalType::Enum) | Some(LogicalType::Json)
        | Some(LogicalType::Bson) | Some(LogicalType::Uuid) => SortOrder::UNSIGNED,
        Some(LogicalType::MapGroup) | Some(LogicalType::ListGroup)
        | Some(LogicalType::Unknown) => SortOrder::UNDEFINED,
        Some(_) => SortOrder::SIGNED,
        None => converted_order(converted, physical),
    }
}

/// Computes `default_order`.
fn get_default_sort_order(physical: Type) -> (order: SortOrder)
    ensures
        order == default_order(physical),
{
    match physical {
        Type::BOOLEAN | Type::BYTE_ARRAY | Type::FIXED_LEN_BYTE_ARRAY => SortOrder::UNSIGNED,
        Type::INT32 | Type::INT64 | Type::FLOAT | Type::DOUBLE => SortOrder::SIGNED,
        Type::INT96 => SortOrder::UNDEFINED,
    }
}

/// Computes `converted_order`.
fn get_converted_sort_order(converted: ConvertedType, physical: Type) -> (order: SortOrder)
    ensures
        order == converted_order(converted, physical),
{
    match converted {
        ConvertedType::UTF8 | ConvertedType::JSON | ConvertedType::BSON | ConvertedType::ENUM
        | ConvertedType::UINT_8 | ConvertedType::UINT_16 | ConvertedType::UINT_32
        | ConvertedType::UINT_64 => SortOrder::UNSIGNED,
        ConvertedType::INT_8 | ConvertedType::INT_16 | ConvertedType::INT_32
        | ConvertedType::INT_64 | ConvertedType::DECIMAL | ConvertedType::DATE
        | ConvertedType::TIME_MILLIS | ConvertedType::TIME_MICROS
        | ConvertedType::TIMESTAMP_MILLIS | ConvertedType::TIMESTAMP_MICROS => SortOrder::SIGNED,
        ConvertedType::LIST | ConvertedType::MAP | ConvertedType::MAP_KEY_VALUE
        | ConvertedType::INTERVAL => SortOrder::UNDEFINED,
        ConvertedType::NONE => get_default_sort_order(physical),
    }
}

/// The order of the values of a column with these types.
pub fn get_sort_order(
    logical: Option<LogicalType>,
    converted: ConvertedType,
    physical: Type,
) -> (order: SortOrder)
    ensures
        order == column_order(logical, converted, physical),
{
    match logical {
        Some(LogicalType::Integer { is_signed, .. }) => if is_signed {
            SortOrder::SIGNED
        } else {
            SortOrder::UNSIGNED
        },
        Some(LogicalType::String) | Some(LogicalType::Enum) | Some(LogicalType::Json)
        | Some(LogicalType::Bson) | Some(LogicalType::Uuid) => SortOrder::UNSIGNED,
        Some(LogicalType::MapGroup) | Some(LogicalType::ListGroup)
        | Some(LogicalType::Unknown) => SortOrder::UNDEFINED,
        Some(LogicalType::Decimal { .. }) | Some(LogicalType::Date)
        | Some(LogicalType::Time { .. }) | Some(LogicalType::Timestamp { .. })
        | Some(LogicalType::Float16) => SortOrder::SIGNED,
        None => get_converted_sort_order(converted, physical),
    }
}

/// The numbers of the format stand for the page types and the encodings.
pub proof fn codes_of_the_format(t: PageType, e: Encoding)
    ensures
        t is DATA_PAGE ==> page_type_code(t) == 0,
        t is INDEX_PAGE ==> page_type_code(t) == 1,
        t is DICTIONARY_PAGE ==> page_type_code(t) == 2,
        t is DATA_PAGE_V2 ==> page_type_code(t) == 3,
        t is DECODER_PAGE ==> page_type_code(t) == 4,
        e is PLAIN ==> encoding_code(e) == 0,
        e is PLAIN_DICTIONARY ==> encoding_code(e) == 2,
        e is RLE ==> encoding_code(e) == 3,
        e is BIT_PACKED ==> encoding_code(e) == 4,
        e is DELTA_BINARY_PACKED ==> encoding_code(e) == 5,
        e is DELTA_LENGTH_BYTE_ARRAY ==> encoding_code(e) == 6,
        e is DELTA_BYTE_ARRAY ==> encoding_code(e) == 7,
        e is RLE_DICTIONARY ==> encoding_code(e) == 8,
        e is BYTE_STREAM_SPLIT ==> encoding_code(e) == 9,
        e is IGNITION ==> encoding_code(e) == 10,
{
}

/// Different page types and different encodings have different numbers.
pub proof fn codes_differ(t: PageType, u: PageType, e: Encoding, f: Encoding)
    ensures
        page_type_code(t) == page_type_code(u) ==> t == u,
        encoding_code(e) == encoding_code(f) ==> e == f,
{
}

/// A column of unsigned integers is ordered unsigned and one of signed integers signed. The logical
/// type decides alone where there is one, then the converted type, then how values are stored:
/// numbers are signed, and truth values and bytes are not.
pub proof fn order_follows_the_type(
    logical: Option<LogicalType>,
    converted: ConvertedType,
    other: ConvertedType,
    physical: Type,
    stored: Type,
)
    ensures
        ({
            let order = column_order(logical, converted, physical);
            &&& logical is Some ==> order == column_order(logical, other, stored)
            &&& logical matches Some(LogicalType::Integer { is_signed, .. }) ==> (is_signed
                <==> order is SIGNED) && (!is_signed <==> order is UNSIGNED)
            &&& logical matches Some(l) ==> {
                &&& l is Decimal || l is Date || l is Time || l is Timestamp || l is Float16
                    ==> order is SIGNED
                &&& l is String || l is Enum || l is Json || l is Bson || l is Uuid
                    ==> order is UNSIGNED
                &&& l is MapGroup || l is ListGroup || l is Unknown ==> order is UNDEFINED
            }
            &&& logical is None && !(converted is NONE) ==> order == column_order(
                logical,
                converted,
                stored,
            )
            &&& logical is None ==> {
                &&& converted is UINT_8 || converted is UINT_16 || converted is UINT_32
                    || converted is UINT_64 ==> order is UNSIGNED
                &&& converted is INT_8 || converted is INT_16 || converted is INT_32
                    || converted is INT_64 || converted is DECIMAL || converted is DATE
                    || converted is TIME_MILLIS || converted is TIME_MICROS
                    || converted is TIMESTAMP_MILLIS || converted is TIMESTAMP_MICROS
                    ==> order is SIGNED
                &&& converted is UTF8 || converted is ENUM || converted is JSON || converted is BSON
                    ==> order is UNSIGNED
                &&& converted is MAP || converted is MAP_KEY_VALUE || converted is LIST
                    || converted is INTERVAL ==> order is UNDEFINED
            }
            &&& logical is None && converted is NONE ==> {
                &&& physical is INT32 || physical is INT64 || physical is FLOAT || physical is DOUBLE
                    ==> order is SIGNED
                &&& physical is BOOLEAN || physical is BYTE_ARRAY || physical is FIXED_LEN_BYTE_ARRAY
                    ==> order is UNSIGNED
                &&& physical is INT96 ==> order is UNDEFINED
            }
        }),
{
}

} // verus!
