//! The order of the values of a column.
use ignition_column::basic::{ConvertedType, LogicalType, SortOrder, Type};
use ignition_column::byte_order::{compare_greater_byte_array_decimals, slice_greater};
use ignition_column::data_type::{
    ByteArray, Double, FixedLenByteArray, Float, Int96, ParquetValueType,
};
use ignition_column::errors::ParquetError;
use ignition_column::schema::ColumnDescriptor;
use ignition_column::value_order::{
    can_compare, can_update, compare_greater, is_nan, update_max, update_min,
};

fn column(
    physical_type: Type,
    logical_type: Option<LogicalType>,
    converted_type: ConvertedType,
) -> ColumnDescriptor {
    ColumnDescriptor {
        path: "a.b".to_string(),
        name: "b".to_string(),
        physical_type,
        logical_type,
        converted_type,
        max_def_level: 0,
        max_rep_level: 0,
    }
}

fn plain(physical_type: Type) -> ColumnDescriptor {
    column(physical_type, None, ConvertedType::NONE)
}

fn float(x: f32) -> Float {
    Float { bits: x.to_bits() }
}

fn double(x: f64) -> Double {
    Double { bits: x.to_bits() }
}

fn bytes(data: &[u8]) -> ByteArray {
    ByteArray { data: data.to_vec() }
}

#[test]
fn integers_are_signed_unless_the_column_says_otherwise() {
    let signed = plain(Type::INT32);
    assert!(compare_greater(&signed, &1i32, &-1i32));
    assert!(!compare_greater(&signed, &-1i32, &1i32));
    let unsigned = column(
        Type::INT32,
        Some(LogicalType::Integer { bit_width: 32, is_signed: false }),
        ConvertedType::NONE,
    );
    assert!(compare_greater(&unsigned, &-1i32, &1i32));
    let converted = column(Type::INT64, None, ConvertedType::UINT_64);
    assert!(compare_greater(&converted, &-1i64, &1i64));
    assert!(!compare_greater(&converted, &1i64, &1i64));
    let still_signed = column(
        Type::INT32,
        Some(LogicalType::Integer { bit_width: 32, is_signed: true }),
        ConvertedType::NONE,
    );
    assert!(!compare_greater(&still_signed, &-1i32, &1i32));
}

#[test]
fn values_without_an_unsigned_reading_cannot_be_compared_as_unsigned() {
    let unsigned = column(Type::BYTE_ARRAY, None, ConvertedType::UINT_32);
    assert!(!can_compare::<ByteArray>(&unsigned));
    assert!(matches!(bytes(b"x").as_u64(), Err(ParquetError::NoUnsignedReading)));
    assert!(matches!(float(1.0).as_u64(), Err(ParquetError::NoUnsignedReading)));
    assert!(!can_update(&unsigned, &bytes(b"x"), &Some(bytes(b"y"))));
    assert!(can_update(&unsigned, &bytes(b"x"), &None));
    assert_eq!((-1i32).as_u64().ok(), Some(u64::MAX));
}

#[test]
fn half_precision_values_cannot_be_compared() {
    let half =
        column(Type::FIXED_LEN_BYTE_ARRAY, Some(LogicalType::Float16), ConvertedType::NONE);
    assert!(!can_compare::<FixedLenByteArray>(&half));
    assert!(!can_update(&half, &FixedLenByteArray { data: vec![0, 1] }, &None));
}

#[test]
fn floats_are_ordered_by_value() {
    let descr = plain(Type::FLOAT);
    let values = [f32::NEG_INFINITY, -2.5, -1e-40, 0.0, 1e-40, 1.0, f32::MAX, f32::INFINITY];
    for (i, a) in values.iter().enumerate() {
        for (j, b) in values.iter().enumerate() {
            assert_eq!(compare_greater(&descr, &float(*a), &float(*b)), i > j);
        }
    }
    assert!(!compare_greater(&descr, &float(0.0), &float(-0.0)));
    assert!(!compare_greater(&descr, &float(-0.0), &float(0.0)));
    assert!(!compare_greater(&descr, &float(f32::NAN), &float(1.0)));
    assert!(!compare_greater(&descr, &float(1.0), &float(f32::NAN)));
}

#[test]
fn doubles_are_ordered_by_value() {
    let descr = plain(Type::DOUBLE);
    let values = [f64::NEG_INFINITY, -3.25, 0.0, 1e-310, 2.0, f64::MAX, f64::INFINITY];
    for (i, a) in values.iter().enumerate() {
        for (j, b) in values.iter().enumerate() {
            assert_eq!(compare_greater(&descr, &double(*a), &double(*b)), i > j);
        }
    }
}

#[test]
fn only_floating_point_values_are_no_numbers() {
    assert!(is_nan(&plain(Type::FLOAT), &float(f32::NAN)));
    assert!(is_nan(&plain(Type::DOUBLE), &double(-f64::NAN)));
    assert!(!is_nan(&plain(Type::FLOAT), &float(f32::INFINITY)));
    assert!(!is_nan(&plain(Type::DOUBLE), &double(0.0)));
    assert!(!is_nan(&plain(Type::INT32), &7i32));
    assert!(!is_nan(&plain(Type::BOOLEAN), &true));
}

#[test]
fn other_types_have_their_own_order() {
    assert!(compare_greater(&plain(Type::BOOLEAN), &true, &false));
    assert!(!compare_greater(&plain(Type::BOOLEAN), &true, &true));
    assert!(compare_greater(&plain(Type::BYTE_ARRAY), &bytes(b"b"), &bytes(b"abc")));
    assert!(compare_greater(&plain(Type::BYTE_ARRAY), &bytes(b"abc"), &bytes(b"ab")));
    let low = Int96 { word0: 1, word1: 9, word2: 9 };
    let high = Int96 { word0: 2, word1: 0, word2: 0 };
    assert!(compare_greater(&plain(Type::INT96), &high, &low));
    assert!(!compare_greater(&plain(Type::INT96), &low, &high));
}

#[test]
fn byte_strings_are_ordered_byte_by_byte() {
    assert!(slice_greater(&[2], &[1, 9]));
    assert!(slice_greater(&[1, 0], &[1]));
    assert!(!slice_greater(&[], &[]));
    assert!(!slice_greater(&[1], &[1]));
}

#[test]
fn decimals_are_ordered_by_value() {
    // Sign extension does not change a value.
    assert!(!compare_greater_byte_array_decimals(&[0xff, 0xff, 0x10], &[0xff, 0x10]));
    assert!(!compare_greater_byte_array_decimals(&[0xff, 0x10], &[0xff, 0xff, 0x10]));
    assert!(!compare_greater_byte_array_decimals(&[0, 0x10], &[0x10]));
    // -240 and 16
    assert!(compare_greater_byte_array_decimals(&[0x10], &[0xff, 0x10]));
    // 128 and 127
    assert!(compare_greater_byte_array_decimals(&[0, 0x80], &[0x7f]));
    assert!(!compare_greater_byte_array_decimals(&[0x7f], &[0, 0x80]));
    // 1 and 127
    assert!(!compare_greater_byte_array_decimals(&[0, 1], &[0x7f]));
    // -129 and -128
    assert!(compare_greater_byte_array_decimals(&[0x80], &[0xff, 0x7f]));
    // 256 and 1
    assert!(compare_greater_byte_array_decimals(&[1, 0], &[1]));
    assert!(!compare_greater_byte_array_decimals(&[1], &[1, 0]));
}

#[test]
fn the_empty_decimal_comes_first() {
    assert!(compare_greater_byte_array_decimals(&[0], &[]));
    assert!(compare_greater_byte_array_decimals(&[0x80], &[]));
    assert!(!compare_greater_byte_array_decimals(&[], &[0]));
    assert!(!compare_greater_byte_array_decimals(&[], &[]));
}

#[test]
fn decimal_columns_compare_signed() {
    let logical = column(
        Type::BYTE_ARRAY,
        Some(LogicalType::Decimal { scale: 2, precision: 9 }),
        ConvertedType::NONE,
    );
    assert!(compare_greater(&logical, &bytes(&[1]), &bytes(&[0xff])));
    let converted = column(Type::FIXED_LEN_BYTE_ARRAY, None, ConvertedType::DECIMAL);
    let one = FixedLenByteArray { data: vec![0, 1] };
    let minus_one = FixedLenByteArray { data: vec![0xff, 0xff] };
    assert!(compare_greater(&converted, &one, &minus_one));
    assert!(compare_greater(&plain(Type::BYTE_ARRAY), &bytes(&[0xff]), &bytes(&[1])));
}

#[test]
fn running_bounds_skip_what_is_no_number() {
    let descr = plain(Type::FLOAT);
    let mut min = None;
    let mut max = None;
    for x in [f32::NAN, 2.0, -1.5, f32::NAN, 9.0, 3.0] {
        update_min(&descr, &float(x), &mut min);
        update_max(&descr, &float(x), &mut max);
    }
    assert_eq!(min.map(|v| f32::from_bits(v.bits)), Some(-1.5));
    assert_eq!(max.map(|v| f32::from_bits(v.bits)), Some(9.0));
    let mut none: Option<Float> = None;
    update_min(&descr, &float(f32::NAN), &mut none);
    assert!(none.is_none());
}

#[test]
fn the_sort_order_follows_the_column() {
    assert_eq!(plain(Type::INT32).sort_order(), SortOrder::SIGNED);
    assert_eq!(plain(Type::BYTE_ARRAY).sort_order(), SortOrder::UNSIGNED);
    assert_eq!(plain(Type::INT96).sort_order(), SortOrder::UNDEFINED);
    let unsigned = column(Type::INT32, None, ConvertedType::UINT_8);
    assert_eq!(unsigned.sort_order(), SortOrder::UNSIGNED);
    let decimal = column(Type::BYTE_ARRAY, None, ConvertedType::DECIMAL);
    assert_eq!(decimal.sort_order(), SortOrder::SIGNED);
    let text = column(Type::BYTE_ARRAY, Some(LogicalType::String), ConvertedType::UTF8);
    assert_eq!(text.sort_order(), SortOrder::UNSIGNED);
}
