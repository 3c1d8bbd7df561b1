//! Page headers.
use ignition_column::data_type::{ByteArray, ParquetValueType};
use ignition_column::format::{
    DataPageHeaderV2, DecoderPageHeader, HeaderStatistics, PageHeader,
};
use ignition_column::little_endian::{u32_from_bytes, u32_to_bytes, u64_to_bytes};
use ignition_column::page::to_thrift;
use ignition_column::statistics::{Statistics, ValueStatistics};

fn header(type_: i32, uncompressed: i32, compressed: i32) -> PageHeader {
    PageHeader {
        type_,
        uncompressed_page_size: uncompressed,
        compressed_page_size: compressed,
        data_page_header_v2: None,
        decoder_page_header: None,
    }
}

fn data_page() -> DataPageHeaderV2 {
    DataPageHeaderV2 {
        num_values: 1,
        num_nulls: 0,
        num_rows: 1,
        encoding: 10,
        definition_levels_byte_length: 0,
        repetition_levels_byte_length: 0,
        is_compressed: None,
        statistics: None,
    }
}

#[test]
fn numbers_are_written_in_groups_of_seven_bits() {
    let mut out = vec![9];
    header(-1, i32::MAX, i32::MIN).write_to_out_protocol(&mut out).unwrap();
    assert_eq!(
        out,
        vec![9, 21, 1, 21, 254, 255, 255, 255, 15, 21, 255, 255, 255, 255, 15, 0]
    );
}

#[test]
fn fields_that_are_missing_are_left_out() {
    let mut out = Vec::new();
    let mut h = header(3, 100, 50);
    h.data_page_header_v2 = Some(data_page());
    h.write_to_out_protocol(&mut out).unwrap();
    assert_eq!(
        out,
        vec![21, 6, 21, 200, 1, 21, 100, 92, 21, 2, 21, 0, 21, 2, 21, 20, 21, 0, 21, 0, 0, 0]
    );
}

#[test]
fn records_follow_each_other() {
    let mut out = Vec::new();
    let mut h = header(4, 1, 1);
    h.data_page_header_v2 = Some(data_page());
    h.decoder_page_header = Some(DecoderPageHeader { version: "\u{e9}".to_string() });
    h.write_to_out_protocol(&mut out).unwrap();
    assert_eq!(
        out,
        vec![
            21, 8, 21, 2, 21, 2, 92, 21, 2, 21, 0, 21, 2, 21, 20, 21, 0, 21, 0, 0, 28, 24, 2, 195,
            169, 0, 0
        ]
    );
}

#[test]
fn statistics_are_written_field_by_field() {
    let mut out = Vec::new();
    let statistics = HeaderStatistics {
        max: Some(b"z".to_vec()),
        min: Some(b"a".to_vec()),
        null_count: Some(3),
        distinct_count: Some(-1),
        max_value: Some(b"zz".to_vec()),
        min_value: Some(vec![]),
        is_max_value_exact: Some(true),
        is_min_value_exact: Some(false),
    };
    statistics.write_to_out_protocol(&mut out).unwrap();
    assert_eq!(
        out,
        vec![
            24, 1, 122, 24, 1, 97, 22, 6, 22, 1, 24, 2, 122, 122, 24, 0, 17, 18, 0
        ]
    );
}

#[test]
fn older_fields_are_filled_on_demand() {
    let bound = |x: &[u8]| Some(ByteArray { data: x.to_vec() });
    let stats = ValueStatistics::new(bound(b"a"), bound(b"z"), Some(5), Some(u64::MAX), false);
    let h = to_thrift(&Statistics::ByteArray(stats));
    assert_eq!((h.min, h.max), (None, None));
    assert_eq!(h.min_value, Some(b"a".to_vec()));
    assert_eq!(h.max_value, Some(b"z".to_vec()));
    assert_eq!(h.distinct_count, Some(5));
    // A count that does not fit is left out.
    assert_eq!(h.null_count, None);
    let stats = ValueStatistics::new(Some(1i32), None, None, Some(0), false)
        .with_backwards_compatible_min_max(true);
    let h = to_thrift(&Statistics::Int32(stats));
    assert_eq!(h.min, Some(vec![1, 0, 0, 0]));
    assert_eq!(h.min_value, Some(vec![1, 0, 0, 0]));
    assert_eq!((h.max, h.max_value), (None, None));
    assert_eq!(h.is_min_value_exact, Some(true));
    assert_eq!(h.is_max_value_exact, Some(false));
    let stats = ValueStatistics::new(Some(true), Some(true), None, None, true);
    let h = to_thrift(&Statistics::Boolean(stats));
    assert_eq!(h.min, Some(vec![1]));
    assert_eq!(h.min_value, None);
}

#[test]
fn numbers_are_read_back() {
    for x in [0u32, 1, 255, 256, 0x1234_5678, u32::MAX] {
        let bytes = u32_to_bytes(x);
        assert_eq!(bytes, x.to_le_bytes().to_vec());
        assert_eq!(u32_from_bytes(&bytes, 0), x);
    }
    assert_eq!(u64_to_bytes(0x0102_0304_0506_0708), vec![8, 7, 6, 5, 4, 3, 2, 1]);
}

#[test]
fn values_have_plain_bytes() {
    assert_eq!((-2i64).as_bytes(), (-2i64).to_le_bytes().to_vec());
    assert_eq!(258i32.as_bytes(), vec![2, 1, 0, 0]);
    assert_eq!(false.as_bytes(), vec![0]);
}
