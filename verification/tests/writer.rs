//! Writing a column chunk.
use bytes::Bytes;
use ignition_column::basic::{
    BoundaryOrder, Compression, ConvertedType, EnabledStatistics, Encoding, LogicalType, Type,
};
use ignition_column::bloom_filter::Sbbf;
use ignition_column::compression::Codec;
use ignition_column::data_type::{ByteArray, FixedLenByteArray, Float};
use ignition_column::errors::ParquetError;
use ignition_column::metadata::PageLocation;
use ignition_column::properties::{
    BloomFilterProperties, ColumnProperties, NamedColumnProperties, WriterProperties,
};
use ignition_column::schema::ColumnDescriptor;
use ignition_column::sink::TrackedWrite;
use ignition_column::statistics::{Statistics, StatisticsValue};
use ignition_column::writer::{ColumnCloseResult, IgnitionColumnWriter};

fn column(physical_type: Type, max_def_level: i16, max_rep_level: i16) -> ColumnDescriptor {
    ColumnDescriptor {
        path: "a.b".to_string(),
        name: "b".to_string(),
        physical_type,
        logical_type: None,
        converted_type: ConvertedType::NONE,
        max_def_level,
        max_rep_level,
    }
}

fn properties(statistics: EnabledStatistics) -> WriterProperties {
    WriterProperties {
        statistics_truncate_length: Some(4),
        default_column_properties: ColumnProperties {
            compression: None,
            statistics_enabled: Some(statistics),
            bloom_filter_properties: None,
        },
        column_properties: vec![],
    }
}

fn writer<T: StatisticsValue>(descr: ColumnDescriptor) -> IgnitionColumnWriter<T> {
    writer_at(descr, properties(EnabledStatistics::Page), 0)
}

fn writer_at<T: StatisticsValue>(
    descr: ColumnDescriptor,
    props: WriterProperties,
    position: usize,
) -> IgnitionColumnWriter<T> {
    IgnitionColumnWriter::new(descr, TrackedWrite::at(position), props, None).ok().unwrap()
}

/// A payload of four bytes behind the three words.
fn payload() -> Vec<u8> {
    vec![2, 0, 0, 0, 12, 0, 0, 0, 16, 0, 0, 0, 9, 8, 7, 6]
}

fn write_ints(
    w: &mut IgnitionColumnWriter<i32>,
    min: Option<i32>,
    max: Option<i32>,
    num_nulls: u32,
    num_values: u32,
) -> Result<(), ParquetError> {
    let data = payload();
    w.write_data_page(
        &data, min, max, num_nulls, num_values, None, data.len(), false, None, None, None,
    )
}

fn close<T: StatisticsValue>(w: IgnitionColumnWriter<T>) -> ColumnCloseResult {
    w.close(None).ok().unwrap().0
}

#[test]
fn a_decoder_page_is_its_header_and_its_bytes() {
    let mut w = writer::<i32>(column(Type::INT32, 0, 0));
    w.write_decoder(&[1, 2, 3], "1.0.0".to_string()).unwrap();
    assert_eq!(
        w.take_pending(),
        vec![21, 8, 21, 6, 21, 6, 108, 24, 5, 49, 46, 48, 46, 48, 0, 0, 1, 2, 3]
    );
    let result = close(w);
    assert_eq!(result.bytes_written, 19);
    assert_eq!(result.rows_written, 0);
    assert_eq!(result.metadata.dictionary_page_offset, Some(0));
    assert_eq!(result.metadata.data_page_offset, 0);
    assert_eq!(result.metadata.total_compressed_size, 19);
    assert_eq!(result.metadata.total_uncompressed_size, 19);
}

#[test]
fn a_chunk_has_one_decoder() {
    let mut w = writer::<i32>(column(Type::INT32, 0, 0));
    w.write_decoder(&[1], "1".to_string()).unwrap();
    w.take_pending();
    assert!(matches!(
        w.write_decoder(&[1], "1".to_string()),
        Err(ParquetError::UnwritablePage)
    ));
    assert!(w.take_pending().is_empty());
}

#[test]
fn a_data_page_is_laid_out_for_alignment() {
    let mut w = writer::<i32>(column(Type::INT32, 0, 0));
    write_ints(&mut w, Some(-5), Some(7), 1, 3).unwrap();
    let bytes = w.take_pending();
    assert_eq!(
        bytes,
        vec![
            21, 6, 21, 32, 21, 40, 92, 21, 6, 21, 2, 21, 6, 21, 20, 21, 0, 21, 0, 18, 28, 54, 2,
            40, 4, 7, 0, 0, 0, 24, 4, 251, 255, 255, 255, 17, 17, 0, 0, 0, 2, 0, 0, 0, 16, 0, 0, 0,
            20, 0, 0, 0, 0, 0, 0, 0, 9, 8, 7, 6,
        ]
    );
    let result = close(w);
    assert_eq!(result.bytes_written, 60);
    assert_eq!(result.rows_written, 3);
    assert_eq!(result.metadata.total_compressed_size, 60);
    assert_eq!(result.metadata.total_uncompressed_size, 60);
    assert_eq!(result.metadata.num_values, 3);
    assert_eq!(result.metadata.encodings, vec![Encoding::IGNITION]);
    assert_eq!(result.metadata.compression, Compression::UNCOMPRESSED);
}

#[test]
fn the_data_chunk_stands_at_a_multiple_of_eight() {
    for position in 0..9usize {
        for name in ["", "1", "22", "333"] {
            let mut w = writer_at::<i32>(
                column(Type::INT32, 0, 0),
                properties(EnabledStatistics::Page),
                position,
            );
            w.write_decoder(&[7; 5], name.to_string()).unwrap();
            let before = position + w.take_pending().len();
            write_ints(&mut w, Some(1), Some(2), 0, 3).unwrap();
            let bytes = w.take_pending();
            let at = bytes.len() - 4;
            assert_eq!(&bytes[at..], &[9, 8, 7, 6]);
            assert_eq!((before + at) % 8, 0);
            // The words in front say where the data chunk starts and ends.
            let padding = bytes.len() - 40 - 16;
            let words = bytes.len() - 4 - padding - 12;
            assert_eq!(bytes[words], 2);
            assert_eq!(bytes[words + 4] as usize, 12 + padding);
            assert_eq!(bytes[words + 8] as usize, 16 + padding);
            // The header counts the padding.
            assert_eq!(bytes[5] as usize, 2 * (16 + padding));
        }
    }
}

#[test]
fn the_offset_index_finds_the_pages() {
    let mut w = writer::<i32>(column(Type::INT32, 0, 0));
    w.write_decoder(&[1, 2, 3], "1.0.0".to_string()).unwrap();
    write_ints(&mut w, Some(-5), Some(7), 1, 3).unwrap();
    write_ints(&mut w, Some(0), Some(9), 0, 2).unwrap();
    let bytes = w.take_pending();
    let result = close(w);
    assert_eq!(result.bytes_written as usize, bytes.len());
    assert_eq!(result.metadata.data_page_offset, 19);
    let pages = result.offset_index.unwrap().page_locations;
    assert_eq!(
        pages[0],
        PageLocation { offset: 19, compressed_page_size: 57, first_row_index: 0 }
    );
    assert_eq!(pages[1].offset, 76);
    assert_eq!(pages[1].first_row_index, 3);
    assert_eq!(pages.len(), 2);
    assert_eq!(76 + pages[1].compressed_page_size as usize, bytes.len());
    assert_eq!(result.rows_written, 5);
}

#[test]
fn the_offset_index_keeps_the_sizes_of_byte_strings() {
    let mut w = writer::<ByteArray>(column(Type::BYTE_ARRAY, 0, 0));
    let data = payload();
    for size in [Some(11), None, Some(5)] {
        w.write_data_page(&data, None, None, 2, 2, None, 16, false, size, None, None).unwrap();
    }
    let result = close(w);
    assert_eq!(
        result.offset_index.unwrap().unencoded_byte_array_data_bytes,
        Some(vec![11, 5])
    );
    assert_eq!(result.metadata.unencoded_byte_array_data_bytes, None);
}

#[test]
fn the_column_index_describes_the_pages() {
    let mut w = writer::<i32>(column(Type::INT32, 0, 0));
    write_ints(&mut w, Some(-5), Some(7), 1, 3).unwrap();
    write_ints(&mut w, None, None, 2, 2).unwrap();
    let result = close(w);
    let index = result.column_index.unwrap();
    assert_eq!(index.null_pages, vec![false, true]);
    assert_eq!(index.min_values, vec![vec![251, 255, 255, 255], vec![]]);
    assert_eq!(index.max_values, vec![vec![7, 0, 0, 0], vec![]]);
    assert_eq!(index.null_counts, vec![1, 2]);
    assert_eq!(index.boundary_order, BoundaryOrder::UNORDERED);
    assert_eq!(index.repetition_level_histograms, None);
}

#[test]
fn the_column_index_is_given_up_without_bounds() {
    let mut w = writer::<i32>(column(Type::INT32, 0, 0));
    write_ints(&mut w, Some(1), None, 0, 3).unwrap();
    write_ints(&mut w, Some(1), Some(2), 0, 3).unwrap();
    let result = close(w);
    assert!(result.column_index.is_none());
    assert_eq!(result.offset_index.unwrap().page_locations.len(), 2);
}

#[test]
fn the_column_index_needs_page_statistics() {
    for statistics in [EnabledStatistics::Chunk, EnabledStatistics::Disabled] {
        let mut w =
            writer_at::<i32>(column(Type::INT32, 0, 0), properties(statistics), 0);
        write_ints(&mut w, Some(1), Some(2), 0, 3).unwrap();
        let result = close(w);
        assert!(result.column_index.is_none());
        assert_eq!(
            result.metadata.statistics.is_some(),
            statistics != EnabledStatistics::Disabled
        );
    }
}

#[test]
fn chunk_statistics_are_the_running_bounds() {
    let mut w = writer::<i32>(column(Type::INT32, 0, 0));
    write_ints(&mut w, Some(3), Some(7), 1, 3).unwrap();
    write_ints(&mut w, Some(-2), Some(5), 2, 4).unwrap();
    write_ints(&mut w, None, None, 1, 1).unwrap();
    match close(w).metadata.statistics.unwrap() {
        Statistics::Int32(s) => {
            assert_eq!(s.min, Some(-2));
            assert_eq!(s.max, Some(7));
            assert_eq!(s.null_count, Some(4));
            assert_eq!(s.distinct_count, None);
            assert!(s.is_min_value_exact && s.is_max_value_exact);
            assert!(s.is_min_max_backwards_compatible);
            assert!(!s.is_min_max_deprecated);
        }
        other => panic!("{other:?}"),
    }
}

#[test]
fn chunk_statistics_of_floats_skip_what_is_no_number() {
    let mut w = writer::<Float>(column(Type::FLOAT, 0, 0));
    let data = payload();
    for (min, max) in [(f32::NAN, f32::NAN), (1.5, 2.5), (-0.5, f32::NAN)] {
        let (min, max) = (Float { bits: min.to_bits() }, Float { bits: max.to_bits() });
        w.write_data_page(&data, Some(min), Some(max), 0, 1, None, 16, false, None, None, None)
            .unwrap();
    }
    match close(w).metadata.statistics.unwrap() {
        Statistics::Float(s) => {
            assert_eq!(s.min.map(|v| f32::from_bits(v.bits)), Some(-0.5));
            assert_eq!(s.max.map(|v| f32::from_bits(v.bits)), Some(2.5));
        }
        other => panic!("{other:?}"),
    }
}

fn write_text(w: &mut IgnitionColumnWriter<ByteArray>, min: &str, max: &str) {
    let data = payload();
    let min = ByteArray { data: min.as_bytes().to_vec() };
    let max = ByteArray { data: max.as_bytes().to_vec() };
    w.write_data_page(&data, Some(min), Some(max), 0, 2, Some(2), 16, false, None, None, None)
        .unwrap();
}

#[test]
fn long_bounds_of_a_chunk_are_shortened() {
    let mut w = writer::<ByteArray>(column(Type::BYTE_ARRAY, 0, 0));
    write_text(&mut w, "apple pie", "cherry");
    match close(w).metadata.statistics.unwrap() {
        Statistics::ByteArray(s) => {
            assert_eq!(s.min.unwrap().data, b"app".to_vec());
            assert_eq!(s.max.unwrap().data, b"chf".to_vec());
            assert!(!s.is_min_value_exact);
            assert!(!s.is_max_value_exact);
            assert!(!s.is_min_max_backwards_compatible);
        }
        other => panic!("{other:?}"),
    }
    let mut w = writer::<ByteArray>(column(Type::BYTE_ARRAY, 0, 0));
    write_text(&mut w, "apple pie", "fig");
    match close(w).metadata.statistics.unwrap() {
        Statistics::ByteArray(s) => {
            assert_eq!(s.max.unwrap().data, b"fig".to_vec());
            assert!(!s.is_min_value_exact);
            assert!(s.is_max_value_exact);
        }
        other => panic!("{other:?}"),
    }
}

#[test]
fn long_bounds_of_a_page_are_shortened() {
    let mut w = writer::<ByteArray>(column(Type::BYTE_ARRAY, 0, 0));
    write_text(&mut w, "apple pie", "cherry");
    let bytes = w.take_pending();
    let find = |needle: &[u8]| bytes.windows(needle.len()).any(|x| x == needle);
    // The maximum, then the minimum, then the two marks: neither is exact.
    assert!(find(&[24, 3, b'c', b'h', b'f', 24, 3, b'a', b'p', b'p', 18, 18]));
    // The column index keeps the bounds as they are.
    let index = close(w).column_index.unwrap();
    assert_eq!(index.min_values, vec![b"apple pie".to_vec()]);
    assert_eq!(index.max_values, vec![b"cherry".to_vec()]);
}

#[test]
fn the_marks_of_a_page_go_by_its_maximum() {
    let mut w = writer::<ByteArray>(column(Type::BYTE_ARRAY, 0, 0));
    write_text(&mut w, "apple pie", "fig");
    let bytes = w.take_pending();
    let find = |needle: &[u8]| bytes.windows(needle.len()).any(|x| x == needle);
    assert!(find(&[24, 3, b'f', b'i', b'g', 24, 3, b'a', b'p', b'p', 17, 17]));
}

#[test]
fn bounds_of_decimals_are_not_shortened() {
    let mut decimal = column(Type::FIXED_LEN_BYTE_ARRAY, 0, 0);
    decimal.logical_type = Some(LogicalType::Decimal { scale: 0, precision: 12 });
    let mut uuid = column(Type::FIXED_LEN_BYTE_ARRAY, 0, 0);
    uuid.logical_type = Some(LogicalType::Uuid);
    let mut half = column(Type::FIXED_LEN_BYTE_ARRAY, 0, 0);
    half.logical_type = Some(LogicalType::Float16);
    assert!(!writer::<FixedLenByteArray>(decimal.clone()).can_truncate_value());
    assert!(writer::<FixedLenByteArray>(uuid.clone()).can_truncate_value());
    assert!(!writer::<FixedLenByteArray>(half).can_truncate_value());
    assert!(writer::<ByteArray>(column(Type::BYTE_ARRAY, 0, 0)).can_truncate_value());
    assert!(!writer::<i32>(column(Type::INT32, 0, 0)).can_truncate_value());
    for (descr, expected) in [(decimal, vec![1, 2, 3, 4, 0xff]), (uuid, vec![1, 2, 3, 5])] {
        let mut w = writer::<FixedLenByteArray>(descr);
        let data = payload();
        let value = || Some(FixedLenByteArray { data: vec![1, 2, 3, 4, 0xff] });
        w.write_data_page(&data, value(), value(), 0, 1, None, 16, false, None, None, None)
            .unwrap();
        match close(w).metadata.statistics.unwrap() {
            Statistics::FixedLenByteArray(s) => assert_eq!(s.max.unwrap().data, expected),
            other => panic!("{other:?}"),
        }
    }
}

#[test]
fn bounds_that_cannot_be_compared_are_refused() {
    let mut half = column(Type::FIXED_LEN_BYTE_ARRAY, 0, 0);
    half.logical_type = Some(LogicalType::Float16);
    let mut w = writer::<FixedLenByteArray>(half);
    let data = payload();
    let value = Some(FixedLenByteArray { data: vec![1, 2] });
    let r = w.write_data_page(&data, value, None, 0, 1, None, 16, false, None, None, None);
    assert!(matches!(r, Err(ParquetError::UnwritablePage)));
    assert!(w.take_pending().is_empty());
}

#[test]
fn payloads_without_the_three_words_are_refused() {
    let mut w = writer::<i32>(column(Type::INT32, 0, 0));
    let r = w.write_data_page(&[0; 11], None, None, 0, 1, None, 11, false, None, None, None);
    assert!(matches!(r, Err(ParquetError::UnwritablePage)));
    let result = close(w);
    assert_eq!((result.bytes_written, result.rows_written), (0, 0));
}

#[test]
fn a_header_that_grows_with_the_padding_is_refused() {
    // The size of 60 takes one byte in the header, that of 64 takes two.
    let mut data = payload();
    data.resize(60, 0);
    let mut w = writer_at::<i32>(
        column(Type::INT32, 0, 0),
        properties(EnabledStatistics::Page),
        0,
    );
    let r = w.write_data_page(&data, Some(1), Some(2), 0, 3, None, 60, false, None, None, None);
    assert!(matches!(r, Err(ParquetError::UnwritablePage)));
    // Four bytes further on no padding is needed.
    let mut w = writer_at::<i32>(
        column(Type::INT32, 0, 0),
        properties(EnabledStatistics::Page),
        4,
    );
    w.write_data_page(&data, Some(1), Some(2), 0, 3, None, 60, false, None, None, None).unwrap();
}

#[test]
fn levels_stand_in_front_of_the_header() {
    let mut w = writer::<i32>(column(Type::INT32, 1, 1));
    let data = payload();
    w.write_data_page(
        &data,
        Some(1),
        Some(2),
        0,
        3,
        None,
        16,
        false,
        None,
        Some(&[1, 1, 1]),
        Some(&[0, 1, 0]),
    )
    .unwrap();
    let bytes = w.take_pending();
    assert_eq!(&bytes[..4], &[6, 1, 3, 2]);
    // The page counts the bytes of both before compression, and neither after it.
    assert_eq!(&bytes[4..8], &[21, 6, 21, 40]);
    let padding = bytes.len() - 4 - 40 - 16;
    assert_eq!(&bytes[8..11], &[21, 2 * (16 + padding as u8), 92]);
    assert_eq!(&bytes[19..23], &[21, 4, 21, 4]);
    assert_eq!((bytes.len() - 4) % 8, 0);
    let result = close(w);
    assert_eq!(result.bytes_written as usize, bytes.len());
    assert_eq!(result.metadata.total_compressed_size as usize, bytes.len() - 4);
    assert_eq!(result.metadata.repetition_level_histogram.unwrap().inner, vec![2, 1]);
    assert_eq!(result.metadata.definition_level_histogram.unwrap().inner, vec![0, 0]);
    let index = result.column_index.unwrap();
    assert_eq!(index.repetition_level_histograms, Some(vec![2, 1]));
    assert_eq!(index.definition_level_histograms, Some(vec![0, 0]));
}

#[test]
fn histograms_go_with_the_first_metadata() {
    let mut w = writer::<i32>(column(Type::INT32, 1, 1));
    let data = payload();
    let levels: &[i16] = &[0, 1, 0];
    w.write_data_page(
        &data, Some(1), Some(2), 0, 3, None, data.len(), false, None, None, Some(levels),
    )
    .unwrap();
    let first = w.build_column_metadata().unwrap();
    let second = w.build_column_metadata().unwrap();
    assert_eq!(first.repetition_level_histogram.unwrap().inner, vec![2, 1]);
    assert_eq!(first.definition_level_histogram.unwrap().inner, vec![0, 0]);
    assert!(second.repetition_level_histogram.is_none());
    assert!(second.definition_level_histogram.is_none());
    assert_eq!(second.num_values, first.num_values);
    assert_eq!(second.data_page_offset, first.data_page_offset);
    assert_eq!(second.total_compressed_size, first.total_compressed_size);
    match (first.statistics, second.statistics) {
        (Some(Statistics::Int32(a)), Some(Statistics::Int32(b))) => {
            assert_eq!((a.min, a.max), (Some(1), Some(2)));
            assert_eq!((b.min, b.max), (Some(1), Some(2)));
        }
        other => panic!("{other:?}"),
    }
}

#[test]
fn pages_are_recorded_once_they_are_in_the_file() {
    let mut w = writer::<i32>(column(Type::INT32, 0, 0));
    let spec = w.place_decoder(Bytes::from_static(b"wasm"), "1".to_string(), 4).unwrap();
    assert!(!w.take_pending().is_empty());
    // Nothing of the decoder was recorded, so that it can be placed again.
    let again = w.place_decoder(Bytes::from_static(b"wasm"), "1".to_string(), 4).unwrap();
    assert_eq!(again.offset, spec.bytes_written);
    w.update_metrics_for_page(&again);
    let buf = w.payload_of(&payload(), false).unwrap();
    let place = |w: &mut IgnitionColumnWriter<i32>| {
        w.place_data_page(
            buf.clone(), Some(1), Some(2), 0, 3, None, buf.len(), false, None, None, None,
        )
        .ok()
        .unwrap()
    };
    // The first page does not get into the file.
    place(&mut w);
    let page = place(&mut w);
    w.record_data_page(page).unwrap();
    let result = close(w);
    assert_eq!(result.rows_written, 6);
    assert_eq!(result.metadata.num_values, 3);
    assert_eq!(result.metadata.dictionary_page_offset, Some(again.offset as i64));
    assert_eq!(result.offset_index.unwrap().page_locations.len(), 1);
    assert_eq!(result.column_index.unwrap().null_pages.len(), 1);
}

#[test]
fn histograms_of_a_chunk_add_up() {
    let mut w = writer::<i32>(column(Type::INT32, 0, 2));
    let data = payload();
    for rep in [[0i16, 1, 2], [0, 0, 2]] {
        w.write_data_page(
            &data, Some(1), Some(2), 0, 3, None, 16, false, None, None, Some(&rep),
        )
        .unwrap();
    }
    let result = close(w);
    assert_eq!(result.metadata.repetition_level_histogram.unwrap().inner, vec![3, 1, 2]);
    assert!(result.metadata.definition_level_histogram.is_none());
    assert_eq!(
        result.column_index.unwrap().repetition_level_histograms,
        Some(vec![1, 1, 1, 2, 0, 1])
    );
}

#[test]
fn levels_come_in_the_same_number() {
    let mut w = writer::<i32>(column(Type::INT32, 1, 0));
    let data = payload();
    let r = w.write_data_page(
        &data,
        Some(1),
        Some(2),
        0,
        3,
        None,
        16,
        false,
        None,
        Some(&[1, 1]),
        Some(&[0, 0, 0]),
    );
    assert!(matches!(
        r,
        Err(ParquetError::InconsistentLevels { definition: 2, repetition: 3 })
    ));
    // The page is in the file and in the column index, but not in the offset index.
    assert!(!w.take_pending().is_empty());
    let result = close(w);
    assert_eq!(result.rows_written, 3);
    assert_eq!(result.bytes_written, 0);
    assert_eq!(result.metadata.num_values, 0);
    assert_eq!(result.column_index.unwrap().null_pages.len(), 1);
    assert!(result.offset_index.unwrap().page_locations.is_empty());
}

#[test]
fn columns_that_repeat_need_repetition_levels() {
    let mut w = writer::<i32>(column(Type::INT32, 1, 2));
    assert!(matches!(
        write_ints(&mut w, Some(1), Some(2), 0, 3),
        Err(ParquetError::RepetitionLevelsRequired { max_repetition_level: 2 })
    ));
}

#[test]
fn pages_start_with_a_record() {
    let mut w = writer::<i32>(column(Type::INT32, 1, 1));
    let data = payload();
    let r = w.write_data_page(
        &data, Some(1), Some(2), 0, 2, None, 16, false, None, None, Some(&[1, 0]),
    );
    assert!(matches!(r, Err(ParquetError::NotAtRecordBoundary { repetition_level: 1 })));
    let r = w.write_data_page(
        &data, Some(1), Some(2), 0, 2, None, 16, false, None, None, Some(&[]),
    );
    assert!(r.is_ok());
}

#[test]
fn levels_above_the_greatest_are_refused() {
    let mut w = writer::<i32>(column(Type::INT32, 1, 0));
    let data = payload();
    for bad in [2i16, -1] {
        let r = w.write_data_page(
            &data, Some(1), Some(2), 0, 1, None, 16, false, None, Some(&[bad]), None,
        );
        assert!(matches!(r, Err(ParquetError::UnwritablePage)));
    }
}

/// Puts its input behind a mark, or fails.
struct Marker {
    fails: bool,
}

impl Codec for Marker {
    fn compress(&mut self, input: &[u8], output: &mut Vec<u8>) -> Result<(), ParquetError> {
        if self.fails {
            return Err(ParquetError::General("out of order".to_string()));
        }
        output.extend_from_slice(input);
        output.push(0x55);
        Ok(())
    }
}

fn compressing(fails: bool) -> IgnitionColumnWriter<i32> {
    let mut props = properties(EnabledStatistics::Page);
    props.default_column_properties.compression = Some(Compression::SNAPPY);
    let descr = column(Type::INT32, 0, 0);
    IgnitionColumnWriter::new(descr, TrackedWrite::new(), props, Some(Box::new(Marker { fails })))
        .ok()
        .unwrap()
}

#[test]
fn decoders_are_compressed_where_there_is_a_codec() {
    let mut w = compressing(false);
    w.write_decoder(&[1, 2, 3], "1.0.0".to_string()).unwrap();
    let bytes = w.take_pending();
    assert_eq!(&bytes[..6], &[21, 8, 21, 6, 21, 8]);
    assert_eq!(&bytes[bytes.len() - 4..], &[1, 2, 3, 0x55]);
    let result = close(w);
    assert_eq!(result.metadata.compression, Compression::SNAPPY);
    assert_eq!(result.metadata.total_uncompressed_size, 19);
    assert_eq!(result.metadata.total_compressed_size, 20);
}

#[test]
fn data_pages_are_compressed_on_demand() {
    let data = payload();
    for compress in [false, true] {
        let mut w = compressing(false);
        w.write_data_page(
            &data, Some(1), Some(2), 0, 3, None, 16, compress, None, None, None,
        )
        .unwrap();
        let bytes = w.take_pending();
        assert_eq!(bytes.last(), Some(if compress { &0x55 } else { &6 }));
        assert_eq!(bytes[19], if compress { 17 } else { 18 });
    }
}

#[test]
fn a_codec_that_fails_changes_nothing() {
    let mut w = compressing(true);
    assert!(matches!(
        w.write_decoder(&[1, 2, 3], "1.0.0".to_string()),
        Err(ParquetError::General(_))
    ));
    let data = payload();
    let r = w.write_data_page(&data, Some(1), Some(2), 0, 3, None, 16, true, None, None, None);
    assert!(matches!(r, Err(ParquetError::General(_))));
    assert!(w.take_pending().is_empty());
    let result = close(w);
    assert_eq!((result.bytes_written, result.rows_written), (0, 0));
}

#[test]
fn payloads_that_are_compressed_already_can_be_appended() {
    let mut w = compressing(false);
    let data = Bytes::from(payload());
    w.append_decoder(Bytes::from_static(&[1]), "2".to_string(), 10).unwrap();
    w.append_data_page(
        data, Some(1), Some(2), 0, 3, None, 100, true, None, None, None,
    )
    .unwrap();
    let result = close(w);
    assert_eq!(
        result.metadata.total_uncompressed_size - result.metadata.total_compressed_size,
        100 - 16 + 10 - 1
    );
}

#[test]
fn the_closed_chunk_hands_back_its_sink() {
    let mut w = writer_at::<i32>(
        column(Type::INT32, 0, 0),
        properties(EnabledStatistics::Page),
        100,
    );
    w.write_decoder(&[1, 2, 3], "1.0.0".to_string()).unwrap();
    let filter = Sbbf::new_with_num_of_bytes(32);
    let (result, mut sink) = w.close(Some(filter)).ok().unwrap();
    assert_eq!(result.metadata.dictionary_page_offset, Some(100));
    assert_eq!(result.bloom_filter.unwrap().words, vec![0; 8]);
    assert_eq!(sink.bytes_written(), 119);
    assert_eq!(sink.take_pending().len(), 19);
    assert!(sink.take_pending().is_empty());
}

fn with_bloom_filter(fpp: f64, num_bits: u64) -> IgnitionColumnWriter<i32> {
    let mut props = properties(EnabledStatistics::Page);
    props.column_properties.push(NamedColumnProperties {
        path: "a.b".to_string(),
        properties: ColumnProperties {
            compression: None,
            statistics_enabled: None,
            bloom_filter_properties: Some(BloomFilterProperties {
                fpp_bits: fpp.to_bits(),
                ndv: 100,
                num_bits,
            }),
        },
    });
    writer_at(column(Type::INT32, 0, 0), props, 0)
}

#[test]
fn bloom_filters_are_empty_and_large_enough() {
    let w = writer::<i32>(column(Type::INT32, 0, 0));
    assert!(w.get_empty_bloom_filter().unwrap().is_none());
    for (num_bits, bytes) in
        [(0u64, 32usize), (256, 32), (264, 64), (1000, 128), (1024, 128), (1032, 256)]
    {
        let filter = with_bloom_filter(0.01, num_bits).get_empty_bloom_filter().unwrap().unwrap();
        assert_eq!(filter.words, vec![0u32; bytes / 4]);
    }
    let largest = with_bloom_filter(0.0, u64::MAX).get_empty_bloom_filter().unwrap().unwrap();
    assert_eq!(largest.words.len() * 4, 128 * 1024 * 1024);
}

#[test]
fn bloom_filters_need_a_probability() {
    for fpp in [1.0, 1.5, -0.25, f64::NAN, f64::INFINITY, f64::NEG_INFINITY] {
        assert!(matches!(
            with_bloom_filter(fpp, 256).get_empty_bloom_filter(),
            Err(ParquetError::InvalidFalsePositiveProbability { bits }) if bits == fpp.to_bits()
        ));
    }
    for fpp in [0.0, -0.0, 1e-300, 0.999] {
        assert!(with_bloom_filter(fpp, 256).get_empty_bloom_filter().is_ok());
    }
}

#[test]
fn properties_of_a_column_come_before_those_of_all() {
    let mut props = properties(EnabledStatistics::Disabled);
    props.column_properties.push(NamedColumnProperties {
        path: "a.b".to_string(),
        properties: ColumnProperties {
            compression: Some(Compression::ZSTD(3)),
            statistics_enabled: Some(EnabledStatistics::Chunk),
            bloom_filter_properties: None,
        },
    });
    let (own, other) = ("a.b".to_string(), "a.c".to_string());
    assert_eq!(props.compression(&own), Compression::ZSTD(3));
    assert_eq!(props.compression(&other), Compression::UNCOMPRESSED);
    assert_eq!(props.statistics_enabled(&own), EnabledStatistics::Chunk);
    assert_eq!(props.statistics_enabled(&other), EnabledStatistics::Disabled);
    props.default_column_properties.statistics_enabled = None;
    assert_eq!(props.statistics_enabled(&other), EnabledStatistics::Page);
}
