//! Reading a column.
use arrow_array::builder::{
    FixedSizeListBuilder, Int32Builder, LargeListBuilder, ListBuilder, MapBuilder, StringBuilder,
};
use arrow_array::types::{Int32Type, UInt8Type};
use arrow_array::{
    make_array, Array, ArrayRef, BinaryArray, BooleanArray, Decimal128Array, DictionaryArray,
    FixedSizeBinaryArray, Float64Array, Int32Array, Int64Array, LargeStringArray, NullArray,
    RunArray, StringArray, StringViewArray, StructArray, TimestampMicrosecondArray, UnionArray,
};
use arrow_buffer::{Buffer, NullBuffer, OffsetBuffer, ScalarBuffer};
use arrow_data::ArrayData;
use arrow_schema::{DataType, Field, Fields, IntervalUnit, TimeUnit, UnionFields, UnionMode};
use bytes::Bytes;
use ignition_column::arrays::{is_checkable_array, is_valid_array};
use ignition_column::basic::{ConvertedType, Encoding, PageType, Type};
use ignition_column::deep_clone::deep_clone_array;
use ignition_column::errors::ParquetError;
use ignition_column::page::Page;
use ignition_column::page_source::{
    classify_page, is_readable, IgnitionPage, PageCursor, PageDemand, PageEvent,
};
use ignition_column::reader::{BatchDemand, PageAction, PrimitiveArrayIgnitionReader};
use ignition_column::types::{is_flat_type, is_joinable_type, is_wide_type};
use std::sync::Arc;

fn column(max_def_level: i16) -> ignition_column::schema::ColumnDescriptor {
    ignition_column::schema::ColumnDescriptor {
        path: "a.b".to_string(),
        name: "b".to_string(),
        physical_type: Type::INT32,
        logical_type: None,
        converted_type: ConvertedType::NONE,
        max_def_level,
        max_rep_level: 0,
    }
}

fn none() -> Result<DataType, ParquetError> {
    Err(ParquetError::General("no type".to_string()))
}

fn reader_of(num_rows: usize, data_type: DataType) -> PrimitiveArrayIgnitionReader {
    PrimitiveArrayIgnitionReader::new(
        num_rows,
        column(1),
        Some(data_type),
        none(),
        Ok(()),
        Some(Ok(1000)),
    )
    .ok()
    .unwrap()
}

fn reader(num_rows: usize) -> PrimitiveArrayIgnitionReader {
    reader_of(num_rows, DataType::Int32)
}

#[test]
fn a_column_is_opened() {
    let r = reader(5);
    assert_eq!(r.get_data_type(), &DataType::Int32);
    assert!(r.nullable());
    assert_eq!(r.fd_len(), 1000);
    assert!(r.get_def_levels().is_none());
    assert!(r.get_rep_levels().is_none());
    let schema = r.job_schema();
    assert_eq!(schema.fields().len(), 1);
    assert_eq!(schema.field(0), &Field::new("ignition_col", DataType::Int32, true));
    assert_eq!(r.batch_schema().field(0), &Field::new("b", DataType::Int32, true));
}

#[test]
fn the_type_is_derived_where_it_is_not_specified() {
    let r = PrimitiveArrayIgnitionReader::new(
        1,
        column(0),
        None,
        Ok(DataType::Utf8),
        Ok(()),
        Some(Ok(0)),
    )
    .ok()
    .unwrap();
    assert_eq!(r.get_data_type(), &DataType::Utf8);
    assert!(!r.nullable());
}

fn failure(
    arrow_type: Option<DataType>,
    runtime: Result<(), String>,
    file_len: Option<Result<usize, ParquetError>>,
) -> ParquetError {
    PrimitiveArrayIgnitionReader::new(1, column(0), arrow_type, none(), runtime, file_len)
        .err()
        .unwrap()
}

#[test]
fn a_column_may_fail_to_open() {
    let io = || Some(Err(ParquetError::General("no size".to_string())));
    assert!(matches!(
        failure(None, Err("down".to_string()), None),
        ParquetError::General(m) if m == "no type"
    ));
    assert!(matches!(
        failure(Some(DataType::Int32), Err("down".to_string()), None),
        ParquetError::External(m) if m == "down"
    ));
    assert!(matches!(
        failure(Some(DataType::Int32), Ok(()), None),
        ParquetError::FileNotMapped
    ));
    assert!(matches!(
        failure(Some(DataType::Int32), Ok(()), io()),
        ParquetError::General(m) if m == "no size"
    ));
}

fn field(t: DataType, nullable: bool) -> Arc<Field> {
    Arc::new(Field::new("f", t, nullable))
}

fn map_of(entries_nullable: bool, key_nullable: bool) -> DataType {
    let fields = vec![
        Field::new("key", DataType::Utf8, key_nullable),
        Field::new("value", DataType::Int32, true),
    ];
    let entries = Field::new("entries", DataType::Struct(fields.into()), entries_nullable);
    DataType::Map(Arc::new(entries), false)
}

fn dictionary_of(key: DataType, value: DataType) -> DataType {
    DataType::Dictionary(Box::new(key), Box::new(value))
}

fn union_of(t: DataType) -> DataType {
    let fields: UnionFields = [(3i8, field(t, true))].into_iter().collect();
    DataType::Union(fields, UnionMode::Dense)
}

#[test]
fn types_that_arrow_may_stop_on_are_refused() {
    let odd = DataType::Time32(TimeUnit::Nanosecond);
    for t in [
        odd.clone(),
        DataType::Time32(TimeUnit::Microsecond),
        DataType::Time64(TimeUnit::Second),
        DataType::Time64(TimeUnit::Millisecond),
        DataType::FixedSizeBinary(-1),
        DataType::List(field(odd.clone(), true)),
        DataType::FixedSizeList(field(DataType::Int32, true), -1),
        DataType::Struct(Fields::from(vec![field(DataType::Int8, true), field(odd.clone(), true)])),
        DataType::RunEndEncoded(field(DataType::UInt8, false), field(DataType::Int32, true)),
        DataType::RunEndEncoded(field(DataType::Int32, true), field(DataType::Int32, true)),
        DataType::Map(field(DataType::Int32, false), false),
        map_of(true, false),
        map_of(false, true),
        dictionary_of(DataType::Utf8, DataType::Utf8),
        dictionary_of(DataType::Float32, DataType::Utf8),
        dictionary_of(DataType::Int32, dictionary_of(DataType::UInt8, DataType::Utf8)),
        dictionary_of(DataType::Int32, DataType::ListView(field(DataType::Int32, true))),
        dictionary_of(DataType::Int32, DataType::List(field(DataType::FixedSizeBinary(4), true))),
        dictionary_of(DataType::Int32, DataType::Interval(IntervalUnit::DayTime)),
        union_of(odd),
        union_of(DataType::FixedSizeBinary(-1)),
        union_of(DataType::FixedSizeList(field(DataType::Int32, true), 2)),
    ] {
        assert!(!is_joinable_type(&t));
        assert!(matches!(failure(Some(t), Ok(()), Some(Ok(1))), ParquetError::UnsupportedType));
    }
}

#[test]
fn other_types_are_accepted() {
    for t in [
        DataType::Time32(TimeUnit::Second),
        DataType::Time64(TimeUnit::Nanosecond),
        DataType::FixedSizeBinary(2),
        DataType::Boolean,
        DataType::Null,
        DataType::Decimal32(5, 2),
        DataType::UInt16,
        DataType::Duration(TimeUnit::Second),
    ] {
        assert!(is_flat_type(&t) && is_wide_type(&t));
        reader_of(1, t);
    }
    let wide = DataType::LargeList(field(DataType::Utf8, true));
    assert!(is_wide_type(&wide) && is_wide_type(&DataType::Struct(vec![field(wide, true)].into())));
    for t in [
        DataType::List(field(DataType::Int32, true)),
        DataType::ListView(field(DataType::Int32, true)),
        dictionary_of(DataType::UInt8, DataType::Utf8),
        dictionary_of(DataType::Int64, DataType::FixedSizeBinary(16)),
        dictionary_of(DataType::Int8, map_of(false, false)),
        dictionary_of(
            DataType::Int8,
            DataType::FixedSizeList(field(DataType::FixedSizeBinary(3), true), 2),
        ),
        map_of(false, false),
        union_of(DataType::Int32),
        union_of(DataType::FixedSizeBinary(4)),
        union_of(DataType::LargeList(field(DataType::Utf8, true))),
        DataType::Struct(vec![field(union_of(DataType::Utf8), true)].into()),
    ] {
        assert!(!is_flat_type(&t) && !is_wide_type(&t));
        reader_of(1, t);
    }
}

/// What the pages of a column hold, with a decoder in front.
struct Source {
    pages: Vec<ArrayData>,
    next: usize,
    decoded: usize,
}

impl Source {
    fn ints(pages: &[&[i32]]) -> Source {
        let pages = pages.iter().map(|p| Int32Array::from(p.to_vec()).to_data()).collect();
        Source { pages, next: 0, decoded: 0 }
    }

    /// Reads one batch.
    fn batch(&mut self, r: &mut PrimitiveArrayIgnitionReader) -> Result<ArrayData, ParquetError> {
        r.begin_batch();
        loop {
            match r.consume_batch()? {
                BatchDemand::Finished(array) => return Ok(array),
                BatchDemand::Page => {}
            }
            let page = self.pages[self.next].clone();
            self.next += 1;
            let num_rows = page.len() as u32;
            match r.take_page(IgnitionPage::Data { offset: 8, length: 9, num_rows })? {
                PageAction::Pass => {}
                PageAction::Decode { offset, length, num_rows: n } => {
                    assert_eq!((offset, length, n), (8, 9, num_rows));
                    self.decoded += 1;
                    r.take_decoded(&page).unwrap()?;
                }
                other => panic!("{other:?}"),
            }
        }
    }

    fn int_batch(&mut self, r: &mut PrimitiveArrayIgnitionReader) -> Vec<i32> {
        let array = self.batch(r).ok().unwrap();
        Int32Array::from(array).values().to_vec()
    }
}

fn with_decoder(mut r: PrimitiveArrayIgnitionReader) -> PrimitiveArrayIgnitionReader {
    r.decoder_installed(77);
    r
}

#[test]
fn requests_end_with_the_rows() {
    let mut r = reader(10);
    assert_eq!(r.read_records(4).ok(), Some(4));
    assert_eq!(r.skip_records(3).ok(), Some(3));
    assert_eq!(r.read_records(usize::MAX).ok(), Some(3));
    assert_eq!(r.read_records(1).ok(), Some(0));
    assert_eq!(r.skip_records(1).ok(), Some(0));
}

#[test]
fn batches_follow_each_other() {
    let mut source = Source::ints(&[&[1, 2, 3, 4], &[5, 6], &[7, 8, 9]]);
    let mut r = with_decoder(reader(9));
    for expected in [vec![1, 2, 3], vec![4, 5, 6], vec![7], vec![8, 9]] {
        r.read_records(expected.len()).unwrap();
        assert_eq!(source.int_batch(&mut r), expected);
    }
    r.read_records(5).unwrap();
    assert_eq!(source.int_batch(&mut r), Vec::<i32>::new());
    assert_eq!(source.decoded, 3);
}

#[test]
fn skipped_rows_are_left_out() {
    let mut source = Source::ints(&[&[1, 2, 3, 4], &[5, 6], &[], &[7, 8, 9], &[10]]);
    let mut r = with_decoder(reader(10));
    r.skip_records(1).unwrap();
    r.read_records(2).unwrap();
    r.skip_records(4).unwrap();
    r.read_records(1).unwrap();
    assert_eq!(source.int_batch(&mut r), vec![2, 3, 8]);
    // The second page was passed over without being decoded.
    assert_eq!(source.decoded, 2);
    r.skip_records(1).unwrap();
    assert_eq!(source.int_batch(&mut r), Vec::<i32>::new());
    r.read_records(1).unwrap();
    assert_eq!(source.int_batch(&mut r), vec![10]);
}

#[test]
fn a_skip_at_the_end_of_a_batch_is_kept() {
    let mut source = Source::ints(&[&[1, 2], &[3, 4], &[5, 6, 7]]);
    let mut r = with_decoder(reader(7));
    r.read_records(1).unwrap();
    r.skip_records(4).unwrap();
    assert_eq!(source.int_batch(&mut r), vec![1]);
    r.read_records(2).unwrap();
    assert_eq!(source.int_batch(&mut r), vec![6, 7]);
    assert_eq!(source.decoded, 2);
}

#[test]
fn requests_of_the_same_kind_count_twice() {
    let mut source = Source::ints(&[&[1, 2, 3, 4, 5, 6]]);
    let mut r = with_decoder(reader(6));
    r.read_records(1).unwrap();
    r.read_records(2).unwrap();
    assert_eq!(source.int_batch(&mut r), vec![1, 2, 3, 4, 5]);
}

#[test]
fn nulls_and_strings_pass_through() {
    let page = StringArray::from(vec![Some("a"), None, Some("ccc"), None, Some("")]);
    let mut source = Source { pages: vec![page.to_data(), page.to_data()], next: 0, decoded: 0 };
    let mut r = with_decoder(reader_of(10, DataType::Utf8));
    r.skip_records(1).unwrap();
    r.read_records(6).unwrap();
    let batch = StringArray::from(source.batch(&mut r).ok().unwrap());
    let expected =
        StringArray::from(vec![None, Some("ccc"), None, Some(""), Some("a"), None]);
    assert_eq!(batch, expected);
}

fn lists() -> ArrayRef {
    let mut builder = ListBuilder::new(StringBuilder::new());
    builder.values().append_value("x");
    builder.values().append_null();
    builder.append(true);
    builder.append(false);
    builder.values().append_value("yz");
    builder.append(true);
    Arc::new(builder.finish())
}

fn structs() -> ArrayRef {
    let fields = vec![Field::new("n", DataType::Int32, true), Field::new("s", DataType::Utf8, false)];
    let columns: Vec<ArrayRef> = vec![
        Arc::new(Int32Array::from(vec![Some(1), None, Some(3)])),
        Arc::new(StringArray::from(vec!["a", "", "ccc"])),
    ];
    let nulls = NullBuffer::from(vec![true, false, true]);
    Arc::new(StructArray::new(fields.into(), columns, Some(nulls)))
}

fn maps() -> ArrayRef {
    let mut builder = MapBuilder::new(None, StringBuilder::new(), Int32Builder::new());
    builder.keys().append_value("k");
    builder.values().append_value(1);
    builder.append(true).unwrap();
    builder.append(false).unwrap();
    builder.keys().append_value("l");
    builder.values().append_null();
    builder.append(true).unwrap();
    Arc::new(builder.finish())
}

fn unions(mode: UnionMode) -> ArrayRef {
    let fields: UnionFields = [
        (0i8, Arc::new(Field::new("n", DataType::Int32, true))),
        (5i8, Arc::new(Field::new("s", DataType::Utf8, true))),
    ]
    .into_iter()
    .collect();
    let ids = ScalarBuffer::from(vec![0i8, 5, 0]);
    let (offsets, numbers, texts): (_, ArrayRef, ArrayRef) = match mode {
        UnionMode::Dense => (
            Some(ScalarBuffer::from(vec![0i32, 0, 1])),
            Arc::new(Int32Array::from(vec![7, 9])),
            Arc::new(StringArray::from(vec!["t"])),
        ),
        UnionMode::Sparse => (
            None,
            Arc::new(Int32Array::from(vec![7, 8, 9])),
            Arc::new(StringArray::from(vec!["", "t", ""])),
        ),
    };
    Arc::new(UnionArray::try_new(fields, ids, offsets, vec![numbers, texts]).unwrap())
}

fn fixed_unions() -> ArrayRef {
    let bytes = FixedSizeBinaryArray::try_from_iter([[1u8, 2], [3, 4]].into_iter()).unwrap();
    let fields: UnionFields = [
        (1i8, Arc::new(Field::new("b", DataType::FixedSizeBinary(2), true))),
        (2i8, Arc::new(Field::new("l", lists().data_type().clone(), true))),
    ]
    .into_iter()
    .collect();
    let ids = ScalarBuffer::from(vec![1i8, 2, 1]);
    let offsets = Some(ScalarBuffer::from(vec![0i32, 2, 1]));
    Arc::new(UnionArray::try_new(fields, ids, offsets, vec![Arc::new(bytes), lists()]).unwrap())
}

fn entries_of(values: ArrayRef) -> ArrayRef {
    let keys = Int32Array::from(vec![Some(2), None, Some(0)]);
    Arc::new(DictionaryArray::<Int32Type>::try_new(keys, values).unwrap())
}

fn runs() -> ArrayRef {
    let values = StringArray::from(vec![Some("r"), None]);
    Arc::new(RunArray::<Int32Type>::try_new(&Int32Array::from(vec![1, 3]), &values).unwrap())
}

#[test]
fn arrays_of_types_with_parts_are_put_together() {
    let mut large = LargeListBuilder::new(Int32Builder::new());
    large.append_value([Some(1), None]);
    large.append_null();
    large.append_value([Some(2)]);
    let mut fixed = FixedSizeListBuilder::new(Int32Builder::new(), 2);
    for n in 0..3 {
        fixed.values().append_value(n);
        fixed.values().append_null();
        fixed.append(n != 1);
    }
    let keys: DictionaryArray<Int32Type> = vec![Some("a"), None, Some("b")].into_iter().collect();
    let arrays: Vec<ArrayRef> = vec![
        lists(),
        structs(),
        maps(),
        unions(UnionMode::Dense),
        unions(UnionMode::Sparse),
        runs(),
        Arc::new(large.finish()),
        Arc::new(keys),
        entries_of(lists()),
        entries_of(structs()),
        entries_of(maps()),
        entries_of(Arc::new(fixed.finish_cloned())),
        Arc::new(fixed.finish()),
        fixed_unions(),
    ];
    for array in arrays {
        let page = array.to_data();
        let mut source = Source { pages: vec![page.clone(), page.clone()], next: 0, decoded: 0 };
        let mut r = with_decoder(reader_of(6, page.data_type().clone()));
        r.skip_records(1).unwrap();
        r.read_records(3).unwrap();
        let batch = make_array(source.batch(&mut r).unwrap());
        assert_eq!(batch.len(), 3);
        assert_eq!(batch.slice(0, 2).as_ref(), array.slice(1, 2).as_ref());
        assert_eq!(batch.slice(2, 1).as_ref(), array.slice(0, 1).as_ref());
        r.skip_records(1).unwrap();
        r.read_records(1).unwrap();
        let batch = make_array(source.batch(&mut r).unwrap());
        assert_eq!(batch.as_ref(), array.slice(2, 1).as_ref());
    }
}

#[test]
fn dictionaries_without_entries_are_put_together() {
    let empty: DictionaryArray<UInt8Type> = vec![None::<&str>, None].into_iter().collect();
    let page = empty.to_data();
    assert_eq!(page.child_data()[0].len(), 0);
    let mut source = Source { pages: vec![page.clone(), page.clone()], next: 0, decoded: 0 };
    let mut r = with_decoder(reader_of(4, page.data_type().clone()));
    r.read_records(4).unwrap();
    let batch = source.batch(&mut r).unwrap();
    assert_eq!((batch.len(), batch.null_count()), (4, 4));
}

#[test]
fn keys_out_of_range_are_refused() {
    // The key of the null row is none of the dictionary.
    let values = StringArray::from(vec!["a"]).to_data();
    for width in [1usize, 2, 4, 8] {
        let (key, garbage) = match width {
            1 => (DataType::UInt8, Buffer::from_vec(vec![0u8, 255])),
            2 => (DataType::Int16, Buffer::from_vec(vec![0i16, i16::MAX])),
            4 => (DataType::UInt32, Buffer::from_vec(vec![0u32, u32::MAX])),
            _ => (DataType::Int64, Buffer::from_vec(vec![0i64, i64::MAX])),
        };
        let page = ArrayData::builder(dictionary_of(key, DataType::Utf8))
            .len(2)
            .add_buffer(garbage)
            .add_child_data(values.clone())
            .nulls(Some(NullBuffer::from(vec![true, false])))
            .build()
            .unwrap();
        let mut source = Source { pages: vec![page.clone()], next: 0, decoded: 0 };
        let mut r = with_decoder(reader_of(2, page.data_type().clone()));
        r.read_records(2).unwrap();
        assert!(matches!(source.batch(&mut r), Err(ParquetError::UnjoinableArrays)));
        // A row with a key in range can be read.
        let mut source = Source { pages: vec![page.clone()], next: 0, decoded: 0 };
        let mut r = with_decoder(reader_of(2, page.data_type().clone()));
        r.read_records(1).unwrap();
        assert_eq!(source.batch(&mut r).unwrap().len(), 1);
    }
}

#[test]
fn lists_that_are_too_large_are_not_put_together() {
    // Rows of nothing take no memory.
    let page = ArrayData::builder(DataType::List(field(DataType::Null, true)))
        .len(1)
        .add_buffer(Buffer::from_vec(vec![0i32, i32::MAX]))
        .add_child_data(NullArray::new(i32::MAX as usize).to_data())
        .build()
        .unwrap();
    let mut source = Source { pages: vec![page.clone()], next: 0, decoded: 0 };
    let mut r = with_decoder(reader_of(2, page.data_type().clone()));
    r.read_records(1).unwrap();
    assert!(matches!(source.batch(&mut r), Err(ParquetError::UnjoinableArrays)));
}

#[test]
fn unions_that_need_too_much_room_are_not_put_together() {
    // Room would be made for long byte strings with every row, though there are none.
    let fields: UnionFields = [
        (0i8, field(DataType::Int32, true)),
        (1i8, field(DataType::FixedSizeBinary(1 << 30), true)),
    ]
    .into_iter()
    .collect();
    let children: Vec<ArrayRef> = vec![
        Arc::new(Int32Array::from(vec![5])),
        make_array(ArrayData::new_empty(&DataType::FixedSizeBinary(1 << 30))),
    ];
    let offsets = Some(ScalarBuffer::from(vec![0i32; 3]));
    let union = UnionArray::try_new(fields, ScalarBuffer::from(vec![0i8; 3]), offsets, children);
    let page = union.unwrap().to_data();
    let mut source = Source { pages: vec![page.clone()], next: 0, decoded: 0 };
    let mut r = with_decoder(reader_of(3, page.data_type().clone()));
    r.read_records(3).unwrap();
    assert!(matches!(source.batch(&mut r), Err(ParquetError::UnjoinableArrays)));
}

#[test]
fn buffers_that_end_within_an_integer_are_refused() {
    // Two offsets, and one byte of another.
    let bytes = Buffer::from_slice_ref([0u8, 0, 0, 0, 2, 0, 0, 0, 0]);
    let offsets = OffsetBuffer::new(ScalarBuffer::<i32>::from(bytes));
    let values = Buffer::from_slice_ref(b"ab");
    let strings = StringArray::try_new(offsets, values, None).unwrap();
    let text = strings.to_data();
    assert_eq!((text.len(), text.buffers()[0].len()), (1, 9));
    assert!(!is_checkable_array(&text));
    assert!(!is_valid_array(&text));
    let list = ArrayData::new_null(&DataType::List(field(DataType::Utf8, true)), 1);
    let around = StructArray::new(
        vec![Field::new("t", DataType::Utf8, true), Field::new("l", list.data_type().clone(), true)]
            .into(),
        vec![Arc::new(strings), make_array(list.clone())],
        None,
    );
    assert!(is_checkable_array(&list));
    assert!(!is_checkable_array(&around.to_data()));
    for array in [text, around.to_data()] {
        let mut source = Source { pages: vec![array.clone()], next: 0, decoded: 0 };
        let mut r = with_decoder(reader_of(1, array.data_type().clone()));
        r.read_records(1).unwrap();
        assert!(matches!(source.batch(&mut r), Err(ParquetError::UncheckableArray)));
        // Its type is another, and Arrow cannot be asked about it.
        let mut source = Source { pages: vec![array], next: 0, decoded: 0 };
        let mut r = with_decoder(reader(1));
        r.read_records(1).unwrap();
        assert!(matches!(source.batch(&mut r), Err(ParquetError::WrongArrayType)));
    }
}

#[test]
fn integers_in_buffers_are_whole() {
    let keys: DictionaryArray<Int32Type> = vec![Some("a"), None].into_iter().collect();
    for array in [
        lists(),
        maps(),
        runs(),
        structs(),
        unions(UnionMode::Dense),
        unions(UnionMode::Sparse),
        Arc::new(keys),
        Arc::new(StringViewArray::from(vec!["not that short at all"])),
        Arc::new(LargeStringArray::from(vec!["x"])),
        Arc::new(FixedSizeBinaryArray::try_from_iter([[1u8, 2, 3]].into_iter()).unwrap()),
    ] {
        assert!(is_checkable_array(&array.to_data()));
        assert!(is_valid_array(&array.slice(1.min(array.len()), 0).to_data()));
    }
}

#[test]
fn a_batch_of_skips_is_empty() {
    let mut source = Source::ints(&[&[1, 2, 3, 4], &[5, 6]]);
    let mut r = with_decoder(reader(6));
    r.read_records(1).unwrap();
    assert_eq!(source.int_batch(&mut r), vec![1]);
    // Within the rows that are left of the first page, and beyond them.
    r.skip_records(1).unwrap();
    assert_eq!(source.int_batch(&mut r), Vec::<i32>::new());
    r.skip_records(3).unwrap();
    assert_eq!(source.int_batch(&mut r), Vec::<i32>::new());
    assert_eq!((source.next, source.decoded), (1, 1));
    // Nothing was asked for.
    let batch = source.batch(&mut r).unwrap();
    assert_eq!((batch.len(), batch.data_type()), (0, &DataType::Int32));
    r.read_records(1).unwrap();
    assert_eq!(source.int_batch(&mut r), vec![6]);
}

#[test]
fn rows_that_are_asked_for_are_counted() {
    let mut r = reader(usize::MAX);
    assert!(r.has_room_for(usize::MAX, false));
    assert_eq!(r.read_records(usize::MAX / 2 + 1).ok(), Some(usize::MAX / 2 + 1));
    // Two requests of one kind count twice.
    assert!(r.has_room_for(usize::MAX / 4, false));
    assert!(!r.has_room_for(usize::MAX / 4 + 1, false));
    assert!(r.has_room_for(usize::MAX, true));
    r.begin_batch();
    assert!(r.has_room_for(usize::MAX / 2, false));
    assert_eq!(r.skip_records(usize::MAX / 2).ok(), Some(usize::MAX / 2));
    assert!(r.has_room_for(1, false));
    assert_eq!(r.read_records(1).ok(), Some(0));
}

#[test]
fn arrays_of_every_flat_type_are_put_together() {
    let arrays: Vec<ArrayRef> = vec![
        Arc::new(BooleanArray::from(vec![Some(true), None, Some(false)])),
        Arc::new(FixedSizeBinaryArray::try_from_iter([[1u8, 2], [3, 4], [5, 6]].into_iter()).unwrap()),
        Arc::new(NullArray::new(3)),
        Arc::new(BinaryArray::from(vec![Some(&b"ab"[..]), None, Some(&b"c"[..])])),
        Arc::new(LargeStringArray::from(vec![Some("x"), None, Some("yz")])),
        Arc::new(StringViewArray::from(vec![Some("short"), None, Some("not that short at all")])),
        Arc::new(Decimal128Array::from(vec![Some(1), None, Some(-3)])),
        Arc::new(TimestampMicrosecondArray::from(vec![Some(1), None, Some(3)])),
        Arc::new(Float64Array::from(vec![Some(1.5), None, Some(-0.0)])),
    ];
    for array in arrays {
        let page = array.to_data();
        let mut source =
            Source { pages: vec![page.clone(), page.clone()], next: 0, decoded: 0 };
        let mut r = with_decoder(reader_of(6, page.data_type().clone()));
        r.skip_records(1).unwrap();
        r.read_records(3).unwrap();
        let batch = make_array(source.batch(&mut r).ok().unwrap());
        assert_eq!(batch.slice(0, 2).as_ref(), array.slice(1, 2).as_ref());
        assert_eq!(batch.slice(2, 1).as_ref(), array.slice(0, 1).as_ref());
        assert_eq!(batch.len(), 3);
        r.read_records(2).unwrap();
        let batch = make_array(source.batch(&mut r).ok().unwrap());
        assert_eq!(batch.as_ref(), array.slice(1, 2).as_ref());
    }
}

#[test]
fn data_pages_need_a_decoder() {
    let mut source = Source::ints(&[&[1, 2, 3]]);
    let mut r = reader(3);
    r.read_records(1).unwrap();
    assert!(matches!(source.batch(&mut r), Err(ParquetError::DecoderNotInitialized)));
    // A page that is skipped as a whole needs none.
    let mut source = Source::ints(&[&[1, 2, 3], &[4]]);
    let mut r = reader(4);
    r.skip_records(3).unwrap();
    r.read_records(1).unwrap();
    assert!(matches!(source.batch(&mut r), Err(ParquetError::DecoderNotInitialized)));
    assert_eq!(source.next, 2);
}

#[test]
fn memory_files_need_a_decoder_too() {
    let mut r = reader(3);
    r.read_records(1).unwrap();
    r.begin_batch();
    assert!(matches!(r.consume_batch(), Ok(BatchDemand::Page)));
    let buffer = Bytes::from_static(b"fd");
    let page = IgnitionPage::MemFdData { buffer: buffer.clone(), num_rows: 3 };
    assert!(matches!(r.take_page(page), Err(ParquetError::BundleNotInitialized)));
    r.decoder_installed(1);
    r.read_records(1).unwrap();
    r.begin_batch();
    assert!(matches!(r.consume_batch(), Ok(BatchDemand::Page)));
    let page = IgnitionPage::MemFdData { buffer: buffer.clone(), num_rows: 3 };
    match r.take_page(page).unwrap() {
        PageAction::DecodeMemFd { buffer: b, num_rows } => assert_eq!((b, num_rows), (buffer, 3)),
        other => panic!("{other:?}"),
    }
}

#[test]
fn decoders_are_installed_once() {
    let mut r = reader(3);
    r.read_records(1).unwrap();
    r.begin_batch();
    assert!(matches!(r.consume_batch(), Ok(BatchDemand::Page)));
    let page = |data: &'static [u8]| IgnitionPage::Decoder {
        buffer: Bytes::from_static(data),
        version: "1".to_string(),
    };
    let first = match r.take_page(page(b"wasm")).unwrap() {
        PageAction::InstallDecoder { buffer, version, hash } => {
            assert_eq!(&buffer[..], b"wasm");
            assert_eq!(version, "1");
            hash
        }
        other => panic!("{other:?}"),
    };
    assert_eq!(r.handle_new_decoder_page(b"wasm"), Some(first));
    r.decoder_installed(first);
    assert_eq!(r.handle_new_decoder_page(b"wasm"), None);
    assert!(matches!(r.take_page(page(b"wasm")), Ok(PageAction::Pass)));
    match r.take_page(page(b"other")).unwrap() {
        PageAction::InstallDecoder { hash, .. } => assert_ne!(hash, first),
        other => panic!("{other:?}"),
    }
}

#[test]
fn decoded_rows_have_to_be_those_of_the_page() {
    let mut r = with_decoder(reader(3));
    r.read_records(3).unwrap();
    r.begin_batch();
    assert!(matches!(r.consume_batch(), Ok(BatchDemand::Page)));
    r.take_page(IgnitionPage::Data { offset: 0, length: 0, num_rows: 3 }).unwrap();
    assert!(r.take_decoded(&Int32Array::from(vec![1, 2]).to_data()).is_none());
    assert!(r.take_decoded(&Int32Array::from(vec![1, 2, 3]).to_data()).unwrap().is_ok());
    match r.consume_batch() {
        Ok(BatchDemand::Finished(array)) => {
            assert_eq!(Int32Array::from(array), Int32Array::from(vec![1, 2, 3]))
        }
        _ => panic!("the batch is finished"),
    }
}

#[test]
fn arrays_of_another_type_are_refused() {
    let other = Int64Array::from(vec![1, 2, 3]).to_data();
    let mut source = Source { pages: vec![other.clone()], next: 0, decoded: 0 };
    let mut r = with_decoder(reader(3));
    r.read_records(3).unwrap();
    assert!(matches!(source.batch(&mut r), Err(ParquetError::ArrowError(_))));
    // The same among leftovers.
    let mut source = Source { pages: vec![other], next: 0, decoded: 0 };
    let mut r = with_decoder(reader(3));
    r.read_records(2).unwrap();
    assert!(matches!(source.batch(&mut r), Err(ParquetError::ArrowError(_))));
    // The batch is gone, and another can be begun.
    r.read_records(1).unwrap();
    let mut source = Source::ints(&[&[9]]);
    assert_eq!(source.int_batch(&mut r), vec![9]);
    // There are no arrays of this type to compare with.
    let odd = ArrayData::builder(DataType::Time32(TimeUnit::Nanosecond))
        .len(3)
        .add_buffer(Buffer::from_vec(vec![1i32, 2, 3]))
        .build()
        .unwrap();
    for wanted in [2, 3] {
        let mut source = Source { pages: vec![odd.clone()], next: 0, decoded: 0 };
        let mut r = with_decoder(reader(3));
        r.read_records(wanted).unwrap();
        assert!(matches!(source.batch(&mut r), Err(ParquetError::WrongArrayType)));
    }
}

#[test]
fn a_batch_can_be_abandoned() {
    let mut r = with_decoder(reader(3));
    r.skip_records(1).unwrap();
    r.read_records(1).unwrap();
    r.begin_batch();
    assert!(matches!(r.consume_batch(), Ok(BatchDemand::Page)));
    r.abandon_batch();
    r.read_records(1).unwrap();
    let mut source = Source::ints(&[&[1, 2, 3]]);
    assert_eq!(source.int_batch(&mut r), vec![2]);
}

#[test]
fn a_page_may_fail_to_decode() {
    for decoding_started in [false, true] {
        let mut r = with_decoder(reader(6));
        r.skip_records(1).unwrap();
        r.read_records(1).unwrap();
        r.begin_batch();
        assert!(matches!(r.consume_batch(), Ok(BatchDemand::Page)));
        r.take_page(IgnitionPage::Data { offset: 0, length: 0, num_rows: 3 }).unwrap();
        // What was to be skipped of the page is done with once decoding has started.
        if decoding_started {
            r.decode_failed();
        } else {
            r.abandon_batch();
        }
        r.read_records(1).unwrap();
        let mut source = Source::ints(&[&[4, 5, 6]]);
        let expected = if decoding_started { vec![4] } else { vec![5] };
        assert_eq!(source.int_batch(&mut r), expected);
    }
}

#[test]
fn decoded_arrays_are_copied() {
    let ints = Int32Array::from(vec![Some(1), None, Some(3), Some(4), None]).to_data();
    let copy = deep_clone_array(&ints).unwrap();
    assert_eq!(copy, ints);
    assert_ne!(copy.buffers()[0].as_ptr(), ints.buffers()[0].as_ptr());
    // The nulls of a part of an array start within a byte.
    let part = ints.slice(1, 4);
    let copy = deep_clone_array(&part).unwrap();
    assert_eq!(
        Int32Array::from(copy),
        Int32Array::from(vec![None, Some(3), Some(4), None])
    );
    let array = BooleanArray::from(vec![Some(true), None, Some(false)]).to_data();
    assert_eq!(deep_clone_array(&array).unwrap(), array);
    let array = BinaryArray::from(vec![Some(&b"ab"[..]), None, Some(&b""[..])]).to_data();
    assert_eq!(deep_clone_array(&array).unwrap(), array);
    let array =
        FixedSizeBinaryArray::try_from_iter([[1u8, 2], [3, 4]].into_iter()).unwrap().to_data();
    assert_eq!(deep_clone_array(&array).unwrap(), array);
}

#[test]
fn children_are_copied_too() {
    let lists = lists().to_data();
    let copy = deep_clone_array(&lists).unwrap();
    assert_eq!(make_array(copy.clone()).as_ref(), make_array(lists.clone()).as_ref());
    assert_ne!(
        copy.child_data()[0].buffers()[0].as_ptr(),
        lists.child_data()[0].buffers()[0].as_ptr()
    );
}

#[test]
fn valid_arrays_can_be_copied() {
    let ints = Int32Array::from(vec![Some(1), None, Some(3)]).to_data();
    let arrays = [
        lists().to_data(),
        structs().slice(1, 2).to_data(),
        maps().to_data(),
        unions(UnionMode::Sparse).to_data(),
        ints.slice(2, 1),
        ints,
        StringArray::from(vec!["a", "bc"]).to_data(),
        NullArray::new(4).to_data(),
        ArrayData::new_empty(&DataType::Binary),
    ];
    for array in arrays {
        assert!(is_valid_array(&array));
        let copy = deep_clone_array(&array).unwrap();
        assert!(is_valid_array(&copy));
        assert_eq!(copy, array);
        assert_eq!(copy.offset(), array.offset());
        assert_eq!(copy.buffers(), array.buffers());
        assert_eq!(copy.child_data(), array.child_data());
    }
}

#[test]
fn rows_in_lists_of_one_length_are_counted() {
    // Rows of nothing take no memory.
    let rows = NullArray::new(4 * i32::MAX as usize).to_data();
    let lists = ArrayData::builder(DataType::FixedSizeList(field(DataType::Null, true), i32::MAX))
        .offset(1)
        .len(3)
        .add_child_data(rows)
        .build()
        .unwrap();
    assert!(is_checkable_array(&lists));
    assert!(is_valid_array(&lists));
    let copy = deep_clone_array(&lists).unwrap();
    assert_eq!((copy.offset(), copy.len()), (1, 3));
}

#[test]
fn arrays_that_are_not_valid_are_not_copied() {
    // The entries of a map are never null.
    let maps = ArrayData::new_null(&map_of(true, false), 1);
    assert!(!is_valid_array(&maps));
    assert!(deep_clone_array(&maps).is_err());
}

fn mapped_page(num_rows: u32) -> Page {
    Page::MappedDataPageV2 {
        byte_offset: 40,
        byte_len: 16,
        num_values: num_rows,
        encoding: Encoding::IGNITION,
        num_nulls: 0,
        num_rows,
        def_levels_byte_len: 0,
        rep_levels_byte_len: 0,
        is_compressed: false,
        statistics: None,
    }
}

fn memory_page(num_values: u32, is_compressed: bool) -> Page {
    Page::DataPageV2 {
        buf: Bytes::from_static(b"fd"),
        num_values,
        encoding: Encoding::IGNITION,
        num_nulls: 0,
        num_rows: 3,
        def_levels_byte_len: 0,
        rep_levels_byte_len: 0,
        is_compressed,
        statistics: None,
    }
}

#[test]
fn pages_are_told_apart() {
    assert!(matches!(
        classify_page(mapped_page(3), false),
        Ok(IgnitionPage::Data { offset: 40, length: 16, num_rows: 3 })
    ));
    assert!(matches!(
        classify_page(memory_page(3, true), true),
        Ok(IgnitionPage::MemFdData { num_rows: 3, .. })
    ));
    assert!(matches!(
        classify_page(memory_page(3, true), false),
        Err(ParquetError::MemFdNotFound)
    ));
    let buf = Bytes::from_static(b"wasm");
    let page = Page::DecoderPage { buf, version: "1.0.0".to_string() };
    match classify_page(page, false) {
        Ok(IgnitionPage::Decoder { buffer, version }) => {
            assert_eq!((&buffer[..], version.as_str()), (&b"wasm"[..], "1.0.0"))
        }
        other => panic!("{other:?}"),
    }
    let (buf, encoding) = (Bytes::new(), Encoding::PLAIN);
    let page = Page::DataPage { buf: buf.clone(), num_values: 1, encoding };
    assert!(matches!(
        classify_page(page, false),
        Err(ParquetError::UnexpectedPage { page_type: PageType::DATA_PAGE })
    ));
    let page = Page::DictionaryPage { buf, num_values: 1, encoding, is_sorted: false };
    assert!(matches!(
        classify_page(page, false),
        Err(ParquetError::UnexpectedPage { page_type: PageType::DICTIONARY_PAGE })
    ));
}

#[test]
fn odd_data_pages_are_not_readable() {
    assert!(is_readable(&mapped_page(3)));
    assert!(is_readable(&memory_page(3, true)));
    assert!(!is_readable(&memory_page(3, false)));
    assert!(!is_readable(&memory_page(4, true)));
    let mut page = mapped_page(3);
    if let Page::MappedDataPageV2 { def_levels_byte_len, .. } = &mut page {
        *def_levels_byte_len = 1;
    }
    assert!(!is_readable(&page));
    let mut page = mapped_page(3);
    if let Page::MappedDataPageV2 { encoding, .. } = &mut page {
        *encoding = Encoding::PLAIN;
    }
    assert!(!is_readable(&page));
}

#[test]
fn pages_come_row_group_after_row_group() {
    let mut groups = vec![vec![1u32, 2], vec![], vec![3]].into_iter();
    let mut current: Option<std::vec::IntoIter<u32>> = None;
    let mut cursor = PageCursor::new();
    let mut seen = Vec::new();
    loop {
        let mut event = PageEvent::Begin;
        let page = loop {
            match cursor.get_next_page(event) {
                PageDemand::OpenReader => match groups.next() {
                    Some(g) => {
                        current = Some(g.into_iter());
                        event = PageEvent::ReaderOpened;
                    }
                    None => event = PageEvent::NoMoreReaders,
                },
                PageDemand::ReadPage => match current.as_mut().unwrap().next() {
                    Some(n) => {
                        event = PageEvent::PageRead { page: mapped_page(n), mem_fd_known: false }
                    }
                    None => event = PageEvent::ReaderExhausted,
                },
                PageDemand::Deliver(page) => break Some(page),
                PageDemand::End => break None,
                PageDemand::Fail(e) => panic!("{e:?}"),
            }
        };
        match page {
            Some(IgnitionPage::Data { num_rows, .. }) => seen.push(num_rows),
            Some(other) => panic!("{other:?}"),
            None => break,
        }
    }
    assert_eq!(seen, vec![1, 2, 3]);
    // Asked again, the cursor looks for another row group.
    assert!(matches!(cursor.get_next_page(PageEvent::Begin), PageDemand::OpenReader));
}

#[test]
fn failures_are_handed_on() {
    let error = || ParquetError::General("broken".to_string());
    let mut r = reader(1);
    assert!(matches!(r.get_next_page(PageEvent::Begin), PageDemand::OpenReader));
    assert!(matches!(
        r.get_next_page(PageEvent::ReaderFailed(error())),
        PageDemand::Fail(ParquetError::General(_))
    ));
    assert!(matches!(r.get_next_page(PageEvent::Begin), PageDemand::OpenReader));
    assert!(matches!(r.get_next_page(PageEvent::ReaderOpened), PageDemand::ReadPage));
    assert!(matches!(
        r.get_next_page(PageEvent::ReadFailed(error())),
        PageDemand::Fail(ParquetError::General(_))
    ));
    // The page reader is still there.
    assert!(matches!(r.get_next_page(PageEvent::Begin), PageDemand::ReadPage));
}
