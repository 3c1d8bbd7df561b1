//! Writing the pages of one column chunk.
//!
//! A chunk starts with the decoder of its data pages. Data pages are laid out so that the payload
//! behind their three leading words stands at a multiple of eight bytes in the file.
use bytes::Bytes;
use vstd::prelude::*;

use crate::basic::{Compression, EnabledStatistics, Encoding, LogicalType, SortOrder, Type};
use crate::bloom_filter::{is_probability, Sbbf};
use crate::buffer::{buffer_bytes, copy_from_slice, from_vec};
use crate::compression::Codec;
use crate::data_type::{
    duplicate_opt, view_opt, ByteArray, FixedLenByteArray, ParquetValueType,
};
use crate::errors::ParquetError;
use crate::format::header_statistics;
use crate::layout::{
    aligned_page, aligned_spec, levels_view, page_alignable, page_fits, plain_spec,
    plan_aligned_page, plan_plain_page, records_of_pages_count_their_bytes,
    records_of_plain_pages_count_their_bytes, PagePlan,
};
use crate::metadata::{
    can_add_histograms, counts_view, empty_histogram, histogram_sum_opt, histogram_view,
    histogram_with, histograms_add_opt, update_histogram, ColumnChunkMetaData, ColumnChunkModel,
    ColumnIndex, ColumnIndexBuilder, ColumnIndexModel, LevelHistogram, OffsetIndex,
    OffsetIndexBuilder, OffsetIndexModel,
};
use crate::metrics::{ColumnMetrics, MetricsModel};
use crate::page::{data_page, decoder_page, CompressedPage, Page, PageModel, PageWriteSpec};
use crate::properties::WriterProperties;
use crate::schema::ColumnDescriptor;
use crate::sink::{SinkModel, TrackedWrite};
use crate::statistics::{
    new_statistics, Statistics, StatisticsModel, StatisticsValue, ValueStatistics,
};
use crate::truncate::{truncate_max_value, truncate_min_value, truncated_max, truncated_min};
use crate::value_order::{can_update, max_with, min_with, updatable, update_max, update_min};

verus! {

/// A column writer as a value.
pub struct WriterModel<V> {
    pub sink: SinkModel,
    pub descr: ColumnDescriptor,
    pub props: WriterProperties,
    pub statistics_enabled: EnabledStatistics,
    pub codec: Compression,
    pub has_compressor: bool,
    pub metrics: MetricsModel<V>,
    pub column_index: ColumnIndexModel,
    pub offset_index: OffsetIndexModel,
}

/// What a data page is written with, besides its payload.
pub struct DataPageModel<V> {
    pub min: Option<V>,
    pub max: Option<V>,
    pub num_nulls: u32,
    pub num_values: u32,
    pub num_distinct: Option<u64>,
    /// The size of the payload before compression.
    pub uncompressed_len: usize,
    pub compressed: bool,
    /// The size of the page's byte strings, where it holds some.
    pub variable_length_bytes: Option<i64>,
    pub def_levels: Option<Seq<i16>>,
    pub rep_levels: Option<Seq<i16>>,
}

/// Whether the bounds of the column's statistics may be shortened. Decimals and half precision
/// values are not ordered as their bytes are, so theirs may not.
pub open spec fn truncates(descr: ColumnDescriptor) -> bool {
    match descr.physical_type {
        Type::FIXED_LEN_BYTE_ARRAY => !(descr.logical_type matches Some(
            LogicalType::Decimal { .. },
        )) && descr.logical_type != Some(LogicalType::Float16),
        Type::BYTE_ARRAY => true,
        _ => false,
    }
}

/// The bytes of a bound that may be missing.
pub open spec fn bound_bytes<T: ParquetValueType>(v: Option<T::V>) -> Option<Seq<u8>> {
    match v {
        Some(x) => Some(T::plain(x)),
        None => None,
    }
}

/// The statistics of a page. Where the bounds may be shortened, both are marked exact if and only if
/// the maximum was not shortened.
pub open spec fn page_statistics<T: ParquetValueType>(
    descr: ColumnDescriptor,
    truncate_length: Option<usize>,
    page_min: Option<T::V>,
    page_max: Option<T::V>,
    num_nulls: u32,
    num_distinct: Option<u64>,
) -> StatisticsModel {
    let min = bound_bytes::<T>(page_min);
    let max = bound_bytes::<T>(page_max);
    let nulls = Some(num_nulls as u64);
    if truncates(descr) {
        let short_min = match min {
            Some(m) => Some(truncated_min(truncate_length, m).0),
            None => None,
        };
        let short_max = match max {
            Some(m) => Some(truncated_max(truncate_length, m).0),
            None => None,
        };
        let max_cut = max is Some && truncated_max(truncate_length, max->0).1;
        StatisticsModel {
            min_exact: !max_cut,
            max_exact: !max_cut,
            ..new_statistics(Type::BYTE_ARRAY, short_min, short_max, num_distinct, nulls, false)
        }
    } else {
        new_statistics(T::type_of(), min, max, num_distinct, nulls, false)
    }
}

/// The page that is written for `p` with the payload `data`.
pub open spec fn page_of<T: ParquetValueType>(
    w: WriterModel<T::V>,
    p: DataPageModel<T::V>,
    data: Seq<u8>,
) -> PageModel {
    data_page(
        data,
        p.num_values,
        Encoding::IGNITION,
        p.num_nulls,
        p.num_values,
        0,
        0,
        p.compressed,
        Some(
            page_statistics::<T>(
                w.descr,
                w.props.statistics_truncate_length,
                p.min,
                p.max,
                p.num_nulls,
                p.num_distinct,
            ),
        ),
        p.uncompressed_len,
    )
}

/// The running minimum with the page's.
pub open spec fn min_after<T: ParquetValueType>(
    descr: &ColumnDescriptor,
    cur: Option<T::V>,
    page: Option<T::V>,
) -> Option<T::V> {
    match page {
        Some(v) => min_with::<T>(descr, cur, v),
        None => cur,
    }
}

/// The running maximum with the page's.
pub open spec fn max_after<T: ParquetValueType>(
    descr: &ColumnDescriptor,
    cur: Option<T::V>,
    page: Option<T::V>,
) -> Option<T::V> {
    match page {
        Some(v) => max_with::<T>(descr, cur, v),
        None => cur,
    }
}

/// The totals with the rows, nulls and bounds of the page.
pub open spec fn counted<T: ParquetValueType>(
    w: WriterModel<T::V>,
    min: Option<T::V>,
    max: Option<T::V>,
    num_nulls: u32,
    num_values: u32,
) -> MetricsModel<T::V> {
    MetricsModel {
        total_rows_written: (w.metrics.total_rows_written + num_values) as u64,
        num_column_nulls: (w.metrics.num_column_nulls + num_nulls) as u64,
        min_column_value: min_after::<T>(&w.descr, w.metrics.min_column_value, min),
        max_column_value: max_after::<T>(&w.descr, w.metrics.max_column_value, max),
        ..w.metrics
    }
}

/// The column index with the page. A page of nulls has no bounds; where another page lacks one, the
/// index is given up.
pub open spec fn indexed<T: ParquetValueType>(
    index: ColumnIndexModel,
    min: Option<T::V>,
    max: Option<T::V>,
    num_nulls: u32,
    num_values: u32,
) -> ColumnIndexModel {
    if !index.valid {
        index
    } else if num_values == num_nulls {
        index.with_page(true, Seq::empty(), Seq::empty(), num_nulls as i64)
    } else if min is Some && max is Some {
        index.with_page(false, T::plain(min->0), T::plain(max->0), num_nulls as i64)
    } else {
        index.invalid()
    }
}

/// The writer once the page is in the file and its rows are counted, but it is in no index yet.
pub open spec fn appended<T: ParquetValueType>(
    w: WriterModel<T::V>,
    p: DataPageModel<T::V>,
    data: Seq<u8>,
) -> WriterModel<T::V> {
    let a = aligned_page(
        w.sink.bytes_written as int,
        page_of::<T>(w, p, data),
        p.def_levels,
        p.rep_levels,
        w.descr,
    );
    WriterModel {
        sink: w.sink.with(a.bytes()),
        metrics: counted::<T>(w, p.min, p.max, p.num_nulls, p.num_values),
        ..w
    }
}

/// The writer once the page is in the file and in the column index, but its levels are not counted
/// yet.
pub open spec fn placed<T: ParquetValueType>(
    w: WriterModel<T::V>,
    p: DataPageModel<T::V>,
    data: Seq<u8>,
) -> WriterModel<T::V> {
    WriterModel {
        column_index: indexed::<T>(w.column_index, p.min, p.max, p.num_nulls, p.num_values),
        ..appended::<T>(w, p, data)
    }
}

/// What is recorded of the page.
pub open spec fn page_spec<T: ParquetValueType>(
    w: WriterModel<T::V>,
    p: DataPageModel<T::V>,
    data: Seq<u8>,
) -> PageWriteSpec {
    let page = page_of::<T>(w, p, data);
    aligned_spec(
        w.sink.bytes_written,
        page,
        aligned_page(w.sink.bytes_written as int, page, p.def_levels, p.rep_levels, w.descr),
    )
}

/// What is wrong with the levels of the page, if anything: definition and repetition levels come in
/// the same number, and the first record of a page starts in it.
pub open spec fn level_error(
    descr: ColumnDescriptor,
    def_levels: Option<Seq<i16>>,
    rep_levels: Option<Seq<i16>>,
) -> Option<ParquetError> {
    if def_levels is Some && rep_levels is Some && def_levels->0.len() != rep_levels->0.len() {
        Some(
            ParquetError::InconsistentLevels {
                definition: def_levels->0.len() as usize,
                repetition: rep_levels->0.len() as usize,
            },
        )
    } else if descr.max_rep_level <= 0 {
        None
    } else if rep_levels is None {
        Some(ParquetError::RepetitionLevelsRequired { max_repetition_level: descr.max_rep_level })
    } else if rep_levels->0.len() > 0 && rep_levels->0[0] != 0 {
        Some(ParquetError::NotAtRecordBoundary { repetition_level: rep_levels->0[0] })
    } else {
        None
    }
}

/// How often each repetition level occurs in the page, where the column repeats.
pub open spec fn rep_histogram<V>(descr: ColumnDescriptor, p: DataPageModel<V>) -> Option<
    Seq<i64>,
> {
    match empty_histogram(descr.max_rep_level) {
        Some(h) => Some(histogram_with(h, p.rep_levels->0)),
        None => None,
    }
}

/// The writer with a page's levels in the totals and the column index, and the page in the offset
/// index and in the totals.
pub open spec fn with_record<V>(
    w: WriterModel<V>,
    rep: Option<Seq<i64>>,
    def: Option<Seq<i64>>,
    num_values: u32,
    variable_length_bytes: Option<i64>,
    spec: PageWriteSpec,
) -> WriterModel<V> {
    let levels = MetricsModel {
        repetition_level_histogram: histogram_sum_opt(w.metrics.repetition_level_histogram, rep),
        definition_level_histogram: histogram_sum_opt(w.metrics.definition_level_histogram, def),
        ..w.metrics
    };
    WriterModel {
        metrics: levels.with_page(spec),
        column_index: w.column_index.with_histograms(rep, def),
        offset_index: w.offset_index.with_page(
            spec.offset as i64,
            spec.compressed_size as i32,
            num_values as i64,
            variable_length_bytes,
        ),
        ..w
    }
}

/// The writer once the page is in the file, in both indexes and in the totals. Definition levels
/// are not counted.
pub open spec fn recorded<T: ParquetValueType>(
    w: WriterModel<T::V>,
    p: DataPageModel<T::V>,
    data: Seq<u8>,
) -> WriterModel<T::V> {
    with_record(
        placed::<T>(w, p, data),
        rep_histogram(w.descr, p),
        empty_histogram(w.descr.max_def_level),
        p.num_values,
        p.variable_length_bytes,
        page_spec::<T>(w, p, data),
    )
}

/// Whether the page can be written: its bounds can be compared with those of the pages before it, it
/// can be laid out, and no count leaves its range.
pub open spec fn data_page_fits<T: ParquetValueType>(
    w: WriterModel<T::V>,
    p: DataPageModel<T::V>,
    data: Seq<u8>,
) -> bool {
    &&& w.metrics.total_rows_written + p.num_values <= u64::MAX
    &&& w.metrics.num_column_nulls + p.num_nulls <= u64::MAX
    &&& p.min matches Some(v) ==> updatable::<T>(&w.descr, v, w.metrics.min_column_value)
    &&& p.max matches Some(v) ==> updatable::<T>(&w.descr, v, w.metrics.max_column_value)
    &&& page_alignable(
        w.sink.bytes_written as int,
        page_of::<T>(w, p, data),
        p.def_levels,
        p.rep_levels,
        w.descr,
    )
    &&& level_error(w.descr, p.def_levels, p.rep_levels) is None ==> {
        &&& p.rep_levels matches Some(levels) ==> levels.len() <= i64::MAX
        &&& histograms_add_opt(w.metrics.repetition_level_histogram, rep_histogram(w.descr, p))
        &&& histograms_add_opt(
            w.metrics.definition_level_histogram,
            empty_histogram(w.descr.max_def_level),
        )
        &&& w.offset_index.rows + p.num_values <= i64::MAX
        &&& w.metrics.takes_page(page_spec::<T>(w, p, data))
    }
}

/// What comes of writing the page: what is returned, and the writer after it. A page that cannot be
/// written changes nothing; one with wrong levels is in the file when they are refused.
pub open spec fn after_data_page<T: ParquetValueType>(
    w: WriterModel<T::V>,
    p: DataPageModel<T::V>,
    data: Seq<u8>,
) -> (Result<(), ParquetError>, WriterModel<T::V>) {
    if !data_page_fits::<T>(w, p, data) {
        (Err(ParquetError::UnwritablePage), w)
    } else {
        match level_error(w.descr, p.def_levels, p.rep_levels) {
            Some(e) => (Err(e), placed::<T>(w, p, data)),
            None => (Ok(()), recorded::<T>(w, p, data)),
        }
    }
}

/// A data page that is in the file and not recorded yet, as a value.
pub struct PlacedPageModel<V> {
    pub min: Option<V>,
    pub max: Option<V>,
    pub num_nulls: u32,
    pub num_values: u32,
    pub variable_length_bytes: Option<i64>,
    /// What is wrong with its levels, if anything.
    pub level_error: Option<ParquetError>,
    /// How often each of its levels occurs.
    pub rep_histogram: Option<Seq<i64>>,
    pub def_histogram: Option<Seq<i64>>,
    pub spec: PageWriteSpec,
}

/// The page `p` with the payload `data` once it is in the file.
pub open spec fn placed_page<T: ParquetValueType>(
    w: WriterModel<T::V>,
    p: DataPageModel<T::V>,
    data: Seq<u8>,
) -> PlacedPageModel<T::V> {
    let error = level_error(w.descr, p.def_levels, p.rep_levels);
    PlacedPageModel {
        min: p.min,
        max: p.max,
        num_nulls: p.num_nulls,
        num_values: p.num_values,
        variable_length_bytes: p.variable_length_bytes,
        level_error: error,
        rep_histogram: if error is None {
            rep_histogram(w.descr, p)
        } else {
            None
        },
        def_histogram: if error is None {
            empty_histogram(w.descr.max_def_level)
        } else {
            None
        },
        spec: page_spec::<T>(w, p, data),
    }
}

/// Whether the page can be recorded: no count leaves its range.
pub open spec fn recordable<V>(w: WriterModel<V>, p: PlacedPageModel<V>) -> bool {
    p.level_error is None ==> {
        &&& histograms_add_opt(w.metrics.repetition_level_histogram, p.rep_histogram)
        &&& histograms_add_opt(w.metrics.definition_level_histogram, p.def_histogram)
        &&& w.offset_index.rows + p.num_values <= i64::MAX
        &&& w.metrics.takes_page(p.spec)
    }
}

/// What comes of recording a page that is in the file: what is returned, and the writer after it. A
/// page with wrong levels is in the column index when they are refused.
pub open spec fn after_record<T: ParquetValueType>(
    w: WriterModel<T::V>,
    p: PlacedPageModel<T::V>,
) -> (Result<(), ParquetError>, WriterModel<T::V>) {
    let listed = WriterModel {
        column_index: indexed::<T>(w.column_index, p.min, p.max, p.num_nulls, p.num_values),
        ..w
    };
    match p.level_error {
        Some(e) => (Err(e), listed),
        None => (
            Ok(()),
            with_record(
                listed,
                p.rep_histogram,
                p.def_histogram,
                p.num_values,
                p.variable_length_bytes,
                p.spec,
            ),
        ),
    }
}

/// A data page that is in the file and not recorded yet.
pub struct PlacedPage<T> {
    min: Option<T>,
    max: Option<T>,
    num_nulls: u32,
    num_values: u32,
    variable_length_bytes: Option<i64>,
    levels: Result<(), ParquetError>,
    repetition_level_histogram: Option<LevelHistogram>,
    definition_level_histogram: Option<LevelHistogram>,
    spec: PageWriteSpec,
}

impl<T: StatisticsValue> View for PlacedPage<T> {
    type V = PlacedPageModel<T::V>;

    closed spec fn view(&self) -> PlacedPageModel<T::V> {
        PlacedPageModel {
            min: view_opt(self.min),
            max: view_opt(self.max),
            num_nulls: self.num_nulls,
            num_values: self.num_values,
            variable_length_bytes: self.variable_length_bytes,
            level_error: match self.levels {
                Ok(_) => None,
                Err(e) => Some(e),
            },
            rep_histogram: histogram_view(self.repetition_level_histogram),
            def_histogram: histogram_view(self.definition_level_histogram),
            spec: self.spec,
        }
    }
}

/// Whether the decoder can be written. A chunk has one at most.
pub open spec fn decoder_fits<V>(
    w: WriterModel<V>,
    data: Seq<u8>,
    version: Seq<char>,
    uncompressed_size: usize,
) -> bool {
    let page = decoder_page(data, version, uncompressed_size);
    &&& page_fits(w.sink.bytes_written as int, page)
    &&& w.metrics.takes_page(plain_spec(w.sink.bytes_written, page))
}

/// What comes of writing the decoder with the payload `data`: what is returned, and the writer after
/// it.
pub open spec fn after_decoder<V>(
    w: WriterModel<V>,
    data: Seq<u8>,
    version: Seq<char>,
    uncompressed_size: usize,
) -> (Result<(), ParquetError>, WriterModel<V>) {
    let page = decoder_page(data, version, uncompressed_size);
    if decoder_fits(w, data, version, uncompressed_size) {
        (
            Ok(()),
            WriterModel {
                sink: w.sink.with(page.header().bytes() + page.data),
                metrics: w.metrics.with_page(plain_spec(w.sink.bytes_written, page)),
                ..w
            },
        )
    } else {
        (Err(ParquetError::UnwritablePage), w)
    }
}

/// Whether the codec, where there is one, may turn `input` into `output`; without one, nothing is
/// changed.
pub open spec fn compressed_to(
    compressor: Option<Box<dyn Codec>>,
    input: Seq<u8>,
    output: Seq<u8>,
) -> bool {
    match compressor {
        Some(c) => c.compresses(input, output),
        None => output == input,
    }
}

/// The bounds of a whole chunk, shortened. A bound is marked exact if and only if it was not
/// shortened.
pub open spec fn shortened_statistics(
    base: StatisticsModel,
    truncate_length: Option<usize>,
) -> StatisticsModel {
    let (min, min_cut) = truncated_min(truncate_length, base.min->0);
    let (max, max_cut) = truncated_max(truncate_length, base.max->0);
    StatisticsModel {
        min_exact: !min_cut,
        max_exact: !max_cut,
        ..new_statistics(
            base.physical_type,
            Some(min),
            Some(max),
            base.distinct_count,
            base.null_count,
            base.backwards_compatible,
        )
    }
}

/// The statistics of the whole chunk.
pub open spec fn chunk_statistics<T: ParquetValueType>(w: WriterModel<T::V>) -> StatisticsModel {
    let base = StatisticsModel {
        backwards_compatible: w.descr.order() == SortOrder::SIGNED,
        ..new_statistics(
            T::type_of(),
            bound_bytes::<T>(w.metrics.min_column_value),
            bound_bytes::<T>(w.metrics.max_column_value),
            w.metrics.column_distinct_count,
            Some(w.metrics.num_column_nulls),
            false,
        )
    };
    let shortens = T::type_of() == Type::BYTE_ARRAY || (T::type_of() == Type::FIXED_LEN_BYTE_ARRAY
        && truncates(w.descr));
    if shortens && base.min is Some && base.max is Some {
        shortened_statistics(base, w.props.statistics_truncate_length)
    } else {
        base
    }
}

/// The metadata of the chunk.
pub open spec fn chunk_metadata<T: ParquetValueType>(w: WriterModel<T::V>) -> ColumnChunkModel {
    let collects = w.statistics_enabled != EnabledStatistics::Disabled;
    ColumnChunkModel {
        column_descr: w.descr,
        encodings: seq![Encoding::IGNITION],
        num_values: w.metrics.total_num_values as i64,
        compression: w.codec,
        total_compressed_size: w.metrics.total_compressed_size as i64,
        total_uncompressed_size: w.metrics.total_uncompressed_size as i64,
        data_page_offset: match w.metrics.data_page_offset {
            Some(offset) => offset as i64,
            None => 0,
        },
        dictionary_page_offset: match w.metrics.dictionary_page_offset {
            Some(offset) => Some(offset as i64),
            None => None,
        },
        statistics: if collects {
            Some(chunk_statistics::<T>(w))
        } else {
            None
        },
        unencoded_byte_array_data_bytes: if collects {
            w.metrics.variable_length_bytes
        } else {
            None
        },
        repetition_level_histogram: if collects {
            w.metrics.repetition_level_histogram
        } else {
            None
        },
        definition_level_histogram: if collects {
            w.metrics.definition_level_histogram
        } else {
            None
        },
    }
}

/// The writer after the metadata of the chunk was assembled: where statistics are collected, the
/// level histograms have gone with it.
pub open spec fn after_metadata<V>(w: WriterModel<V>) -> WriterModel<V> {
    if w.statistics_enabled == EnabledStatistics::Disabled {
        w
    } else {
        WriterModel {
            metrics: MetricsModel {
                repetition_level_histogram: None,
                definition_level_histogram: None,
                ..w.metrics
            },
            ..w
        }
    }
}

/// Where no page is written in between, metadata that is assembled again lacks the level histograms
/// and agrees in all else, and the writer stays as it is.
pub proof fn metadata_again<T: ParquetValueType>(w: WriterModel<T::V>)
    ensures
        w.statistics_enabled != EnabledStatistics::Disabled ==> {
            &&& chunk_metadata::<T>(w).repetition_level_histogram
                == w.metrics.repetition_level_histogram
            &&& chunk_metadata::<T>(w).definition_level_histogram
                == w.metrics.definition_level_histogram
        },
        chunk_metadata::<T>(after_metadata(w)) == (ColumnChunkModel {
            repetition_level_histogram: None,
            definition_level_histogram: None,
            ..chunk_metadata::<T>(w)
        }),
        after_metadata(after_metadata(w)) == after_metadata(w),
{
}

/// What a finished column chunk is recorded with.
pub struct ColumnCloseResult {
    pub bytes_written: u64,
    pub rows_written: u64,
    pub bloom_filter: Option<Sbbf>,
    pub metadata: ColumnChunkMetaData,
    pub column_index: Option<ColumnIndex>,
    pub offset_index: Option<OffsetIndex>,
}

/// The column index that is recorded: there is none where it was given up.
pub open spec fn column_index_view(index: Option<ColumnIndex>) -> Option<ColumnIndexModel> {
    match index {
        Some(i) => Some(i@),
        None => None,
    }
}

/// Whether `c` is what the chunk of `w` is recorded with.
pub open spec fn closes<T: ParquetValueType>(
    w: WriterModel<T::V>,
    bloom_filter: Option<Sbbf>,
    c: ColumnCloseResult,
) -> bool {
    &&& c.bytes_written == w.metrics.total_bytes_written
    &&& c.rows_written == w.metrics.total_rows_written
    &&& c.bloom_filter == bloom_filter
    &&& c.metadata@ == chunk_metadata::<T>(w)
    &&& column_index_view(c.column_index) == if w.column_index.valid {
        Some(w.column_index)
    } else {
        None
    }
    &&& c.offset_index matches Some(index) && index.page_locations@ == w.offset_index.pages
        && counts_view(index.unencoded_byte_array_data_bytes)
        == w.offset_index.unencoded_byte_array_data_bytes
}

/// Writes the pages of one column chunk and collects what is recorded of them.
pub struct IgnitionColumnWriter<T> {
    sink: TrackedWrite,
    descr: ColumnDescriptor,
    props: WriterProperties,
    statistics_enabled: EnabledStatistics,
    codec: Compression,
    compressor: Option<Box<dyn Codec>>,
    column_metrics: ColumnMetrics<T>,
    column_index_builder: ColumnIndexBuilder,
    offset_index_builder: OffsetIndexBuilder,
}

impl<T: StatisticsValue> View for IgnitionColumnWriter<T> {
    type V = WriterModel<T::V>;

    closed spec fn view(&self) -> WriterModel<T::V> {
        WriterModel {
            sink: self.sink@,
            descr: self.descr,
            props: self.props,
            statistics_enabled: self.statistics_enabled,
            codec: self.codec,
            has_compressor: self.compressor is Some,
            metrics: self.column_metrics@,
            column_index: self.column_index_builder@,
            offset_index: self.offset_index_builder@,
        }
    }
}

/// A writer that has written nothing yet.
pub open spec fn new_writer<V>(
    column: ColumnDescriptor,
    sink: SinkModel,
    props: WriterProperties,
    has_compressor: bool,
) -> WriterModel<V> {
    let statistics_enabled = props.column_statistics(column.path@);
    let collects = statistics_enabled != EnabledStatistics::Disabled;
    WriterModel {
        sink,
        descr: column,
        props,
        statistics_enabled,
        codec: props.column_compression(column.path@),
        has_compressor,
        metrics: MetricsModel {
            repetition_level_histogram: if collects {
                empty_histogram(column.max_rep_level)
            } else {
                None
            },
            definition_level_histogram: if collects {
                empty_histogram(column.max_def_level)
            } else {
                None
            },
            ..MetricsModel::empty()
        },
        column_index: if statistics_enabled == EnabledStatistics::Page {
            ColumnIndexModel::empty()
        } else {
            ColumnIndexModel::empty().invalid()
        },
        offset_index: OffsetIndexModel::empty(),
    }
}

impl<T: StatisticsValue> IgnitionColumnWriter<T> {
    /// The parts of the writer fit together.
    pub closed spec fn wf(&self) -> bool {
        self.offset_index_builder.wf() && self.descr.wf()
    }

    /// The codec, where there is one.
    pub closed spec fn compressor(&self) -> Option<Box<dyn Codec>> {
        self.compressor
    }

    /// A writer for `column` that has written nothing yet. Level histograms are kept where
    /// statistics are collected at all, the column index where they are collected for each page.
    pub fn new(
        column: ColumnDescriptor,
        buf: TrackedWrite,
        props: WriterProperties,
        compressor: Option<Box<dyn Codec>>,
    ) -> (r: Result<Self, ParquetError>)
        requires
            column.wf(),
            compressor is Some <==> props.column_compression(column.path@)
                != Compression::UNCOMPRESSED,
        ensures
            r matches Ok(w) && w.wf() && w@ == new_writer::<T::V>(
                column,
                buf@,
                props,
                compressor is Some,
            ) && w.compressor() == compressor,
    {
        let codec = props.compression(&column.path);
        let statistics_enabled = props.statistics_enabled(&column.path);
        let mut column_metrics = ColumnMetrics::<T>::new();
        if statistics_enabled != EnabledStatistics::Disabled {
            column_metrics.repetition_level_histogram = LevelHistogram::try_new(
                column.max_rep_level,
            );
            column_metrics.definition_level_histogram = LevelHistogram::try_new(
                column.max_def_level,
            );
        }
        let mut column_index_builder = ColumnIndexBuilder::new();
        if statistics_enabled != EnabledStatistics::Page {
            column_index_builder.to_invalid();
        }
        Ok(
            IgnitionColumnWriter {
                sink: buf,
                descr: column,
                props,
                statistics_enabled,
                codec,
                compressor,
                column_metrics,
                column_index_builder,
                offset_index_builder: OffsetIndexBuilder::new(),
            },
        )
    }

    /// Hands a page that is ready to the sink.
    fn write_page(&mut self, plan: &PagePlan)
        requires
            old(self).wf(),
            old(self)@.sink.bytes_written + plan.bytes@.len() <= usize::MAX,
        ensures
            final(self).wf(),
            final(self).compressor() == old(self).compressor(),
            final(self)@ == (WriterModel {
                sink: old(self)@.sink.with(plan.bytes@),
                ..old(self)@
            }),
    {
        self.sink.write_all(plan.bytes.as_slice());
    }

    /// Updates the totals with what was written of a page.
    pub fn update_metrics_for_page(&mut self, page_spec: &PageWriteSpec)
        requires
            old(self).wf(),
            old(self)@.metrics.takes_page(*page_spec),
        ensures
            final(self).wf(),
            final(self).compressor() == old(self).compressor(),
            final(self)@ == (WriterModel {
                metrics: old(self)@.metrics.with_page(*page_spec),
                ..old(self)@
            }),
    {
        self.column_metrics.take_page(page_spec);
    }

    /// Puts the decoder with the payload `buf`, which takes `uncompressed_size` bytes before
    /// compression, into the file, and says what is to be recorded of it once it is there indeed.
    pub fn place_decoder(&mut self, buf: Bytes, version: String, uncompressed_size: usize) -> (r:
        Result<PageWriteSpec, ParquetError>)
        requires
            old(self).wf(),
        ensures
            final(self).wf(),
            final(self).compressor() == old(self).compressor(),
            ({
                let w = old(self)@;
                let page = decoder_page(buffer_bytes(buf), version@, uncompressed_size);
                match r {
                    Ok(spec) => {
                        &&& decoder_fits(w, buffer_bytes(buf), version@, uncompressed_size)
                        &&& spec == plain_spec(w.sink.bytes_written, page)
                        &&& final(self)@ == (WriterModel {
                            sink: w.sink.with(page.header().bytes() + page.data),
                            ..w
                        })
                    },
                    Err(e) => {
                        &&& !decoder_fits(w, buffer_bytes(buf), version@, uncompressed_size)
                        &&& e is UnwritablePage
                        &&& final(self)@ == w
                    },
                }
            }),
    {
        let page = CompressedPage::new(Page::DecoderPage { buf, version }, uncompressed_size);
        let plan = match plan_plain_page(self.sink.bytes_written(), &page) {
            Some(plan) => plan,
            None => {
                return Err(ParquetError::UnwritablePage);
            },
        };
        if !self.column_metrics.can_take_page(&plan.spec) {
            return Err(ParquetError::UnwritablePage);
        }
        self.write_page(&plan);
        Ok(plan.spec)
    }

    /// Writes the decoder with the payload `buf`, which takes `uncompressed_size` bytes before
    /// compression.
    pub fn append_decoder(&mut self, buf: Bytes, version: String, uncompressed_size: usize) -> (r:
        Result<(), ParquetError>)
        requires
            old(self).wf(),
        ensures
            final(self).wf(),
            final(self).compressor() == old(self).compressor(),
            (r, final(self)@) == after_decoder(
                old(self)@,
                buffer_bytes(buf),
                version@,
                uncompressed_size,
            ),
    {
        match self.place_decoder(buf, version, uncompressed_size) {
            Ok(spec) => {
                self.update_metrics_for_page(&spec);
                Ok(())
            },
            Err(e) => Err(e),
        }
    }

    /// The payload of a page with the contents `data`, compressed by the column's codec where
    /// `compress` says so and there is one. Only the codec can fail.
    pub fn payload_of(&mut self, data: &[u8], compress: bool) -> (r: Result<Bytes, ParquetError>)
        requires
            old(self).wf(),
        ensures
            final(self).wf(),
            final(self)@ == old(self)@,
            !compress || !old(self)@.has_compressor ==> final(self).compressor()
                == old(self).compressor(),
            r matches Ok(buf) ==> if compress {
                compressed_to(old(self).compressor(), data@, buffer_bytes(buf))
            } else {
                buffer_bytes(buf) == data@
            },
            r is Err ==> compress && old(self)@.has_compressor,
    {
        if compress {
            if let Some(compressor) = &mut self.compressor {
                let mut compressed: Vec<u8> = Vec::new();
                return match compressor.compress(data, &mut compressed) {
                    Ok(_) => Ok(from_vec(compressed)),
                    Err(e) => Err(e),
                };
            }
        }
        Ok(copy_from_slice(data))
    }

    /// Writes the decoder of the data pages, compressed where the column has a codec. Where the
    /// codec fails, its error is returned and nothing is written.
    pub fn write_decoder(&mut self, decoder_bytes: &[u8], version: String) -> (r: Result<
        (),
        ParquetError,
    >)
        requires
            old(self).wf(),
        ensures
            final(self).wf(),
            !old(self)@.has_compressor ==> final(self).compressor() == old(self).compressor(),
            !old(self)@.has_compressor ==> (r, final(self)@) == after_decoder(
                old(self)@,
                decoder_bytes@,
                version@,
                decoder_bytes.len(),
            ),
            (r is Err && final(self)@ == old(self)@) || exists|data: Seq<u8>| #[trigger]
                compressed_to(old(self).compressor(), decoder_bytes@, data) && (r, final(self)@)
                    == after_decoder(old(self)@, data, version@, decoder_bytes.len()),
    {
        match self.payload_of(decoder_bytes, true) {
            Ok(buf) => {
                assert(compressed_to(old(self).compressor(), decoder_bytes@, buffer_bytes(buf)));
                self.append_decoder(buf, version, decoder_bytes.len())
            },
            Err(e) => Err(e),
        }
    }

    /// Determines if the bounds of this column's statistics may be shortened.
    pub fn can_truncate_value(&self) -> (b: bool)
        ensures
            b == truncates(self@.descr),
    {
        match self.descr.physical_type {
            // Half precision values and decimals are not ordered as their bytes are, so a
            // shortened bound might not be one.
            Type::FIXED_LEN_BYTE_ARRAY => match self.descr.logical_type {
                Some(LogicalType::Decimal { .. }) | Some(LogicalType::Float16) => false,
                _ => true,
            },
            Type::BYTE_ARRAY => true,
            _ => false,
        }
    }

    /// The statistics of a page.
    fn statistics_of_page(
        &self,
        min: &Option<T>,
        max: &Option<T>,
        num_nulls: u32,
        num_distinct: Option<u64>,
    ) -> (statistics: Statistics)
        ensures
            statistics@ == page_statistics::<T>(
                self@.descr,
                self@.props.statistics_truncate_length,
                view_opt(*min),
                view_opt(*max),
                num_nulls,
                num_distinct,
            ),
    {
        if self.can_truncate_value() {
            let mut did_truncate_max: bool = false;
            let mut new_min: Option<ByteArray> = None;
            let mut new_max: Option<ByteArray> = None;
            if let Some(min) = min {
                let (data, _) = truncate_min_value(
                    self.props.statistics_truncate_length,
                    min.as_bytes().as_slice(),
                );
                new_min = Some(ByteArray { data });
            }
            if let Some(max) = max {
                let (data, did_truncate) = truncate_max_value(
                    self.props.statistics_truncate_length,
                    max.as_bytes().as_slice(),
                );
                did_truncate_max = did_truncate;
                new_max = Some(ByteArray { data });
            }
            Statistics::ByteArray(
                ValueStatistics::new(
                    new_min,
                    new_max,
                    num_distinct,
                    Some(num_nulls as u64),
                    false,
                ).with_min_is_exact(!did_truncate_max).with_max_is_exact(!did_truncate_max),
            )
        } else {
            T::into_statistics(
                ValueStatistics::new(
                    duplicate_opt(min),
                    duplicate_opt(max),
                    num_distinct,
                    Some(num_nulls as u64),
                    false,
                ),
            )
        }
    }

    /// Takes the rows, nulls and bounds of a page into the totals.
    fn count_page(&mut self, min: &Option<T>, max: &Option<T>, num_nulls: u32, num_values: u32)
        requires
            old(self).wf(),
            old(self)@.metrics.total_rows_written + num_values <= u64::MAX,
            old(self)@.metrics.num_column_nulls + num_nulls <= u64::MAX,
            min matches Some(v) ==> updatable::<T>(
                &old(self)@.descr,
                v@,
                old(self)@.metrics.min_column_value,
            ),
            max matches Some(v) ==> updatable::<T>(
                &old(self)@.descr,
                v@,
                old(self)@.metrics.max_column_value,
            ),
        ensures
            final(self).wf(),
            final(self).compressor() == old(self).compressor(),
            final(self)@ == (WriterModel {
                metrics: counted::<T>(
                    old(self)@,
                    view_opt(*min),
                    view_opt(*max),
                    num_nulls,
                    num_values,
                ),
                ..old(self)@
            }),
    {
        self.column_metrics.total_rows_written = self.column_metrics.total_rows_written
            + num_values as u64;
        self.column_metrics.num_column_nulls = self.column_metrics.num_column_nulls
            + num_nulls as u64;
        if let Some(page_min) = min {
            update_min(&self.descr, page_min, &mut self.column_metrics.min_column_value);
        }
        if let Some(page_max) = max {
            update_max(&self.descr, page_max, &mut self.column_metrics.max_column_value);
        }
    }

    /// Takes a page into the column index.
    fn index_page(&mut self, min: &Option<T>, max: &Option<T>, num_nulls: u32, num_values: u32)
        requires
            old(self).wf(),
        ensures
            final(self).wf(),
            final(self).compressor() == old(self).compressor(),
            final(self)@ == (WriterModel {
                column_index: indexed::<T>(
                    old(self)@.column_index,
                    view_opt(*min),
                    view_opt(*max),
                    num_nulls,
                    num_values,
                ),
                ..old(self)@
            }),
    {
        let null_page: bool = num_values == num_nulls;
        if self.column_index_builder.valid() {
            if null_page {
                let no_min: Vec<u8> = Vec::new();
                let no_max: Vec<u8> = Vec::new();
                assert(no_min@ =~= Seq::<u8>::empty());
                assert(no_max@ =~= Seq::<u8>::empty());
                self.column_index_builder.append(null_page, no_min, no_max, num_nulls as i64);
            } else {
                match (min, max) {
                    (Some(min), Some(max)) => {
                        self.column_index_builder.append(
                            null_page,
                            min.as_bytes(),
                            max.as_bytes(),
                            num_nulls as i64,
                        );
                    },
                    _ => {
                        self.column_index_builder.to_invalid();
                    },
                }
            }
        }
    }

    /// Takes the levels of a page into the totals and the column index, and the page into the offset
    /// index.
    fn record_page(
        &mut self,
        repetition_level_histogram: &Option<LevelHistogram>,
        definition_level_histogram: &Option<LevelHistogram>,
        num_values: u32,
        page_variable_length_bytes: Option<i64>,
        page_spec: &PageWriteSpec,
    )
        requires
            old(self).wf(),
            histograms_add_opt(
                old(self)@.metrics.repetition_level_histogram,
                histogram_view(*repetition_level_histogram),
            ),
            histograms_add_opt(
                old(self)@.metrics.definition_level_histogram,
                histogram_view(*definition_level_histogram),
            ),
            old(self)@.offset_index.rows + num_values <= i64::MAX,
            old(self)@.metrics.takes_page(*page_spec),
        ensures
            final(self).wf(),
            final(self).compressor() == old(self).compressor(),
            final(self)@ == with_record(
                old(self)@,
                histogram_view(*repetition_level_histogram),
                histogram_view(*definition_level_histogram),
                num_values,
                page_variable_length_bytes,
                *page_spec,
            ),
    {
        update_histogram(
            &mut self.column_metrics.repetition_level_histogram,
            repetition_level_histogram,
        );
        update_histogram(
            &mut self.column_metrics.definition_level_histogram,
            definition_level_histogram,
        );
        self.column_index_builder.append_histograms(
            repetition_level_histogram,
            definition_level_histogram,
        );
        self.offset_index_builder.append_page(
            num_values as i64,
            page_variable_length_bytes,
            page_spec.offset as i64,
            page_spec.compressed_size as i32,
        );
        self.update_metrics_for_page(page_spec);
    }

    /// Puts a data page with the payload `buf`, which takes `uncompressed_len` bytes before
    /// compression and is compressed or not, into the file, and counts its rows. It is to be recorded
    /// once it is in the file indeed.
    pub fn place_data_page(
        &mut self,
        buf: Bytes,
        min: Option<T>,
        max: Option<T>,
        num_nulls: u32,
        num_values: u32,
        num_distinct: Option<u64>,
        uncompressed_len: usize,
        compressed: bool,
        page_variable_length_bytes: Option<i64>,
        def_levels: Option<&[i16]>,
        rep_levels: Option<&[i16]>,
    ) -> (r: Result<PlacedPage<T>, ParquetError>)
        requires
            old(self).wf(),
        ensures
            final(self).wf(),
            final(self).compressor() == old(self).compressor(),
            ({
                let p = DataPageModel {
                    min: view_opt(min),
                    max: view_opt(max),
                    num_nulls,
                    num_values,
                    num_distinct,
                    uncompressed_len,
                    compressed,
                    variable_length_bytes: page_variable_length_bytes,
                    def_levels: levels_view(def_levels),
                    rep_levels: levels_view(rep_levels),
                };
                let data = buffer_bytes(buf);
                match r {
                    Ok(placed) => {
                        &&& data_page_fits::<T>(old(self)@, p, data)
                        &&& final(self)@ == appended::<T>(old(self)@, p, data)
                        &&& placed@ == placed_page::<T>(old(self)@, p, data)
                        &&& recordable(final(self)@, placed@)
                    },
                    Err(e) => {
                        &&& !data_page_fits::<T>(old(self)@, p, data)
                        &&& e is UnwritablePage
                        &&& final(self)@ == old(self)@
                    },
                }
            }),
    {
        let ghost data = buffer_bytes(buf);
        let ghost p = DataPageModel {
            min: view_opt(min),
            max: view_opt(max),
            num_nulls,
            num_values,
            num_distinct,
            uncompressed_len,
            compressed,
            variable_length_bytes: page_variable_length_bytes,
            def_levels: levels_view(def_levels),
            rep_levels: levels_view(rep_levels),
        };
        let ghost start = self@;
        let statistics = self.statistics_of_page(&min, &max, num_nulls, num_distinct);
        let page = Page::DataPageV2 {
            buf,
            num_values,
            encoding: Encoding::IGNITION,
            num_nulls,
            num_rows: num_values,
            def_levels_byte_len: 0,
            rep_levels_byte_len: 0,
            is_compressed: compressed,
            statistics: Some(statistics),
        };
        let page = CompressedPage::new(page, uncompressed_len);
        assert(page@ == page_of::<T>(start, p, data));
        let plan = match plan_aligned_page(
            self.sink.bytes_written(),
            &page,
            def_levels,
            rep_levels,
            &self.descr,
        ) {
            Some(plan) => plan,
            None => {
                return Err(ParquetError::UnwritablePage);
            },
        };
        assert(plan.spec == page_spec::<T>(start, p, data));
        if self.column_metrics.total_rows_written.checked_add(num_values as u64).is_none()
            || self.column_metrics.num_column_nulls.checked_add(num_nulls as u64).is_none() {
            return Err(ParquetError::UnwritablePage);
        }
        if let Some(page_min) = &min {
            if !can_update(&self.descr, page_min, &self.column_metrics.min_column_value) {
                return Err(ParquetError::UnwritablePage);
            }
        }
        if let Some(page_max) = &max {
            if !can_update(&self.descr, page_max, &self.column_metrics.max_column_value) {
                return Err(ParquetError::UnwritablePage);
            }
        }
        let levels = check_levels(&self.descr, def_levels, rep_levels);
        let mut repetition_level_histogram: Option<LevelHistogram> = None;
        let mut definition_level_histogram: Option<LevelHistogram> = None;
        if levels.is_ok() {
            repetition_level_histogram = LevelHistogram::try_new(self.descr.max_rep_level);
            definition_level_histogram = LevelHistogram::try_new(self.descr.max_def_level);
            if let Some(levels) = rep_levels {
                if levels.len() as u64 > i64::MAX as u64 {
                    return Err(ParquetError::UnwritablePage);
                }
                if let Some(histogram) = &mut repetition_level_histogram {
                    histogram.update_from_levels(levels);
                }
            }
            assert(histogram_view(repetition_level_histogram) == rep_histogram(start.descr, p));
            if !can_add_histograms(
                &self.column_metrics.repetition_level_histogram,
                &repetition_level_histogram,
            ) || !can_add_histograms(
                &self.column_metrics.definition_level_histogram,
                &definition_level_histogram,
            ) || self.offset_index_builder.current_first_row_index.checked_add(
                num_values as i64,
            ).is_none() || !self.column_metrics.can_take_page(&plan.spec) {
                return Err(ParquetError::UnwritablePage);
            }
        }
        self.count_page(&min, &max, num_nulls, num_values);
        self.write_page(&plan);
        let placed = PlacedPage {
            min,
            max,
            num_nulls,
            num_values,
            variable_length_bytes: page_variable_length_bytes,
            levels,
            repetition_level_histogram,
            definition_level_histogram,
            spec: plan.spec,
        };
        Ok(placed)
    }

    /// Records a data page that is in the file.
    pub fn record_data_page(&mut self, page: PlacedPage<T>) -> (r: Result<(), ParquetError>)
        requires
            old(self).wf(),
            recordable(old(self)@, page@),
        ensures
            final(self).wf(),
            final(self).compressor() == old(self).compressor(),
            (r, final(self)@) == after_record::<T>(old(self)@, page@),
    {
        self.index_page(&page.min, &page.max, page.num_nulls, page.num_values);
        if let Err(e) = page.levels {
            return Err(e);
        }
        self.record_page(
            &page.repetition_level_histogram,
            &page.definition_level_histogram,
            page.num_values,
            page.variable_length_bytes,
            &page.spec,
        );
        Ok(())
    }

    /// Writes a data page with the payload `buf`, which takes `uncompressed_len` bytes before
    /// compression and is compressed or not.
    pub fn append_data_page(
        &mut self,
        buf: Bytes,
        min: Option<T>,
        max: Option<T>,
        num_nulls: u32,
        num_values: u32,
        num_distinct: Option<u64>,
        uncompressed_len: usize,
        compressed: bool,
        page_variable_length_bytes: Option<i64>,
        def_levels: Option<&[i16]>,
        rep_levels: Option<&[i16]>,
    ) -> (r: Result<(), ParquetError>)
        requires
            old(self).wf(),
        ensures
            final(self).wf(),
            final(self).compressor() == old(self).compressor(),
            (r, final(self)@) == after_data_page::<T>(
                old(self)@,
                DataPageModel {
                    min: view_opt(min),
                    max: view_opt(max),
                    num_nulls,
                    num_values,
                    num_distinct,
                    uncompressed_len,
                    compressed,
                    variable_length_bytes: page_variable_length_bytes,
                    def_levels: levels_view(def_levels),
                    rep_levels: levels_view(rep_levels),
                },
                buffer_bytes(buf),
            ),
    {
        let placed = self.place_data_page(
            buf,
            min,
            max,
            num_nulls,
            num_values,
            num_distinct,
            uncompressed_len,
            compressed,
            page_variable_length_bytes,
            def_levels,
            rep_levels,
        );
        match placed {
            Ok(page) => self.record_data_page(page),
            Err(e) => Err(e),
        }
    }

    /// Writes a data page, compressed by the column's codec where `parquet_double_compress` says
    /// so. Where the codec fails, its error is returned and nothing is written.
    pub fn write_data_page(
        &mut self,
        page_data: &[u8],
        min: Option<T>,
        max: Option<T>,
        num_nulls: u32,
        num_values: u32,
        num_distinct: Option<u64>,
        uncompressed_len: usize,
        parquet_double_compress: bool,
        page_variable_length_bytes: Option<i64>,
        def_levels: Option<&[i16]>,
        rep_levels: Option<&[i16]>,
    ) -> (r: Result<(), ParquetError>)
        requires
            old(self).wf(),
            page_data.len() == uncompressed_len,
            parquet_double_compress ==> old(self)@.has_compressor,
        ensures
            final(self).wf(),
            !parquet_double_compress ==> final(self).compressor() == old(self).compressor(),
            ({
                let p = DataPageModel {
                    min: view_opt(min),
                    max: view_opt(max),
                    num_nulls,
                    num_values,
                    num_distinct,
                    uncompressed_len,
                    compressed: parquet_double_compress,
                    variable_length_bytes: page_variable_length_bytes,
                    def_levels: levels_view(def_levels),
                    rep_levels: levels_view(rep_levels),
                };
                if parquet_double_compress {
                    (r is Err && final(self)@ == old(self)@) || exists|data: Seq<u8>| #[trigger]
                        compressed_to(old(self).compressor(), page_data@, data) && (r, final(self)@)
                            == after_data_page::<T>(old(self)@, p, data)
                } else {
                    (r, final(self)@) == after_data_page::<T>(old(self)@, p, page_data@)
                }
            }),
    {
        let buf = match self.payload_of(page_data, parquet_double_compress) {
            Ok(buf) => buf,
            Err(e) => {
                return Err(e);
            },
        };
        assert(parquet_double_compress ==> compressed_to(
            old(self).compressor(),
            page_data@,
            buffer_bytes(buf),
        ));
        self.append_data_page(
            buf,
            min,
            max,
            num_nulls,
            num_values,
            num_distinct,
            uncompressed_len,
            parquet_double_compress,
            page_variable_length_bytes,
            def_levels,
            rep_levels,
        )
    }

    /// The empty bloom filter that the column is to have, where it is to have one.
    pub fn get_empty_bloom_filter(&self) -> (r: Result<Option<Sbbf>, ParquetError>)
        ensures
            match self@.props.column_bloom_filter(self@.descr.path@) {
                None => r matches Ok(filter) && filter is None,
                Some(b) => if is_probability(b.fpp_bits) {
                    r matches Ok(Some(filter)) && filter.is_empty_of((b.num_bits / 8) as nat)
                } else {
                    r matches Err(e) && e == (ParquetError::InvalidFalsePositiveProbability {
                        bits: b.fpp_bits,
                    })
                },
            },
    {
        match self.props.bloom_filter_properties(&self.descr.path) {
            Some(b) => match Sbbf::new_with_ndv_fpp(b.num_bits, b.fpp_bits) {
                Ok(filter) => Ok(Some(filter)),
                Err(e) => Err(e),
            },
            None => Ok(None),
        }
    }

    /// The statistics of the whole chunk.
    fn statistics_of_chunk(&self) -> (statistics: Statistics)
        ensures
            statistics@ == chunk_statistics::<T>(self@),
    {
        let backwards_compatible_min_max: bool = self.descr.sort_order() == SortOrder::SIGNED;
        let truncate_length = self.props.statistics_truncate_length;
        let statistics = T::into_statistics(
            ValueStatistics::new(
                duplicate_opt(&self.column_metrics.min_column_value),
                duplicate_opt(&self.column_metrics.max_column_value),
                self.column_metrics.column_distinct_count,
                Some(self.column_metrics.num_column_nulls),
                false,
            ).with_backwards_compatible_min_max(backwards_compatible_min_max),
        );
        match statistics {
            Statistics::ByteArray(stats) => {
                if let (Some(min), Some(max)) = (&stats.min, &stats.max) {
                    let (min, did_truncate_min) = truncate_min_value(
                        truncate_length,
                        min.data.as_slice(),
                    );
                    let (max, did_truncate_max) = truncate_max_value(
                        truncate_length,
                        max.data.as_slice(),
                    );
                    return Statistics::ByteArray(
                        ValueStatistics::new(
                            Some(ByteArray { data: min }),
                            Some(ByteArray { data: max }),
                            stats.distinct_count,
                            stats.null_count,
                            backwards_compatible_min_max,
                        ).with_max_is_exact(!did_truncate_max).with_min_is_exact(!did_truncate_min),
                    );
                }
                Statistics::ByteArray(stats)
            },
            Statistics::FixedLenByteArray(stats) => {
                if self.can_truncate_value() {
                    if let (Some(min), Some(max)) = (&stats.min, &stats.max) {
                        let (min, did_truncate_min) = truncate_min_value(
                            truncate_length,
                            min.data.as_slice(),
                        );
                        let (max, did_truncate_max) = truncate_max_value(
                            truncate_length,
                            max.data.as_slice(),
                        );
                        return Statistics::FixedLenByteArray(
                            ValueStatistics::new(
                                Some(FixedLenByteArray { data: min }),
                                Some(FixedLenByteArray { data: max }),
                                stats.distinct_count,
                                stats.null_count,
                                backwards_compatible_min_max,
                            ).with_max_is_exact(!did_truncate_max).with_min_is_exact(
                                !did_truncate_min,
                            ),
                        );
                    }
                }
                Statistics::FixedLenByteArray(stats)
            },
            stats => stats,
        }
    }

    /// Assembles the metadata of the chunk. The level histograms go with it.
    pub fn build_column_metadata(&mut self) -> (r: Result<ColumnChunkMetaData, ParquetError>)
        requires
            old(self).wf(),
        ensures
            r matches Ok(metadata) && metadata@ == chunk_metadata::<T>(old(self)@),
            final(self).wf(),
            final(self).compressor() == old(self).compressor(),
            final(self)@ == after_metadata(old(self)@),
    {
        let mut encodings: Vec<Encoding> = Vec::new();
        encodings.push(Encoding::IGNITION);
        assert(encodings@ =~= seq![Encoding::IGNITION]);
        let mut metadata = ColumnChunkMetaData {
            column_descr: self.descr.clone(),
            encodings,
            num_values: self.column_metrics.total_num_values as i64,
            compression: self.codec,
            total_compressed_size: self.column_metrics.total_compressed_size as i64,
            total_uncompressed_size: self.column_metrics.total_uncompressed_size as i64,
            // Where no data page was written, there is no offset of one.
            data_page_offset: match self.column_metrics.data_page_offset {
                Some(offset) => offset as i64,
                None => 0,
            },
            dictionary_page_offset: match self.column_metrics.dictionary_page_offset {
                Some(offset) => Some(offset as i64),
                None => None,
            },
            statistics: None,
            unencoded_byte_array_data_bytes: None,
            repetition_level_histogram: None,
            definition_level_histogram: None,
        };
        if self.statistics_enabled != EnabledStatistics::Disabled {
            metadata.statistics = Some(self.statistics_of_chunk());
            metadata.unencoded_byte_array_data_bytes = self.column_metrics.variable_length_bytes;
            metadata.repetition_level_histogram =
            self.column_metrics.repetition_level_histogram.take();
            metadata.definition_level_histogram =
            self.column_metrics.definition_level_histogram.take();
        }
        Ok(metadata)
    }

    /// Finishes the chunk: what it is recorded with, and the sink.
    pub fn close(self, bloom_filter: Option<Sbbf>) -> (r: Result<
        (ColumnCloseResult, TrackedWrite),
        ParquetError,
    >)
        requires
            self.wf(),
        ensures
            r matches Ok(closed) && closes::<T>(self@, bloom_filter, closed.0) && closed.1@
                == self@.sink,
            r->Ok_0.0.bytes_written == self@.metrics.total_bytes_written,
            r->Ok_0.0.rows_written == self@.metrics.total_rows_written,
            r->Ok_0.0.bloom_filter == bloom_filter,
            r->Ok_0.0.metadata@ == chunk_metadata::<T>(self@),
            r->Ok_0.0.column_index is Some <==> self@.column_index.valid,
            r->Ok_0.0.offset_index is Some,
            r->Ok_0.0.offset_index->0.page_locations@ == self@.offset_index.pages,
    {
        let mut writer = self;
        let metadata = writer.build_column_metadata()?;
        let column_index = if writer.column_index_builder.valid() {
            Some(writer.column_index_builder.build_to_thrift())
        } else {
            None
        };
        let offset_index = Some(writer.offset_index_builder.build_to_thrift());
        let result = ColumnCloseResult {
            bytes_written: writer.column_metrics.total_bytes_written,
            rows_written: writer.column_metrics.total_rows_written,
            bloom_filter,
            metadata,
            column_index,
            offset_index,
        };
        Ok((result, writer.sink))
    }

    /// Takes out the bytes that were written and not taken out before.
    pub fn take_pending(&mut self) -> (bytes: Vec<u8>)
        requires
            old(self).wf(),
        ensures
            bytes@ == old(self)@.sink.pending,
            final(self).wf(),
            final(self).compressor() == old(self).compressor(),
            final(self)@ == (WriterModel {
                sink: SinkModel { pending: Seq::empty(), ..old(self)@.sink },
                ..old(self)@
            }),
    {
        self.sink.take_pending()
    }
}

/// Whether the levels of a page can be recorded: definition and repetition levels come in the same
/// number, and the first record of a page starts in it.
fn check_levels(
    descr: &ColumnDescriptor,
    def_levels: Option<&[i16]>,
    rep_levels: Option<&[i16]>,
) -> (r: Result<(), ParquetError>)
    ensures
        match level_error(*descr, levels_view(def_levels), levels_view(rep_levels)) {
            Some(e) => r == Err::<(), ParquetError>(e),
            None => r is Ok,
        },
{
    if let (Some(def), Some(rep)) = (def_levels, rep_levels) {
        if def.len() != rep.len() {
            return Err(
                ParquetError::InconsistentLevels { definition: def.len(), repetition: rep.len() },
            );
        }
    }
    if descr.max_rep_level > 0 {
        match rep_levels {
            None => {
                return Err(
                    ParquetError::RepetitionLevelsRequired {
                        max_repetition_level: descr.max_rep_level,
                    },
                );
            },
            Some(levels) => {
                if levels.len() > 0 && levels[0] != 0 {
                    return Err(ParquetError::NotAtRecordBoundary { repetition_level: levels[0] });
                }
            },
        }
    }
    Ok(())
}

/// Bounds may be shortened in columns of byte strings, and in columns of byte strings of one length
/// unless they hold decimals or half precision values; in no other column.
pub proof fn byte_strings_may_be_shortened(descr: ColumnDescriptor)
    ensures
        descr.physical_type is BYTE_ARRAY ==> truncates(descr),
        descr.physical_type is FIXED_LEN_BYTE_ARRAY ==> (truncates(descr) <==> !(
        descr.logical_type matches Some(LogicalType::Decimal { .. })) && !(
        descr.logical_type matches Some(LogicalType::Float16))),
        !(descr.physical_type is BYTE_ARRAY) && !(descr.physical_type is FIXED_LEN_BYTE_ARRAY)
            ==> !truncates(descr),
{
}

/// The statistics of a page count its nulls and its distinct values, and hold a bound if and only if
/// the page has it. A bound that may be shortened is, and both are marked exact if and only if the
/// maximum was not shortened; other bounds are exact. None goes to the older fields.
pub proof fn page_statistics_are_of_the_page<T: ParquetValueType>(
    descr: ColumnDescriptor,
    truncate_length: Option<usize>,
    min: Option<T::V>,
    max: Option<T::V>,
    num_nulls: u32,
    num_distinct: Option<u64>,
)
    ensures
        ({
            let s = page_statistics::<T>(
                descr,
                truncate_length,
                min,
                max,
                num_nulls,
                num_distinct,
            );
            &&& s.null_count matches Some(n) && n == num_nulls
            &&& s.distinct_count == num_distinct
            &&& !s.deprecated && !s.backwards_compatible
            &&& s.min is Some <==> min is Some
            &&& s.max is Some <==> max is Some
            &&& !truncates(descr) ==> {
                &&& s.physical_type == T::type_of()
                &&& min matches Some(v) ==> s.min == Some(T::plain(v))
                &&& max matches Some(v) ==> s.max == Some(T::plain(v))
                &&& s.min_exact <==> min is Some
                &&& s.max_exact <==> max is Some
            }
            &&& truncates(descr) ==> {
                &&& s.physical_type is BYTE_ARRAY
                &&& min matches Some(v) ==> s.min == Some(
                    truncated_min(truncate_length, T::plain(v)).0,
                )
                &&& max matches Some(v) ==> s.max == Some(
                    truncated_max(truncate_length, T::plain(v)).0,
                )
                &&& s.min_exact == s.max_exact
                &&& max matches Some(v) ==> (s.max_exact <==> !truncated_max(
                    truncate_length,
                    T::plain(v),
                ).1)
                &&& max is None ==> s.max_exact
            }
        }),
{
}

/// The page that is written for what is handed in: its payload, its values, which are as many as its
/// rows, its nulls, whether it is compressed, the size of its payload before that, and its
/// statistics, in the encoding of Ignition columns.
pub proof fn pages_hold_what_is_handed_in<T: ParquetValueType>(
    w: WriterModel<T::V>,
    p: DataPageModel<T::V>,
    data: Seq<u8>,
)
    requires
        p.num_values <= i32::MAX,
        p.num_nulls <= i32::MAX,
    ensures
        ({
            let page = page_of::<T>(w, p, data);
            &&& page.page_type is DATA_PAGE_V2
            &&& page.data == data
            &&& page.uncompressed_size == p.uncompressed_len
            &&& page.num_values == p.num_values
            &&& page.decoder_version is None
            &&& page.data_page_header_v2 matches Some(d) && {
                &&& d.num_values == p.num_values
                &&& d.num_rows == p.num_values
                &&& d.num_nulls == p.num_nulls
                &&& d.encoding == 10
                &&& d.definition_levels_byte_length == 0
                &&& d.repetition_levels_byte_length == 0
                &&& d.is_compressed == Some(p.compressed)
                &&& d.statistics == Some(
                    header_statistics(
                        page_statistics::<T>(
                            w.descr,
                            w.props.statistics_truncate_length,
                            p.min,
                            p.max,
                            p.num_nulls,
                            p.num_distinct,
                        ),
                    ),
                )
            }
        }),
{
}

/// What is recorded of a page: it stands behind what the sink was given before, it has the values of
/// the page, and its sizes are those of its header, payload and padding, which with its levels are all
/// that is written.
pub proof fn records_are_of_the_page<T: ParquetValueType>(
    w: WriterModel<T::V>,
    p: DataPageModel<T::V>,
    data: Seq<u8>,
)
    requires
        page_alignable(
            w.sink.bytes_written as int,
            page_of::<T>(w, p, data),
            p.def_levels,
            p.rep_levels,
            w.descr,
        ),
    ensures
        ({
            let spec = page_spec::<T>(w, p, data);
            let a = aligned_page(
                w.sink.bytes_written as int,
                page_of::<T>(w, p, data),
                p.def_levels,
                p.rep_levels,
                w.descr,
            );
            let header = a.padded_header().bytes().len();
            &&& spec.page_type is DATA_PAGE_V2
            &&& spec.num_values == p.num_values
            &&& spec.offset == w.sink.bytes_written
            &&& spec.bytes_written == a.bytes().len()
            &&& spec.compressed_size == header + data.len() + a.padding
            &&& spec.uncompressed_size == header + p.uncompressed_len + a.padding
        }),
{
    records_of_pages_count_their_bytes(
        w.sink.bytes_written,
        page_of::<T>(w, p, data),
        p.def_levels,
        p.rep_levels,
        w.descr,
    );
}

/// Levels are refused where definition and repetition levels are given in different numbers, and in a
/// column that repeats where there are no repetition levels or the first of them does not start a
/// record. The error says what was found, and the first of these is reported.
pub proof fn wrong_levels_are_refused(
    descr: ColumnDescriptor,
    def: Option<Seq<i16>>,
    rep: Option<Seq<i16>>,
)
    requires
        def matches Some(l) ==> l.len() <= usize::MAX,
        rep matches Some(l) ==> l.len() <= usize::MAX,
    ensures
        ({
            let e = level_error(descr, def, rep);
            let uneven = def is Some && rep is Some && def->0.len() != rep->0.len();
            &&& uneven ==> (e matches Some(ParquetError::InconsistentLevels {
                definition,
                repetition,
            }) && definition == def->0.len() && repetition == rep->0.len())
            &&& !uneven && descr.max_rep_level > 0 && rep is None ==> (e matches Some(
                ParquetError::RepetitionLevelsRequired { max_repetition_level },
            ) && max_repetition_level == descr.max_rep_level)
            &&& !uneven && descr.max_rep_level > 0 && rep is Some && rep->0.len() > 0 && rep->0[0]
                != 0 ==> (e matches Some(ParquetError::NotAtRecordBoundary { repetition_level })
                && repetition_level == rep->0[0])
            &&& !uneven && (descr.max_rep_level <= 0 || (rep is Some && (rep->0.len() == 0
                || rep->0[0] == 0))) ==> e is None
        }),
{
}

/// A page that cannot be laid out, cannot be compared with the bounds before it, or does not fit the
/// counts is refused, and nothing changes. Another with wrong levels is refused with what is wrong
/// with them. Every other page is written.
pub proof fn pages_are_written_unless_refused<T: ParquetValueType>(
    w: WriterModel<T::V>,
    p: DataPageModel<T::V>,
    data: Seq<u8>,
)
    ensures
        ({
            let (r, after) = after_data_page::<T>(w, p, data);
            let error = level_error(w.descr, p.def_levels, p.rep_levels);
            let can_be_placed = {
                &&& w.metrics.total_rows_written + p.num_values <= u64::MAX
                &&& w.metrics.num_column_nulls + p.num_nulls <= u64::MAX
                &&& p.min matches Some(v) ==> updatable::<T>(
                    &w.descr,
                    v,
                    w.metrics.min_column_value,
                )
                &&& p.max matches Some(v) ==> updatable::<T>(
                    &w.descr,
                    v,
                    w.metrics.max_column_value,
                )
                &&& page_alignable(
                    w.sink.bytes_written as int,
                    page_of::<T>(w, p, data),
                    p.def_levels,
                    p.rep_levels,
                    w.descr,
                )
            };
            let can_be_recorded = {
                &&& p.rep_levels matches Some(levels) ==> levels.len() <= i64::MAX
                &&& histograms_add_opt(
                    w.metrics.repetition_level_histogram,
                    rep_histogram(w.descr, p),
                )
                &&& histograms_add_opt(
                    w.metrics.definition_level_histogram,
                    empty_histogram(w.descr.max_def_level),
                )
                &&& w.offset_index.rows + p.num_values <= i64::MAX
                &&& w.metrics.takes_page(page_spec::<T>(w, p, data))
            };
            &&& !can_be_placed ==> r == Err::<(), ParquetError>(ParquetError::UnwritablePage)
                && after == w
            &&& can_be_placed && error is Some ==> r == Err::<(), ParquetError>(error->0)
            &&& can_be_placed && error is None && !can_be_recorded ==> r == Err::<(), ParquetError>(
                ParquetError::UnwritablePage,
            ) && after == w
            &&& can_be_placed && error is None && can_be_recorded ==> r is Ok
        }),
{
}

/// A page counts its rows and nulls, moves the bounds of the chunk outwards if it has bounds, and puts
/// one entry into a column index that was not given up: an empty one if all of its rows are null, and
/// otherwise one with its bounds. Without a bound the index is given up.
pub proof fn pages_are_counted_and_indexed<T: ParquetValueType>(
    w: WriterModel<T::V>,
    index: ColumnIndexModel,
    min: Option<T::V>,
    max: Option<T::V>,
    num_nulls: u32,
    num_values: u32,
)
    requires
        w.metrics.total_rows_written + num_values <= u64::MAX,
        w.metrics.num_column_nulls + num_nulls <= u64::MAX,
    ensures
        ({
            let m = counted::<T>(w, min, max, num_nulls, num_values);
            &&& m.total_rows_written == w.metrics.total_rows_written + num_values
            &&& m.num_column_nulls == w.metrics.num_column_nulls + num_nulls
            &&& min is None ==> m.min_column_value == w.metrics.min_column_value
            &&& max is None ==> m.max_column_value == w.metrics.max_column_value
            &&& min matches Some(v) ==> m.min_column_value == min_with::<T>(
                &w.descr,
                w.metrics.min_column_value,
                v,
            )
            &&& max matches Some(v) ==> m.max_column_value == max_with::<T>(
                &w.descr,
                w.metrics.max_column_value,
                v,
            )
            &&& m.total_num_values == w.metrics.total_num_values
            &&& m.total_bytes_written == w.metrics.total_bytes_written
        }),
        ({
            let after = indexed::<T>(index, min, max, num_nulls, num_values);
            let all_null = num_values == num_nulls;
            let n = index.null_pages.len() as int;
            &&& !index.valid ==> after == index
            &&& index.valid && !all_null && !(min is Some && max is Some) ==> !after.valid
            &&& index.valid && (all_null || (min is Some && max is Some)) ==> {
                &&& after.valid
                &&& after.null_pages == index.null_pages.push(all_null)
                &&& after.null_counts == index.null_counts.push(num_nulls as i64)
                &&& all_null ==> after.min_values == index.min_values.push(Seq::empty())
                    && after.max_values == index.max_values.push(Seq::empty())
                &&& !all_null ==> after.min_values == index.min_values.push(T::plain(min->0))
                    && after.max_values == index.max_values.push(T::plain(max->0))
            }
        }),
{
}

/// The statistics of a chunk count its nulls and its distinct values, whether or not bounds are
/// shortened. They are of the column's type, and hold a bound if and only if the chunk has it. Bounds
/// are shortened only in columns of byte strings where there are both; then each is marked exact if
/// and only if it was not. Bounds that are not shortened are exact. Bounds may go to the older fields
/// if and only if the order of the column is signed.
pub proof fn chunk_statistics_are_of_the_chunk<T: ParquetValueType>(w: WriterModel<T::V>)
    ensures
        ({
            let s = chunk_statistics::<T>(w);
            let min = w.metrics.min_column_value;
            let max = w.metrics.max_column_value;
            let signed = w.descr.order() is SIGNED;
            let shortens = (T::type_of() is BYTE_ARRAY || (T::type_of() is FIXED_LEN_BYTE_ARRAY
                && truncates(w.descr))) && min is Some && max is Some;
            &&& s.null_count == Some(w.metrics.num_column_nulls)
            &&& s.distinct_count == w.metrics.column_distinct_count
            &&& s.physical_type == T::type_of()
            &&& s.min is Some <==> min is Some
            &&& s.max is Some <==> max is Some
            &&& s.backwards_compatible <==> signed
            &&& !shortens ==> {
                &&& !s.deprecated
                &&& min matches Some(v) ==> s.min == Some(T::plain(v))
                &&& max matches Some(v) ==> s.max == Some(T::plain(v))
                &&& s.min_exact <==> min is Some
                &&& s.max_exact <==> max is Some
            }
            &&& shortens ==> {
                let cut_min = truncated_min(w.props.statistics_truncate_length, T::plain(min->0));
                let cut_max = truncated_max(w.props.statistics_truncate_length, T::plain(max->0));
                &&& s.deprecated <==> signed
                &&& s.min == Some(cut_min.0)
                &&& s.max == Some(cut_max.0)
                &&& s.min_exact <==> !cut_min.1
                &&& s.max_exact <==> !cut_max.1
            }
        }),
{
}

/// The metadata of a chunk is that of its column and its totals: its values, its sizes, its codec, the
/// offsets of its first data page and of its decoder, and its one encoding. Statistics, the size of
/// byte strings and level histograms go with it if and only if statistics are collected.
pub proof fn metadata_is_of_the_chunk<T: ParquetValueType>(w: WriterModel<T::V>)
    requires
        w.metrics.total_num_values <= i64::MAX,
        w.metrics.total_compressed_size <= i64::MAX,
        w.metrics.total_uncompressed_size <= i64::MAX,
        w.metrics.data_page_offset matches Some(x) ==> x <= i64::MAX,
        w.metrics.dictionary_page_offset matches Some(x) ==> x <= i64::MAX,
    ensures
        ({
            let m = chunk_metadata::<T>(w);
            let collects = !(w.statistics_enabled is Disabled);
            &&& m.column_descr == w.descr
            &&& m.encodings.len() == 1 && m.encodings[0] is IGNITION
            &&& m.compression == w.codec
            &&& m.num_values == w.metrics.total_num_values
            &&& m.total_compressed_size == w.metrics.total_compressed_size
            &&& m.total_uncompressed_size == w.metrics.total_uncompressed_size
            &&& w.metrics.data_page_offset matches Some(x) ==> m.data_page_offset == x
            &&& w.metrics.data_page_offset is None ==> m.data_page_offset == 0
            &&& w.metrics.dictionary_page_offset matches Some(x) ==> (
            m.dictionary_page_offset matches Some(y) && y == x)
            &&& w.metrics.dictionary_page_offset is None ==> m.dictionary_page_offset is None
            &&& !collects ==> {
                &&& m.statistics is None && m.unencoded_byte_array_data_bytes is None
                &&& m.repetition_level_histogram is None && m.definition_level_histogram is None
            }
            &&& collects ==> {
                &&& m.statistics == Some(chunk_statistics::<T>(w))
                &&& m.unencoded_byte_array_data_bytes == w.metrics.variable_length_bytes
                &&& m.repetition_level_histogram == w.metrics.repetition_level_histogram
                &&& m.definition_level_histogram == w.metrics.definition_level_histogram
            }
        }),
{
}

/// A new writer has written nothing. Level histograms are kept where statistics are collected at all
/// and the column has such levels, the column index where they are collected for each page, and the
/// codec is the one that is set for the column.
pub proof fn writers_start_with_nothing_written<V>(
    column: ColumnDescriptor,
    sink: SinkModel,
    props: WriterProperties,
    has_compressor: bool,
)
    ensures
        ({
            let w = new_writer::<V>(column, sink, props, has_compressor);
            let statistics = props.column_statistics(column.path@);
            &&& w.sink == sink
            &&& w.descr == column
            &&& w.props == props
            &&& w.has_compressor == has_compressor
            &&& w.codec == props.column_compression(column.path@)
            &&& w.statistics_enabled == statistics
            &&& w.metrics.total_rows_written == 0 && w.metrics.total_num_values == 0
            &&& w.metrics.total_bytes_written == 0 && w.metrics.num_column_nulls == 0
            &&& w.metrics.total_compressed_size == 0 && w.metrics.total_uncompressed_size == 0
            &&& w.metrics.data_page_offset is None && w.metrics.dictionary_page_offset is None
            &&& w.metrics.min_column_value is None && w.metrics.max_column_value is None
            &&& w.metrics.column_distinct_count is None && w.metrics.variable_length_bytes is None
            &&& w.metrics.repetition_level_histogram is Some <==> !(statistics is Disabled)
                && column.max_rep_level > 0
            &&& w.metrics.definition_level_histogram is Some <==> !(statistics is Disabled)
                && column.max_def_level > 0
            &&& w.metrics.repetition_level_histogram matches Some(h) ==> h.len()
                == column.max_rep_level + 1 && forall|i: int| 0 <= i < h.len() ==> #[trigger] h[i]
                == 0
            &&& w.metrics.definition_level_histogram matches Some(h) ==> h.len()
                == column.max_def_level + 1 && forall|i: int| 0 <= i < h.len() ==> #[trigger] h[i]
                == 0
            &&& w.column_index.valid <==> statistics is Page
            &&& w.column_index.null_pages.len() == 0 && w.column_index.null_counts.len() == 0
            &&& w.column_index.min_values.len() == 0 && w.column_index.max_values.len() == 0
            &&& w.column_index.repetition_level_histograms is None
            &&& w.column_index.definition_level_histograms is None
            &&& w.offset_index.pages.len() == 0 && w.offset_index.rows == 0
            &&& w.offset_index.unencoded_byte_array_data_bytes is None
        }),
{
}

/// A decoder is written where it has room and there is none yet: its header, then its payload. It
/// counts to the bytes and sizes of the chunk, and is found at its offset.
pub proof fn decoders_are_written_once<V>(
    w: WriterModel<V>,
    data: Seq<u8>,
    version: Seq<char>,
    uncompressed_size: usize,
)
    ensures
        ({
            let page = decoder_page(data, version, uncompressed_size);
            let header = page.header().bytes();
            let (r, after) = after_decoder(w, data, version, uncompressed_size);
            let size = header.len() + data.len();
            let fits = {
                &&& w.sink.bytes_written + size <= usize::MAX
                &&& uncompressed_size + header.len() <= usize::MAX
                &&& w.metrics.total_compressed_size + size <= u64::MAX
                &&& w.metrics.total_uncompressed_size + uncompressed_size + header.len()
                    <= u64::MAX
                &&& w.metrics.total_bytes_written + size <= u64::MAX
                &&& w.metrics.dictionary_page_offset is None
            };
            &&& !fits ==> r == Err::<(), ParquetError>(ParquetError::UnwritablePage) && after == w
            &&& fits ==> {
                &&& r is Ok
                &&& after.sink.pending == w.sink.pending + (header + data)
                &&& after.sink.bytes_written == w.sink.bytes_written + size
                &&& after.metrics.total_bytes_written == w.metrics.total_bytes_written + size
                &&& after.metrics.total_compressed_size == w.metrics.total_compressed_size + size
                &&& after.metrics.total_uncompressed_size == w.metrics.total_uncompressed_size
                    + uncompressed_size + header.len()
                &&& after.metrics.dictionary_page_offset == Some(w.sink.bytes_written as u64)
                &&& after.metrics.data_page_offset == w.metrics.data_page_offset
                &&& after.metrics.total_rows_written == w.metrics.total_rows_written
                &&& after.metrics.total_num_values == w.metrics.total_num_values
                &&& after.column_index == w.column_index && after.offset_index == w.offset_index
            }
        }),
{
    records_of_plain_pages_count_their_bytes(
        w.sink.bytes_written,
        decoder_page(data, version, uncompressed_size),
    );
}

/// What a chunk is recorded with: the bytes and rows that were written, the filter, the metadata, and
/// the two indexes; a column index that was given up is left out.
pub proof fn chunks_are_recorded_as_they_are<T: ParquetValueType>(
    w: WriterModel<T::V>,
    bloom_filter: Option<Sbbf>,
    c: ColumnCloseResult,
)
    requires
        closes::<T>(w, bloom_filter, c),
    ensures
        c.bytes_written == w.metrics.total_bytes_written,
        c.rows_written == w.metrics.total_rows_written,
        c.bloom_filter == bloom_filter,
        c.metadata@ == chunk_metadata::<T>(w),
        c.column_index is Some <==> w.column_index.valid,
        c.column_index matches Some(index) ==> {
            &&& index.null_pages@ == w.column_index.null_pages
            &&& index.null_counts@ == w.column_index.null_counts
            &&& index@.min_values == w.column_index.min_values
            &&& index@.max_values == w.column_index.max_values
        },
        c.offset_index matches Some(index) && index.page_locations@ == w.offset_index.pages,
{
}

/// Assembling the metadata of a chunk takes nothing from the writer but its level histograms, and
/// those only where statistics are collected.
pub proof fn metadata_takes_only_histograms<V>(w: WriterModel<V>)
    ensures
        ({
            let after = after_metadata(w);
            &&& after.sink == w.sink && after.descr == w.descr && after.props == w.props
            &&& after.codec == w.codec && after.has_compressor == w.has_compressor
            &&& after.statistics_enabled == w.statistics_enabled
            &&& after.column_index == w.column_index && after.offset_index == w.offset_index
            &&& after.metrics.total_bytes_written == w.metrics.total_bytes_written
            &&& after.metrics.total_rows_written == w.metrics.total_rows_written
            &&& after.metrics.total_num_values == w.metrics.total_num_values
            &&& after.metrics.num_column_nulls == w.metrics.num_column_nulls
            &&& after.metrics.min_column_value == w.metrics.min_column_value
            &&& after.metrics.max_column_value == w.metrics.max_column_value
            &&& w.statistics_enabled is Disabled ==> after == w
            &&& !(w.statistics_enabled is Disabled) ==> {
                &&& after.metrics.repetition_level_histogram is None
                &&& after.metrics.definition_level_histogram is None
            }
        }),
{
}

/// Without a codec a payload is what was handed in; with one it is what the codec turns that into.
pub proof fn payloads_without_codec_are_as_handed_in(
    compressor: Option<Box<dyn Codec>>,
    input: Seq<u8>,
    output: Seq<u8>,
)
    ensures
        compressor is None ==> (compressed_to(compressor, input, output) <==> output == input),
        compressor matches Some(c) ==> (compressed_to(compressor, input, output) ==> c.compresses(
            input,
            output,
        )),
{
}

/// A page that is in the file and not recorded yet is remembered with all that is recorded of it.
pub proof fn placed_pages_are_remembered<T: ParquetValueType>(
    w: WriterModel<T::V>,
    p: DataPageModel<T::V>,
    data: Seq<u8>,
)
    ensures
        ({
            let placed = placed_page::<T>(w, p, data);
            &&& placed.min == p.min && placed.max == p.max
            &&& placed.num_nulls == p.num_nulls && placed.num_values == p.num_values
            &&& placed.variable_length_bytes == p.variable_length_bytes
            &&& placed.level_error == level_error(w.descr, p.def_levels, p.rep_levels)
            &&& placed.spec == page_spec::<T>(w, p, data)
        }),
        ({
            let after = appended::<T>(w, p, data);
            &&& after.column_index == w.column_index && after.offset_index == w.offset_index
            &&& after.descr == w.descr && after.props == w.props
            &&& after.metrics.total_num_values == w.metrics.total_num_values
            &&& after.metrics.total_bytes_written == w.metrics.total_bytes_written
            &&& after.metrics.data_page_offset == w.metrics.data_page_offset
            &&& after.sink.pending.len() >= w.sink.pending.len()
        }),
{
}

} // verus!
