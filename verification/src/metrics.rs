//! The totals that are kept while the pages of a column chunk are written.
use vstd::prelude::*;

use crate::basic::PageType;
use crate::data_type::view_opt;
use crate::metadata::{histogram_view, LevelHistogram};
use crate::page::PageWriteSpec;

verus! {

/// The totals of a column chunk as a value.
pub struct MetricsModel<V> {
    pub total_bytes_written: u64,
    pub total_rows_written: u64,
    pub total_uncompressed_size: u64,
    pub total_compressed_size: u64,
    pub total_num_values: u64,
    pub dictionary_page_offset: Option<u64>,
    pub data_page_offset: Option<u64>,
    pub min_column_value: Option<V>,
    pub max_column_value: Option<V>,
    pub num_column_nulls: u64,
    pub column_distinct_count: Option<u64>,
    pub variable_length_bytes: Option<i64>,
    pub repetition_level_histogram: Option<Seq<i64>>,
    pub definition_level_histogram: Option<Seq<i64>>,
}

impl<V> MetricsModel<V> {
    /// The totals of no pages, without histograms.
    pub open spec fn empty() -> Self {
        MetricsModel {
            total_bytes_written: 0,
            total_rows_written: 0,
            total_uncompressed_size: 0,
            total_compressed_size: 0,
            total_num_values: 0,
            dictionary_page_offset: None,
            data_page_offset: None,
            min_column_value: None,
            max_column_value: None,
            num_column_nulls: 0,
            column_distinct_count: None,
            variable_length_bytes: None,
            repetition_level_histogram: None,
            definition_level_histogram: None,
        }
    }

    /// Whether what was written of a page can be added to the totals. There is one decoder at most.
    pub open spec fn takes_page(self, spec: PageWriteSpec) -> bool {
        &&& self.total_uncompressed_size + spec.uncompressed_size <= u64::MAX
        &&& self.total_compressed_size + spec.compressed_size <= u64::MAX
        &&& self.total_bytes_written + spec.bytes_written <= u64::MAX
        &&& match spec.page_type {
            PageType::DATA_PAGE | PageType::DATA_PAGE_V2 => self.total_num_values + spec.num_values
                <= u64::MAX,
            PageType::DICTIONARY_PAGE
            | PageType::DECODER_PAGE => self.dictionary_page_offset is None,
            _ => true,
        }
    }

    /// The totals with what was written of a page. The first data page and the decoder are found
    /// by their offsets.
    pub open spec fn with_page(self, spec: PageWriteSpec) -> Self {
        let sizes = MetricsModel {
            total_uncompressed_size: (self.total_uncompressed_size + spec.uncompressed_size) as u64,
            total_compressed_size: (self.total_compressed_size + spec.compressed_size) as u64,
            total_bytes_written: (self.total_bytes_written + spec.bytes_written) as u64,
            ..self
        };
        match spec.page_type {
            PageType::DATA_PAGE | PageType::DATA_PAGE_V2 => MetricsModel {
                total_num_values: (self.total_num_values + spec.num_values) as u64,
                data_page_offset: if self.data_page_offset is None {
                    Some(spec.offset)
                } else {
                    self.data_page_offset
                },
                ..sizes
            },
            PageType::DICTIONARY_PAGE | PageType::DECODER_PAGE => MetricsModel {
                dictionary_page_offset: Some(spec.offset),
                ..sizes
            },
            _ => sizes,
        }
    }
}

/// The totals of a column chunk.
#[derive(Debug)]
pub struct ColumnMetrics<T> {
    pub total_bytes_written: u64,
    pub total_rows_written: u64,
    pub total_uncompressed_size: u64,
    pub total_compressed_size: u64,
    pub total_num_values: u64,
    /// The offset of the decoder page.
    pub dictionary_page_offset: Option<u64>,
    pub data_page_offset: Option<u64>,
    pub min_column_value: Option<T>,
    pub max_column_value: Option<T>,
    pub num_column_nulls: u64,
    pub column_distinct_count: Option<u64>,
    pub variable_length_bytes: Option<i64>,
    pub repetition_level_histogram: Option<LevelHistogram>,
    pub definition_level_histogram: Option<LevelHistogram>,
}

impl<T: View> View for ColumnMetrics<T> {
    type V = MetricsModel<T::V>;

    open spec fn view(&self) -> MetricsModel<T::V> {
        MetricsModel {
            total_bytes_written: self.total_bytes_written,
            total_rows_written: self.total_rows_written,
            total_uncompressed_size: self.total_uncompressed_size,
            total_compressed_size: self.total_compressed_size,
            total_num_values: self.total_num_values,
            dictionary_page_offset: self.dictionary_page_offset,
            data_page_offset: self.data_page_offset,
            min_column_value: view_opt(self.min_column_value),
            max_column_value: view_opt(self.max_column_value),
            num_column_nulls: self.num_column_nulls,
            column_distinct_count: self.column_distinct_count,
            variable_length_bytes: self.variable_length_bytes,
            repetition_level_histogram: histogram_view(self.repetition_level_histogram),
            definition_level_histogram: histogram_view(self.definition_level_histogram),
        }
    }
}

impl<T: View> ColumnMetrics<T> {
    /// The totals of no pages, without histograms.
    pub fn new() -> (m: Self)
        ensures
            m@ == MetricsModel::<T::V>::empty(),
    {
        ColumnMetrics {
            total_bytes_written: 0,
            total_rows_written: 0,
            total_uncompressed_size: 0,
            total_compressed_size: 0,
            total_num_values: 0,
            dictionary_page_offset: None,
            data_page_offset: None,
            min_column_value: None,
            max_column_value: None,
            num_column_nulls: 0,
            column_distinct_count: None,
            variable_length_bytes: None,
            repetition_level_histogram: None,
            definition_level_histogram: None,
        }
    }

    /// Whether what was written of a page can be added.
    pub fn can_take_page(&self, spec: &PageWriteSpec) -> (b: bool)
        ensures
            b == self@.takes_page(*spec),
    {
        self.total_uncompressed_size.checked_add(spec.uncompressed_size as u64).is_some()
            && self.total_compressed_size.checked_add(spec.compressed_size as u64).is_some()
            && self.total_bytes_written.checked_add(spec.bytes_written).is_some()
            && match spec.page_type {
            PageType::DATA_PAGE | PageType::DATA_PAGE_V2 => self.total_num_values.checked_add(
                spec.num_values as u64,
            ).is_some(),
            PageType::DICTIONARY_PAGE
            | PageType::DECODER_PAGE => self.dictionary_page_offset.is_none(),
            _ => true,
        }
    }

    /// Adds what was written of a page.
    pub fn take_page(&mut self, spec: &PageWriteSpec)
        requires
            old(self)@.takes_page(*spec),
        ensures
            final(self)@ == old(self)@.with_page(*spec),
    {
        self.total_uncompressed_size = self.total_uncompressed_size + spec.uncompressed_size as u64;
        self.total_compressed_size = self.total_compressed_size + spec.compressed_size as u64;
        self.total_bytes_written = self.total_bytes_written + spec.bytes_written;
        match spec.page_type {
            PageType::DATA_PAGE | PageType::DATA_PAGE_V2 => {
                self.total_num_values = self.total_num_values + spec.num_values as u64;
                if self.data_page_offset.is_none() {
                    self.data_page_offset = Some(spec.offset);
                }
            },
            PageType::DICTIONARY_PAGE | PageType::DECODER_PAGE => {
                self.dictionary_page_offset = Some(spec.offset);
            },
            _ => {},
        }
    }
}

/// Totals are seen as what their fields hold.
pub proof fn totals_are_seen_as_they_are<T: View>(m: ColumnMetrics<T>)
    ensures
        m@.total_bytes_written == m.total_bytes_written,
        m@.total_rows_written == m.total_rows_written,
        m@.total_uncompressed_size == m.total_uncompressed_size,
        m@.total_compressed_size == m.total_compressed_size,
        m@.total_num_values == m.total_num_values,
        m@.dictionary_page_offset == m.dictionary_page_offset,
        m@.data_page_offset == m.data_page_offset,
        m@.num_column_nulls == m.num_column_nulls,
        m@.column_distinct_count == m.column_distinct_count,
        m@.variable_length_bytes == m.variable_length_bytes,
        m.min_column_value matches Some(v) ==> m@.min_column_value == Some(v@),
        m.max_column_value matches Some(v) ==> m@.max_column_value == Some(v@),
        m.repetition_level_histogram matches Some(h) ==> m@.repetition_level_histogram == Some(
            h.inner@,
        ),
        m.definition_level_histogram matches Some(h) ==> m@.definition_level_histogram == Some(
            h.inner@,
        ),
{
}

/// The totals of no pages are zero, and nothing else is known yet.
pub proof fn totals_start_at_zero<V>()
    ensures
        ({
            let m = MetricsModel::<V>::empty();
            &&& m.total_bytes_written == 0 && m.total_rows_written == 0
            &&& m.total_uncompressed_size == 0 && m.total_compressed_size == 0
            &&& m.total_num_values == 0 && m.num_column_nulls == 0
            &&& m.dictionary_page_offset is None && m.data_page_offset is None
            &&& m.min_column_value is None && m.max_column_value is None
            &&& m.column_distinct_count is None && m.variable_length_bytes is None
            &&& m.repetition_level_histogram is None && m.definition_level_histogram is None
        }),
{
}

/// Every page adds its sizes and bytes. A data page adds its values, and the first one is found by its
/// offset; a decoder, of which there is one at most, is found by its own. Rows, nulls, bounds and
/// levels are not touched.
pub proof fn pages_add_to_the_totals<V>(m: MetricsModel<V>, spec: PageWriteSpec)
    ensures
        m.takes_page(spec) <==> {
            &&& m.total_uncompressed_size + spec.uncompressed_size <= u64::MAX
            &&& m.total_compressed_size + spec.compressed_size <= u64::MAX
            &&& m.total_bytes_written + spec.bytes_written <= u64::MAX
            &&& spec.page_type is DATA_PAGE || spec.page_type is DATA_PAGE_V2
                ==> m.total_num_values + spec.num_values <= u64::MAX
            &&& spec.page_type is DECODER_PAGE || spec.page_type is DICTIONARY_PAGE
                ==> m.dictionary_page_offset is None
        },
        m.takes_page(spec) ==> {
            let after = m.with_page(spec);
            &&& after.total_uncompressed_size == m.total_uncompressed_size + spec.uncompressed_size
            &&& after.total_compressed_size == m.total_compressed_size + spec.compressed_size
            &&& after.total_bytes_written == m.total_bytes_written + spec.bytes_written
            &&& spec.page_type is DATA_PAGE || spec.page_type is DATA_PAGE_V2 ==> {
                &&& after.total_num_values == m.total_num_values + spec.num_values
                &&& m.data_page_offset is None ==> after.data_page_offset == Some(spec.offset)
                &&& m.data_page_offset is Some ==> after.data_page_offset == m.data_page_offset
                &&& after.dictionary_page_offset == m.dictionary_page_offset
            }
            &&& spec.page_type is DECODER_PAGE || spec.page_type is DICTIONARY_PAGE ==> {
                &&& after.dictionary_page_offset == Some(spec.offset)
                &&& after.data_page_offset == m.data_page_offset
                &&& after.total_num_values == m.total_num_values
            }
            &&& after.total_rows_written == m.total_rows_written
            &&& after.num_column_nulls == m.num_column_nulls
            &&& after.min_column_value == m.min_column_value
            &&& after.max_column_value == m.max_column_value
            &&& after.column_distinct_count == m.column_distinct_count
            &&& after.variable_length_bytes == m.variable_length_bytes
            &&& after.repetition_level_histogram == m.repetition_level_histogram
            &&& after.definition_level_histogram == m.definition_level_histogram
        },
{
}

} // verus!
