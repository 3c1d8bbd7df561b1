//! Pages: the units that a column chunk is written and read in.
use bytes::Bytes;
use vstd::prelude::*;

use crate::basic::{encoding_code, page_type_code, Encoding, PageType};
use crate::buffer::{as_slice, buffer_bytes};
use crate::data_type::ParquetValueType;
use crate::format::{
    copy_opt, header_count, header_statistics, DataPageHeaderV2, DataPageHeaderV2Model,
    DecoderPageHeader, HeaderStatistics, PageHeader, PageHeaderModel,
};
use crate::statistics::{Statistics, StatisticsModel, ValueStatistics};

verus! {

/// A page, as it is written or as a page reader hands it out.
#[derive(Debug)]
pub enum Page {
    /// A data page of the first version of the format.
    DataPage { buf: Bytes, num_values: u32, encoding: Encoding },
    /// A data page in memory.
    DataPageV2 {
        buf: Bytes,
        num_values: u32,
        encoding: Encoding,
        num_nulls: u32,
        num_rows: u32,
        def_levels_byte_len: u32,
        rep_levels_byte_len: u32,
        is_compressed: bool,
        statistics: Option<Statistics>,
    },
    /// A data page in the mapped file.
    MappedDataPageV2 {
        byte_offset: usize,
        byte_len: usize,
        num_values: u32,
        encoding: Encoding,
        num_nulls: u32,
        num_rows: u32,
        def_levels_byte_len: u32,
        rep_levels_byte_len: u32,
        is_compressed: bool,
        statistics: Option<Statistics>,
    },
    /// A page of dictionary values.
    DictionaryPage { buf: Bytes, num_values: u32, encoding: Encoding, is_sorted: bool },
    /// The decoder of the data pages that follow.
    DecoderPage { buf: Bytes, version: String },
}

/// The statistics of a page that may lack them.
pub open spec fn statistics_view(s: Option<Statistics>) -> Option<StatisticsModel> {
    match s {
        Some(x) => Some(x@),
        None => None,
    }
}

/// A page that is about to be written, as a value.
pub struct PageModel {
    pub page_type: PageType,
    /// The payload as it is written.
    pub data: Seq<u8>,
    /// The size of the payload before compression.
    pub uncompressed_size: usize,
    pub num_values: u32,
    pub data_page_header_v2: Option<DataPageHeaderV2Model>,
    pub decoder_version: Option<Seq<char>>,
}

impl PageModel {
    /// The header of the page.
    pub open spec fn header(self) -> PageHeaderModel {
        PageHeaderModel {
            type_: page_type_code(self.page_type),
            uncompressed_page_size: self.uncompressed_size as i32,
            compressed_page_size: (self.data.len() as usize) as i32,
            data_page_header_v2: self.data_page_header_v2,
            decoder_version: self.decoder_version,
        }
    }
}

/// A page of a kind that an Ignition column is written in, with the size of its payload before
/// compression.
#[derive(Debug)]
pub struct CompressedPage {
    pub compressed_page: Page,
    pub uncompressed_size: usize,
}

/// A decoder page as a value.
pub open spec fn decoder_page(data: Seq<u8>, version: Seq<char>, uncompressed_size: usize) -> PageModel {
    PageModel {
        page_type: PageType::DECODER_PAGE,
        data,
        uncompressed_size,
        num_values: 0,
        data_page_header_v2: None,
        decoder_version: Some(version),
    }
}

/// A data page in memory as a value.
pub open spec fn data_page(
    data: Seq<u8>,
    num_values: u32,
    encoding: Encoding,
    num_nulls: u32,
    num_rows: u32,
    def_levels_byte_len: u32,
    rep_levels_byte_len: u32,
    is_compressed: bool,
    statistics: Option<StatisticsModel>,
    uncompressed_size: usize,
) -> PageModel {
    PageModel {
        page_type: PageType::DATA_PAGE_V2,
        data,
        uncompressed_size,
        num_values,
        data_page_header_v2: Some(
            DataPageHeaderV2Model {
                num_values: num_values as i32,
                num_nulls: num_nulls as i32,
                num_rows: num_rows as i32,
                encoding: encoding_code(encoding),
                definition_levels_byte_length: def_levels_byte_len as i32,
                repetition_levels_byte_length: rep_levels_byte_len as i32,
                is_compressed: Some(is_compressed),
                statistics: match statistics {
                    Some(s) => Some(header_statistics(s)),
                    None => None,
                },
            },
        ),
        decoder_version: None,
    }
}

impl View for CompressedPage {
    type V = PageModel;

    open spec fn view(&self) -> PageModel {
        match self.compressed_page {
            Page::DecoderPage { buf, version } => decoder_page(
                buffer_bytes(buf),
                version@,
                self.uncompressed_size,
            ),
            Page::DataPageV2 {
                buf,
                num_values,
                encoding,
                num_nulls,
                num_rows,
                def_levels_byte_len,
                rep_levels_byte_len,
                is_compressed,
                statistics,
            } => data_page(
                buffer_bytes(buf),
                num_values,
                encoding,
                num_nulls,
                num_rows,
                def_levels_byte_len,
                rep_levels_byte_len,
                is_compressed,
                statistics_view(statistics),
                self.uncompressed_size,
            ),
            _ => arbitrary(),
        }
    }
}

impl CompressedPage {
    /// Ignition columns are written in decoder pages and data pages in memory.
    pub open spec fn wf(&self) -> bool {
        self.compressed_page is DecoderPage || self.compressed_page is DataPageV2
    }

    /// A page that is about to be written.
    pub fn new(compressed_page: Page, uncompressed_size: usize) -> (page: Self)
        requires
            compressed_page is DecoderPage || compressed_page is DataPageV2,
        ensures
            page.wf(),
            page.compressed_page == compressed_page,
            page.uncompressed_size == uncompressed_size,
    {
        CompressedPage { compressed_page, uncompressed_size }
    }

    /// What the page holds.
    pub fn page_type(&self) -> (t: PageType)
        requires
            self.wf(),
        ensures
            t == self@.page_type,
    {
        match &self.compressed_page {
            Page::DecoderPage { .. } => PageType::DECODER_PAGE,
            _ => PageType::DATA_PAGE_V2,
        }
    }

    /// The size of the payload before compression.
    pub fn uncompressed_size(&self) -> (n: usize)
        requires
            self.wf(),
        ensures
            n == self@.uncompressed_size,
    {
        self.uncompressed_size
    }

    /// The payload as it is written.
    pub fn data(&self) -> (data: &[u8])
        requires
            self.wf(),
        ensures
            data@ == self@.data,
    {
        match &self.compressed_page {
            Page::DataPage { buf, .. } => as_slice(buf),
            Page::DecoderPage { buf, .. } => as_slice(buf),
            Page::DataPageV2 { buf, .. } => as_slice(buf),
            Page::DictionaryPage { buf, .. } => as_slice(buf),
            Page::MappedDataPageV2 { .. } => &[],
        }
    }

    /// The size of the payload as it is written.
    pub fn compressed_size(&self) -> (n: usize)
        requires
            self.wf(),
        ensures
            n == self@.data.len(),
    {
        self.data().len()
    }

    /// The number of values, nulls included; decoder pages hold none.
    pub fn num_values(&self) -> (n: u32)
        requires
            self.wf(),
        ensures
            n == self@.num_values,
    {
        match &self.compressed_page {
            Page::DataPageV2 { num_values, .. } => *num_values,
            _ => 0,
        }
    }

    /// The header of the page.
    pub fn to_thrift_header(&self) -> (header: PageHeader)
        requires
            self.wf(),
        ensures
            header@ == self@.header(),
    {
        let type_: i32 = self.page_type().code();
        let uncompressed_page_size: i32 = self.uncompressed_size as i32;
        let compressed_page_size: i32 = self.compressed_size() as i32;
        match &self.compressed_page {
            Page::DataPageV2 {
                num_values,
                encoding,
                num_nulls,
                num_rows,
                def_levels_byte_len,
                rep_levels_byte_len,
                is_compressed,
                statistics,
                ..
            } => PageHeader {
                type_,
                uncompressed_page_size,
                compressed_page_size,
                data_page_header_v2: Some(
                    DataPageHeaderV2 {
                        num_values: *num_values as i32,
                        num_nulls: *num_nulls as i32,
                        num_rows: *num_rows as i32,
                        encoding: encoding.code(),
                        definition_levels_byte_length: *def_levels_byte_len as i32,
                        repetition_levels_byte_length: *rep_levels_byte_len as i32,
                        is_compressed: Some(*is_compressed),
                        statistics: match statistics {
                            Some(s) => Some(to_thrift(s)),
                            None => None,
                        },
                    },
                ),
                decoder_page_header: None,
            },
            Page::DecoderPage { version, .. } => PageHeader {
                type_,
                uncompressed_page_size,
                compressed_page_size,
                data_page_header_v2: None,
                decoder_page_header: Some(DecoderPageHeader { version: version.clone() }),
            },
            _ => PageHeader {
                type_,
                uncompressed_page_size,
                compressed_page_size,
                data_page_header_v2: None,
                decoder_page_header: None,
            },
        }
    }
}

/// A count, where it fits the 63 bits that a header has for it.
fn to_header_count(n: Option<u64>) -> (c: Option<i64>)
    ensures
        c == header_count(n),
{
    match n {
        Some(x) => if x <= i64::MAX as u64 {
            Some(x as i64)
        } else {
            None
        },
        None => None,
    }
}

/// The statistics of values of one type, as a header holds them.
fn value_statistics_to_thrift<T: ParquetValueType>(s: &ValueStatistics<T>) -> (h: HeaderStatistics)
    ensures
        h@ == header_statistics(s@),
{
    let min: Option<Vec<u8>> = match &s.min {
        Some(m) => Some(m.as_bytes()),
        None => None,
    };
    let max: Option<Vec<u8>> = match &s.max {
        Some(m) => Some(m.as_bytes()),
        None => None,
    };
    let old_min = if s.is_min_max_backwards_compatible {
        copy_opt(&min)
    } else {
        None
    };
    let old_max = if s.is_min_max_backwards_compatible {
        copy_opt(&max)
    } else {
        None
    };
    let (min_value, max_value) = if s.is_min_max_deprecated {
        (None, None)
    } else {
        (min, max)
    };
    HeaderStatistics {
        max: old_max,
        min: old_min,
        null_count: to_header_count(s.null_count),
        distinct_count: to_header_count(s.distinct_count),
        max_value,
        min_value,
        is_max_value_exact: Some(s.is_max_value_exact),
        is_min_value_exact: Some(s.is_min_value_exact),
    }
}

/// Statistics as a header holds them.
pub fn to_thrift(s: &Statistics) -> (h: HeaderStatistics)
    ensures
        h@ == header_statistics(s@),
{
    match s {
        Statistics::Boolean(s) => value_statistics_to_thrift(s),
        Statistics::Int32(s) => value_statistics_to_thrift(s),
        Statistics::Int64(s) => value_statistics_to_thrift(s),
        Statistics::Int96(s) => value_statistics_to_thrift(s),
        Statistics::Float(s) => value_statistics_to_thrift(s),
        Statistics::Double(s) => value_statistics_to_thrift(s),
        Statistics::ByteArray(s) => value_statistics_to_thrift(s),
        Statistics::FixedLenByteArray(s) => value_statistics_to_thrift(s),
    }
}

/// What was written of a page, and where.
#[derive(Clone, Copy, Debug, PartialEq, Eq, Structural)]
pub struct PageWriteSpec {
    pub page_type: PageType,
    /// The size of header and payload before compression.
    pub uncompressed_size: usize,
    /// The size of header and payload as they were written.
    pub compressed_size: usize,
    pub num_values: u32,
    /// The position in the file behind which the page stands.
    pub offset: u64,
    pub bytes_written: u64,
}

/// The header of a data page says what the page is and holds, and how large it is: its type, the size
/// of its payload before compression and as it is written, its values, nulls and rows, its encoding,
/// the lengths of its levels, whether it is compressed, and its statistics.
pub proof fn data_page_headers_describe_pages(
    data: Seq<u8>,
    num_values: u32,
    encoding: Encoding,
    num_nulls: u32,
    num_rows: u32,
    def_len: u32,
    rep_len: u32,
    is_compressed: bool,
    statistics: Option<StatisticsModel>,
    uncompressed_size: usize,
)
    requires
        num_values <= i32::MAX,
        num_nulls <= i32::MAX,
        num_rows <= i32::MAX,
        def_len <= i32::MAX,
        rep_len <= i32::MAX,
        data.len() <= i32::MAX,
        uncompressed_size <= i32::MAX,
    ensures
        ({
            let page = data_page(
                data,
                num_values,
                encoding,
                num_nulls,
                num_rows,
                def_len,
                rep_len,
                is_compressed,
                statistics,
                uncompressed_size,
            );
            let h = page.header();
            &&& page.page_type is DATA_PAGE_V2
            &&& page.data == data
            &&& page.uncompressed_size == uncompressed_size
            &&& page.num_values == num_values
            &&& h.type_ == 3
            &&& h.uncompressed_page_size == uncompressed_size
            &&& h.compressed_page_size == data.len()
            &&& h.decoder_version is None
            &&& h.data_page_header_v2 matches Some(d) && {
                &&& d.num_values == num_values
                &&& d.num_nulls == num_nulls
                &&& d.num_rows == num_rows
                &&& encoding is IGNITION ==> d.encoding == 10
                &&& d.encoding == encoding_code(encoding)
                &&& d.definition_levels_byte_length == def_len
                &&& d.repetition_levels_byte_length == rep_len
                &&& d.is_compressed == Some(is_compressed)
                &&& statistics is None ==> d.statistics is None
                &&& statistics matches Some(s) ==> d.statistics == Some(header_statistics(s))
            }
        }),
{
}

/// The header of a decoder page says its type, its sizes and the version of the decoder.
pub proof fn decoder_page_headers_describe_pages(
    data: Seq<u8>,
    version: Seq<char>,
    uncompressed_size: usize,
)
    requires
        data.len() <= i32::MAX,
        uncompressed_size <= i32::MAX,
    ensures
        ({
            let page = decoder_page(data, version, uncompressed_size);
            let h = page.header();
            &&& page.page_type is DECODER_PAGE
            &&& page.data == data
            &&& page.uncompressed_size == uncompressed_size
            &&& page.num_values == 0
            &&& h.type_ == 4
            &&& h.uncompressed_page_size == uncompressed_size
            &&& h.compressed_page_size == data.len()
            &&& h.decoder_version == Some(version)
            &&& h.data_page_header_v2 is None
        }),
{
}

/// A page that is about to be written is seen as what it holds.
pub proof fn pages_are_seen_as_they_are(page: CompressedPage)
    ensures
        page.compressed_page matches Page::DecoderPage { buf, version } ==> page@ == decoder_page(
            buffer_bytes(buf),
            version@,
            page.uncompressed_size,
        ),
        page.compressed_page matches Page::DataPageV2 {
            buf,
            num_values,
            encoding,
            num_nulls,
            num_rows,
            def_levels_byte_len,
            rep_levels_byte_len,
            is_compressed,
            statistics,
        } ==> page@ == data_page(
            buffer_bytes(buf),
            num_values,
            encoding,
            num_nulls,
            num_rows,
            def_levels_byte_len,
            rep_levels_byte_len,
            is_compressed,
            if statistics is Some {
                Some(statistics->0@)
            } else {
                None
            },
            page.uncompressed_size,
        ),
{
}

} // verus!
