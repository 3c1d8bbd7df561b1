//! Page headers and the records inside them.
use vstd::prelude::*;
use vstd::string::StringSliceAdditionalSpecFns;

use crate::compact::{
    added_fields_are_found, begin_struct, encode_fields, encode_struct, end_struct, last_id,
    lemma_one_more, put_binary, put_bool, put_i32, put_i64, value_of, with_opt, writing,
    CompactField, CompactValue,
};
use crate::data_type::copy_vec;
use crate::errors::ParquetError;
use crate::statistics::StatisticsModel;

verus! {

/// The contents of a byte vector that may be missing.
pub open spec fn bytes_view(v: Option<Vec<u8>>) -> Option<Seq<u8>> {
    match v {
        Some(x) => Some(x@),
        None => None,
    }
}

/// A field of bytes that may be missing.
pub open spec fn binary_opt(v: Option<Seq<u8>>) -> Option<CompactValue> {
    match v {
        Some(x) => Some(CompactValue::Binary(x)),
        None => None,
    }
}

/// A field of 64 bits that may be missing.
pub open spec fn i64_opt(v: Option<i64>) -> Option<CompactValue> {
    match v {
        Some(x) => Some(CompactValue::I64(x)),
        None => None,
    }
}

/// A boolean field that may be missing.
pub open spec fn bool_opt(v: Option<bool>) -> Option<CompactValue> {
    match v {
        Some(x) => Some(CompactValue::Bool(x)),
        None => None,
    }
}

/// The statistics in a page header as a value.
pub struct HeaderStatisticsModel {
    pub max: Option<Seq<u8>>,
    pub min: Option<Seq<u8>>,
    pub null_count: Option<i64>,
    pub distinct_count: Option<i64>,
    pub max_value: Option<Seq<u8>>,
    pub min_value: Option<Seq<u8>>,
    pub is_max_value_exact: Option<bool>,
    pub is_min_value_exact: Option<bool>,
}

impl HeaderStatisticsModel {
    /// The fields of the record.
    pub open spec fn fields(self) -> Seq<CompactField> {
        let fields = with_opt(Seq::empty(), 1, binary_opt(self.max));
        let fields = with_opt(fields, 2, binary_opt(self.min));
        let fields = with_opt(fields, 3, i64_opt(self.null_count));
        let fields = with_opt(fields, 4, i64_opt(self.distinct_count));
        let fields = with_opt(fields, 5, binary_opt(self.max_value));
        let fields = with_opt(fields, 6, binary_opt(self.min_value));
        let fields = with_opt(fields, 7, bool_opt(self.is_max_value_exact));
        with_opt(fields, 8, bool_opt(self.is_min_value_exact))
    }
}

/// A count, where it fits the 63 bits that a header has for it.
pub open spec fn header_count(n: Option<u64>) -> Option<i64> {
    match n {
        Some(x) if x <= i64::MAX => Some(x as i64),
        _ => None,
    }
}

/// How statistics are written to a header: bounds go to the fields that are in use unless they are
/// marked as deprecated, and to the older fields as well where they are marked as compatible.
pub open spec fn header_statistics(s: StatisticsModel) -> HeaderStatisticsModel {
    HeaderStatisticsModel {
        max: if s.backwards_compatible {
            s.max
        } else {
            None
        },
        min: if s.backwards_compatible {
            s.min
        } else {
            None
        },
        null_count: header_count(s.null_count),
        distinct_count: header_count(s.distinct_count),
        max_value: if s.deprecated {
            None
        } else {
            s.max
        },
        min_value: if s.deprecated {
            None
        } else {
            s.min
        },
        is_max_value_exact: Some(s.max_exact),
        is_min_value_exact: Some(s.min_exact),
    }
}

/// The statistics in a page header.
#[derive(Debug)]
pub struct HeaderStatistics {
    pub max: Option<Vec<u8>>,
    pub min: Option<Vec<u8>>,
    pub null_count: Option<i64>,
    pub distinct_count: Option<i64>,
    pub max_value: Option<Vec<u8>>,
    pub min_value: Option<Vec<u8>>,
    pub is_max_value_exact: Option<bool>,
    pub is_min_value_exact: Option<bool>,
}

impl View for HeaderStatistics {
    type V = HeaderStatisticsModel;

    open spec fn view(&self) -> HeaderStatisticsModel {
        HeaderStatisticsModel {
            max: bytes_view(self.max),
            min: bytes_view(self.min),
            null_count: self.null_count,
            distinct_count: self.distinct_count,
            max_value: bytes_view(self.max_value),
            min_value: bytes_view(self.min_value),
            is_max_value_exact: self.is_max_value_exact,
            is_min_value_exact: self.is_min_value_exact,
        }
    }
}

/// Writes a field of bytes, where it is there, and gives the number of the last field.
fn put_binary_opt(
    out: &mut Vec<u8>,
    last: i16,
    id: i16,
    value: &Option<Vec<u8>>,
    Ghost(start): Ghost<Seq<u8>>,
    Ghost(fields): Ghost<Seq<CompactField>>,
) -> (r: Result<i16, ParquetError>)
    requires
        0 <= last < id < 15,
        last == last_id(fields),
        writing(old(out)@, start, fields),
    ensures
        r is Ok,
        last <= r->Ok_0 <= id,
        r->Ok_0 == last_id(with_opt(fields, id as int, binary_opt(bytes_view(*value)))),
        writing(final(out)@, start, with_opt(fields, id as int, binary_opt(bytes_view(*value)))),
{
    match value {
        Some(bytes) => {
            put_binary(out, id - last, bytes.as_slice())?;
            Ok(id)
        },
        None => Ok(last),
    }
}

/// Writes a field of 64 bits, where it is there, and gives the number of the last field.
fn put_i64_opt(
    out: &mut Vec<u8>,
    last: i16,
    id: i16,
    value: Option<i64>,
    Ghost(start): Ghost<Seq<u8>>,
    Ghost(fields): Ghost<Seq<CompactField>>,
) -> (r: Result<i16, ParquetError>)
    requires
        0 <= last < id < 15,
        last == last_id(fields),
        writing(old(out)@, start, fields),
    ensures
        r is Ok,
        last <= r->Ok_0 <= id,
        r->Ok_0 == last_id(with_opt(fields, id as int, i64_opt(value))),
        writing(final(out)@, start, with_opt(fields, id as int, i64_opt(value))),
{
    match value {
        Some(n) => {
            put_i64(out, id - last, n)?;
            Ok(id)
        },
        None => Ok(last),
    }
}

/// Writes a boolean field, where it is there, and gives the number of the last field.
fn put_bool_opt(
    out: &mut Vec<u8>,
    last: i16,
    id: i16,
    value: Option<bool>,
    Ghost(start): Ghost<Seq<u8>>,
    Ghost(fields): Ghost<Seq<CompactField>>,
) -> (r: Result<i16, ParquetError>)
    requires
        0 <= last < id < 15,
        last == last_id(fields),
        writing(old(out)@, start, fields),
    ensures
        r is Ok,
        last <= r->Ok_0 <= id,
        r->Ok_0 == last_id(with_opt(fields, id as int, bool_opt(value))),
        writing(final(out)@, start, with_opt(fields, id as int, bool_opt(value))),
{
    match value {
        Some(b) => {
            put_bool(out, id - last, b)?;
            Ok(id)
        },
        None => Ok(last),
    }
}

impl HeaderStatistics {
    /// Appends the record to `out`.
    pub fn write_to_out_protocol(&self, out: &mut Vec<u8>) -> (r: Result<(), ParquetError>)
        ensures
            r is Ok,
            final(out)@ == old(out)@ + encode_struct(self@.fields()),
    {
        let ghost start = out@;
        let ghost f0 = Seq::<CompactField>::empty();
        let ghost f1 = with_opt(f0, 1, binary_opt(self@.max));
        let ghost f2 = with_opt(f1, 2, binary_opt(self@.min));
        let ghost f3 = with_opt(f2, 3, i64_opt(self@.null_count));
        let ghost f4 = with_opt(f3, 4, i64_opt(self@.distinct_count));
        let ghost f5 = with_opt(f4, 5, binary_opt(self@.max_value));
        let ghost f6 = with_opt(f5, 6, binary_opt(self@.min_value));
        let ghost f7 = with_opt(f6, 7, bool_opt(self@.is_max_value_exact));
        assert(out@ =~= start + encode_fields(f0));
        let last = put_binary_opt(out, 0, 1, &self.max, Ghost(start), Ghost(f0))?;
        let last = put_binary_opt(out, last, 2, &self.min, Ghost(start), Ghost(f1))?;
        let last = put_i64_opt(out, last, 3, self.null_count, Ghost(start), Ghost(f2))?;
        let last = put_i64_opt(out, last, 4, self.distinct_count, Ghost(start), Ghost(f3))?;
        let last = put_binary_opt(out, last, 5, &self.max_value, Ghost(start), Ghost(f4))?;
        let last = put_binary_opt(out, last, 6, &self.min_value, Ghost(start), Ghost(f5))?;
        let last = put_bool_opt(out, last, 7, self.is_max_value_exact, Ghost(start), Ghost(f6))?;
        put_bool_opt(out, last, 8, self.is_min_value_exact, Ghost(start), Ghost(f7))?;
        end_struct(out)?;
        assert(out@ =~= start + encode_struct(self@.fields()));
        Ok(())
    }
}

/// The part of a page header that describes a data page, as a value.
pub struct DataPageHeaderV2Model {
    pub num_values: i32,
    pub num_nulls: i32,
    pub num_rows: i32,
    pub encoding: i32,
    pub definition_levels_byte_length: i32,
    pub repetition_levels_byte_length: i32,
    pub is_compressed: Option<bool>,
    pub statistics: Option<HeaderStatisticsModel>,
}

impl DataPageHeaderV2Model {
    /// The fields that every such record has.
    pub open spec fn counts(self) -> Seq<CompactField> {
        Seq::empty().push(CompactField { id: 1, value: CompactValue::I32(self.num_values) }).push(
            CompactField { id: 2, value: CompactValue::I32(self.num_nulls) },
        ).push(CompactField { id: 3, value: CompactValue::I32(self.num_rows) }).push(
            CompactField { id: 4, value: CompactValue::I32(self.encoding) },
        ).push(
            CompactField { id: 5, value: CompactValue::I32(self.definition_levels_byte_length) },
        ).push(
            CompactField { id: 6, value: CompactValue::I32(self.repetition_levels_byte_length) },
        )
    }

    /// The fields of the record.
    pub open spec fn fields(self) -> Seq<CompactField> {
        let fields = with_opt(self.counts(), 7, bool_opt(self.is_compressed));
        with_opt(
            fields,
            8,
            match self.statistics {
                Some(s) => Some(CompactValue::Struct(s.fields())),
                None => None,
            },
        )
    }
}

/// The part of a page header that describes a data page.
#[derive(Debug)]
pub struct DataPageHeaderV2 {
    pub num_values: i32,
    pub num_nulls: i32,
    pub num_rows: i32,
    pub encoding: i32,
    pub definition_levels_byte_length: i32,
    pub repetition_levels_byte_length: i32,
    pub is_compressed: Option<bool>,
    pub statistics: Option<HeaderStatistics>,
}

impl View for DataPageHeaderV2 {
    type V = DataPageHeaderV2Model;

    open spec fn view(&self) -> DataPageHeaderV2Model {
        DataPageHeaderV2Model {
            num_values: self.num_values,
            num_nulls: self.num_nulls,
            num_rows: self.num_rows,
            encoding: self.encoding,
            definition_levels_byte_length: self.definition_levels_byte_length,
            repetition_levels_byte_length: self.repetition_levels_byte_length,
            is_compressed: self.is_compressed,
            statistics: match self.statistics {
                Some(s) => Some(s@),
                None => None,
            },
        }
    }
}

impl DataPageHeaderV2 {
    /// Appends the record to `out`.
    pub fn write_to_out_protocol(&self, out: &mut Vec<u8>) -> (r: Result<(), ParquetError>)
        ensures
            r is Ok,
            final(out)@ == old(out)@ + encode_struct(self@.fields()),
    {
        let ghost start = out@;
        let ghost f0 = Seq::<CompactField>::empty();
        let ghost f7 = with_opt(self@.counts(), 7, bool_opt(self@.is_compressed));
        assert(out@ =~= start + encode_fields(f0));
        assert(writing(out@, start, f0));
        put_i32(out, 1, self.num_values)?;
        put_i32(out, 1, self.num_nulls)?;
        put_i32(out, 1, self.num_rows)?;
        put_i32(out, 1, self.encoding)?;
        put_i32(out, 1, self.definition_levels_byte_length)?;
        put_i32(out, 1, self.repetition_levels_byte_length)?;
        assert(writing(out@, start, self@.counts()));
        let last = put_bool_opt(
            out,
            6,
            7,
            self.is_compressed,
            Ghost(start),
            Ghost(self@.counts()),
        )?;
        if let Some(statistics) = &self.statistics {
            begin_struct(out, 8 - last)?;
            statistics.write_to_out_protocol(out)?;
            proof {
                lemma_one_more(start, f7, out@, 8, CompactValue::Struct(statistics@.fields()));
            }
        }
        end_struct(out)?;
        assert(out@ =~= start + encode_struct(self@.fields()));
        Ok(())
    }
}

/// The part of a page header that describes a decoder page.
#[derive(Debug)]
pub struct DecoderPageHeader {
    /// The version of the interface that the decoder implements.
    pub version: String,
}

/// The fields of the part of a page header that describes a decoder page.
pub open spec fn decoder_fields(version: Seq<char>) -> Seq<CompactField> {
    Seq::empty().push(
        CompactField { id: 1, value: CompactValue::Binary(vstd::utf8::encode_utf8(version)) },
    )
}

impl DecoderPageHeader {
    /// Appends the record to `out`.
    pub fn write_to_out_protocol(&self, out: &mut Vec<u8>) -> (r: Result<(), ParquetError>)
        ensures
            r is Ok,
            final(out)@ == old(out)@ + encode_struct(decoder_fields(self.version@)),
    {
        let ghost start = out@;
        assert(out@ =~= start + encode_fields(Seq::<CompactField>::empty()));
        assert(writing(out@, start, Seq::<CompactField>::empty()));
        put_binary(out, 1, self.version.as_str().as_bytes())?;
        end_struct(out)?;
        assert(out@ =~= start + encode_struct(decoder_fields(self.version@)));
        Ok(())
    }
}

/// A page header as a value.
pub struct PageHeaderModel {
    pub type_: i32,
    pub uncompressed_page_size: i32,
    pub compressed_page_size: i32,
    pub data_page_header_v2: Option<DataPageHeaderV2Model>,
    /// The version of the decoder, in the header of a decoder page.
    pub decoder_version: Option<Seq<char>>,
}

impl PageHeaderModel {
    /// The fields that every header has.
    pub open spec fn sizes(self) -> Seq<CompactField> {
        Seq::empty().push(CompactField { id: 1, value: CompactValue::I32(self.type_) }).push(
            CompactField { id: 2, value: CompactValue::I32(self.uncompressed_page_size) },
        ).push(CompactField { id: 3, value: CompactValue::I32(self.compressed_page_size) })
    }

    /// The fields of the header.
    pub open spec fn fields(self) -> Seq<CompactField> {
        let fields = with_opt(
            self.sizes(),
            8,
            match self.data_page_header_v2 {
                Some(h) => Some(CompactValue::Struct(h.fields())),
                None => None,
            },
        );
        with_opt(
            fields,
            9,
            match self.decoder_version {
                Some(v) => Some(CompactValue::Struct(decoder_fields(v))),
                None => None,
            },
        )
    }

    /// The bytes of the header.
    pub open spec fn bytes(self) -> Seq<u8> {
        encode_struct(self.fields())
    }
}

/// The header of a page.
#[derive(Debug)]
pub struct PageHeader {
    pub type_: i32,
    pub uncompressed_page_size: i32,
    pub compressed_page_size: i32,
    pub data_page_header_v2: Option<DataPageHeaderV2>,
    pub decoder_page_header: Option<DecoderPageHeader>,
}

impl View for PageHeader {
    type V = PageHeaderModel;

    open spec fn view(&self) -> PageHeaderModel {
        PageHeaderModel {
            type_: self.type_,
            uncompressed_page_size: self.uncompressed_page_size,
            compressed_page_size: self.compressed_page_size,
            data_page_header_v2: match self.data_page_header_v2 {
                Some(h) => Some(h@),
                None => None,
            },
            decoder_version: match self.decoder_page_header {
                Some(h) => Some(h.version@),
                None => None,
            },
        }
    }
}

impl PageHeader {
    /// Appends the header to `out`.
    pub fn write_to_out_protocol(&self, out: &mut Vec<u8>) -> (r: Result<(), ParquetError>)
        ensures
            r is Ok,
            final(out)@ == old(out)@ + self@.bytes(),
    {
        let ghost start = out@;
        let ghost f0 = Seq::<CompactField>::empty();
        let ghost sizes = self@.sizes();
        assert(out@ =~= start + encode_fields(f0));
        assert(writing(out@, start, f0));
        put_i32(out, 1, self.type_)?;
        put_i32(out, 1, self.uncompressed_page_size)?;
        put_i32(out, 1, self.compressed_page_size)?;
        assert(writing(out@, start, sizes));
        let mut last: i16 = 3;
        let ghost mut fields = sizes;
        if let Some(h) = &self.data_page_header_v2 {
            begin_struct(out, 5)?;
            h.write_to_out_protocol(out)?;
            proof {
                lemma_one_more(start, sizes, out@, 8, CompactValue::Struct(h@.fields()));
                fields = sizes.push(CompactField { id: 8, value: CompactValue::Struct(h@.fields()) });
            }
            last = 8;
        }
        if let Some(h) = &self.decoder_page_header {
            begin_struct(out, 9 - last)?;
            h.write_to_out_protocol(out)?;
            proof {
                lemma_one_more(
                    start,
                    fields,
                    out@,
                    9,
                    CompactValue::Struct(decoder_fields(h.version@)),
                );
            }
        }
        end_struct(out)?;
        assert(out@ =~= start + encode_struct(self@.fields()));
        Ok(())
    }
}

/// A copy of bytes that may be missing.
pub fn copy_opt(v: &Option<Vec<u8>>) -> (copy: Option<Vec<u8>>)
    ensures
        bytes_view(copy) == bytes_view(*v),
{
    match v {
        Some(x) => Some(copy_vec(x)),
        None => None,
    }
}

/// A count is written where it fits 63 bits, and is left out otherwise. A bound is written to the
/// field for bounds in use unless it is deprecated, and to the older field if and only if it is
/// compatible; a minimum goes to the fields for minimums, and a maximum to those for maximums. The
/// marks are always written.
pub proof fn statistics_go_to_their_fields(s: StatisticsModel)
    ensures
        ({
            let h = header_statistics(s);
            &&& s.null_count matches Some(n) ==> if n <= i64::MAX {
                h.null_count matches Some(c) && c == n
            } else {
                h.null_count is None
            }
            &&& s.null_count is None ==> h.null_count is None
            &&& s.distinct_count matches Some(n) ==> if n <= i64::MAX {
                h.distinct_count matches Some(c) && c == n
            } else {
                h.distinct_count is None
            }
            &&& s.distinct_count is None ==> h.distinct_count is None
            &&& s.deprecated ==> h.min_value is None && h.max_value is None
            &&& !s.deprecated ==> h.min_value == s.min && h.max_value == s.max
            &&& s.backwards_compatible ==> h.min == s.min && h.max == s.max
            &&& !s.backwards_compatible ==> h.min is None && h.max is None
            &&& h.is_min_value_exact == Some(s.min_exact)
            &&& h.is_max_value_exact == Some(s.max_exact)
        }),
{
}

/// In the statistics of a header, every value stands under its number in the format, and what is
/// missing does not stand there.
pub proof fn header_statistics_are_numbered(s: HeaderStatisticsModel)
    ensures
        ({
            let f = s.fields();
            &&& s.max matches Some(b) ==> value_of(f, 1) == Some(CompactValue::Binary(b))
            &&& s.min matches Some(b) ==> value_of(f, 2) == Some(CompactValue::Binary(b))
            &&& s.null_count matches Some(n) ==> value_of(f, 3) == Some(CompactValue::I64(n))
            &&& s.distinct_count matches Some(n) ==> value_of(f, 4) == Some(CompactValue::I64(n))
            &&& s.max_value matches Some(b) ==> value_of(f, 5) == Some(CompactValue::Binary(b))
            &&& s.min_value matches Some(b) ==> value_of(f, 6) == Some(CompactValue::Binary(b))
            &&& s.is_max_value_exact matches Some(b) ==> value_of(f, 7) == Some(
                CompactValue::Bool(b),
            )
            &&& s.is_min_value_exact matches Some(b) ==> value_of(f, 8) == Some(
                CompactValue::Bool(b),
            )
            &&& s.max is None ==> value_of(f, 1) is None
            &&& s.min is None ==> value_of(f, 2) is None
            &&& s.null_count is None ==> value_of(f, 3) is None
            &&& s.distinct_count is None ==> value_of(f, 4) is None
            &&& s.max_value is None ==> value_of(f, 5) is None
            &&& s.min_value is None ==> value_of(f, 6) is None
            &&& s.is_max_value_exact is None ==> value_of(f, 7) is None
            &&& s.is_min_value_exact is None ==> value_of(f, 8) is None
        }),
{
    let f0 = Seq::<CompactField>::empty();
    let f1 = with_opt(f0, 1, binary_opt(s.max));
    let f2 = with_opt(f1, 2, binary_opt(s.min));
    let f3 = with_opt(f2, 3, i64_opt(s.null_count));
    let f4 = with_opt(f3, 4, i64_opt(s.distinct_count));
    let f5 = with_opt(f4, 5, binary_opt(s.max_value));
    let f6 = with_opt(f5, 6, binary_opt(s.min_value));
    let f7 = with_opt(f6, 7, bool_opt(s.is_max_value_exact));
    assert forall|k: int| 1 <= k <= 8 implies #[trigger] value_of(s.fields(), k) == if k == 1 {
        binary_opt(s.max)
    } else if k == 2 {
        binary_opt(s.min)
    } else if k == 3 {
        i64_opt(s.null_count)
    } else if k == 4 {
        i64_opt(s.distinct_count)
    } else if k == 5 {
        binary_opt(s.max_value)
    } else if k == 6 {
        binary_opt(s.min_value)
    } else if k == 7 {
        bool_opt(s.is_max_value_exact)
    } else {
        bool_opt(s.is_min_value_exact)
    } by {
        added_fields_are_found(f0, 1, binary_opt(s.max), k);
        added_fields_are_found(f1, 2, binary_opt(s.min), k);
        added_fields_are_found(f2, 3, i64_opt(s.null_count), k);
        added_fields_are_found(f3, 4, i64_opt(s.distinct_count), k);
        added_fields_are_found(f4, 5, binary_opt(s.max_value), k);
        added_fields_are_found(f5, 6, binary_opt(s.min_value), k);
        added_fields_are_found(f6, 7, bool_opt(s.is_max_value_exact), k);
        added_fields_are_found(f7, 8, bool_opt(s.is_min_value_exact), k);
    }
}

/// In the part of a header that describes a data page, every value stands under its number in the
/// format.
pub proof fn data_page_headers_are_numbered(h: DataPageHeaderV2Model)
    ensures
        ({
            let f = h.fields();
            &&& value_of(f, 1) == Some(CompactValue::I32(h.num_values))
            &&& value_of(f, 2) == Some(CompactValue::I32(h.num_nulls))
            &&& value_of(f, 3) == Some(CompactValue::I32(h.num_rows))
            &&& value_of(f, 4) == Some(CompactValue::I32(h.encoding))
            &&& value_of(f, 5) == Some(CompactValue::I32(h.definition_levels_byte_length))
            &&& value_of(f, 6) == Some(CompactValue::I32(h.repetition_levels_byte_length))
            &&& h.is_compressed matches Some(b) ==> value_of(f, 7) == Some(CompactValue::Bool(b))
            &&& h.is_compressed is None ==> value_of(f, 7) is None
            &&& h.statistics matches Some(s) ==> value_of(f, 8) == Some(
                CompactValue::Struct(s.fields()),
            )
            &&& h.statistics is None ==> value_of(f, 8) is None
        }),
{
    let f0 = Seq::<CompactField>::empty();
    let f1 = f0.push(CompactField { id: 1, value: CompactValue::I32(h.num_values) });
    let f2 = f1.push(CompactField { id: 2, value: CompactValue::I32(h.num_nulls) });
    let f3 = f2.push(CompactField { id: 3, value: CompactValue::I32(h.num_rows) });
    let f4 = f3.push(CompactField { id: 4, value: CompactValue::I32(h.encoding) });
    let f5 = f4.push(
        CompactField { id: 5, value: CompactValue::I32(h.definition_levels_byte_length) },
    );
    let f6 = f5.push(
        CompactField { id: 6, value: CompactValue::I32(h.repetition_levels_byte_length) },
    );
    let f7 = with_opt(f6, 7, bool_opt(h.is_compressed));
    let statistics = match h.statistics {
        Some(s) => Some(CompactValue::Struct(s.fields())),
        None => None,
    };
    assert forall|k: int| 1 <= k <= 8 implies #[trigger] value_of(h.fields(), k) == if k == 1 {
        Some(CompactValue::I32(h.num_values))
    } else if k == 2 {
        Some(CompactValue::I32(h.num_nulls))
    } else if k == 3 {
        Some(CompactValue::I32(h.num_rows))
    } else if k == 4 {
        Some(CompactValue::I32(h.encoding))
    } else if k == 5 {
        Some(CompactValue::I32(h.definition_levels_byte_length))
    } else if k == 6 {
        Some(CompactValue::I32(h.repetition_levels_byte_length))
    } else if k == 7 {
        bool_opt(h.is_compressed)
    } else {
        statistics
    } by {
        added_fields_are_found(f0, 1, Some(CompactValue::I32(h.num_values)), k);
        added_fields_are_found(f1, 2, Some(CompactValue::I32(h.num_nulls)), k);
        added_fields_are_found(f2, 3, Some(CompactValue::I32(h.num_rows)), k);
        added_fields_are_found(f3, 4, Some(CompactValue::I32(h.encoding)), k);
        added_fields_are_found(
            f4,
            5,
            Some(CompactValue::I32(h.definition_levels_byte_length)),
            k,
        );
        added_fields_are_found(
            f5,
            6,
            Some(CompactValue::I32(h.repetition_levels_byte_length)),
            k,
        );
        added_fields_are_found(f6, 7, bool_opt(h.is_compressed), k);
        added_fields_are_found(f7, 8, statistics, k);
    }
}

/// In a page header, every value stands under its number in the format: the type and the two sizes,
/// then what describes a data page or a decoder, of which the version is the first value.
pub proof fn page_headers_are_numbered(h: PageHeaderModel)
    ensures
        ({
            let f = h.fields();
            &&& h.bytes() == encode_struct(f)
            &&& value_of(f, 1) == Some(CompactValue::I32(h.type_))
            &&& value_of(f, 2) == Some(CompactValue::I32(h.uncompressed_page_size))
            &&& value_of(f, 3) == Some(CompactValue::I32(h.compressed_page_size))
            &&& h.data_page_header_v2 matches Some(d) ==> value_of(f, 8) == Some(
                CompactValue::Struct(d.fields()),
            )
            &&& h.data_page_header_v2 is None ==> value_of(f, 8) is None
            &&& h.decoder_version matches Some(v) ==> value_of(f, 9) == Some(
                CompactValue::Struct(
                    seq![
                        CompactField {
                            id: 1,
                            value: CompactValue::Binary(vstd::utf8::encode_utf8(v)),
                        },
                    ],
                ),
            )
            &&& h.decoder_version is None ==> value_of(f, 9) is None
        }),
{
    let f0 = Seq::<CompactField>::empty();
    let f1 = f0.push(CompactField { id: 1, value: CompactValue::I32(h.type_) });
    let f2 = f1.push(CompactField { id: 2, value: CompactValue::I32(h.uncompressed_page_size) });
    let f3 = f2.push(CompactField { id: 3, value: CompactValue::I32(h.compressed_page_size) });
    let data = match h.data_page_header_v2 {
        Some(d) => Some(CompactValue::Struct(d.fields())),
        None => None,
    };
    let decoder = match h.decoder_version {
        Some(v) => Some(CompactValue::Struct(decoder_fields(v))),
        None => None,
    };
    let f8 = with_opt(f3, 8, data);
    if let Some(v) = h.decoder_version {
        assert(decoder_fields(v) =~= seq![
            CompactField { id: 1, value: CompactValue::Binary(vstd::utf8::encode_utf8(v)) },
        ]);
    }
    assert forall|k: int| 1 <= k <= 9 implies #[trigger] value_of(h.fields(), k) == if k == 1 {
        Some(CompactValue::I32(h.type_))
    } else if k == 2 {
        Some(CompactValue::I32(h.uncompressed_page_size))
    } else if k == 3 {
        Some(CompactValue::I32(h.compressed_page_size))
    } else if k == 8 {
        data
    } else if k == 9 {
        decoder
    } else {
        None
    } by {
        added_fields_are_found(f0, 1, Some(CompactValue::I32(h.type_)), k);
        added_fields_are_found(f1, 2, Some(CompactValue::I32(h.uncompressed_page_size)), k);
        added_fields_are_found(f2, 3, Some(CompactValue::I32(h.compressed_page_size)), k);
        added_fields_are_found(f3, 8, data, k);
        added_fields_are_found(f8, 9, decoder, k);
    }
}

/// Headers are seen as what their fields hold.
pub proof fn headers_are_seen_as_they_are(
    h: PageHeader,
    d: DataPageHeaderV2,
    s: HeaderStatistics,
)
    ensures
        h@.type_ == h.type_,
        h@.uncompressed_page_size == h.uncompressed_page_size,
        h@.compressed_page_size == h.compressed_page_size,
        h.data_page_header_v2 matches Some(x) ==> h@.data_page_header_v2 == Some(x@),
        h.data_page_header_v2 is None ==> h@.data_page_header_v2 is None,
        h.decoder_page_header matches Some(x) ==> h@.decoder_version == Some(x.version@),
        h.decoder_page_header is None ==> h@.decoder_version is None,
        d@.num_values == d.num_values,
        d@.num_nulls == d.num_nulls,
        d@.num_rows == d.num_rows,
        d@.encoding == d.encoding,
        d@.definition_levels_byte_length == d.definition_levels_byte_length,
        d@.repetition_levels_byte_length == d.repetition_levels_byte_length,
        d@.is_compressed == d.is_compressed,
        d.statistics matches Some(x) ==> d@.statistics == Some(x@),
        d.statistics is None ==> d@.statistics is None,
        s.max matches Some(b) ==> s@.max == Some(b@),
        s.min matches Some(b) ==> s@.min == Some(b@),
        s.max_value matches Some(b) ==> s@.max_value == Some(b@),
        s.min_value matches Some(b) ==> s@.min_value == Some(b@),
        s.max is None ==> s@.max is None,
        s.min is None ==> s@.min is None,
        s.max_value is None ==> s@.max_value is None,
        s.min_value is None ==> s@.min_value is None,
        s@.null_count == s.null_count,
        s@.distinct_count == s.distinct_count,
        s@.is_max_value_exact == s.is_max_value_exact,
        s@.is_min_value_exact == s.is_min_value_exact,
{
}

} // verus!
