//! Reading one column into Arrow arrays.
//!
//! The reader decides; its caller reads pages and runs decoders. A batch is begun with
//! `begin_batch`. From then on `consume_batch` says whether the batch is finished or another page is
//! needed, `take_page` says what is to be done with that page, and
//! `decode_into_array_with_selection` takes in what the page was decoded to.
use arrow_data::ArrayData;
use arrow_schema::{DataType, Field, Schema};
use bytes::Bytes;
use std::collections::hash_map::DefaultHasher;
use std::hash::Hasher;
use vstd::prelude::*;
use vstd::std_specs::hash::DefaultHasherAdditionalSpecFns;

use crate::arrays::{
    array_len, array_rows, array_type, array_valid, data_type, fitting_rows_are_joined, is_checkable,
    is_checkable_array, is_joinable_pair, is_stuck, join, new_empty_array, rows_fit,
    same_rows_are_joined, slice, type_mismatch, Row,
};
use crate::buffer::{as_slice, buffer_bytes};
use crate::deep_clone::deep_clone_array;
use crate::errors::ParquetError;
use crate::layout::levels_view;
use crate::page_source::{next_demand, readable, IgnitionPage, PageCursor, PageDemand, PageEvent};
use crate::schema::ColumnDescriptor;
use crate::selection::{
    drained, draining_adds_rows, draining_keeps_batch, lemma_total_last, records_are_counted, skips_add_nothing, total,
    with_decoded, with_page, with_records, Progress, RowSelector,
};
use crate::types::{is_flat, is_joinable, is_joinable_type, same_type};

verus! {

/// The fields of Arrow data.
#[verifier::external_type_specification]
#[verifier::external_body]
pub struct ExSchema(Schema);

/// The fields of a schema: their names, their types, and whether they may be null.
pub uninterp spec fn schema_fields(s: Schema) -> Seq<(Seq<char>, DataType, bool)>;

/// `Schema::new` with one `Field::new`: a schema with one field.
#[verifier::external_body]
fn one_field_schema(name: &str, data_type: &DataType, nullable: bool) -> (s: Schema)
    ensures
        schema_fields(s) == seq![(name@, *data_type, nullable)],
{
    Schema::new(vec![Field::new(name, data_type.clone(), nullable)])
}

/// The part of a page that is being decoded: the first `start` of its `num_rows` rows are skipped.
#[derive(Clone, Copy, Debug, PartialEq, Eq, Structural)]
pub struct Decoding {
    pub start: usize,
    pub num_rows: usize,
}

/// A batch that is being read, as a value.
pub struct BatchModel {
    /// The rows that it has, which are of the column's type.
    pub out: Seq<Row>,
    /// What is still to be read and skipped.
    pub pending: Seq<RowSelector>,
    /// The page that is being decoded for it.
    pub decoding: Option<Decoding>,
}

/// A reader as a value.
pub struct ReaderModel {
    pub fd_len: usize,
    /// The hash of the decoder that is installed.
    pub job_hash: Option<u64>,
    pub data_type: DataType,
    pub column_desc: ColumnDescriptor,
    /// Whether there is a page reader.
    pub page_reader_open: bool,
    pub def_levels: Option<Seq<i16>>,
    pub rep_levels: Option<Seq<i16>>,
    /// The rows of the last page that are not used up, which are of the column's type.
    pub leftovers: Option<Seq<Row>>,
    /// What the next batch reads and skips.
    pub row_selection: Seq<RowSelector>,
    /// How many rows of the next pages are to be skipped.
    pub skip_front: usize,
    pub rows_read_or_skipped: usize,
    pub num_rows: usize,
    pub batch: Option<BatchModel>,
}

impl ReaderModel {
    /// How far the batch is.
    pub open spec fn progress(self) -> Progress<Row> {
        Progress {
            out: self.batch->0.out,
            pending: self.batch->0.pending,
            leftovers: self.leftovers,
            skip_front: self.skip_front as nat,
        }
    }

    /// The reader whose batch is as far as `p`, with no page being decoded.
    pub open spec fn with_progress(self, p: Progress<Row>) -> Self {
        ReaderModel {
            leftovers: p.leftovers,
            skip_front: p.skip_front as usize,
            batch: Some(BatchModel { out: p.out, pending: p.pending, decoding: None }),
            ..self
        }
    }

    /// Whether a batch is being read and no page is being decoded for it.
    pub open spec fn reading(self) -> bool {
        self.batch is Some && self.batch->0.decoding is None
    }

    /// The reader with `rows`, which the page that is being decoded was decoded to.
    pub open spec fn with_rows(self, rows: Seq<Row>) -> Self {
        let p = Progress { skip_front: 0, ..self.progress() };
        self.with_progress(with_decoded(p, rows, self.batch->0.decoding->0.start as nat))
    }

    /// The reader once decoding has failed: the batch is given up, and what was to be skipped of the
    /// page is done with.
    pub open spec fn without_rows(self) -> Self {
        ReaderModel { skip_front: 0, batch: None, ..self }
    }

    /// Whether a page is needed for the batch.
    pub open spec fn needs_page(self) -> bool {
        self.reading() && self.progress().needs_page()
    }

    /// How many of `n` records are there.
    pub open spec fn at_most(self, n: usize) -> usize {
        if n + self.rows_read_or_skipped > self.num_rows {
            (self.num_rows - self.rows_read_or_skipped) as usize
        } else {
            n
        }
    }

    /// How many rows are to be read or skipped yet, and are in the batch.
    pub open spec fn asked(self) -> nat {
        self.skip_front as nat + total(self.row_selection) + match self.batch {
            Some(b) => b.out.len() + total(b.pending),
            None => 0,
        }
    }

    /// How many rows a request for `n` more records adds to those. Where the last request was of
    /// the same kind, they count for both.
    pub open spec fn added(self, n: usize, skip: bool) -> nat {
        if self.row_selection.len() > 0 && self.row_selection.last().skip == skip {
            2 * self.at_most(n) as nat
        } else {
            self.at_most(n) as nat
        }
    }

    /// The reader after `n` more records were asked for, to be read or skipped.
    pub open spec fn with_request(self, n: usize, skip: bool) -> Self {
        ReaderModel {
            rows_read_or_skipped: (self.rows_read_or_skipped + self.at_most(n)) as usize,
            row_selection: with_records(self.row_selection, self.at_most(n), skip),
            ..self
        }
    }
}

/// The hash of a decoder.
pub open spec fn decoder_hash(decoder: Seq<u8>) -> u64 {
    DefaultHasher::spec_finish(seq![decoder])
}

/// What the batch needs next.
pub enum BatchDemand {
    /// Another page.
    Page,
    /// Nothing: it is finished.
    Finished(ArrayData),
}

/// What is to be done with a page.
#[derive(Debug)]
pub enum PageAction {
    /// Nothing.
    Pass,
    /// Install the decoder, whose hash this is.
    InstallDecoder { buffer: Bytes, version: String, hash: u64 },
    /// Decode the page at this place of the mapped file, all of its rows.
    Decode { offset: usize, length: usize, num_rows: u32 },
    /// Decode the page in this memory file, all of its rows.
    DecodeMemFd { buffer: Bytes, num_rows: u32 },
}

/// The reader `m` with a page of `num_rows` rows that is to be decoded.
pub open spec fn decoding(m: ReaderModel, num_rows: u32) -> ReaderModel {
    ReaderModel {
        batch: Some(
            BatchModel {
                decoding: Some(Decoding { start: m.skip_front, num_rows: num_rows as usize }),
                ..m.batch->0
            },
        ),
        ..m
    }
}

/// What comes of a data page with `num_rows` rows. It is passed over where all of it is to be
/// skipped; otherwise it takes a decoder, and without one the batch is given up.
pub open spec fn data_page_outcome(
    m: ReaderModel,
    num_rows: u32,
    action: PageAction,
    error: ParquetError,
) -> (Result<PageAction, ParquetError>, ReaderModel) {
    if m.skip_front >= num_rows {
        (
            Ok(PageAction::Pass),
            ReaderModel { skip_front: (m.skip_front - num_rows) as usize, ..m },
        )
    } else if m.job_hash is None {
        (Err(error), ReaderModel { batch: None, ..m })
    } else {
        (Ok(action), decoding(m, num_rows))
    }
}

/// What comes of a page: what is to be done with it, and the reader then. A decoder is installed
/// unless its hash is that of the one that is.
pub open spec fn page_outcome(m: ReaderModel, page: IgnitionPage) -> (
    Result<PageAction, ParquetError>,
    ReaderModel,
) {
    match page {
        IgnitionPage::Decoder { buffer, version } => {
            let hash = decoder_hash(buffer_bytes(buffer));
            if m.job_hash == Some(hash) {
                (Ok(PageAction::Pass), m)
            } else {
                (Ok(PageAction::InstallDecoder { buffer, version, hash }), m)
            }
        },
        IgnitionPage::Data { offset, length, num_rows } => data_page_outcome(
            m,
            num_rows,
            PageAction::Decode { offset, length, num_rows },
            ParquetError::DecoderNotInitialized,
        ),
        IgnitionPage::MemFdData { buffer, num_rows } => data_page_outcome(
            m,
            num_rows,
            PageAction::DecodeMemFd { buffer, num_rows },
            ParquetError::BundleNotInitialized,
        ),
    }
}

/// What comes of the rows that a page was decoded to. They have to be of the column's type, and the
/// array valid; rows that go to the batch have to be such that they can be put behind those that it
/// has.
pub open spec fn decode_outcome(
    m: ReaderModel,
    decoded: ArrayData,
    r: Result<(), ParquetError>,
    after: ReaderModel,
) -> bool {
    let same_type = array_type(decoded) == m.data_type;
    // Whether Arrow can look at the array, to say that its type is another.
    let comparable = is_joinable(array_type(decoded)) && is_checkable(decoded) && array_valid(
        decoded,
    );
    let taken = m.with_rows(array_rows(decoded));
    &&& match r {
        Ok(_) => same_type && after == taken && rows_fit(m.data_type, taken.batch->0.out),
        Err(ParquetError::WrongArrayType) => !same_type && !comparable && after == m.without_rows(),
        Err(ParquetError::UncheckableArray) => same_type && !is_checkable(decoded) && after
            == m.without_rows(),
        Err(ParquetError::UnjoinableArrays) => same_type && !is_flat(m.data_type) && after
            == m.without_rows(),
        Err(ParquetError::ArrowError(_)) => (same_type || comparable) && after == m.without_rows(),
        Err(_) => false,
    }
    &&& same_type && is_checkable(decoded) && array_valid(decoded) && !is_stuck(
        m.data_type,
        m.batch->0.out,
        taken.batch->0.out,
    ) ==> r is Ok
}

/// A batch that is being read.
struct Batch {
    array: ArrayData,
    selection: Vec<RowSelector>,
    /// The first of the selectors that are not done with.
    at: usize,
    decoding: Option<Decoding>,
}

impl Batch {
    spec fn model(self) -> BatchModel {
        BatchModel {
            out: array_rows(self.array),
            pending: self.selection@.skip(self.at as int),
            decoding: self.decoding,
        }
    }
}

/// Reads one column into Arrow arrays.
pub struct PrimitiveArrayIgnitionReader {
    fd_len: usize,
    job_hash: Option<u64>,
    data_type: DataType,
    pages: PageCursor,
    column_desc: ColumnDescriptor,
    def_levels_buffer: Option<Vec<i16>>,
    rep_levels_buffer: Option<Vec<i16>>,
    leftovers: Option<ArrayData>,
    row_selection: Vec<RowSelector>,
    skip_front_of_next_decoded_page: usize,
    total_rows_read_or_skipped: usize,
    total_num_rows: usize,
    batch: Option<Batch>,
}

/// The rows of an array that may be missing.
pub open spec fn rows_view(a: Option<ArrayData>) -> Option<Seq<Row>> {
    match a {
        Some(x) => Some(array_rows(x)),
        None => None,
    }
}

/// The contents of levels that may be missing.
pub open spec fn levels_buffer_view(v: Option<Vec<i16>>) -> Option<Seq<i16>> {
    match v {
        Some(x) => Some(x@),
        None => None,
    }
}

impl View for PrimitiveArrayIgnitionReader {
    type V = ReaderModel;

    closed spec fn view(&self) -> ReaderModel {
        ReaderModel {
            fd_len: self.fd_len,
            job_hash: self.job_hash,
            data_type: self.data_type,
            column_desc: self.column_desc,
            page_reader_open: self.pages@,
            def_levels: levels_buffer_view(self.def_levels_buffer),
            rep_levels: levels_buffer_view(self.rep_levels_buffer),
            leftovers: rows_view(self.leftovers),
            row_selection: self.row_selection@,
            skip_front: self.skip_front_of_next_decoded_page,
            rows_read_or_skipped: self.total_rows_read_or_skipped,
            num_rows: self.total_num_rows,
            batch: match self.batch {
                Some(b) => Some(b.model()),
                None => None,
            },
        }
    }
}

/// How many rows the selectors from `at` on go over.
fn count(selection: &Vec<RowSelector>, at: usize) -> (n: usize)
    requires
        at <= selection@.len(),
        total(selection@.skip(at as int)) <= usize::MAX,
    ensures
        n == total(selection@.skip(at as int)),
{
    let mut n: usize = 0;
    let mut i: usize = at;
    while i < selection.len()
        invariant
            at <= i <= selection@.len(),
            n + total(selection@.skip(i as int)) == total(selection@.skip(at as int)),
            total(selection@.skip(at as int)) <= usize::MAX,
        decreases selection@.len() - i,
    {
        assert(selection@.skip(i as int).drop_first() =~= selection@.skip(i + 1));
        n = n + selection[i].row_count;
        i = i + 1;
    }
    n
}

/// A reader that has read nothing yet.
pub open spec fn new_reader(
    num_rows: usize,
    column_desc: ColumnDescriptor,
    data_type: DataType,
    fd_len: usize,
) -> ReaderModel {
    ReaderModel {
        fd_len,
        job_hash: None,
        data_type,
        column_desc,
        page_reader_open: false,
        def_levels: None,
        rep_levels: None,
        leftovers: None,
        row_selection: Seq::empty(),
        skip_front: 0,
        rows_read_or_skipped: 0,
        num_rows,
        batch: None,
    }
}

/// What comes of opening a column: its type has to be known and one that arrays can be put together
/// of, the runtime has to be there, and the file has to be mapped and its length known.
pub open spec fn opened(
    num_rows: usize,
    column_desc: ColumnDescriptor,
    data_type: Result<DataType, ParquetError>,
    runtime: Result<(), String>,
    file_len: Option<Result<usize, ParquetError>>,
) -> Result<ReaderModel, ParquetError> {
    match (data_type, runtime, file_len) {
        (Err(e), _, _) => Err(e),
        (Ok(_), Err(message), _) => Err(ParquetError::External(message)),
        (Ok(_), Ok(_), None) => Err(ParquetError::FileNotMapped),
        (Ok(_), Ok(_), Some(Err(e))) => Err(e),
        (Ok(t), Ok(_), Some(Ok(fd_len))) => if is_joinable(t) {
            Ok(new_reader(num_rows, column_desc, t, fd_len))
        } else {
            Err(ParquetError::UnsupportedType)
        },
    }
}

impl PrimitiveArrayIgnitionReader {
    /// The rows that are asked for are not more than there are, what is to be skipped is among them,
    /// arrays are valid and of the column's type, and a page is decoded only where one is needed.
    pub closed spec fn wf(&self) -> bool {
        let m = self@;
        &&& is_joinable(m.data_type)
        &&& m.rows_read_or_skipped <= m.num_rows
        &&& m.asked() <= 2 * m.rows_read_or_skipped
        &&& m.asked() <= usize::MAX
        &&& m.leftovers matches Some(l) ==> l.len() > 0 && m.skip_front == 0
        &&& self.leftovers matches Some(l) ==> array_valid(l) && array_type(l) == m.data_type
        &&& self.batch matches Some(b) ==> b.at <= b.selection@.len() && array_type(b.array)
            == m.data_type && array_valid(b.array) && rows_fit(m.data_type, array_rows(b.array))
        &&& m.batch matches Some(b) ==> (b.decoding matches Some(d) ==> m.progress().needs_page()
            && d.start == m.skip_front && d.start < d.num_rows)
    }

    /// Opens a column of `num_rows` rows. `arrow_type` is the type of the arrays where it is
    /// specified, `derived_type` the one that the description of the column leads to otherwise.
    pub fn new(
        num_rows: usize,
        column_desc: ColumnDescriptor,
        arrow_type: Option<DataType>,
        derived_type: Result<DataType, ParquetError>,
        runtime: Result<(), String>,
        file_len: Option<Result<usize, ParquetError>>,
    ) -> (r: Result<Self, ParquetError>)
        ensures
            ({
                let data_type = match arrow_type {
                    Some(t) => Ok(t),
                    None => derived_type,
                };
                match opened(num_rows, column_desc, data_type, runtime, file_len) {
                    Ok(m) => r matches Ok(reader) && reader.wf() && reader@ == m,
                    Err(e) => r == Err::<Self, ParquetError>(e),
                }
            }),
    {
        let data_type = match arrow_type {
            Some(t) => t,
            None => match derived_type {
                Ok(t) => t,
                Err(e) => {
                    return Err(e);
                },
            },
        };
        if let Err(message) = runtime {
            return Err(ParquetError::External(message));
        }
        let fd_len: usize = match file_len {
            None => {
                return Err(ParquetError::FileNotMapped);
            },
            Some(Err(e)) => {
                return Err(e);
            },
            Some(Ok(n)) => n,
        };
        if !is_joinable_type(&data_type) {
            return Err(ParquetError::UnsupportedType);
        }
        let reader = PrimitiveArrayIgnitionReader {
            fd_len,
            job_hash: None,
            data_type,
            pages: PageCursor::new(),
            column_desc,
            def_levels_buffer: None,
            rep_levels_buffer: None,
            leftovers: None,
            row_selection: Vec::new(),
            skip_front_of_next_decoded_page: 0,
            total_rows_read_or_skipped: 0,
            total_num_rows: num_rows,
            batch: None,
        };
        assert(reader@.row_selection =~= Seq::<RowSelector>::empty());
        Ok(reader)
    }

    /// The type of the arrays.
    pub fn get_data_type(&self) -> (t: &DataType)
        ensures
            *t == self@.data_type,
    {
        &self.data_type
    }

    /// Whether rows may be null.
    pub fn nullable(&self) -> (b: bool)
        ensures
            b == (self@.column_desc.max_def_level > 0),
    {
        self.column_desc.max_def_level > 0
    }

    /// The length of the mapped file.
    pub fn fd_len(&self) -> (n: usize)
        ensures
            n == self@.fd_len,
    {
        self.fd_len
    }

    /// The definition levels of the last batch, where they are kept.
    pub fn get_def_levels(&self) -> (levels: Option<&[i16]>)
        ensures
            levels_view(levels) == self@.def_levels,
    {
        match &self.def_levels_buffer {
            Some(v) => Some(v.as_slice()),
            None => None,
        }
    }

    /// The repetition levels of the last batch, where they are kept.
    pub fn get_rep_levels(&self) -> (levels: Option<&[i16]>)
        ensures
            levels_view(levels) == self@.rep_levels,
    {
        match &self.rep_levels_buffer {
            Some(v) => Some(v.as_slice()),
            None => None,
        }
    }

    /// The schema that a decoder is run with.
    pub fn job_schema(&self) -> (s: Schema)
        ensures
            schema_fields(s) == seq![
                ("ignition_col"@, self@.data_type, self@.column_desc.max_def_level > 0),
            ],
    {
        one_field_schema("ignition_col", &self.data_type, self.nullable())
    }

    /// The schema of what a decoder hands back.
    pub fn batch_schema(&self) -> (s: Schema)
        ensures
            schema_fields(s) == seq![
                (
                    self@.column_desc.name@,
                    self@.data_type,
                    self@.column_desc.max_def_level > 0,
                ),
            ],
    {
        one_field_schema(self.column_desc.name.as_str(), &self.data_type, self.nullable())
    }

    /// Whether `n` more rows, or as many as there are, can be asked for: the rows that are asked for
    /// have to be counted.
    pub fn has_room_for(&self, n: usize, skip: bool) -> (b: bool)
        requires
            self.wf(),
        ensures
            b == (self@.asked() + self@.added(n, skip) <= usize::MAX),
    {
        assert(self.row_selection@.skip(0) =~= self.row_selection@);
        let mut room: usize = usize::MAX - self.skip_front_of_next_decoded_page;
        room = room - count(&self.row_selection, 0);
        if let Some(batch) = &self.batch {
            room = room - array_len(&batch.array) - count(&batch.selection, batch.at);
        }
        let mut more: usize = n;
        if more > self.total_num_rows - self.total_rows_read_or_skipped {
            more = self.total_num_rows - self.total_rows_read_or_skipped;
        }
        let len: usize = self.row_selection.len();
        if len > 0 && self.row_selection[len - 1].skip == skip {
            more <= room / 2
        } else {
            more <= room
        }
    }

    /// Adds `n` rows to what the next batch reads or skips, or as many as there are.
    fn request(&mut self, n: usize, skip: bool) -> (taken: usize)
        requires
            old(self).wf(),
            old(self)@.asked() + old(self)@.added(n, skip) <= usize::MAX,
        ensures
            final(self).wf(),
            taken == old(self)@.at_most(n),
            final(self)@ == old(self)@.with_request(n, skip),
    {
        let ghost start = self@;
        let mut taken: usize = n;
        if taken > self.total_num_rows - self.total_rows_read_or_skipped {
            taken = self.total_num_rows - self.total_rows_read_or_skipped;
        }
        self.total_rows_read_or_skipped = self.total_rows_read_or_skipped + taken;
        let len: usize = self.row_selection.len();
        if len > 0 {
            let last = self.row_selection[len - 1];
            proof {
                lemma_total_last(self.row_selection@);
            }
            if last.skip == skip {
                self.row_selection.set(
                    len - 1,
                    RowSelector { row_count: last.row_count + taken, skip },
                );
            }
        }
        let more = if skip {
            RowSelector::skip(taken)
        } else {
            RowSelector::select(taken)
        };
        self.row_selection.push(more);
        proof {
            records_are_counted(start.row_selection, taken, skip);
            assert(self.row_selection@ =~= with_records(start.row_selection, taken, skip));
        }
        taken
    }

    /// Has the next batch read `batch_size` more rows, or as many as there are.
    pub fn read_records(&mut self, batch_size: usize) -> (r: Result<usize, ParquetError>)
        requires
            old(self).wf(),
            old(self)@.asked() + old(self)@.added(batch_size, false) <= usize::MAX,
        ensures
            final(self).wf(),
            r matches Ok(n) && n == old(self)@.at_most(batch_size),
            final(self)@ == old(self)@.with_request(batch_size, false),
            final(self)@.rows_read_or_skipped <= final(self)@.num_rows,
    {
        Ok(self.request(batch_size, false))
    }

    /// Has the next batch skip `num_records` more rows, or as many as there are.
    pub fn skip_records(&mut self, num_records: usize) -> (r: Result<usize, ParquetError>)
        requires
            old(self).wf(),
            old(self)@.asked() + old(self)@.added(num_records, true) <= usize::MAX,
        ensures
            final(self).wf(),
            r matches Ok(n) && n == old(self)@.at_most(num_records),
            final(self)@ == old(self)@.with_request(num_records, true),
            final(self)@.rows_read_or_skipped <= final(self)@.num_rows,
    {
        Ok(self.request(num_records, true))
    }

    /// Goes on towards the next page.
    pub fn get_next_page(&mut self, event: PageEvent) -> (demand: PageDemand)
        requires
            old(self).wf(),
            event matches PageEvent::PageRead { page, .. } ==> readable(page),
        ensures
            final(self).wf(),
            ({
                let (d, page_reader_open) = next_demand(old(self)@.page_reader_open, event);
                demand == d && final(self)@ == (ReaderModel { page_reader_open, ..old(self)@ })
            }),
    {
        self.pages.get_next_page(event)
    }

    /// Begins a batch of the rows that were asked for.
    pub fn begin_batch(&mut self)
        requires
            old(self).wf(),
            old(self)@.batch is None,
        ensures
            final(self).wf(),
            final(self)@ == (ReaderModel {
                row_selection: Seq::empty(),
                batch: Some(
                    BatchModel {
                        out: Seq::empty(),
                        pending: old(self)@.row_selection,
                        decoding: None,
                    },
                ),
                ..old(self)@
            }),
    {
        let array = new_empty_array(&self.data_type);
        let mut selection: Vec<RowSelector> = Vec::new();
        std::mem::swap(&mut selection, &mut self.row_selection);
        assert(self.row_selection@ =~= Seq::<RowSelector>::empty());
        assert(selection@.skip(0) =~= selection@);
        assert(array_rows(array) =~= Seq::<Row>::empty());
        self.batch = Some(Batch { array, selection, at: 0, decoding: None });
    }

    /// Gives the batch up.
    pub fn abandon_batch(&mut self)
        requires
            old(self).wf(),
        ensures
            final(self).wf(),
            final(self)@ == (ReaderModel { batch: None, ..old(self)@ }),
    {
        self.batch = None;
    }

    /// Goes on with the batch as far as it gets without another page. Where leftovers cannot be put
    /// behind the rows of the batch, both are given up.
    pub fn consume_batch(&mut self) -> (r: Result<BatchDemand, ParquetError>)
        requires
            old(self).wf(),
            old(self)@.reading(),
        ensures
            final(self).wf(),
            match r {
                Ok(BatchDemand::Page) => final(self)@ == old(self)@.with_progress(
                    drained(old(self)@.progress()),
                ) && final(self)@.needs_page(),
                Ok(BatchDemand::Finished(array)) => {
                    let p = drained(old(self)@.progress());
                    &&& p.pending.len() == 0
                    &&& array_rows(array) == p.out
                    &&& array_type(array) == old(self)@.data_type
                    &&& array_valid(array)
                    &&& final(self)@ == (ReaderModel {
                        batch: None,
                        ..old(self)@.with_progress(p)
                    })
                },
                Err(e) => {
                    &&& e is ArrowError || (e is UnjoinableArrays && !is_flat(old(self)@.data_type))
                    &&& old(self)@.leftovers is Some
                    &&& is_stuck(
                        old(self)@.data_type,
                        old(self)@.batch->0.out,
                        drained(old(self)@.progress()).out,
                    )
                    &&& final(self)@ == (ReaderModel { leftovers: None, batch: None, ..old(self)@ })
                },
            },
            r is Ok ==> rows_fit(old(self)@.data_type, drained(old(self)@.progress()).out),
    {
        let ghost start = self@.progress();
        let batch = match self.batch.take() {
            Some(batch) => batch,
            None => {
                // There is a batch.
                return Ok(BatchDemand::Page);
            },
        };
        let mut array = batch.array;
        let mut selection = batch.selection;
        let mut at: usize = batch.at;
        let ghost all = selection@.len();
        proof {
            draining_keeps_batch(start, Seq::empty());
        }
        while at < selection.len() && !(self.leftovers.is_none() && !selection[at].skip
            && selection[at].row_count > 0)
            invariant
                at <= selection@.len(),
                selection@.len() == all,
                old(self).wf(),
                start.wf(),
                start == old(self)@.progress(),
                old(self)@.reading(),
                array_type(array) == old(self)@.data_type,
                array_valid(array),
                rows_fit(old(self)@.data_type, array_rows(array)),
                start.out.is_prefix_of(array_rows(array)),
                is_joinable(old(self)@.data_type),
                self.leftovers matches Some(l) ==> array_valid(l) && array_type(l)
                    == old(self)@.data_type,
                self.batch is None,
                self@ == (ReaderModel {
                    leftovers: self@.leftovers,
                    skip_front: self@.skip_front,
                    batch: None,
                    ..old(self)@
                }),
                old(self)@.leftovers is None ==> self@.leftovers is None,
                self@.leftovers is Some ==> old(self)@.skip_front == self@.skip_front,
                self@.skip_front + array_rows(array).len() + total(selection@.skip(at as int))
                    + total(old(self)@.row_selection) <= old(self)@.asked(),
                batch_progress(*self, array, selection@, at).wf(),
                drained(batch_progress(*self, array, selection@, at)) == drained(start),
            decreases all - at, (if self.leftovers is Some {
                    1nat
                } else {
                    0nat
                }),
        {
            let ghost p = batch_progress(*self, array, selection@, at);
            let s = selection[at];
            assert(p.pending[0] == s);
            assert(p.pending.drop_first() =~= selection@.skip(at + 1));
            if s.row_count == 0 {
                at = at + 1;
            } else {
                match self.leftovers.take() {
                    Some(l) => {
                        let len: usize = array_len(&l);
                        if len > s.row_count {
                            if !s.skip {
                                let piece = slice(&l, 0, s.row_count);
                                assert(array_rows(piece) =~= array_rows(l).take(
                                    s.row_count as int,
                                ));
                                match join(&array, &piece) {
                                    Ok(joined) => {
                                        array = joined;
                                    },
                                    Err(e) => {
                                        proof {
                                            lemma_stuck_on_leftovers(start, p, array, piece);
                                        }
                                        return Err(e);
                                    },
                                }
                            }
                            let rest = slice(&l, s.row_count, len - s.row_count);
                            assert(array_rows(l).subrange(0, s.row_count as int) =~= array_rows(
                                l,
                            ).take(s.row_count as int));
                            assert(array_rows(rest) =~= array_rows(l).skip(s.row_count as int));
                            self.leftovers = Some(rest);
                            at = at + 1;
                        } else {
                            if !s.skip {
                                match join(&array, &l) {
                                    Ok(joined) => {
                                        array = joined;
                                    },
                                    Err(e) => {
                                        proof {
                                            lemma_stuck_on_leftovers(start, p, array, l);
                                        }
                                        return Err(e);
                                    },
                                }
                            }
                            let less = RowSelector { row_count: s.row_count - len, skip: s.skip };
                            let ghost rest = p.pending.drop_first();
                            selection.set(at, less);
                            assert(selection@.skip(at as int) =~= seq![less] + rest);
                            assert(selection@.skip(at as int).drop_first() =~= rest);
                        }
                    },
                    None => {
                        self.skip_front_of_next_decoded_page =
                        self.skip_front_of_next_decoded_page + s.row_count;
                        at = at + 1;
                    },
                }
            }
        }
        let ghost p = batch_progress(*self, array, selection@, at);
        if at < selection.len() {
            assert(p.pending[0] == selection@[at as int]);
            self.batch = Some(Batch { array, selection, at, decoding: None });
            Ok(BatchDemand::Page)
        } else {
            assert(p.pending =~= Seq::<RowSelector>::empty());
            Ok(BatchDemand::Finished(array))
        }
    }

    /// The hash of a decoder, where it is not the one that is installed.
    pub fn handle_new_decoder_page(&self, decoder: &[u8]) -> (hash: Option<u64>)
        ensures
            hash == if self@.job_hash == Some(decoder_hash(decoder@)) {
                None
            } else {
                Some(decoder_hash(decoder@))
            },
            self@.job_hash == Some(DefaultHasher::spec_finish(seq![decoder@])) ==> hash is None,
            self@.job_hash != Some(DefaultHasher::spec_finish(seq![decoder@])) ==> hash == Some(
                DefaultHasher::spec_finish(seq![decoder@]),
            ),
    {
        let mut hasher = DefaultHasher::new();
        hasher.write(decoder);
        assert(hasher@ =~= seq![decoder@]);
        let hash: u64 = hasher.finish();
        match self.job_hash {
            Some(installed) if installed == hash => None,
            _ => Some(hash),
        }
    }

    /// Takes note that the decoder with this hash is installed.
    pub fn decoder_installed(&mut self, hash: u64)
        requires
            old(self).wf(),
        ensures
            final(self).wf(),
            final(self)@ == (ReaderModel { job_hash: Some(hash), ..old(self)@ }),
    {
        self.job_hash = Some(hash);
    }

    /// Takes in a data page with `num_rows` rows.
    fn take_data_page(&mut self, num_rows: u32, action: PageAction, error: ParquetError) -> (r:
        Result<PageAction, ParquetError>)
        requires
            old(self).wf(),
            old(self)@.needs_page(),
        ensures
            final(self).wf(),
            (r, final(self)@) == data_page_outcome(old(self)@, num_rows, action, error),
    {
        let skip: usize = self.skip_front_of_next_decoded_page;
        if skip >= num_rows as usize {
            self.skip_front_of_next_decoded_page = skip - num_rows as usize;
            return Ok(PageAction::Pass);
        }
        if self.job_hash.is_none() {
            self.batch = None;
            return Err(error);
        }
        if let Some(batch) = &mut self.batch {
            batch.decoding = Some(Decoding { start: skip, num_rows: num_rows as usize });
        }
        Ok(action)
    }

    /// Takes in the page that the batch needs, and says what is to be done with it.
    pub fn take_page(&mut self, page: IgnitionPage) -> (r: Result<PageAction, ParquetError>)
        requires
            old(self).wf(),
            old(self)@.needs_page(),
        ensures
            final(self).wf(),
            (r, final(self)@) == page_outcome(old(self)@, page),
    {
        match page {
            IgnitionPage::Decoder { buffer, version } => {
                match self.handle_new_decoder_page(as_slice(&buffer)) {
                    Some(hash) => Ok(PageAction::InstallDecoder { buffer, version, hash }),
                    None => Ok(PageAction::Pass),
                }
            },
            IgnitionPage::Data { offset, length, num_rows } => self.take_data_page(
                num_rows,
                PageAction::Decode { offset, length, num_rows },
                ParquetError::DecoderNotInitialized,
            ),
            IgnitionPage::MemFdData { buffer, num_rows } => self.take_data_page(
                num_rows,
                PageAction::DecodeMemFd { buffer, num_rows },
                ParquetError::BundleNotInitialized,
            ),
        }
    }

    /// Takes in the rows of the page that is being decoded: all of them, in memory that the next
    /// page will be decoded into. Where they are of another type than the column's, or cannot be
    /// copied or put behind the rows of the batch, the batch is given up.
    pub fn decode_into_array_with_selection(&mut self, decoded: &ArrayData) -> (r: Result<
        (),
        ParquetError,
    >)
        requires
            old(self).wf(),
            old(self)@.batch is Some,
            old(self)@.batch->0.decoding matches Some(d) && array_rows(*decoded).len()
                == d.num_rows,
        ensures
            final(self).wf(),
            decode_outcome(old(self)@, *decoded, r, final(self)@),
    {
        let batch = match self.batch.take() {
            Some(batch) => batch,
            None => {
                // There is a batch.
                return Ok(());
            },
        };
        let Decoding { start, num_rows } = match batch.decoding {
            Some(d) => d,
            None => {
                // A page is being decoded.
                return Ok(());
            },
        };
        let ghost p = old(self)@.progress();
        self.skip_front_of_next_decoded_page = 0;
        if !same_type(data_type(decoded), &self.data_type) {
            return Err(type_mismatch(&self.data_type, decoded));
        }
        if !is_checkable_array(decoded) {
            return Err(ParquetError::UncheckableArray);
        }
        let copy = match deep_clone_array(decoded) {
            Ok(copy) => copy,
            Err(e) => {
                return Err(ParquetError::ArrowError(e));
            },
        };
        let num_to_read: usize = num_rows - start;
        let fresh = slice(&copy, start, num_to_read);
        assert(array_rows(fresh) =~= array_rows(*decoded).skip(start as int));
        let mut array = batch.array;
        let mut selection = batch.selection;
        let at: usize = batch.at;
        assert(p.pending[0] == selection@[at as int]);
        let s = selection[at];
        if s.row_count >= num_to_read {
            match join(&array, &fresh) {
                Ok(joined) => {
                    array = joined;
                },
                Err(e) => {
                    return Err(e);
                },
            }
            let less = RowSelector { row_count: s.row_count - num_to_read, skip: s.skip };
            selection.set(at, less);
            assert(selection@.skip(at as int) =~= p.pending.update(0, less));
            assert(p.pending.update(0, less).drop_first() =~= p.pending.drop_first());
        } else {
            self.leftovers = Some(fresh);
        }
        self.batch = Some(Batch { array, selection, at, decoding: None });
        Ok(())
    }

    /// Takes note that the page that is being decoded could not be decoded.
    pub fn decode_failed(&mut self)
        requires
            old(self).wf(),
            old(self)@.batch is Some,
            old(self)@.batch->0.decoding is Some,
        ensures
            final(self).wf(),
            final(self)@ == old(self)@.without_rows(),
    {
        self.skip_front_of_next_decoded_page = 0;
        self.batch = None;
    }

    /// Takes in the rows of the page that is being decoded, unless they are not as many as the page
    /// has: then nothing is taken in.
    pub fn take_decoded(&mut self, decoded: &ArrayData) -> (r: Option<Result<(), ParquetError>>)
        requires
            old(self).wf(),
            old(self)@.batch is Some,
            old(self)@.batch->0.decoding is Some,
        ensures
            final(self).wf(),
            r is Some <==> array_rows(*decoded).len() == old(self)@.batch->0.decoding->0.num_rows,
            match r {
                None => final(self)@ == old(self)@,
                Some(taken) => decode_outcome(old(self)@, *decoded, taken, final(self)@),
            },
    {
        let num_rows: usize = match &self.batch {
            Some(batch) => match batch.decoding {
                Some(d) => d.num_rows,
                None => 0,
            },
            None => 0,
        };
        if array_len(decoded) != num_rows {
            return None;
        }
        Some(self.decode_into_array_with_selection(decoded))
    }
}

/// What is wrong with leftovers that cannot be put behind the rows of the batch.
proof fn lemma_stuck_on_leftovers(
    start: Progress<Row>,
    p: Progress<Row>,
    array: ArrayData,
    piece: ArrayData,
)
    requires
        p.pending.len() > 0,
        p.leftovers is Some,
        p.leftovers->0.len() > 0,
        !p.pending[0].skip,
        p.pending[0].row_count > 0,
        drained(p) == drained(start),
        start.out.is_prefix_of(p.out),
        p.out == array_rows(array),
        array_rows(piece) == if p.leftovers->0.len() > p.pending[0].row_count {
            p.leftovers->0.take(p.pending[0].row_count as int)
        } else {
            p.leftovers->0
        },
        array_type(piece) == array_type(array),
        array_valid(array),
        array_valid(piece),
        !is_joinable_pair(array, piece),
    ensures
        is_stuck(array_type(array), start.out, drained(start).out),
{
    let s = p.pending[0];
    let l = p.leftovers->0;
    let rest = p.pending.drop_first();
    let q = if l.len() > s.row_count {
        Progress {
            out: p.out + l.take(s.row_count as int),
            pending: rest,
            leftovers: Some(l.skip(s.row_count as int)),
            ..p
        }
    } else {
        Progress {
            out: p.out + l,
            pending: seq![
                RowSelector { row_count: (s.row_count - l.len()) as usize, skip: s.skip },
            ] + rest,
            leftovers: None,
            ..p
        }
    };
    assert(drained(p) == drained(q));
    draining_adds_rows(q);
    assert(!is_joinable_pair(array, piece));
}

/// A batch that only skips rows is finished without another page, and nothing has to be put
/// together for it.
pub proof fn skipping_never_fails(m: ReaderModel)
    requires
        m.reading(),
        forall|i: int|
            0 <= i < m.batch->0.pending.len() ==> (#[trigger] m.batch->0.pending[i]).skip
                || m.batch->0.pending[i].row_count == 0,
    ensures
        ({
            let p = drained(m.progress());
            &&& p.pending.len() == 0
            &&& p.out == m.batch->0.out
            &&& !is_stuck(m.data_type, m.batch->0.out, p.out)
        }),
{
    skips_add_nothing(m.progress());
    same_rows_are_joined(m.data_type, m.batch->0.out);
}

/// The rows that are counted are at most twice those that were asked for, and no more rows were
/// asked for than the column has.
pub proof fn counters_are_bounded(reader: PrimitiveArrayIgnitionReader)
    requires
        reader.wf(),
    ensures
        reader@.asked() <= 2 * reader@.rows_read_or_skipped,
        reader@.rows_read_or_skipped <= reader@.num_rows,
{
}

/// A request for rows, and the reader that it is made of.
pub struct RowRequest {
    pub before: ReaderModel,
    pub n: usize,
    pub skip: bool,
}

impl RowRequest {
    /// How many rows are granted.
    pub open spec fn granted(self) -> nat {
        self.before.at_most(self.n) as nat
    }

    /// The reader after the request.
    pub open spec fn after(self) -> ReaderModel {
        self.before.with_request(self.n, self.skip)
    }
}

/// Whether these are all the requests to one reader, in their order. What else is done with the
/// reader in between leaves its counts of rows alone.
pub open spec fn are_requests(requests: Seq<RowRequest>) -> bool {
    &&& requests.len() > 0 ==> requests[0].before.rows_read_or_skipped == 0
    &&& forall|i: int| 0 < i < requests.len() ==> #[trigger] carries_on(requests, i)
}

/// Whether the `i`th request finds the counts of rows as the one before it left them.
pub open spec fn carries_on(requests: Seq<RowRequest>, i: int) -> bool {
    let earlier = requests[i - 1].after();
    let later = requests[i].before;
    later.rows_read_or_skipped == earlier.rows_read_or_skipped && later.num_rows == earlier.num_rows
}

/// How many rows are granted in all.
pub open spec fn granted_in_all(requests: Seq<RowRequest>) -> nat
    decreases requests.len(),
{
    if requests.len() == 0 {
        0
    } else {
        granted_in_all(requests.drop_last()) + requests.last().granted()
    }
}

proof fn lemma_granted_so_far(requests: Seq<RowRequest>, num_rows: usize, i: int)
    requires
        are_requests(requests),
        requests.len() > 0,
        requests[0].before.num_rows == num_rows,
        0 <= i < requests.len(),
    ensures
        requests[i].before.num_rows == num_rows,
        requests[i].before.rows_read_or_skipped == granted_in_all(requests.take(i)),
        granted_in_all(requests.take(i)) <= num_rows,
    decreases i,
{
    if i > 0 {
        lemma_granted_so_far(requests, num_rows, i - 1);
        assert(carries_on(requests, i));
        assert(requests.take(i).drop_last() =~= requests.take(i - 1));
    }
}

/// A request is granted as many rows as it asks for, or as are left of the column's rows: all
/// requests to a reader together are never granted more than the column has, and once they are
/// granted that many every further one is granted none.
pub proof fn requests_share_the_rows(requests: Seq<RowRequest>, num_rows: usize, i: int)
    requires
        are_requests(requests),
        requests.len() > 0,
        requests[0].before.num_rows == num_rows,
        0 <= i < requests.len(),
    ensures
        ({
            let done = granted_in_all(requests.take(i));
            &&& done <= num_rows
            &&& requests[i].granted() == if requests[i].n <= num_rows - done {
                requests[i].n as int
            } else {
                num_rows - done
            }
            &&& done == num_rows ==> requests[i].granted() == 0
        }),
        granted_in_all(requests) <= num_rows,
        requests.last().after().rows_read_or_skipped == granted_in_all(requests),
{
    lemma_granted_so_far(requests, num_rows, i);
    lemma_granted_so_far(requests, num_rows, requests.len() - 1);
    assert(requests.take(requests.len() - 1) =~= requests.drop_last());
}

/// Only requests change the counts of rows, and they change nothing but these and what the next
/// batch reads and skips.
pub proof fn only_requests_count(
    m: ReaderModel,
    n: usize,
    skip: bool,
    page: IgnitionPage,
    rows: Seq<Row>,
    p: Progress<Row>,
)
    ensures
        ({
            let after = m.with_request(n, skip);
            after == (ReaderModel {
                rows_read_or_skipped: after.rows_read_or_skipped,
                row_selection: after.row_selection,
                ..m
            })
        }),
        forall|after: ReaderModel|
            after == page_outcome(m, page).1 || after == m.with_rows(rows) || after
                == m.without_rows() || after == m.with_progress(p)
                ==> (#[trigger] after.rows_read_or_skipped) == m.rows_read_or_skipped
                && after.num_rows == m.num_rows,
{
}

/// Taking in a data page, and its rows where it is decoded, takes the batch as far as the page does.
pub proof fn decoded_page_is_page(
    m: ReaderModel,
    page: IgnitionPage,
    num_rows: u32,
    rows: Seq<Row>,
)
    requires
        m.needs_page(),
        page !is Decoder,
        page matches IgnitionPage::Data { num_rows: n, .. } ==> n == num_rows,
        page matches IgnitionPage::MemFdData { num_rows: n, .. } ==> n == num_rows,
        rows.len() == num_rows,
        m.job_hash is Some,
    ensures
        ({
            let (r, taken) = page_outcome(m, page);
            let target = m.with_progress(with_page(m.progress(), rows));
            &&& r is Ok
            &&& r->Ok_0 is Pass <==> m.skip_front >= num_rows
            &&& if r->Ok_0 is Pass {
                taken == target
            } else {
                taken.with_rows(rows) == target
            }
        }),
{
}

/// Once a decoder is installed, a page with the same decoder is passed over.
pub proof fn installed_decoder_is_kept(
    m: ReaderModel,
    buffer: Bytes,
    version: String,
    again: Bytes,
    again_version: String,
)
    requires
        buffer_bytes(again) == buffer_bytes(buffer),
    ensures
        ({
            let hash = decoder_hash(buffer_bytes(buffer));
            let installed = ReaderModel { job_hash: Some(hash), ..m };
            &&& page_outcome(m, IgnitionPage::Decoder { buffer, version }).0 == Ok::<
                PageAction,
                ParquetError,
            >(
                if m.job_hash == Some(hash) {
                    PageAction::Pass
                } else {
                    PageAction::InstallDecoder { buffer, version, hash }
                },
            )
            &&& page_outcome(
                installed,
                IgnitionPage::Decoder { buffer: again, version: again_version },
            ) == (Ok::<PageAction, ParquetError>(PageAction::Pass), installed)
        }),
{
}

/// How far a batch is that was taken out of its reader.
spec fn batch_progress(
    reader: PrimitiveArrayIgnitionReader,
    array: ArrayData,
    selection: Seq<RowSelector>,
    at: usize,
) -> Progress<Row> {
    Progress {
        out: array_rows(array),
        pending: selection.skip(at as int),
        leftovers: rows_view(reader.leftovers),
        skip_front: reader.skip_front_of_next_decoded_page as nat,
    }
}

/// The hash of a decoder is that of all of its bytes. A decoder page is passed over if and only if
/// that is the hash of the decoder that is installed; otherwise the decoder is to be installed, with
/// its bytes, its version and its hash. Decoders with different bytes are fed to the hasher as
/// different inputs.
pub proof fn decoders_are_told_apart_by_all_bytes(
    m: ReaderModel,
    buffer: Bytes,
    version: String,
    other: Seq<u8>,
)
    ensures
        ({
            let hash = DefaultHasher::spec_finish(seq![buffer_bytes(buffer)]);
            let (r, after) = page_outcome(m, IgnitionPage::Decoder { buffer, version });
            &&& after == m
            &&& m.job_hash == Some(hash) ==> r == Ok::<PageAction, ParquetError>(PageAction::Pass)
            &&& m.job_hash != Some(hash) ==> r == Ok::<PageAction, ParquetError>(
                PageAction::InstallDecoder { buffer, version, hash },
            )
        }),
        decoder_hash(other) == DefaultHasher::spec_finish(seq![other]),
        other != buffer_bytes(buffer) ==> seq![other] != seq![buffer_bytes(buffer)],
{
    if other != buffer_bytes(buffer) {
        assert(seq![other][0] != seq![buffer_bytes(buffer)][0]);
    }
}

/// A data page whose rows are all to be skipped is passed over, and as many fewer are to be skipped
/// then. Another one is refused where no decoder is installed, and the batch is given up; otherwise it
/// is to be decoded where it stands, all of its rows, and those that are to be skipped are left out
/// when they are taken in. Nothing else changes.
pub proof fn data_pages_are_skipped_or_decoded(
    m: ReaderModel,
    offset: usize,
    length: usize,
    buffer: Bytes,
    num_rows: u32,
)
    requires
        m.batch is Some,
    ensures
        ({
            let (r, after) = page_outcome(m, IgnitionPage::Data { offset, length, num_rows });
            let (s, then) = page_outcome(m, IgnitionPage::MemFdData { buffer, num_rows });
            let batch = m.batch->0;
            let started = ReaderModel {
                batch: Some(
                    BatchModel {
                        out: batch.out,
                        pending: batch.pending,
                        decoding: Some(
                            Decoding { start: m.skip_front, num_rows: num_rows as usize },
                        ),
                    },
                ),
                ..m
            };
            &&& after == then
            &&& m.skip_front >= num_rows ==> {
                &&& r == Ok::<PageAction, ParquetError>(PageAction::Pass)
                &&& s == r
                &&& after.skip_front == m.skip_front - num_rows
                &&& after == (ReaderModel { skip_front: after.skip_front, ..m })
            }
            &&& m.skip_front < num_rows && m.job_hash is None ==> {
                &&& r == Err::<PageAction, ParquetError>(ParquetError::DecoderNotInitialized)
                &&& s == Err::<PageAction, ParquetError>(ParquetError::BundleNotInitialized)
                &&& after == (ReaderModel { batch: None, ..m })
            }
            &&& m.skip_front < num_rows && m.job_hash is Some ==> {
                &&& r == Ok::<PageAction, ParquetError>(
                    PageAction::Decode { offset, length, num_rows },
                )
                &&& s == Ok::<PageAction, ParquetError>(PageAction::DecodeMemFd { buffer, num_rows })
                &&& after == started
            }
        }),
{
}

/// A column is opened where its type is known, the runtime is there, the file is mapped and its length
/// known, and arrays of the type can be put together. What is missing first in this order is what is
/// reported. A reader that was opened has read nothing, and is for the type, the column, the rows and
/// the file that were given.
pub proof fn columns_open_with_nothing_read(
    num_rows: usize,
    column_desc: ColumnDescriptor,
    data_type: Result<DataType, ParquetError>,
    runtime: Result<(), String>,
    file_len: Option<Result<usize, ParquetError>>,
)
    ensures
        ({
            let r = opened(num_rows, column_desc, data_type, runtime, file_len);
            &&& data_type matches Err(e) ==> r == Err::<ReaderModel, ParquetError>(e)
            &&& data_type is Ok ==> {
                &&& runtime matches Err(message) ==> r == Err::<ReaderModel, ParquetError>(
                    ParquetError::External(message),
                )
                &&& runtime is Ok ==> {
                    &&& file_len is None ==> r == Err::<ReaderModel, ParquetError>(
                        ParquetError::FileNotMapped,
                    )
                    &&& file_len matches Some(Err(e)) ==> r == Err::<ReaderModel, ParquetError>(e)
                    &&& file_len matches Some(Ok(n)) ==> {
                        &&& !is_joinable(data_type->Ok_0) ==> r == Err::<ReaderModel, ParquetError>(
                            ParquetError::UnsupportedType,
                        )
                        &&& is_joinable(data_type->Ok_0) ==> (r matches Ok(m) && {
                            &&& m.data_type == data_type->Ok_0
                            &&& m.column_desc == column_desc
                            &&& m.num_rows == num_rows
                            &&& m.fd_len == n
                            &&& m.rows_read_or_skipped == 0 && m.skip_front == 0
                            &&& m.row_selection.len() == 0
                            &&& m.leftovers is None && m.batch is None && m.job_hash is None
                            &&& !m.page_reader_open
                            &&& m.def_levels is None && m.rep_levels is None
                        })
                    }
                }
            }
        }),
{
}

/// A request adds a selector for the rows that it is granted to what the next batch reads and skips,
/// and what is counted grows by what it adds.
pub proof fn requests_are_for_the_next_batch(m: ReaderModel, n: usize, skip: bool)
    requires
        m.rows_read_or_skipped <= m.num_rows,
        m.asked() + m.added(n, skip) <= usize::MAX,
    ensures
        ({
            let after = m.with_request(n, skip);
            let granted = if n <= m.num_rows - m.rows_read_or_skipped {
                n as int
            } else {
                m.num_rows - m.rows_read_or_skipped
            };
            let k = m.row_selection.len() as int;
            &&& after.rows_read_or_skipped == m.rows_read_or_skipped + granted
            &&& after.row_selection.len() == k + 1
            &&& after.row_selection[k].row_count == granted
            &&& after.row_selection[k].skip == skip
            &&& forall|i: int|
                0 <= i < k - 1 ==> #[trigger] after.row_selection[i] == m.row_selection[i]
            &&& k > 0 && m.row_selection[k - 1].skip != skip ==> after.row_selection[k - 1]
                == m.row_selection[k - 1]
            &&& k > 0 && m.row_selection[k - 1].skip == skip ==> {
                &&& after.row_selection[k - 1].skip == skip
                &&& after.row_selection[k - 1].row_count == m.row_selection[k - 1].row_count
                    + granted
            }
            &&& after.batch == m.batch && after.leftovers == m.leftovers
            &&& after.skip_front == m.skip_front
            &&& after.asked() == m.asked() + m.added(n, skip)
            &&& total(after.row_selection) == total(m.row_selection) + m.added(n, skip)
        }),
{
    if m.row_selection.len() > 0 {
        lemma_total_last(m.row_selection);
    }
    records_are_counted(m.row_selection, m.at_most(n), skip);
}

/// How far a batch is, is seen as what the reader holds; and a batch is given up after a page that
/// could not be taken in, with what was to be skipped of it.
pub proof fn batches_are_seen_as_they_are(m: ReaderModel, rows: Seq<Row>)
    requires
        m.batch is Some,
        m.batch->0.decoding is Some,
        m.batch->0.pending.len() > 0,
        m.batch->0.decoding->0.start <= rows.len(),
    ensures
        m.progress().out == m.batch->0.out,
        m.progress().pending == m.batch->0.pending,
        m.progress().leftovers == m.leftovers,
        m.progress().skip_front == m.skip_front,
        m.without_rows() == (ReaderModel { skip_front: 0, batch: None, ..m }),
        ({
            let fresh = rows.skip(m.batch->0.decoding->0.start as int);
            let wanted = m.batch->0.pending[0].row_count;
            let after = m.with_rows(rows);
            &&& after.skip_front == 0
            &&& after.batch is Some && after.batch->0.decoding is None
            &&& fresh.len() <= wanted ==> {
                &&& after.batch->0.out == m.batch->0.out + fresh
                &&& after.leftovers == m.leftovers
                &&& after.batch->0.pending[0].row_count == wanted - fresh.len()
                &&& after.batch->0.pending[0].skip == m.batch->0.pending[0].skip
                &&& after.batch->0.pending.drop_first() == m.batch->0.pending.drop_first()
            }
            &&& fresh.len() > wanted ==> {
                &&& after.batch->0.out == m.batch->0.out
                &&& after.leftovers == Some(fresh)
                &&& after.batch->0.pending == m.batch->0.pending
            }
        }),
{
    let pending = m.batch->0.pending;
    let fresh = rows.skip(m.batch->0.decoding->0.start as int);
    let after = m.with_rows(rows);
    assert(after.batch->0.pending.drop_first() =~= pending.drop_first());
}

/// Rows of a page that are taken in are of the column's type, and the reader is the one with these
/// rows. Where they are not taken in, the batch is given up. They are taken in where the array is
/// checkable and valid, of the column's type, and the rows can be put behind those of the batch.
pub proof fn decoded_rows_are_taken_in_or_given_up(
    m: ReaderModel,
    decoded: ArrayData,
    r: Result<(), ParquetError>,
    after: ReaderModel,
)
    requires
        decode_outcome(m, decoded, r, after),
    ensures
        r is Ok ==> array_type(decoded) == m.data_type && after == m.with_rows(array_rows(decoded)),
        r is Err ==> after.batch is None && after.skip_front == 0 && after.leftovers == m.leftovers
            && after.row_selection == m.row_selection && after.rows_read_or_skipped
            == m.rows_read_or_skipped && after.job_hash == m.job_hash,
        array_type(decoded) == m.data_type && is_checkable(decoded) && array_valid(decoded)
            && is_flat(m.data_type) && rows_fit(
            m.data_type,
            m.with_rows(array_rows(decoded)).batch->0.out,
        ) ==> r is Ok,
        array_type(decoded) != m.data_type ==> r is Err,
        r matches Err(e) ==> e is ArrowError || e is WrongArrayType || e is UncheckableArray
            || e is UnjoinableArrays,
{
    if is_flat(m.data_type) && rows_fit(
        m.data_type,
        m.with_rows(array_rows(decoded)).batch->0.out,
    ) {
        fitting_rows_are_joined(
            m.data_type,
            m.batch->0.out,
            m.with_rows(array_rows(decoded)).batch->0.out,
        );
    }
}

/// A batch that goes on keeps all of the reader but its rows, what is pending, what is left over and
/// what is to be skipped. A batch is being read where there is one and no page is being decoded for it,
/// and it needs a page where rows are to be read next and nothing is left over.
pub proof fn batches_go_on(m: ReaderModel, p: Progress<Row>)
    requires
        p.skip_front <= usize::MAX,
    ensures
        ({
            let after = m.with_progress(p);
            &&& after.batch matches Some(b) && b.out == p.out && b.pending == p.pending
                && b.decoding is None
            &&& after.leftovers == p.leftovers
            &&& after.skip_front == p.skip_front
            &&& after == (ReaderModel {
                batch: after.batch,
                leftovers: after.leftovers,
                skip_front: after.skip_front,
                ..m
            })
        }),
        m.reading() <==> (m.batch matches Some(b) && b.decoding is None),
        m.needs_page() <==> m.reading() && m.leftovers is None && m.batch->0.pending.len() > 0
            && !m.batch->0.pending[0].skip && m.batch->0.pending[0].row_count > 0,
{
}

} // verus!
