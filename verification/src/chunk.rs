//! What holds of a column chunk while its data pages are written, and once all of them are.
use vstd::prelude::*;

use crate::basic::LogicalType;
use crate::byte_order::{bytes_greater, lexicographic_order_is_total};
use crate::data_type::ParquetValueType;
use crate::layout::{aligned_page, aligned_page_size, data_chunk_is_aligned, page_alignable};
use crate::little_endian::u32_at;
use crate::errors::ParquetError;
use crate::metadata::{
    empty_histogram, histogram_sum_opt, histograms_add_opt, occurrences, occurrences_are_levels,
    offset_indexes_grow_by_pages, OffsetIndexModel, PageLocation,
};
use crate::page::decoder_page;
use crate::schema::ColumnDescriptor;
use crate::sink::SinkModel;
use crate::truncate::{
    truncated_max, truncated_max_is_upper_bound, truncated_min_is_lower_bound,
};
use crate::value_order::{
    column_greater, column_nan, running_max, running_max_is_greatest, running_min,
    running_min_is_least, unsigned_bounds_are_unsigned,
};
use crate::writer::{
    after_data_page, after_decoder, after_record, appended, chunk_statistics,
    chunk_statistics_are_of_the_chunk, data_page_fits, indexed, max_after, min_after, page_of,
    page_spec, page_statistics, placed_page, records_are_of_the_page, rep_histogram, truncates,
    DataPageModel, WriterModel,
};

verus! {

/// A data page with its payload.
pub struct WrittenPage<V> {
    pub page: DataPageModel<V>,
    pub data: Seq<u8>,
}

/// What is done with a writer while it writes data pages.
pub enum WriterStep<V> {
    /// A page is handed to it, which it may refuse.
    Page(WrittenPage<V>),
    /// The bytes that it has written are taken out.
    Take,
}

/// The writer after one step.
pub open spec fn after_step<T: ParquetValueType>(
    w: WriterModel<T::V>,
    step: WriterStep<T::V>,
) -> WriterModel<T::V> {
    match step {
        WriterStep::Page(p) => after_data_page::<T>(w, p.page, p.data).1,
        WriterStep::Take => WriterModel {
            sink: SinkModel { pending: Seq::empty(), ..w.sink },
            ..w
        },
    }
}

/// The writer after all of the steps.
#[verifier::opaque]
pub open spec fn after_steps<T: ParquetValueType>(
    w: WriterModel<T::V>,
    steps: Seq<WriterStep<T::V>>,
) -> WriterModel<T::V>
    decreases steps.len(),
{
    if steps.len() == 0 {
        w
    } else {
        after_step::<T>(after_steps::<T>(w, steps.drop_last()), steps.last())
    }
}

/// Whether `w` puts the page into the file. It does so with a page whose levels it then refuses.
pub open spec fn is_placed<T: ParquetValueType>(w: WriterModel<T::V>, p: WrittenPage<T::V>) -> bool {
    data_page_fits::<T>(w, p.page, p.data)
}

/// Whether `w` writes and records the page.
pub open spec fn is_recorded<T: ParquetValueType>(
    w: WriterModel<T::V>,
    p: WrittenPage<T::V>,
) -> bool {
    after_data_page::<T>(w, p.page, p.data).0 is Ok
}

/// The pages of the steps that are in the file.
pub open spec fn placed_pages<T: ParquetValueType>(
    w: WriterModel<T::V>,
    steps: Seq<WriterStep<T::V>>,
) -> Seq<WrittenPage<T::V>>
    decreases steps.len(),
{
    if steps.len() == 0 {
        Seq::empty()
    } else {
        let before = placed_pages::<T>(w, steps.drop_last());
        match steps.last() {
            WriterStep::Page(p) if is_placed::<T>(
                after_steps::<T>(w, steps.drop_last()),
                p,
            ) => before.push(p),
            _ => before,
        }
    }
}

/// The pages of the steps that were recorded.
pub open spec fn recorded_pages<T: ParquetValueType>(
    w: WriterModel<T::V>,
    steps: Seq<WriterStep<T::V>>,
) -> Seq<WrittenPage<T::V>>
    decreases steps.len(),
{
    if steps.len() == 0 {
        Seq::empty()
    } else {
        let before = recorded_pages::<T>(w, steps.drop_last());
        match steps.last() {
            WriterStep::Page(p) if is_recorded::<T>(
                after_steps::<T>(w, steps.drop_last()),
                p,
            ) => before.push(p),
            _ => before,
        }
    }
}

/// How many bytes the pages have that were recorded.
pub open spec fn recorded_bytes<T: ParquetValueType>(
    w: WriterModel<T::V>,
    steps: Seq<WriterStep<T::V>>,
) -> int
    decreases steps.len(),
{
    if steps.len() == 0 {
        0
    } else {
        let then = after_steps::<T>(w, steps.drop_last());
        recorded_bytes::<T>(w, steps.drop_last()) + match steps.last() {
            WriterStep::Page(p) if is_recorded::<T>(then, p) => page_bytes::<T>(
                then,
                p.page,
                p.data,
            ).len() as int,
            _ => 0,
        }
    }
}

/// All that was written once the steps are done: what was pending before, and the pages in the file.
pub open spec fn output<T: ParquetValueType>(
    w: WriterModel<T::V>,
    steps: Seq<WriterStep<T::V>>,
) -> Seq<u8>
    decreases steps.len(),
{
    if steps.len() == 0 {
        w.sink.pending
    } else {
        let then = after_steps::<T>(w, steps.drop_last());
        match steps.last() {
            WriterStep::Page(p) if is_placed::<T>(then, p) => output::<T>(w, steps.drop_last())
                + page_bytes::<T>(then, p.page, p.data),
            _ => output::<T>(w, steps.drop_last()),
        }
    }
}

/// What the steps take out of the writer.
pub open spec fn taken<T: ParquetValueType>(
    w: WriterModel<T::V>,
    steps: Seq<WriterStep<T::V>>,
) -> Seq<u8>
    decreases steps.len(),
{
    if steps.len() == 0 {
        Seq::empty()
    } else {
        taken::<T>(w, steps.drop_last()) + match steps.last() {
            WriterStep::Take => after_steps::<T>(w, steps.drop_last()).sink.pending,
            WriterStep::Page(_) => Seq::empty(),
        }
    }
}

/// The number of rows of the pages.
pub open spec fn rows<V>(ps: Seq<WrittenPage<V>>) -> int
    decreases ps.len(),
{
    if ps.len() == 0 {
        0
    } else {
        rows(ps.drop_last()) + ps.last().page.num_values
    }
}

/// The number of nulls of the pages.
pub open spec fn nulls<V>(ps: Seq<WrittenPage<V>>) -> int
    decreases ps.len(),
{
    if ps.len() == 0 {
        0
    } else {
        nulls(ps.drop_last()) + ps.last().page.num_nulls
    }
}

/// The minimums of the pages that have one.
pub open spec fn mins<V>(ps: Seq<WrittenPage<V>>) -> Seq<V>
    decreases ps.len(),
{
    if ps.len() == 0 {
        Seq::empty()
    } else {
        match ps.last().page.min {
            Some(v) => mins(ps.drop_last()).push(v),
            None => mins(ps.drop_last()),
        }
    }
}

/// The maximums of the pages that have one.
pub open spec fn maxs<V>(ps: Seq<WrittenPage<V>>) -> Seq<V>
    decreases ps.len(),
{
    if ps.len() == 0 {
        Seq::empty()
    } else {
        match ps.last().page.max {
            Some(v) => maxs(ps.drop_last()).push(v),
            None => maxs(ps.drop_last()),
        }
    }
}

/// What stays as it is while data pages are written.
pub open spec fn same_setting<V>(a: WriterModel<V>, b: WriterModel<V>) -> bool {
    &&& a.descr == b.descr
    &&& a.props == b.props
    &&& a.statistics_enabled == b.statistics_enabled
    &&& a.codec == b.codec
    &&& a.has_compressor == b.has_compressor
    &&& a.metrics.dictionary_page_offset == b.metrics.dictionary_page_offset
    &&& a.metrics.column_distinct_count == b.metrics.column_distinct_count
    &&& a.metrics.variable_length_bytes == b.metrics.variable_length_bytes
}

/// The bytes of a page that `w` writes next.
pub open spec fn page_bytes<T: ParquetValueType>(
    w: WriterModel<T::V>,
    p: DataPageModel<T::V>,
    data: Seq<u8>,
) -> Seq<u8> {
    aligned_page(
        w.sink.bytes_written as int,
        page_of::<T>(w, p, data),
        p.def_levels,
        p.rep_levels,
        w.descr,
    ).bytes()
}

proof fn lemma_no_step<T: ParquetValueType>(w: WriterModel<T::V>, steps: Seq<WriterStep<T::V>>)
    ensures
        steps.len() == 0 ==> after_steps::<T>(w, steps) == w,
        steps.len() > 0 ==> after_steps::<T>(w, steps) == after_step::<T>(
            after_steps::<T>(w, steps.drop_last()),
            steps.last(),
        ),
{
    reveal(after_steps);
}

/// What a page changes.
proof fn lemma_page<T: ParquetValueType>(before: WriterModel<T::V>, page: WrittenPage<T::V>)
    ensures
        ({
            let p = page.page;
            let bytes = page_bytes::<T>(before, p, page.data);
            let spec = page_spec::<T>(before, p, page.data);
            let next = indexed::<T>(before.column_index, p.min, p.max, p.num_nulls, p.num_values);
            let after = after_data_page::<T>(before, p, page.data).1;
            &&& is_recorded::<T>(before, page) ==> is_placed::<T>(before, page)
            &&& !is_placed::<T>(before, page) ==> after == before
            &&& same_setting(before, after)
            &&& is_placed::<T>(before, page) ==> {
                &&& after.metrics.total_rows_written == before.metrics.total_rows_written
                    + p.num_values
                &&& after.metrics.num_column_nulls == before.metrics.num_column_nulls + p.num_nulls
                &&& after.sink.bytes_written == before.sink.bytes_written + bytes.len()
                &&& after.sink.pending == before.sink.pending + bytes
                &&& after.metrics.min_column_value == min_after::<T>(
                    &before.descr,
                    before.metrics.min_column_value,
                    p.min,
                )
                &&& after.metrics.max_column_value == max_after::<T>(
                    &before.descr,
                    before.metrics.max_column_value,
                    p.max,
                )
                &&& after.column_index.valid == next.valid
                &&& after.column_index.null_pages == next.null_pages
                &&& after.column_index.min_values == next.min_values
                &&& after.column_index.max_values == next.max_values
                &&& after.column_index.null_counts == next.null_counts
                &&& page_alignable(
                    before.sink.bytes_written as int,
                    page_of::<T>(before, p, page.data),
                    p.def_levels,
                    p.rep_levels,
                    before.descr,
                )
            }
            &&& !is_recorded::<T>(before, page) ==> {
                &&& after.metrics.total_num_values == before.metrics.total_num_values
                &&& after.metrics.total_bytes_written == before.metrics.total_bytes_written
                &&& after.metrics.repetition_level_histogram
                    == before.metrics.repetition_level_histogram
                &&& after.offset_index == before.offset_index
            }
            &&& is_recorded::<T>(before, page) ==> {
                &&& after.metrics.total_num_values == before.metrics.total_num_values + p.num_values
                &&& after.metrics.total_bytes_written == before.metrics.total_bytes_written
                    + bytes.len()
                &&& after.offset_index.rows == before.offset_index.rows + p.num_values
                &&& after.offset_index.pages == before.offset_index.pages.push(
                    PageLocation {
                        offset: before.sink.bytes_written as u64 as i64,
                        compressed_page_size: spec.compressed_size as i32,
                        first_row_index: before.offset_index.rows,
                    },
                )
                &&& after.metrics.repetition_level_histogram == histogram_sum_opt(
                    before.metrics.repetition_level_histogram,
                    rep_histogram(before.descr, p),
                )
                &&& histograms_add_opt(
                    before.metrics.repetition_level_histogram,
                    rep_histogram(before.descr, p),
                )
                &&& before.descr.max_rep_level > 0 ==> p.rep_levels is Some
                    && p.rep_levels->0.len() <= i64::MAX
            }
        }),
{
    let p = page.page;
    if is_placed::<T>(before, page) {
        aligned_page_size(
            aligned_page(
                before.sink.bytes_written as int,
                page_of::<T>(before, p, page.data),
                p.def_levels,
                p.rep_levels,
                before.descr,
            ),
        );
    }
}

/// Putting a page into the file, taking the bytes out and recording the page comes to the same as
/// writing the page and taking the bytes out.
pub proof fn recording_can_wait<T: ParquetValueType>(
    w: WriterModel<T::V>,
    page: WrittenPage<T::V>,
)
    requires
        is_placed::<T>(w, page),
    ensures
        ({
            let put = appended::<T>(w, page.page, page.data);
            let placed = placed_page::<T>(w, page.page, page.data);
            let (r, written) = after_data_page::<T>(w, page.page, page.data);
            &&& after_record::<T>(put, placed) == (r, written)
            &&& after_record::<T>(after_step::<T>(put, WriterStep::Take), placed) == (
                r,
                after_step::<T>(written, WriterStep::Take),
            )
        }),
{
}

/// The totals of a chunk are the sums over its pages, and the offset index counts the same rows as
/// the values. A page that was refused for its levels counts among the rows and nulls, and its bytes
/// are in the file, but it is not recorded. Nothing else than the pages is written, and what was
/// taken out and what is pending are all of it.
pub proof fn chunk_totals<T: ParquetValueType>(
    w: WriterModel<T::V>,
    steps: Seq<WriterStep<T::V>>,
)
    ensures
        ({
            let after = after_steps::<T>(w, steps);
            let placed = placed_pages::<T>(w, steps);
            let recorded = recorded_pages::<T>(w, steps);
            let written = output::<T>(w, steps);
            &&& after.metrics.total_rows_written == w.metrics.total_rows_written + rows(placed)
            &&& after.metrics.num_column_nulls == w.metrics.num_column_nulls + nulls(placed)
            &&& after.metrics.total_num_values == w.metrics.total_num_values + rows(recorded)
            &&& after.offset_index.rows == w.offset_index.rows + rows(recorded)
            &&& after.offset_index.pages.len() == w.offset_index.pages.len() + recorded.len()
            &&& after.metrics.total_bytes_written == w.metrics.total_bytes_written
                + recorded_bytes::<T>(w, steps)
            &&& after.sink.bytes_written - w.sink.bytes_written == written.len()
                - w.sink.pending.len()
            &&& w.sink.pending.is_prefix_of(written)
            &&& taken::<T>(w, steps) + after.sink.pending == written
            &&& recorded_bytes::<T>(w, steps) <= written.len() - w.sink.pending.len()
            &&& recorded.len() <= placed.len()
            &&& recorded.len() == placed.len() ==> recorded == placed && recorded_bytes::<T>(w, steps)
                == written.len() - w.sink.pending.len()
            &&& same_setting(w, after)
        }),
    decreases steps.len(),
{
    lemma_no_step::<T>(w, steps);
    if steps.len() == 0 {
        assert(taken::<T>(w, steps) + w.sink.pending =~= w.sink.pending);
    } else {
        let head = steps.drop_last();
        let before = after_steps::<T>(w, head);
        chunk_totals::<T>(w, head);
        match steps.last() {
            WriterStep::Page(p) => {
                lemma_page::<T>(before, p);
                assert(placed_pages::<T>(w, head).push(p).drop_last() =~= placed_pages::<T>(
                    w,
                    head,
                ));
                assert(recorded_pages::<T>(w, head).push(p).drop_last() =~= recorded_pages::<T>(
                    w,
                    head,
                ));
                assert(taken::<T>(w, steps) =~= taken::<T>(w, head));
                assert(taken::<T>(w, steps) + after_steps::<T>(w, steps).sink.pending =~= output::<
                    T,
                >(w, steps));
            },
            WriterStep::Take => {
                assert(taken::<T>(w, steps) + Seq::<u8>::empty() =~= taken::<T>(w, head)
                    + before.sink.pending);
            },
        }
    }
}

/// The bounds of a chunk are the running bounds over those of the pages in the file.
pub proof fn chunk_bounds<T: ParquetValueType>(
    w: WriterModel<T::V>,
    steps: Seq<WriterStep<T::V>>,
)
    requires
        w.metrics.min_column_value is None,
        w.metrics.max_column_value is None,
    ensures
        after_steps::<T>(w, steps).metrics.min_column_value == running_min::<T>(
            &w.descr,
            mins(placed_pages::<T>(w, steps)),
        ),
        after_steps::<T>(w, steps).metrics.max_column_value == running_max::<T>(
            &w.descr,
            maxs(placed_pages::<T>(w, steps)),
        ),
    decreases steps.len(),
{
    lemma_no_step::<T>(w, steps);
    if steps.len() > 0 {
        let head = steps.drop_last();
        let before = after_steps::<T>(w, head);
        chunk_bounds::<T>(w, head);
        chunk_totals::<T>(w, head);
        if let WriterStep::Page(p) = steps.last() {
            lemma_page::<T>(before, p);
            if is_placed::<T>(before, p) {
                let ps = placed_pages::<T>(w, steps);
                assert(ps.drop_last() =~= placed_pages::<T>(w, head));
                if let Some(v) = p.page.min {
                    assert(mins(ps).drop_last() =~= mins(ps.drop_last()));
                }
                if let Some(v) = p.page.max {
                    assert(maxs(ps).drop_last() =~= maxs(ps.drop_last()));
                }
            }
        }
    }
}

/// A decoder that was written is found at the offset that is recorded for it, header first, and no
/// other can follow it.
pub proof fn decoder_is_located<V>(
    w: WriterModel<V>,
    data: Seq<u8>,
    version: Seq<char>,
    uncompressed_size: usize,
    other: Seq<u8>,
    other_version: Seq<char>,
    other_size: usize,
)
    requires
        after_decoder(w, data, version, uncompressed_size).0 is Ok,
    ensures
        ({
            let after = after_decoder(w, data, version, uncompressed_size).1;
            let bytes = decoder_page(data, version, uncompressed_size).header().bytes() + data;
            &&& after.metrics.dictionary_page_offset == Some(w.sink.bytes_written as u64)
            &&& after.metrics.total_bytes_written == w.metrics.total_bytes_written + bytes.len()
            &&& after.sink.pending == w.sink.pending + bytes
            &&& after.sink.bytes_written == w.sink.bytes_written + bytes.len()
            &&& after.offset_index == w.offset_index
            &&& after.column_index == w.column_index
            &&& after_decoder(after, other, other_version, other_size).0 is Err
            &&& after_decoder(after, other, other_version, other_size).1 == after
        }),
{
}

/// How often `level` occurs among the repetition levels of the pages.
pub open spec fn level_count<V>(ps: Seq<WrittenPage<V>>, level: int) -> int
    decreases ps.len(),
{
    if ps.len() == 0 {
        0
    } else {
        level_count(ps.drop_last(), level) + occurrences(ps.last().page.rep_levels->0, level)
    }
}

/// The histogram of a chunk whose column repeats counts the repetition levels of all pages that were
/// recorded.
pub proof fn chunk_level_counts<T: ParquetValueType>(
    w: WriterModel<T::V>,
    steps: Seq<WriterStep<T::V>>,
)
    requires
        w.descr.max_rep_level > 0,
        w.metrics.repetition_level_histogram == empty_histogram(w.descr.max_rep_level),
    ensures
        after_steps::<T>(w, steps).metrics.repetition_level_histogram matches Some(h) && h.len()
            == w.descr.max_rep_level + 1 && forall|level: int|
            0 <= level < h.len() ==> #[trigger] h[level] == level_count(
                recorded_pages::<T>(w, steps),
                level,
            ),
    decreases steps.len(),
{
    lemma_no_step::<T>(w, steps);
    if steps.len() > 0 {
        let head = steps.drop_last();
        let before = after_steps::<T>(w, head);
        chunk_level_counts::<T>(w, head);
        chunk_totals::<T>(w, head);
        if let WriterStep::Page(p) = steps.last() {
            lemma_page::<T>(before, p);
            if is_recorded::<T>(before, p) {
                let ps = recorded_pages::<T>(w, steps);
                assert(ps.drop_last() =~= recorded_pages::<T>(w, head));
                let levels = p.page.rep_levels->0;
                let h = before.metrics.repetition_level_histogram->0;
                let page = rep_histogram(before.descr, p.page)->0;
                let sum = after_steps::<T>(w, steps).metrics.repetition_level_histogram->0;
                assert forall|level: int| 0 <= level < sum.len() implies #[trigger] sum[level]
                    == level_count(ps, level) by {
                    occurrences_are_levels(levels, level);
                    assert(page[level] == occurrences(levels, level));
                    assert(i64::MIN <= h[level] + page[level] <= i64::MAX);
                }
            }
        }
    }
}

/// The offset index has one entry for each page that was recorded, in their order: the position at
/// which its bytes start, its size, and the number of rows before it. The bytes behind that position
/// are those of the page.
pub proof fn offset_index_locates_pages<T: ParquetValueType>(
    w: WriterModel<T::V>,
    steps: Seq<WriterStep<T::V>>,
    k: int,
)
    requires
        0 <= k < steps.len(),
        steps[k] is Page,
        is_recorded::<T>(after_steps::<T>(w, steps.take(k)), steps[k]->Page_0),
        w.offset_index.pages.len() == 0,
    ensures
        ({
            let page = steps[k]->Page_0;
            let then = after_steps::<T>(w, steps.take(k));
            let bytes = page_bytes::<T>(then, page.page, page.data);
            let at = output::<T>(w, steps.take(k)).len() as int;
            let i = recorded_pages::<T>(w, steps.take(k)).len() as int;
            let index = after_steps::<T>(w, steps).offset_index.pages;
            &&& index.len() == recorded_pages::<T>(w, steps).len()
            &&& i < index.len()
            &&& recorded_pages::<T>(w, steps)[i] == page
            &&& index[i] == (PageLocation {
                offset: then.sink.bytes_written as u64 as i64,
                compressed_page_size: page_spec::<T>(then, page.page, page.data).compressed_size
                    as i32,
                first_row_index: (w.offset_index.rows + rows(
                    recorded_pages::<T>(w, steps.take(k)),
                )) as i64,
            })
            &&& then.sink.bytes_written - w.sink.bytes_written == at - w.sink.pending.len()
            &&& at + bytes.len() <= output::<T>(w, steps).len()
            &&& output::<T>(w, steps).subrange(at, at + bytes.len()) == bytes
        }),
    decreases steps.len(),
{
    let head = steps.drop_last();
    let before = after_steps::<T>(w, head);
    let page = steps[k]->Page_0;
    lemma_no_step::<T>(w, steps);
    chunk_totals::<T>(w, steps);
    chunk_totals::<T>(w, head);
    if let WriterStep::Page(p) = steps.last() {
        lemma_page::<T>(before, p);
    }
    if k == head.len() {
        assert(steps.take(k) =~= head);
        let at = output::<T>(w, head).len() as int;
        let bytes = page_bytes::<T>(before, page.page, page.data);
        assert(output::<T>(w, steps).subrange(at, at + bytes.len()) =~= bytes);
    } else {
        assert(head.take(k) =~= steps.take(k));
        assert(head[k] == steps[k]);
        offset_index_locates_pages::<T>(w, head, k);
        let then = after_steps::<T>(w, steps.take(k));
        let bytes = page_bytes::<T>(then, page.page, page.data);
        let at = output::<T>(w, steps.take(k)).len() as int;
        assert(output::<T>(w, steps).subrange(at, at + bytes.len()) =~= output::<T>(
            w,
            head,
        ).subrange(at, at + bytes.len()));
    }
}

/// The data chunk of every page in the file stands at a multiple of eight bytes.
pub proof fn data_chunks_are_aligned<T: ParquetValueType>(
    w: WriterModel<T::V>,
    steps: Seq<WriterStep<T::V>>,
    k: int,
)
    requires
        0 <= k < steps.len(),
        steps[k] is Page,
        is_placed::<T>(after_steps::<T>(w, steps.take(k)), steps[k]->Page_0),
    ensures
        ({
            let page = steps[k]->Page_0;
            let then = after_steps::<T>(w, steps.take(k));
            let a = aligned_page(
                then.sink.bytes_written as int,
                page_of::<T>(then, page.page, page.data),
                page.page.def_levels,
                page.page.rep_levels,
                then.descr,
            );
            let payload_at = then.sink.bytes_written + a.bytes().len() - a.payload().len();
            &&& (payload_at + a.chunk_start()) % 8 == 0
            &&& u32_at(a.payload(), 4) == a.chunk_start()
            &&& a.payload().skip(a.chunk_start() as int) == page.data.skip(12)
        }),
{
    let page = steps[k]->Page_0;
    let then = after_steps::<T>(w, steps.take(k));
    lemma_page::<T>(then, page);
    data_chunk_is_aligned(
        then.sink.bytes_written as int,
        page_of::<T>(then, page.page, page.data),
        page.page.def_levels,
        page.page.rep_levels,
        then.descr,
    );
}

/// A column index that was not given up has one entry for each page in the file: whether the page is
/// all nulls, its bounds, and its number of nulls. It was given up if and only if it was so from the
/// start or a page that is not all nulls lacks a bound.
pub proof fn column_index_describes_pages<T: ParquetValueType>(
    w: WriterModel<T::V>,
    steps: Seq<WriterStep<T::V>>,
)
    requires
        w.column_index.null_pages.len() == 0,
        w.column_index.min_values.len() == 0,
        w.column_index.max_values.len() == 0,
        w.column_index.null_counts.len() == 0,
    ensures
        ({
            let index = after_steps::<T>(w, steps).column_index;
            let ps = placed_pages::<T>(w, steps);
            &&& index.valid <==> w.column_index.valid && forall|i: int|
                0 <= i < ps.len() ==> has_index_entry(#[trigger] ps[i].page)
            &&& index.valid ==> {
                &&& index.null_pages.len() == ps.len()
                &&& index.min_values.len() == ps.len()
                &&& index.max_values.len() == ps.len()
                &&& index.null_counts.len() == ps.len()
                &&& forall|i: int|
                    0 <= i < ps.len() ==> {
                        let p = #[trigger] ps[i].page;
                        &&& index.null_pages[i] == (p.num_values == p.num_nulls)
                        &&& index.null_counts[i] == p.num_nulls
                        &&& p.num_values == p.num_nulls ==> index.min_values[i].len() == 0
                            && index.max_values[i].len() == 0
                        &&& p.num_values != p.num_nulls ==> index.min_values[i] == T::plain(
                            p.min->0,
                        ) && index.max_values[i] == T::plain(p.max->0)
                    }
            }
        }),
    decreases steps.len(),
{
    lemma_no_step::<T>(w, steps);
    if steps.len() > 0 {
        let before = after_steps::<T>(w, steps.drop_last());
        column_index_describes_pages::<T>(w, steps.drop_last());
        if let WriterStep::Page(page) = steps.last() {
            lemma_page::<T>(before, page);
            if is_placed::<T>(before, page) {
                let after = after_steps::<T>(w, steps);
                let head = placed_pages::<T>(w, steps.drop_last());
                let ps = placed_pages::<T>(w, steps);
                assert(ps =~= head.push(page));
                assert forall|i: int| 0 <= i < head.len() implies head[i] == #[trigger] ps[i] by {}
                assert(ps[ps.len() - 1].page == page.page);
                if after.column_index.valid {
                    assert forall|i: int| 0 <= i < ps.len() implies has_index_entry(
                        #[trigger] ps[i].page,
                    ) by {
                        if i < head.len() {
                            assert(has_index_entry(head[i].page));
                        }
                    }
                }
                if w.column_index.valid && !before.column_index.valid {
                    let i = choose|i: int|
                        0 <= i < head.len() && !has_index_entry(#[trigger] head[i].page);
                    assert(!has_index_entry(ps[i].page));
                }
            }
        }
    }
}

/// Whether the column index has an entry for the page: it is all nulls, or it has both bounds.
pub open spec fn has_index_entry<V>(p: DataPageModel<V>) -> bool {
    p.num_values == p.num_nulls || (p.min is Some && p.max is Some)
}

/// Where the bounds of a page may be shortened, what is recorded still encloses the page: the
/// recorded minimum does not come after the minimum in byte order, and the recorded maximum does not
/// come before the maximum. A maximum that is marked exact is the maximum.
pub proof fn page_statistics_enclose<T: ParquetValueType>(
    descr: ColumnDescriptor,
    truncate_length: Option<usize>,
    min: T::V,
    max: T::V,
    num_nulls: u32,
    num_distinct: Option<u64>,
)
    ensures
        ({
            let s = page_statistics::<T>(
                descr,
                truncate_length,
                Some(min),
                Some(max),
                num_nulls,
                num_distinct,
            );
            &&& s.min matches Some(m) && !bytes_greater(m, T::plain(min))
            &&& s.max matches Some(m) && !bytes_greater(T::plain(max), m)
            &&& s.max_exact ==> s.max == Some(T::plain(max))
            &&& !truncates(descr) ==> s.min == Some(T::plain(min)) && s.max == Some(T::plain(max))
        }),
{
    truncated_min_is_lower_bound(truncate_length, T::plain(min));
    truncated_max_is_upper_bound(truncate_length, T::plain(max));
    let short = truncated_max(truncate_length, T::plain(max)).0;
    lexicographic_order_is_total(T::plain(min), T::plain(min), T::plain(min));
    lexicographic_order_is_total(T::plain(max), T::plain(max), T::plain(max));
    lexicographic_order_is_total(short, T::plain(max), T::plain(max));
}

/// The recorded bounds of a chunk enclose its bounds in byte order, and a bound that is marked exact
/// is the bound.
pub proof fn chunk_statistics_enclose<T: ParquetValueType>(w: WriterModel<T::V>)
    requires
        w.metrics.min_column_value is Some,
        w.metrics.max_column_value is Some,
    ensures
        ({
            let s = chunk_statistics::<T>(w);
            let min = T::plain(w.metrics.min_column_value->0);
            let max = T::plain(w.metrics.max_column_value->0);
            &&& s.min matches Some(m) && !bytes_greater(m, min)
            &&& s.max matches Some(m) && !bytes_greater(max, m)
            &&& s.min_exact <==> s.min == Some(min)
            &&& s.max_exact <==> s.max == Some(max)
        }),
{
    let min = T::plain(w.metrics.min_column_value->0);
    let max = T::plain(w.metrics.max_column_value->0);
    truncated_min_is_lower_bound(w.props.statistics_truncate_length, min);
    truncated_max_is_upper_bound(w.props.statistics_truncate_length, max);
    lexicographic_order_is_total(min, min, min);
    lexicographic_order_is_total(max, max, max);
    lexicographic_order_is_total(truncated_max(w.props.statistics_truncate_length, max).0, max, max);
}

/// What is summed over pages grows page by page.
pub proof fn sums_go_page_by_page<V>(ps: Seq<WrittenPage<V>>, p: WrittenPage<V>, level: int)
    ensures
        rows(Seq::<WrittenPage<V>>::empty()) == 0,
        nulls(Seq::<WrittenPage<V>>::empty()) == 0,
        level_count(Seq::<WrittenPage<V>>::empty(), level) == 0,
        rows(ps.push(p)) == rows(ps) + p.page.num_values,
        nulls(ps.push(p)) == nulls(ps) + p.page.num_nulls,
        p.page.rep_levels matches Some(levels) ==> level_count(ps.push(p), level) == level_count(
            ps,
            level,
        ) + occurrences(levels, level),
        p.page.min matches Some(v) ==> mins(ps.push(p)) == mins(ps).push(v),
        p.page.min is None ==> mins(ps.push(p)) == mins(ps),
        p.page.max matches Some(v) ==> maxs(ps.push(p)) == maxs(ps).push(v),
        p.page.max is None ==> maxs(ps.push(p)) == maxs(ps),
{
    assert(ps.push(p).drop_last() =~= ps);
}

/// A page is in the file unless it is refused for something else than its levels, and it is recorded
/// if it is in the file and its levels are not refused.
pub proof fn pages_are_placed_before_they_are_recorded<T: ParquetValueType>(
    w: WriterModel<T::V>,
    p: WrittenPage<T::V>,
)
    ensures
        ({
            let (r, after) = after_data_page::<T>(w, p.page, p.data);
            &&& is_recorded::<T>(w, p) <==> r is Ok
            &&& is_placed::<T>(w, p) <==> !(r matches Err(ParquetError::UnwritablePage))
            &&& is_recorded::<T>(w, p) ==> is_placed::<T>(w, p)
            &&& after.sink.pending.len() == w.sink.pending.len() + if is_placed::<T>(w, p) {
                page_bytes::<T>(w, p.page, p.data).len()
            } else {
                0
            }
        }),
{
    lemma_page::<T>(w, p);
}

proof fn lemma_recorded_page<T: ParquetValueType>(before: WriterModel<T::V>, page: WrittenPage<T::V>)
    ensures
        ({
            let p = page.page;
            let after = after_data_page::<T>(before, p, page.data).1;
            let a = aligned_page(
                before.sink.bytes_written as int,
                page_of::<T>(before, p, page.data),
                p.def_levels,
                p.rep_levels,
                before.descr,
            );
            let sizes = a.padded_header().bytes().len() + a.padding;
            &&& !is_recorded::<T>(before, page) ==> {
                &&& after.metrics.total_compressed_size == before.metrics.total_compressed_size
                &&& after.metrics.total_uncompressed_size == before.metrics.total_uncompressed_size
                &&& after.metrics.data_page_offset == before.metrics.data_page_offset
                &&& after.metrics.definition_level_histogram
                    == before.metrics.definition_level_histogram
                &&& after.column_index.repetition_level_histograms
                    == before.column_index.repetition_level_histograms
                &&& after.column_index.definition_level_histograms
                    == before.column_index.definition_level_histograms
            }
            &&& is_recorded::<T>(before, page) ==> {
                &&& after.metrics.total_compressed_size == before.metrics.total_compressed_size
                    + sizes + page.data.len()
                &&& after.metrics.total_uncompressed_size == before.metrics.total_uncompressed_size
                    + sizes + p.uncompressed_len
                &&& after.metrics.data_page_offset == if before.metrics.data_page_offset is None {
                    Some(before.sink.bytes_written as u64)
                } else {
                    before.metrics.data_page_offset
                }
                &&& after.metrics.definition_level_histogram == histogram_sum_opt(
                    before.metrics.definition_level_histogram,
                    empty_histogram(before.descr.max_def_level),
                )
                &&& after.offset_index.unencoded_byte_array_data_bytes
                    == before.offset_index.with_page(
                    0,
                    0,
                    0,
                    p.variable_length_bytes,
                ).unencoded_byte_array_data_bytes
            }
        }),
{
    if is_recorded::<T>(before, page) {
        records_are_of_the_page::<T>(before, page.page, page.data);
    }
}

/// How many bytes the header, the payload and the padding of the pages have that were recorded, as
/// they are in the file, and as they would be without compression.
pub open spec fn recorded_sizes<T: ParquetValueType>(
    w: WriterModel<T::V>,
    steps: Seq<WriterStep<T::V>>,
) -> (int, int)
    decreases steps.len(),
{
    if steps.len() == 0 {
        (0, 0)
    } else {
        let then = after_steps::<T>(w, steps.drop_last());
        let (compressed, uncompressed) = recorded_sizes::<T>(w, steps.drop_last());
        match steps.last() {
            WriterStep::Page(p) if is_recorded::<T>(then, p) => {
                let a = aligned_page(
                    then.sink.bytes_written as int,
                    page_of::<T>(then, p.page, p.data),
                    p.page.def_levels,
                    p.page.rep_levels,
                    then.descr,
                );
                let sizes = a.padded_header().bytes().len() + a.padding;
                (
                    compressed + sizes + p.data.len(),
                    uncompressed + sizes + p.page.uncompressed_len,
                )
            },
            _ => (compressed, uncompressed),
        }
    }
}

/// The sizes of a chunk are those of the pages that were recorded, and its first data page is found
/// where the offset index has it.
pub proof fn chunk_sizes<T: ParquetValueType>(w: WriterModel<T::V>, steps: Seq<WriterStep<T::V>>)
    requires
        w.offset_index.pages.len() == 0,
        w.metrics.data_page_offset is None,
    ensures
        ({
            let after = after_steps::<T>(w, steps);
            &&& after.metrics.total_compressed_size == w.metrics.total_compressed_size
                + recorded_sizes::<T>(w, steps).0
            &&& after.metrics.total_uncompressed_size == w.metrics.total_uncompressed_size
                + recorded_sizes::<T>(w, steps).1
            &&& after.metrics.data_page_offset is Some <==> recorded_pages::<T>(w, steps).len() > 0
            &&& after.metrics.data_page_offset matches Some(x) ==> after.offset_index.pages.len() > 0
                && after.offset_index.pages[0].offset == x as i64
        }),
    decreases steps.len(),
{
    lemma_no_step::<T>(w, steps);
    if steps.len() > 0 {
        let head = steps.drop_last();
        let before = after_steps::<T>(w, head);
        chunk_sizes::<T>(w, head);
        chunk_totals::<T>(w, head);
        if let WriterStep::Page(p) = steps.last() {
            lemma_page::<T>(before, p);
            lemma_recorded_page::<T>(before, p);
        }
    }
}

/// The sizes of the byte strings of the pages that have one.
pub open spec fn byte_string_sizes<V>(ps: Seq<WrittenPage<V>>) -> Seq<i64>
    decreases ps.len(),
{
    if ps.len() == 0 {
        Seq::empty()
    } else {
        match ps.last().page.variable_length_bytes {
            Some(n) => byte_string_sizes(ps.drop_last()).push(n),
            None => byte_string_sizes(ps.drop_last()),
        }
    }
}

/// The offset index keeps the sizes of the byte strings of the pages that were recorded and have one,
/// in their order, and nothing where none has.
pub proof fn offset_index_keeps_byte_string_sizes<T: ParquetValueType>(
    w: WriterModel<T::V>,
    steps: Seq<WriterStep<T::V>>,
)
    requires
        w.offset_index.unencoded_byte_array_data_bytes is None,
    ensures
        ({
            let sizes = byte_string_sizes(recorded_pages::<T>(w, steps));
            let kept = after_steps::<T>(w, steps).offset_index.unencoded_byte_array_data_bytes;
            &&& sizes.len() == 0 ==> kept is None
            &&& sizes.len() > 0 ==> kept == Some(sizes)
        }),
    decreases steps.len(),
{
    lemma_no_step::<T>(w, steps);
    if steps.len() > 0 {
        let head = steps.drop_last();
        let before = after_steps::<T>(w, head);
        offset_index_keeps_byte_string_sizes::<T>(w, head);
        if let WriterStep::Page(p) = steps.last() {
            lemma_page::<T>(before, p);
            lemma_recorded_page::<T>(before, p);
            if is_recorded::<T>(before, p) {
                let ps = recorded_pages::<T>(w, steps);
                assert(ps.drop_last() =~= recorded_pages::<T>(w, head));
                if let Some(n) = p.page.variable_length_bytes {
                    let index = OffsetIndexModel { rows: 0, ..before.offset_index };
                    offset_indexes_grow_by_pages(index, 0, 0, 0, Some(n));
                    assert(byte_string_sizes(ps) == byte_string_sizes(ps.drop_last()).push(n));
                    assert(Seq::<i64>::empty().push(n) =~= seq![n]);
                    if byte_string_sizes(ps.drop_last()).len() == 0 {
                        assert(byte_string_sizes(ps.drop_last()) =~= Seq::<i64>::empty());
                    }
                }
            }
        }
    }
}

/// Definition levels are not counted: the histogram of a chunk that starts with zeros keeps them.
pub proof fn definition_levels_are_not_counted<T: ParquetValueType>(
    w: WriterModel<T::V>,
    steps: Seq<WriterStep<T::V>>,
)
    requires
        w.metrics.definition_level_histogram == empty_histogram(w.descr.max_def_level),
    ensures
        after_steps::<T>(w, steps).metrics.definition_level_histogram
            == w.metrics.definition_level_histogram,
    decreases steps.len(),
{
    lemma_no_step::<T>(w, steps);
    if steps.len() > 0 {
        let head = steps.drop_last();
        let before = after_steps::<T>(w, head);
        definition_levels_are_not_counted::<T>(w, head);
        chunk_totals::<T>(w, head);
        if let WriterStep::Page(p) = steps.last() {
            lemma_page::<T>(before, p);
            lemma_recorded_page::<T>(before, p);
            if let Some(h) = empty_histogram(w.descr.max_def_level) {
                assert(histogram_sum_opt(Some(h), Some(h))->0 =~= h);
            }
        }
    }
}

/// The statistics that are recorded for a chunk count the nulls of all pages in the file, and the
/// distinct values if they were counted, whatever bounds there are.
pub proof fn chunk_statistics_count_the_nulls<T: ParquetValueType>(
    w: WriterModel<T::V>,
    steps: Seq<WriterStep<T::V>>,
)
    ensures
        ({
            let s = chunk_statistics::<T>(after_steps::<T>(w, steps));
            &&& s.null_count matches Some(n) && n == w.metrics.num_column_nulls + nulls(
                placed_pages::<T>(w, steps),
            )
            &&& s.distinct_count == w.metrics.column_distinct_count
        }),
{
    chunk_totals::<T>(w, steps);
    chunk_statistics_are_of_the_chunk::<T>(after_steps::<T>(w, steps));
}

/// The bounds of a chunk of unsigned integers have the least and the greatest unsigned reading of all
/// bounds of its pages.
pub proof fn unsigned_chunks_have_unsigned_bounds<T: ParquetValueType>(
    w: WriterModel<T::V>,
    steps: Seq<WriterStep<T::V>>,
)
    requires
        (w.descr.logical_type matches Some(LogicalType::Integer { is_signed, .. }) && !is_signed)
            || w.descr.converted_type is UINT_8 || w.descr.converted_type is UINT_16
            || w.descr.converted_type is UINT_32 || w.descr.converted_type is UINT_64,
        !(T::type_of() is FLOAT),
        !(T::type_of() is DOUBLE),
        w.metrics.min_column_value is None,
        w.metrics.max_column_value is None,
    ensures
        ({
            let after = after_steps::<T>(w, steps).metrics;
            let low = mins(placed_pages::<T>(w, steps));
            let high = maxs(placed_pages::<T>(w, steps));
            &&& low.len() > 0 ==> (after.min_column_value matches Some(m) && low.contains(m)
                && forall|i: int|
                0 <= i < low.len() ==> T::u64_of(m) <= T::u64_of(#[trigger] low[i]))
            &&& high.len() > 0 ==> (after.max_column_value matches Some(m) && high.contains(m)
                && forall|i: int|
                0 <= i < high.len() ==> T::u64_of(m) >= T::u64_of(#[trigger] high[i]))
        }),
{
    chunk_bounds::<T>(w, steps);
    let low = mins(placed_pages::<T>(w, steps));
    let high = maxs(placed_pages::<T>(w, steps));
    if low.len() > 0 {
        unsigned_bounds_are_unsigned::<T>(&w.descr, low);
    }
    if high.len() > 0 {
        unsigned_bounds_are_unsigned::<T>(&w.descr, high);
    }
}

/// The bounds of a chunk are bounds of its pages, and no bound of a page that is a number lies outside
/// of them in the order of the column.
pub proof fn chunk_bounds_enclose_page_bounds<T: ParquetValueType>(
    w: WriterModel<T::V>,
    steps: Seq<WriterStep<T::V>>,
)
    requires
        w.metrics.min_column_value is None,
        w.metrics.max_column_value is None,
    ensures
        ({
            let after = after_steps::<T>(w, steps).metrics;
            let low = mins(placed_pages::<T>(w, steps));
            let high = maxs(placed_pages::<T>(w, steps));
            &&& after.min_column_value matches Some(m) ==> low.contains(m) && forall|i: int|
                0 <= i < low.len() && !column_nan::<T>(low[i]) ==> !column_greater::<T>(
                    &w.descr,
                    m,
                    #[trigger] low[i],
                )
            &&& after.max_column_value matches Some(m) ==> high.contains(m) && forall|i: int|
                0 <= i < high.len() && !column_nan::<T>(high[i]) ==> !column_greater::<T>(
                    &w.descr,
                    #[trigger] high[i],
                    m,
                )
            &&& after.min_column_value is None ==> forall|i: int|
                0 <= i < low.len() ==> column_nan::<T>(#[trigger] low[i])
            &&& after.max_column_value is None ==> forall|i: int|
                0 <= i < high.len() ==> column_nan::<T>(#[trigger] high[i])
        }),
{
    chunk_bounds::<T>(w, steps);
    running_min_is_least::<T>(&w.descr, mins(placed_pages::<T>(w, steps)));
    running_max_is_greatest::<T>(&w.descr, maxs(placed_pages::<T>(w, steps)));
}

/// How often each repetition level of a column occurs in each of the pages, page behind page.
pub open spec fn level_counts_of_pages<V>(ps: Seq<WrittenPage<V>>, max_level: i16) -> Seq<i64>
    decreases ps.len(),
{
    if ps.len() == 0 {
        Seq::empty()
    } else {
        level_counts_of_pages(ps.drop_last(), max_level) + Seq::new(
            (max_level + 1) as nat,
            |level: int| occurrences(ps.last().page.rep_levels->0, level) as i64,
        )
    }
}

/// A column index that was not given up holds how often each repetition level occurs in each of the
/// pages that were recorded.
pub proof fn column_index_counts_levels<T: ParquetValueType>(
    w: WriterModel<T::V>,
    steps: Seq<WriterStep<T::V>>,
)
    requires
        w.descr.max_rep_level > 0,
        w.column_index.repetition_level_histograms is None,
    ensures
        ({
            let after = after_steps::<T>(w, steps);
            let ps = recorded_pages::<T>(w, steps);
            let kept = after.column_index.repetition_level_histograms;
            &&& after.column_index.valid ==> w.column_index.valid
            &&& after.column_index.valid && ps.len() == 0 ==> kept is None
            &&& after.column_index.valid && ps.len() > 0 ==> kept == Some(
                level_counts_of_pages(ps, w.descr.max_rep_level),
            )
        }),
    decreases steps.len(),
{
    lemma_no_step::<T>(w, steps);
    if steps.len() > 0 {
        let head = steps.drop_last();
        let before = after_steps::<T>(w, head);
        column_index_counts_levels::<T>(w, head);
        chunk_totals::<T>(w, head);
        if let WriterStep::Page(p) = steps.last() {
            lemma_page::<T>(before, p);
            lemma_recorded_page::<T>(before, p);
            if is_recorded::<T>(before, p) {
                let after = after_steps::<T>(w, steps);
                let ps = recorded_pages::<T>(w, steps);
                assert(ps.drop_last() =~= recorded_pages::<T>(w, head));
                let levels = p.page.rep_levels->0;
                let one = Seq::new(
                    (w.descr.max_rep_level + 1) as nat,
                    |level: int| occurrences(levels, level) as i64,
                );
                let counts = rep_histogram(before.descr, p.page)->0;
                assert forall|level: int| 0 <= level < one.len() implies #[trigger] counts[level]
                    == one[level] by {
                    occurrences_are_levels(levels, level);
                }
                assert(counts =~= one);
                assert(after.column_index.valid ==> before.column_index.valid);
                if after.column_index.valid {
                    assert(Seq::<i64>::empty() + one =~= one);
                    if recorded_pages::<T>(w, head).len() == 0 {
                        assert(level_counts_of_pages(
                            recorded_pages::<T>(w, head),
                            w.descr.max_rep_level,
                        ) =~= Seq::<i64>::empty());
                    }
                }
            }
        }
    }
}

} // verus!
