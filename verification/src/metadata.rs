//! What is recorded of a column chunk besides its pages: level histograms, the column index, the
//! offset index and the chunk's own metadata.
use vstd::prelude::*;

use crate::basic::{BoundaryOrder, Compression, Encoding};
use crate::schema::ColumnDescriptor;
use crate::statistics::{Statistics, StatisticsModel};

verus! {

/// How often `level` occurs in `levels`.
pub open spec fn occurrences(levels: Seq<i16>, level: int) -> nat
    decreases levels.len(),
{
    if levels.len() == 0 {
        0
    } else {
        occurrences(levels.drop_last(), level) + if levels.last() == level {
            1nat
        } else {
            0nat
        }
    }
}

/// The histogram of no levels, for levels up to `max_level`; there is none where every level is
/// zero.
pub open spec fn empty_histogram(max_level: i16) -> Option<Seq<i64>> {
    if max_level > 0 {
        Some(Seq::new((max_level + 1) as nat, |i: int| 0i64))
    } else {
        None
    }
}

/// The histogram `h` with `levels` counted in.
pub open spec fn histogram_with(h: Seq<i64>, levels: Seq<i16>) -> Seq<i64> {
    Seq::new(h.len(), |i: int| (h[i] + occurrences(levels, i)) as i64)
}

/// The sum of two histograms.
pub open spec fn histogram_sum(h: Seq<i64>, other: Seq<i64>) -> Seq<i64> {
    Seq::new(h.len(), |i: int| (h[i] + other[i]) as i64)
}

/// Whether every level is one that a histogram of `len` counts has a place for.
pub open spec fn levels_below(levels: Seq<i16>, len: int) -> bool {
    forall|i: int| 0 <= i < levels.len() ==> 0 <= #[trigger] levels[i] < len
}

/// Whether the counts of two histograms can be added.
pub open spec fn histograms_add(h: Seq<i64>, other: Seq<i64>) -> bool {
    h.len() == other.len() && forall|i: int|
        0 <= i < h.len() ==> i64::MIN <= #[trigger] h[i] + other[i] <= i64::MAX
}

/// The sum of two histograms that may be missing: a page without a histogram adds nothing.
pub open spec fn histogram_sum_opt(h: Option<Seq<i64>>, other: Option<Seq<i64>>) -> Option<
    Seq<i64>,
> {
    match (h, other) {
        (Some(a), Some(b)) => Some(histogram_sum(a, b)),
        _ => h,
    }
}

/// Whether the counts of two histograms that may be missing can be added.
pub open spec fn histograms_add_opt(h: Option<Seq<i64>>, other: Option<Seq<i64>>) -> bool {
    match (h, other) {
        (Some(a), Some(b)) => histograms_add(a, b),
        _ => true,
    }
}

/// How often each definition or repetition level occurs.
#[derive(Debug)]
pub struct LevelHistogram {
    pub inner: Vec<i64>,
}

impl View for LevelHistogram {
    type V = Seq<i64>;

    open spec fn view(&self) -> Seq<i64> {
        self.inner@
    }
}

/// The counts of a histogram that may be missing.
pub open spec fn histogram_view(h: Option<LevelHistogram>) -> Option<Seq<i64>> {
    match h {
        Some(x) => Some(x@),
        None => None,
    }
}

/// No level occurs more often than there are levels.
pub proof fn occurrences_are_levels(levels: Seq<i16>, level: int)
    ensures
        occurrences(levels, level) <= levels.len(),
    decreases levels.len(),
{
    if levels.len() > 0 {
        occurrences_are_levels(levels.drop_last(), level);
    }
}

impl LevelHistogram {
    /// A histogram of no levels, for levels up to `max_level`; there is none where every level is
    /// zero.
    pub fn try_new(max_level: i16) -> (h: Option<Self>)
        ensures
            histogram_view(h) == empty_histogram(max_level),
    {
        if max_level > 0 {
            let mut inner: Vec<i64> = Vec::new();
            let len: usize = max_level as usize + 1;
            while inner.len() < len
                invariant
                    inner.len() <= len,
                    forall|i: int| 0 <= i < inner.len() ==> inner[i] == 0,
                decreases len - inner.len(),
            {
                inner.push(0);
            }
            let h = LevelHistogram { inner };
            assert(h@ =~= empty_histogram(max_level)->0);
            Some(h)
        } else {
            None
        }
    }

    /// Counts `levels` in.
    pub fn update_from_levels(&mut self, levels: &[i16])
        requires
            levels_below(levels@, old(self)@.len() as int),
            forall|i: int|
                0 <= i < old(self)@.len() ==> 0 <= #[trigger] old(self)@[i] <= i64::MAX
                    - levels.len(),
        ensures
            final(self)@ == histogram_with(old(self)@, levels@),
    {
        let mut i: usize = 0;
        let ghost start = self@;
        assert(levels@.take(0) =~= Seq::<i16>::empty());
        while i < levels.len()
            invariant
                i <= levels.len(),
                levels_below(levels@, start.len() as int),
                self@.len() == start.len(),
                forall|k: int|
                    0 <= k < start.len() ==> 0 <= #[trigger] start[k] <= i64::MAX - levels.len(),
                forall|k: int|
                    0 <= k < start.len() ==> #[trigger] self@[k] == start[k] + occurrences(
                        levels@.take(i as int),
                        k,
                    ),
            decreases levels.len() - i,
        {
            let level: i16 = levels[i];
            proof {
                assert(levels@.take(i + 1).drop_last() =~= levels@.take(i as int));
                assert(levels@.take(i + 1).last() == level);
                occurrences_are_levels(levels@.take(i as int), level as int);
                assert(start[level as int] <= i64::MAX - levels.len());
            }
            let count: i64 = self.inner[level as usize];
            self.inner.set(level as usize, count + 1);
            i = i + 1;
        }
        proof {
            assert(levels@.take(i as int) =~= levels@);
            assert(self@ =~= histogram_with(start, levels@));
        }
    }

    /// Whether the counts of `other` can be added.
    pub fn can_add(&self, other: &LevelHistogram) -> (b: bool)
        ensures
            b == histograms_add(self@, other@),
    {
        if self.inner.len() != other.inner.len() {
            return false;
        }
        let mut i: usize = 0;
        while i < self.inner.len()
            invariant
                i <= self@.len(),
                self@.len() == other@.len(),
                forall|k: int|
                    0 <= k < i ==> i64::MIN <= #[trigger] self@[k] + other@[k] <= i64::MAX,
            decreases self@.len() - i,
        {
            if self.inner[i].checked_add(other.inner[i]).is_none() {
                assert(!(i64::MIN <= self@[i as int] + other@[i as int] <= i64::MAX));
                return false;
            }
            i = i + 1;
        }
        true
    }

    /// Adds the counts of `other`.
    pub fn add(&mut self, other: &LevelHistogram)
        requires
            histograms_add(old(self)@, other@),
        ensures
            final(self)@ == histogram_sum(old(self)@, other@),
    {
        let mut i: usize = 0;
        let ghost start = self@;
        while i < self.inner.len()
            invariant
                i <= self@.len(),
                self@.len() == start.len(),
                histograms_add(start, other@),
                forall|k: int| 0 <= k < i ==> #[trigger] self@[k] == start[k] + other@[k],
                forall|k: int| i <= k < start.len() ==> #[trigger] self@[k] == start[k],
            decreases self@.len() - i,
        {
            let count: i64 = self.inner[i];
            assert(i64::MIN <= start[i as int] + other@[i as int] <= i64::MAX);
            self.inner.set(i, count + other.inner[i]);
            i = i + 1;
        }
        assert(self@ =~= histogram_sum(start, other@));
    }
}

/// Whether the counts of two histograms that may be missing can be added.
pub fn can_add_histograms(h: &Option<LevelHistogram>, other: &Option<LevelHistogram>) -> (b: bool)
    ensures
        b == histograms_add_opt(histogram_view(*h), histogram_view(*other)),
{
    match (h, other) {
        (Some(a), Some(b)) => a.can_add(b),
        _ => true,
    }
}

/// Adds the counts of a page's histogram to those of the chunk, where both are kept.
pub fn update_histogram(
    chunk_histogram: &mut Option<LevelHistogram>,
    page_histogram: &Option<LevelHistogram>,
)
    requires
        histograms_add_opt(histogram_view(*old(chunk_histogram)), histogram_view(*page_histogram)),
    ensures
        histogram_view(*final(chunk_histogram)) == histogram_sum_opt(
            histogram_view(*old(chunk_histogram)),
            histogram_view(*page_histogram),
        ),
{
    if let Some(page) = page_histogram {
        if let Some(chunk) = chunk_histogram {
            chunk.add(page);
        }
    }
}

/// The contents of byte vectors.
pub open spec fn contents(v: Seq<Vec<u8>>) -> Seq<Seq<u8>> {
    Seq::new(v.len(), |i: int| v[i]@)
}

/// The column index as a value: one entry for each data page.
#[verifier::ext_equal]
pub struct ColumnIndexModel {
    pub null_pages: Seq<bool>,
    pub min_values: Seq<Seq<u8>>,
    pub max_values: Seq<Seq<u8>>,
    pub null_counts: Seq<i64>,
    pub boundary_order: BoundaryOrder,
    pub repetition_level_histograms: Option<Seq<i64>>,
    pub definition_level_histograms: Option<Seq<i64>>,
    pub valid: bool,
}

impl ColumnIndexModel {
    /// The index of no pages.
    pub open spec fn empty() -> Self {
        ColumnIndexModel {
            null_pages: Seq::empty(),
            min_values: Seq::empty(),
            max_values: Seq::empty(),
            null_counts: Seq::empty(),
            boundary_order: BoundaryOrder::UNORDERED,
            repetition_level_histograms: None,
            definition_level_histograms: None,
            valid: true,
        }
    }

    /// The index with one more page.
    pub open spec fn with_page(
        self,
        null_page: bool,
        min_value: Seq<u8>,
        max_value: Seq<u8>,
        null_count: i64,
    ) -> Self {
        ColumnIndexModel {
            null_pages: self.null_pages.push(null_page),
            min_values: self.min_values.push(min_value),
            max_values: self.max_values.push(max_value),
            null_counts: self.null_counts.push(null_count),
            ..self
        }
    }

    /// The index, given up.
    pub open spec fn invalid(self) -> Self {
        ColumnIndexModel { valid: false, ..self }
    }

    /// The index with one more page's histograms; an index that was given up takes none.
    pub open spec fn with_histograms(self, rep: Option<Seq<i64>>, def: Option<Seq<i64>>) -> Self {
        if self.valid {
            ColumnIndexModel {
                repetition_level_histograms: appended(self.repetition_level_histograms, rep),
                definition_level_histograms: appended(self.definition_level_histograms, def),
                ..self
            }
        } else {
            self
        }
    }
}

/// `all` with the counts of one more histogram, where there is one.
pub open spec fn appended(all: Option<Seq<i64>>, one: Option<Seq<i64>>) -> Option<Seq<i64>> {
    match one {
        Some(o) => Some(all.unwrap_or(Seq::empty()) + o),
        None => all,
    }
}

/// Collects the column index while pages are written.
#[derive(Debug)]
pub struct ColumnIndexBuilder {
    pub null_pages: Vec<bool>,
    pub min_values: Vec<Vec<u8>>,
    pub max_values: Vec<Vec<u8>>,
    pub null_counts: Vec<i64>,
    pub boundary_order: BoundaryOrder,
    pub repetition_level_histograms: Option<Vec<i64>>,
    pub definition_level_histograms: Option<Vec<i64>>,
    /// Whether the index can still be written. Where a page lacks what the index needs, it cannot.
    pub valid: bool,
}

/// The contents of a vector of counts that may be missing.
pub open spec fn counts_view(v: Option<Vec<i64>>) -> Option<Seq<i64>> {
    match v {
        Some(x) => Some(x@),
        None => None,
    }
}

impl View for ColumnIndexBuilder {
    type V = ColumnIndexModel;

    open spec fn view(&self) -> ColumnIndexModel {
        ColumnIndexModel {
            null_pages: self.null_pages@,
            min_values: contents(self.min_values@),
            max_values: contents(self.max_values@),
            null_counts: self.null_counts@,
            boundary_order: self.boundary_order,
            repetition_level_histograms: counts_view(self.repetition_level_histograms),
            definition_level_histograms: counts_view(self.definition_level_histograms),
            valid: self.valid,
        }
    }
}

/// Appends the counts of one more histogram, where there is one.
fn append_counts(all: &mut Option<Vec<i64>>, one: &Option<LevelHistogram>)
    ensures
        counts_view(*final(all)) == appended(counts_view(*old(all)), histogram_view(*one)),
{
    if let Some(h) = one {
        let mut counts: Vec<i64> = match all.take() {
            Some(v) => v,
            None => Vec::new(),
        };
        let ghost start = counts@;
        counts.extend_from_slice(h.inner.as_slice());
        assert(counts@ =~= start + h@);
        *all = Some(counts);
    }
}

impl ColumnIndexBuilder {
    /// The index of no pages.
    pub fn new() -> (b: Self)
        ensures
            b@ == ColumnIndexModel::empty(),
    {
        let b = ColumnIndexBuilder {
            null_pages: Vec::new(),
            min_values: Vec::new(),
            max_values: Vec::new(),
            null_counts: Vec::new(),
            boundary_order: BoundaryOrder::UNORDERED,
            repetition_level_histograms: None,
            definition_level_histograms: None,
            valid: true,
        };
        assert(b@ =~= ColumnIndexModel::empty());
        b
    }

    /// Adds a page.
    pub fn append(
        &mut self,
        null_page: bool,
        min_value: Vec<u8>,
        max_value: Vec<u8>,
        null_count: i64,
    )
        ensures
            final(self)@ == old(self)@.with_page(null_page, min_value@, max_value@, null_count),
            final(self).null_pages@ == old(self).null_pages@.push(null_page),
            final(self).min_values@ == old(self).min_values@.push(min_value),
            final(self).max_values@ == old(self).max_values@.push(max_value),
            final(self).null_counts@ == old(self).null_counts@.push(null_count),
            final(self).valid == old(self).valid,
    {
        self.null_pages.push(null_page);
        self.min_values.push(min_value);
        self.max_values.push(max_value);
        self.null_counts.push(null_count);
        assert(self@ =~= old(self)@.with_page(null_page, min_value@, max_value@, null_count));
    }

    /// Adds the histograms of a page.
    pub fn append_histograms(
        &mut self,
        repetition_level_histogram: &Option<LevelHistogram>,
        definition_level_histogram: &Option<LevelHistogram>,
    )
        ensures
            final(self)@ == old(self)@.with_histograms(
                histogram_view(*repetition_level_histogram),
                histogram_view(*definition_level_histogram),
            ),
    {
        if self.valid {
            append_counts(&mut self.repetition_level_histograms, repetition_level_histogram);
            append_counts(&mut self.definition_level_histograms, definition_level_histogram);
        }
    }

    /// Gives the index up.
    pub fn to_invalid(&mut self)
        ensures
            final(self)@ == old(self)@.invalid(),
    {
        self.valid = false;
    }

    /// Whether the index can still be written.
    pub fn valid(&self) -> (b: bool)
        ensures
            b == self@.valid,
    {
        self.valid
    }

    /// The index of the pages that were added.
    pub fn build_to_thrift(self) -> (index: ColumnIndex)
        ensures
            index@ == (ColumnIndexModel { valid: true, ..self@ }),
            index.null_pages == self.null_pages,
            index.min_values == self.min_values,
            index.max_values == self.max_values,
            index.null_counts == self.null_counts,
            index.boundary_order == self.boundary_order,
            index.repetition_level_histograms == self.repetition_level_histograms,
            index.definition_level_histograms == self.definition_level_histograms,
    {
        ColumnIndex {
            null_pages: self.null_pages,
            min_values: self.min_values,
            max_values: self.max_values,
            boundary_order: self.boundary_order,
            null_counts: self.null_counts,
            repetition_level_histograms: self.repetition_level_histograms,
            definition_level_histograms: self.definition_level_histograms,
        }
    }
}

/// The column index: what each data page of a chunk holds.
#[derive(Debug)]
pub struct ColumnIndex {
    pub null_pages: Vec<bool>,
    pub min_values: Vec<Vec<u8>>,
    pub max_values: Vec<Vec<u8>>,
    pub boundary_order: BoundaryOrder,
    pub null_counts: Vec<i64>,
    pub repetition_level_histograms: Option<Vec<i64>>,
    pub definition_level_histograms: Option<Vec<i64>>,
}

impl View for ColumnIndex {
    type V = ColumnIndexModel;

    open spec fn view(&self) -> ColumnIndexModel {
        ColumnIndexModel {
            null_pages: self.null_pages@,
            min_values: contents(self.min_values@),
            max_values: contents(self.max_values@),
            null_counts: self.null_counts@,
            boundary_order: self.boundary_order,
            repetition_level_histograms: counts_view(self.repetition_level_histograms),
            definition_level_histograms: counts_view(self.definition_level_histograms),
            valid: true,
        }
    }
}

/// Where a data page stands.
#[derive(Clone, Copy, Debug, PartialEq, Eq, Structural)]
pub struct PageLocation {
    pub offset: i64,
    pub compressed_page_size: i32,
    /// The number of rows of the chunk before the page.
    pub first_row_index: i64,
}

/// The offset index as a value: one entry for each data page.
#[verifier::ext_equal]
pub struct OffsetIndexModel {
    pub pages: Seq<PageLocation>,
    pub unencoded_byte_array_data_bytes: Option<Seq<i64>>,
    /// The number of rows of all pages.
    pub rows: i64,
}

impl OffsetIndexModel {
    /// The index of no pages.
    pub open spec fn empty() -> Self {
        OffsetIndexModel {
            pages: Seq::empty(),
            unencoded_byte_array_data_bytes: None,
            rows: 0,
        }
    }

    /// The index with one more page.
    pub open spec fn with_page(
        self,
        offset: i64,
        compressed_page_size: i32,
        row_count: i64,
        unencoded: Option<i64>,
    ) -> Self {
        OffsetIndexModel {
            pages: self.pages.push(
                PageLocation { offset, compressed_page_size, first_row_index: self.rows },
            ),
            unencoded_byte_array_data_bytes: match unencoded {
                Some(n) => appended(self.unencoded_byte_array_data_bytes, Some(seq![n])),
                None => self.unencoded_byte_array_data_bytes,
            },
            rows: (self.rows + row_count) as i64,
        }
    }
}

/// Collects the offset index while pages are written.
#[derive(Debug)]
pub struct OffsetIndexBuilder {
    pub offset_array: Vec<i64>,
    pub compressed_page_size_array: Vec<i32>,
    pub first_row_index_array: Vec<i64>,
    pub unencoded_byte_array_data_bytes_array: Option<Vec<i64>>,
    pub current_first_row_index: i64,
}

impl View for OffsetIndexBuilder {
    type V = OffsetIndexModel;

    open spec fn view(&self) -> OffsetIndexModel {
        OffsetIndexModel {
            pages: Seq::new(
                self.offset_array@.len(),
                |i: int|
                    PageLocation {
                        offset: self.offset_array@[i],
                        compressed_page_size: self.compressed_page_size_array@[i],
                        first_row_index: self.first_row_index_array@[i],
                    },
            ),
            unencoded_byte_array_data_bytes: counts_view(
                self.unencoded_byte_array_data_bytes_array,
            ),
            rows: self.current_first_row_index,
        }
    }
}

impl OffsetIndexBuilder {
    /// Every page has an offset, a size and a first row.
    pub open spec fn wf(&self) -> bool {
        self.offset_array@.len() == self.compressed_page_size_array@.len()
            && self.offset_array@.len() == self.first_row_index_array@.len()
    }

    /// The index of no pages.
    pub fn new() -> (b: Self)
        ensures
            b.wf(),
            b@ == OffsetIndexModel::empty(),
    {
        let b = OffsetIndexBuilder {
            offset_array: Vec::new(),
            compressed_page_size_array: Vec::new(),
            first_row_index_array: Vec::new(),
            unencoded_byte_array_data_bytes_array: None,
            current_first_row_index: 0,
        };
        assert(b@ =~= OffsetIndexModel::empty());
        b
    }

    /// Adds a page of `row_count` rows, with the size of its byte strings where it holds some.
    pub fn append_page(
        &mut self,
        row_count: i64,
        unencoded_byte_array_data_bytes: Option<i64>,
        offset: i64,
        compressed_page_size: i32,
    )
        requires
            old(self).wf(),
            i64::MIN <= old(self)@.rows + row_count <= i64::MAX,
        ensures
            final(self).wf(),
            final(self)@ == old(self)@.with_page(
                offset,
                compressed_page_size,
                row_count,
                unencoded_byte_array_data_bytes,
            ),
            final(self).offset_array@ == old(self).offset_array@.push(offset),
            final(self).compressed_page_size_array@ == old(self).compressed_page_size_array@.push(
                compressed_page_size,
            ),
            final(self).first_row_index_array@ == old(self).first_row_index_array@.push(
                old(self).current_first_row_index,
            ),
            final(self).current_first_row_index == old(self).current_first_row_index + row_count,
    {
        self.first_row_index_array.push(self.current_first_row_index);
        self.current_first_row_index = self.current_first_row_index + row_count;
        if let Some(val) = unencoded_byte_array_data_bytes {
            let mut all: Vec<i64> = match self.unencoded_byte_array_data_bytes_array.take() {
                Some(v) => v,
                None => Vec::new(),
            };
            let ghost start = all@;
            all.push(val);
            assert(all@ =~= start + seq![val]);
            self.unencoded_byte_array_data_bytes_array = Some(all);
        }
        self.offset_array.push(offset);
        self.compressed_page_size_array.push(compressed_page_size);
        assert(self@ =~= old(self)@.with_page(
            offset,
            compressed_page_size,
            row_count,
            unencoded_byte_array_data_bytes,
        ));
    }

    /// The index of the pages that were added.
    pub fn build_to_thrift(self) -> (index: OffsetIndex)
        requires
            self.wf(),
        ensures
            index.page_locations@ == self@.pages,
            counts_view(index.unencoded_byte_array_data_bytes)
                == self@.unencoded_byte_array_data_bytes,
            index.page_locations@.len() == self.offset_array@.len(),
            forall|i: int|
                0 <= i < index.page_locations@.len() ==> (#[trigger] index.page_locations@[i]).offset
                    == self.offset_array@[i] && index.page_locations@[i].compressed_page_size
                    == self.compressed_page_size_array@[i]
                    && index.page_locations@[i].first_row_index == self.first_row_index_array@[i],
            index.unencoded_byte_array_data_bytes == self.unencoded_byte_array_data_bytes_array,
    {
        let mut page_locations: Vec<PageLocation> = Vec::new();
        let mut i: usize = 0;
        while i < self.offset_array.len()
            invariant
                i <= self.offset_array@.len(),
                self.wf(),
                page_locations@ =~= self@.pages.take(i as int),
            decreases self.offset_array@.len() - i,
        {
            page_locations.push(
                PageLocation {
                    offset: self.offset_array[i],
                    compressed_page_size: self.compressed_page_size_array[i],
                    first_row_index: self.first_row_index_array[i],
                },
            );
            i = i + 1;
        }
        assert(self@.pages.take(i as int) =~= self@.pages);
        OffsetIndex {
            page_locations,
            unencoded_byte_array_data_bytes: self.unencoded_byte_array_data_bytes_array,
        }
    }
}

/// The offset index: where each data page of a chunk stands.
#[derive(Debug)]
pub struct OffsetIndex {
    pub page_locations: Vec<PageLocation>,
    pub unencoded_byte_array_data_bytes: Option<Vec<i64>>,
}

/// The metadata of a column chunk as a value.
pub struct ColumnChunkModel {
    pub column_descr: ColumnDescriptor,
    pub encodings: Seq<Encoding>,
    pub num_values: i64,
    pub compression: Compression,
    pub total_compressed_size: i64,
    pub total_uncompressed_size: i64,
    pub data_page_offset: i64,
    pub dictionary_page_offset: Option<i64>,
    pub statistics: Option<StatisticsModel>,
    pub unencoded_byte_array_data_bytes: Option<i64>,
    pub repetition_level_histogram: Option<Seq<i64>>,
    pub definition_level_histogram: Option<Seq<i64>>,
}

/// The metadata of a column chunk.
#[derive(Debug)]
pub struct ColumnChunkMetaData {
    pub column_descr: ColumnDescriptor,
    pub encodings: Vec<Encoding>,
    pub num_values: i64,
    pub compression: Compression,
    pub total_compressed_size: i64,
    pub total_uncompressed_size: i64,
    pub data_page_offset: i64,
    pub dictionary_page_offset: Option<i64>,
    pub statistics: Option<Statistics>,
    pub unencoded_byte_array_data_bytes: Option<i64>,
    pub repetition_level_histogram: Option<LevelHistogram>,
    pub definition_level_histogram: Option<LevelHistogram>,
}

impl View for ColumnChunkMetaData {
    type V = ColumnChunkModel;

    open spec fn view(&self) -> ColumnChunkModel {
        ColumnChunkModel {
            column_descr: self.column_descr,
            encodings: self.encodings@,
            num_values: self.num_values,
            compression: self.compression,
            total_compressed_size: self.total_compressed_size,
            total_uncompressed_size: self.total_uncompressed_size,
            data_page_offset: self.data_page_offset,
            dictionary_page_offset: self.dictionary_page_offset,
            statistics: match self.statistics {
                Some(s) => Some(s@),
                None => None,
            },
            unencoded_byte_array_data_bytes: self.unencoded_byte_array_data_bytes,
            repetition_level_histogram: histogram_view(self.repetition_level_histogram),
            definition_level_histogram: histogram_view(self.definition_level_histogram),
        }
    }
}

/// A level that is added to some is counted once more if it is the level that is counted, and not
/// otherwise.
pub proof fn levels_are_counted_one_by_one(levels: Seq<i16>, more: i16, level: int)
    ensures
        occurrences(Seq::<i16>::empty(), level) == 0,
        more == level ==> occurrences(levels.push(more), level) == occurrences(levels, level) + 1,
        more != level ==> occurrences(levels.push(more), level) == occurrences(levels, level),
{
    assert(levels.push(more).drop_last() =~= levels);
}

/// A histogram has a count for each level from zero to the greatest, and there is none where the
/// greatest is zero. Counting levels in and adding up two histograms work on each count alone.
pub proof fn histograms_count_levels(
    max_level: i16,
    h: Seq<i64>,
    other: Seq<i64>,
    levels: Seq<i16>,
    level: int,
)
    requires
        0 <= level < h.len(),
        h.len() == other.len(),
    ensures
        max_level <= 0 ==> empty_histogram(max_level) is None,
        max_level > 0 ==> {
            &&& empty_histogram(max_level) matches Some(e)
            &&& e.len() == max_level + 1
            &&& forall|i: int| 0 <= i < e.len() ==> #[trigger] e[i] == 0
        },
        i64::MIN <= h[level] + occurrences(levels, level) <= i64::MAX ==> histogram_with(
            h,
            levels,
        )[level] == h[level] + occurrences(levels, level),
        histogram_with(h, levels).len() == h.len(),
        i64::MIN <= h[level] + other[level] <= i64::MAX ==> histogram_sum(h, other)[level]
            == h[level] + other[level],
        histogram_sum(h, other).len() == h.len(),
        histogram_sum_opt(Some(h), Some(other)) == Some(histogram_sum(h, other)),
        histogram_sum_opt(Some(h), None) == Some(h),
        histogram_sum_opt(None, Some(other)) is None,
{
}

/// One more page adds one entry to each list of the column index, behind the others; an index that is
/// given up keeps what it has; and the counts of a page's levels follow those of the pages before it.
pub proof fn column_indexes_grow_by_pages(
    index: ColumnIndexModel,
    null_page: bool,
    min_value: Seq<u8>,
    max_value: Seq<u8>,
    null_count: i64,
    rep: Option<Seq<i64>>,
    def: Option<Seq<i64>>,
)
    ensures
        ({
            let after = index.with_page(null_page, min_value, max_value, null_count);
            &&& after.null_pages == index.null_pages.push(null_page)
            &&& after.min_values == index.min_values.push(min_value)
            &&& after.max_values == index.max_values.push(max_value)
            &&& after.null_counts == index.null_counts.push(null_count)
            &&& after.valid == index.valid
            &&& after.boundary_order == index.boundary_order
            &&& after.repetition_level_histograms == index.repetition_level_histograms
            &&& after.definition_level_histograms == index.definition_level_histograms
        }),
        !index.invalid().valid,
        index.invalid().null_pages == index.null_pages,
        ({
            let empty = ColumnIndexModel::empty();
            &&& empty.valid && empty.boundary_order is UNORDERED
            &&& empty.null_pages.len() == 0 && empty.null_counts.len() == 0
            &&& empty.min_values.len() == 0 && empty.max_values.len() == 0
            &&& empty.repetition_level_histograms is None
            &&& empty.definition_level_histograms is None
        }),
        ({
            let after = index.with_histograms(rep, def);
            let old_rep = index.repetition_level_histograms;
            let old_def = index.definition_level_histograms;
            &&& after.null_pages == index.null_pages && after.null_counts == index.null_counts
            &&& after.min_values == index.min_values && after.max_values == index.max_values
            &&& after.valid == index.valid
            &&& !index.valid || rep is None ==> after.repetition_level_histograms == old_rep
            &&& !index.valid || def is None ==> after.definition_level_histograms == old_def
            &&& index.valid && rep is Some ==> after.repetition_level_histograms == Some(
                if old_rep is Some {
                    old_rep->0 + rep->0
                } else {
                    rep->0
                },
            )
            &&& index.valid && def is Some ==> after.definition_level_histograms == Some(
                if old_def is Some {
                    old_def->0 + def->0
                } else {
                    def->0
                },
            )
        }),
{
    if rep is Some {
        assert(Seq::<i64>::empty() + rep->0 =~= rep->0);
    }
    if def is Some {
        assert(Seq::<i64>::empty() + def->0 =~= def->0);
    }
}

/// One more page stands behind the others in the offset index, with its offset, its size and the
/// number of rows before it; its rows come before the next. The size of its byte strings is kept where
/// it has one.
pub proof fn offset_indexes_grow_by_pages(
    index: OffsetIndexModel,
    offset: i64,
    size: i32,
    row_count: i64,
    unencoded: Option<i64>,
)
    requires
        i64::MIN <= index.rows + row_count <= i64::MAX,
    ensures
        ({
            let after = index.with_page(offset, size, row_count, unencoded);
            let n = index.pages.len() as int;
            let old_bytes = index.unencoded_byte_array_data_bytes;
            &&& after.pages.len() == n + 1
            &&& forall|i: int| 0 <= i < n ==> #[trigger] after.pages[i] == index.pages[i]
            &&& after.pages[n].offset == offset
            &&& after.pages[n].compressed_page_size == size
            &&& after.pages[n].first_row_index == index.rows
            &&& after.rows == index.rows + row_count
            &&& unencoded is None ==> after.unencoded_byte_array_data_bytes == old_bytes
            &&& unencoded is Some ==> after.unencoded_byte_array_data_bytes == Some(
                if old_bytes is Some {
                    old_bytes->0.push(unencoded->0)
                } else {
                    seq![unencoded->0]
                },
            )
        }),
        OffsetIndexModel::empty().pages.len() == 0,
        OffsetIndexModel::empty().rows == 0,
        OffsetIndexModel::empty().unencoded_byte_array_data_bytes is None,
{
    if unencoded is Some {
        let n = unencoded->0;
        assert(Seq::<i64>::empty() + seq![n] =~= seq![n]);
        if index.unencoded_byte_array_data_bytes is Some {
            let all = index.unencoded_byte_array_data_bytes->0;
            assert(all + seq![n] =~= all.push(n));
        }
    }
}

/// What is recorded of a chunk is seen as what its fields hold.
pub proof fn metadata_is_seen_as_it_is(m: ColumnChunkMetaData, index: ColumnIndex)
    ensures
        m@.column_descr == m.column_descr,
        m@.encodings == m.encodings@,
        m@.num_values == m.num_values,
        m@.compression == m.compression,
        m@.total_compressed_size == m.total_compressed_size,
        m@.total_uncompressed_size == m.total_uncompressed_size,
        m@.data_page_offset == m.data_page_offset,
        m@.dictionary_page_offset == m.dictionary_page_offset,
        m.statistics matches Some(s) ==> m@.statistics == Some(s@),
        m.statistics is None ==> m@.statistics is None,
        m@.unencoded_byte_array_data_bytes == m.unencoded_byte_array_data_bytes,
        m.repetition_level_histogram matches Some(h) ==> m@.repetition_level_histogram == Some(
            h.inner@,
        ),
        m.definition_level_histogram matches Some(h) ==> m@.definition_level_histogram == Some(
            h.inner@,
        ),
        m.repetition_level_histogram is None ==> m@.repetition_level_histogram is None,
        m.definition_level_histogram is None ==> m@.definition_level_histogram is None,
        index@.null_pages == index.null_pages@,
        index@.null_counts == index.null_counts@,
        index@.min_values.len() == index.min_values@.len(),
        index@.max_values.len() == index.max_values@.len(),
        forall|i: int|
            0 <= i < index.min_values@.len() ==> #[trigger] index@.min_values[i]
                == index.min_values@[i]@,
        forall|i: int|
            0 <= i < index.max_values@.len() ==> #[trigger] index@.max_values[i]
                == index.max_values@[i]@,
        index@.boundary_order == index.boundary_order,
        index.repetition_level_histograms matches Some(h) ==> index@.repetition_level_histograms
            == Some(h@),
        index.definition_level_histograms matches Some(h) ==> index@.definition_level_histograms
            == Some(h@),
        index@.valid,
{
}

/// Histograms can be added if they have as many counts and no sum leaves its range. Where one is
/// missing, there is nothing to add.
pub proof fn histograms_are_added_if_they_can_be(h: Option<Seq<i64>>, other: Option<Seq<i64>>)
    ensures
        h is None || other is None ==> histograms_add_opt(h, other),
        h is Some && other is Some ==> (histograms_add_opt(h, other) <==> h->0.len() == other->0.len()
            && forall|i: int|
            0 <= i < h->0.len() ==> i64::MIN <= #[trigger] h->0[i] + other->0[i] <= i64::MAX),
{
}

} // verus!
