//! Where the parts of a data page stand in the file.
//!
//! The payload of a data page starts with three words: the number of tuples in a chunk, and where
//! the data chunk starts and ends within the payload. When a page is written, padding is put
//! between these words and the data chunk, so that the data chunk stands at a multiple of eight
//! bytes in the file, and the second and third word are set to match. The levels of the page stand
//! in front of its header.
use vstd::prelude::*;
use vstd::slice::slice_subrange;

use crate::format::{DataPageHeaderV2Model, PageHeaderModel};
use crate::level_decoding::{decoded, levels_round_trip};
use crate::levels::{bit_width, encode_levels_v2, encoded_levels, levels_valid};
use crate::little_endian::{u32_at, u32_bytes, u32_from_bytes, u32_round_trip, u32_to_bytes};
use crate::page::{CompressedPage, PageModel, PageWriteSpec};
use crate::schema::ColumnDescriptor;

verus! {

/// The contents of levels that may be missing.
pub open spec fn levels_view(levels: Option<&[i16]>) -> Option<Seq<i16>> {
    match levels {
        Some(l) => Some(l@),
        None => None,
    }
}

/// The bytes of levels that may be missing.
pub open spec fn level_bytes(levels: Option<Seq<i16>>, max_level: i16) -> Seq<u8> {
    match levels {
        Some(l) => encoded_levels(l, max_level),
        None => Seq::empty(),
    }
}

/// Whether levels that may be missing are those of a column with this greatest level.
pub open spec fn levels_valid_opt(levels: Option<Seq<i16>>, max_level: i16) -> bool {
    match levels {
        Some(l) => levels_valid(l, max_level),
        None => true,
    }
}

/// How many bytes it takes from `pos` to a multiple of eight.
pub open spec fn padding_at(pos: int) -> int {
    (8 - pos % 8) % 8
}

/// The header of a page whose levels take `def_len` and `rep_len` bytes.
pub open spec fn header_with_levels(h: PageHeaderModel, def_len: nat, rep_len: nat) -> PageHeaderModel {
    PageHeaderModel {
        uncompressed_page_size: (h.uncompressed_page_size + (def_len as usize) as i32 + (
        rep_len as usize) as i32) as i32,
        data_page_header_v2: Some(
            DataPageHeaderV2Model {
                definition_levels_byte_length: (def_len as usize) as i32,
                repetition_levels_byte_length: (rep_len as usize) as i32,
                ..h.data_page_header_v2->0
            },
        ),
        ..h
    }
}

/// Whether the sizes in `header_with_levels` stay in range.
pub open spec fn levels_fit_header(h: PageHeaderModel, def_len: nat, rep_len: nat) -> bool {
    let def = (def_len as usize) as i32;
    let rep = (rep_len as usize) as i32;
    &&& i32::MIN <= h.uncompressed_page_size + def <= i32::MAX
    &&& i32::MIN <= h.uncompressed_page_size + def + rep <= i32::MAX
}

/// A data page as it is laid out.
pub struct AlignedPage {
    /// The bytes of the definition levels and of the repetition levels.
    pub def: Seq<u8>,
    pub rep: Seq<u8>,
    /// The header, with the size of the page without padding.
    pub header: PageHeaderModel,
    /// The payload without padding.
    pub data: Seq<u8>,
    /// How many bytes of padding stand in front of the data chunk.
    pub padding: int,
}

/// How `page` is laid out behind the first `start` bytes of the file.
pub open spec fn aligned_page(
    start: int,
    page: PageModel,
    def: Option<Seq<i16>>,
    rep: Option<Seq<i16>>,
    descr: ColumnDescriptor,
) -> AlignedPage {
    let def_bytes = level_bytes(def, descr.max_def_level);
    let rep_bytes = level_bytes(rep, descr.max_rep_level);
    let header = header_with_levels(page.header(), def_bytes.len(), rep_bytes.len());
    AlignedPage {
        def: def_bytes,
        rep: rep_bytes,
        header,
        data: page.data,
        padding: padding_at(start + def_bytes.len() + rep_bytes.len() + header.bytes().len() + 4),
    }
}

impl AlignedPage {
    /// The header as it is written: the size of the page includes the padding.
    pub open spec fn padded_header(self) -> PageHeaderModel {
        PageHeaderModel {
            compressed_page_size: (self.header.compressed_page_size + self.padding) as i32,
            ..self.header
        }
    }

    /// Where the data chunk starts within the payload.
    pub open spec fn chunk_start(self) -> u32 {
        (12 + self.padding) as u32
    }

    /// Where the data chunk ends within the payload.
    pub open spec fn chunk_end(self) -> u32 {
        (u32_at(self.data, 8) + self.padding) as u32
    }

    /// The payload as it is written.
    pub open spec fn payload(self) -> Seq<u8> {
        self.data.take(4) + u32_bytes(self.chunk_start()) + u32_bytes(self.chunk_end()) + Seq::new(
            self.padding as nat,
            |i: int| 0u8,
        ) + self.data.skip(12)
    }

    /// What is written.
    pub open spec fn bytes(self) -> Seq<u8> {
        self.def + self.rep + self.padded_header().bytes() + self.payload()
    }

    /// Whether the page can be laid out so: the payload holds its three words, the sizes and
    /// offsets stay in range, and the header does not grow when the padding is added to the size in
    /// it.
    pub open spec fn wf(self) -> bool {
        &&& self.data.len() >= 12
        &&& 0 <= self.padding < 8
        &&& self.header.compressed_page_size + self.padding <= i32::MAX
        &&& self.padded_header().bytes().len() == self.header.bytes().len()
        &&& u32_at(self.data, 8) + self.padding <= u32::MAX
    }
}

/// Whether `page` can be laid out behind the first `start` bytes of the file.
pub open spec fn page_alignable(
    start: int,
    page: PageModel,
    def: Option<Seq<i16>>,
    rep: Option<Seq<i16>>,
    descr: ColumnDescriptor,
) -> bool {
    let a = aligned_page(start, page, def, rep, descr);
    &&& levels_valid_opt(def, descr.max_def_level)
    &&& levels_valid_opt(rep, descr.max_rep_level)
    &&& levels_fit_header(page.header(), a.def.len(), a.rep.len())
    &&& start + a.def.len() + a.rep.len() + a.header.bytes().len() + a.data.len()
        + a.padding <= usize::MAX
    &&& page.uncompressed_size + a.header.bytes().len() + a.padding <= usize::MAX
    &&& a.wf()
}

/// What is recorded of a page that was laid out so behind the first `start` bytes of the file.
pub open spec fn aligned_spec(start: usize, page: PageModel, a: AlignedPage) -> PageWriteSpec {
    PageWriteSpec {
        page_type: page.page_type,
        uncompressed_size: (page.uncompressed_size + a.header.bytes().len() + a.padding) as usize,
        compressed_size: (page.data.len() + a.header.bytes().len() + a.padding) as usize,
        num_values: page.num_values,
        offset: start as u64,
        bytes_written: a.bytes().len() as u64,
    }
}

/// A page that is ready to be written.
pub struct PagePlan {
    /// What is to be written.
    pub bytes: Vec<u8>,
    /// What is recorded of it.
    pub spec: PageWriteSpec,
}

/// The bytes of levels that may be missing, where they are those of a column with this greatest
/// level.
fn encode_opt(levels: Option<&[i16]>, max_level: i16) -> (bytes: Option<Vec<u8>>)
    requires
        max_level >= 0,
    ensures
        bytes is Some <==> levels_valid_opt(levels_view(levels), max_level),
        bytes matches Some(b) ==> b@ == level_bytes(levels_view(levels), max_level),
{
    match levels {
        Some(l) => {
            let mut i: usize = 0;
            while i < l.len()
                invariant
                    levels == Some(l),
                    i <= l.len(),
                    forall|k: int| 0 <= k < i ==> 0 <= #[trigger] l[k] <= max_level,
                decreases l.len() - i,
            {
                if l[i] < 0 || l[i] > max_level {
                    assert(!levels_valid(l@, max_level)) by {
                        assert(!(0 <= l@[i as int] <= max_level));
                    }
                    return None;
                }
                i = i + 1;
            }
            Some(encode_levels_v2(l, max_level))
        },
        None => {
            let empty: Vec<u8> = Vec::new();
            assert(empty@ =~= Seq::<u8>::empty());
            Some(empty)
        },
    }
}

/// `a + b`, where it is in range.
fn sum(a: usize, b: usize) -> (r: Option<usize>)
    ensures
        r == if a + b <= usize::MAX {
            Some((a + b) as usize)
        } else {
            None
        },
{
    if a <= usize::MAX - b {
        Some(a + b)
    } else {
        None
    }
}

/// The header bytes of a page whose levels take `def_len` and `rep_len` bytes, for a page size that
/// is `extra` above that of its payload; nothing where a size leaves its range.
fn header_bytes(page: &CompressedPage, def_len: usize, rep_len: usize, extra: usize) -> (r: Option<
    Vec<u8>,
>)
    requires
        page.wf(),
        page@.data_page_header_v2 is Some,
        extra < 8,
    ensures
        ({
            let h = header_with_levels(page@.header(), def_len as nat, rep_len as nat);
            let padded = PageHeaderModel {
                compressed_page_size: (h.compressed_page_size + extra) as i32,
                ..h
            };
            &&& r is Some <==> levels_fit_header(page@.header(), def_len as nat, rep_len as nat)
                && h.compressed_page_size + extra <= i32::MAX
            &&& r matches Some(bytes) ==> bytes@ == padded.bytes()
        }),
{
    let mut header = page.to_thrift_header();
    let ghost h = header@;
    let size: i32 = match header.uncompressed_page_size.checked_add(def_len as i32) {
        Some(n) => n,
        None => {
            return None;
        },
    };
    header.uncompressed_page_size = match size.checked_add(rep_len as i32) {
        Some(n) => n,
        None => {
            return None;
        },
    };
    header.compressed_page_size = match header.compressed_page_size.checked_add(extra as i32) {
        Some(n) => n,
        None => {
            return None;
        },
    };
    let mut v2 = match header.data_page_header_v2 {
        Some(v2) => v2,
        None => {
            return None;
        },
    };
    v2.definition_levels_byte_length = def_len as i32;
    v2.repetition_levels_byte_length = rep_len as i32;
    header.data_page_header_v2 = Some(v2);
    let mut bytes: Vec<u8> = Vec::new();
    let _ = header.write_to_out_protocol(&mut bytes);
    proof {
        let expected = PageHeaderModel {
            compressed_page_size: (h.compressed_page_size + extra) as i32,
            ..header_with_levels(h, def_len as nat, rep_len as nat)
        };
        assert(header@ == expected);
        assert(Seq::<u8>::empty() + expected.bytes() =~= expected.bytes());
        assert(bytes@ =~= expected.bytes());
    }
    Some(bytes)
}

/// Lays `page` out behind the first `start` bytes of the file, where that is possible.
pub fn plan_aligned_page(
    start: usize,
    page: &CompressedPage,
    def_levels: Option<&[i16]>,
    rep_levels: Option<&[i16]>,
    descr: &ColumnDescriptor,
) -> (plan: Option<PagePlan>)
    requires
        descr.wf(),
        page.wf(),
        page@.data_page_header_v2 is Some,
    ensures
        plan is Some <==> page_alignable(
            start as int,
            page@,
            levels_view(def_levels),
            levels_view(rep_levels),
            *descr,
        ),
        plan matches Some(p) ==> ({
            let a = aligned_page(
                start as int,
                page@,
                levels_view(def_levels),
                levels_view(rep_levels),
                *descr,
            );
            &&& p.bytes@ == a.bytes()
            &&& p.spec == aligned_spec(start, page@, a)
        }),
{
    let ghost a = aligned_page(
        start as int,
        page@,
        levels_view(def_levels),
        levels_view(rep_levels),
        *descr,
    );
    let def = match encode_opt(def_levels, descr.max_def_level) {
        Some(def) => def,
        None => {
            return None;
        },
    };
    let rep = match encode_opt(rep_levels, descr.max_rep_level) {
        Some(rep) => rep,
        None => {
            return None;
        },
    };
    let data = page.data();
    if data.len() < 12 {
        return None;
    }
    let predicted = match header_bytes(page, def.len(), rep.len(), 0) {
        Some(bytes) => bytes,
        None => {
            assert(!levels_fit_header(page@.header(), a.def.len(), a.rep.len()));
            return None;
        },
    };
    assert(a.header == PageHeaderModel {
        compressed_page_size: (a.header.compressed_page_size + 0) as i32,
        ..a.header
    });
    let header_size: usize = predicted.len();
    let end: usize = match sum(start, def.len()) {
        Some(n) => match sum(n, rep.len()) {
            Some(n) => match sum(n, header_size) {
                Some(n) => n,
                None => {
                    return None;
                },
            },
            None => {
                return None;
            },
        },
        None => {
            return None;
        },
    };
    let unpadded_end: usize = match sum(end, data.len()) {
        Some(n) => n,
        None => {
            return None;
        },
    };
    let unpadded_size: usize = match sum(page.uncompressed_size(), header_size) {
        Some(n) => n,
        None => {
            return None;
        },
    };
    let padding: usize = (8 - (end + 4) % 8) % 8;
    if sum(unpadded_end, padding).is_none() || sum(unpadded_size, padding).is_none() {
        return None;
    }
    let header = match header_bytes(page, def.len(), rep.len(), padding) {
        Some(bytes) => bytes,
        None => {
            return None;
        },
    };
    if header.len() != header_size {
        return None;
    }
    let original_end: u32 = u32_from_bytes(data, 8);
    if original_end > u32::MAX - padding as u32 {
        return None;
    }
    let mut bytes: Vec<u8> = def;
    let mut rep = rep;
    let mut header = header;
    bytes.append(&mut rep);
    bytes.append(&mut header);
    bytes.extend_from_slice(slice_subrange(data, 0, 4));
    let mut chunk_start = u32_to_bytes(12 + padding as u32);
    let mut chunk_end = u32_to_bytes(original_end + padding as u32);
    bytes.append(&mut chunk_start);
    bytes.append(&mut chunk_end);
    let ghost front = bytes@;
    let mut i: usize = 0;
    while i < padding
        invariant
            i <= padding,
            bytes@ =~= front + Seq::new(i as nat, |k: int| 0u8),
        decreases padding - i,
    {
        bytes.push(0);
        i = i + 1;
    }
    bytes.extend_from_slice(slice_subrange(data, 12, data.len()));
    proof {
        assert(front =~= a.def + a.rep + a.padded_header().bytes() + a.data.take(4) + u32_bytes(
            a.chunk_start(),
        ) + u32_bytes(a.chunk_end()));
        assert(bytes@ =~= a.bytes());
    }
    let spec = PageWriteSpec {
        page_type: page.page_type(),
        uncompressed_size: unpadded_size + padding,
        compressed_size: data.len() + header_size + padding,
        num_values: page.num_values(),
        offset: start as u64,
        bytes_written: bytes.len() as u64,
    };
    Some(PagePlan { bytes, spec })
}

/// Whether `page` can be written, header first, behind the first `start` bytes of the file.
pub open spec fn page_fits(start: int, page: PageModel) -> bool {
    let header_size = page.header().bytes().len();
    &&& start + header_size + page.data.len() <= usize::MAX
    &&& page.uncompressed_size + header_size <= usize::MAX
}

/// What is recorded of a page that was written, header first, behind the first `start` bytes of
/// the file.
pub open spec fn plain_spec(start: usize, page: PageModel) -> PageWriteSpec {
    let header_size = page.header().bytes().len();
    PageWriteSpec {
        page_type: page.page_type,
        uncompressed_size: (page.uncompressed_size + header_size) as usize,
        compressed_size: (page.data.len() + header_size) as usize,
        num_values: page.num_values,
        offset: start as u64,
        bytes_written: (header_size + page.data.len()) as u64,
    }
}

/// Makes `page` ready to be written, header first, behind the first `start` bytes of the file,
/// where that is possible.
pub fn plan_plain_page(start: usize, page: &CompressedPage) -> (plan: Option<PagePlan>)
    requires
        page.wf(),
    ensures
        plan is Some <==> page_fits(start as int, page@),
        plan matches Some(p) ==> p.bytes@ == page@.header().bytes() + page@.data && p.spec
            == plain_spec(start, page@),
{
    let mut bytes: Vec<u8> = Vec::new();
    let _ = page.to_thrift_header().write_to_out_protocol(&mut bytes);
    assert(bytes@ =~= page@.header().bytes());
    let data = page.data();
    let header_size: usize = bytes.len();
    let end: usize = match sum(start, header_size) {
        Some(n) => n,
        None => {
            return None;
        },
    };
    if sum(end, data.len()).is_none() {
        return None;
    }
    let uncompressed_size: usize = match sum(page.uncompressed_size(), header_size) {
        Some(n) => n,
        None => {
            return None;
        },
    };
    bytes.extend_from_slice(data);
    assert(bytes@ =~= page@.header().bytes() + page@.data);
    let spec = PageWriteSpec {
        page_type: page.page_type(),
        uncompressed_size,
        compressed_size: data.len() + header_size,
        num_values: page.num_values(),
        offset: start as u64,
        bytes_written: bytes.len() as u64,
    };
    Some(PagePlan { bytes, spec })
}

/// A page that was laid out takes the bytes of its levels, its header, its payload and the padding.
pub proof fn aligned_page_size(a: AlignedPage)
    requires
        a.wf(),
    ensures
        a.bytes().len() == a.def.len() + a.rep.len() + a.header.bytes().len() + a.data.len()
            + a.padding,
{
    assert(a.payload().len() == a.data.len() + a.padding);
}

/// A page that was laid out has a header of the length that its padding was computed from, and its
/// payload holds the three words; one whose payload is too short for them, or whose header would
/// grow, cannot be laid out.
pub proof fn header_has_predicted_length(
    start: int,
    page: PageModel,
    def: Option<Seq<i16>>,
    rep: Option<Seq<i16>>,
    descr: ColumnDescriptor,
)
    ensures
        ({
            let a = aligned_page(start, page, def, rep, descr);
            &&& page.data.len() < 12 ==> !page_alignable(start, page, def, rep, descr)
            &&& a.padded_header().bytes().len() != a.header.bytes().len() ==> !page_alignable(
                start,
                page,
                def,
                rep,
                descr,
            )
            &&& page_alignable(start, page, def, rep, descr) ==> a.padding == padding_at(
                start + a.def.len() + a.rep.len() + a.padded_header().bytes().len() + 4,
            )
        }),
{
}

/// The data chunk of a page that was laid out stands at a multiple of eight bytes in the file, and
/// the words in front of it say where it starts and ends within the payload.
pub proof fn data_chunk_is_aligned(
    start: int,
    page: PageModel,
    def: Option<Seq<i16>>,
    rep: Option<Seq<i16>>,
    descr: ColumnDescriptor,
)
    requires
        page_alignable(start, page, def, rep, descr),
        start >= 0,
    ensures
        ({
            let a = aligned_page(start, page, def, rep, descr);
            let payload_at = a.bytes().len() - a.payload().len();
            &&& (start + payload_at + a.chunk_start()) % 8 == 0
            &&& a.bytes().skip(payload_at) == a.payload()
            &&& u32_at(a.payload(), 4) == a.chunk_start()
            &&& u32_at(a.payload(), 8) == u32_at(page.data, 8) + a.padding
            &&& a.payload().skip(a.chunk_start() as int) == page.data.skip(12)
            &&& a.payload().take(4) == page.data.take(4)
            &&& a.payload().len() == page.data.len() + a.padding
        }),
{
    let a = aligned_page(start, page, def, rep, descr);
    lemma_payload(a);
    aligned_page_size(a);
    let front = a.def + a.rep + a.padded_header().bytes();
    assert(a.bytes().skip(front.len() as int) =~= a.payload());
    lemma_padding(start + a.def.len() + a.rep.len() + a.header.bytes().len() + 4);
}

/// The words of a payload that was laid out, and what stands behind them.
proof fn lemma_payload(a: AlignedPage)
    requires
        a.wf(),
    ensures
        u32_at(a.payload(), 4) == a.chunk_start(),
        u32_at(a.payload(), 8) == u32_at(a.data, 8) + a.padding,
        a.chunk_start() == 12 + a.padding,
        a.payload().skip(a.chunk_start() as int) == a.data.skip(12),
        a.payload().take(4) == a.data.take(4),
        a.payload().len() == a.data.len() + a.padding,
{
    let payload = a.payload();
    let s = u32_bytes(a.chunk_start());
    let e = u32_bytes(a.chunk_end());
    u32_round_trip(a.chunk_start());
    u32_round_trip(a.chunk_end());
    assert(payload.subrange(4, 8) =~= s);
    assert(payload.subrange(8, 12) =~= e);
    assert(u32_at(payload, 4) == u32_at(s, 0)) by {
        assert(payload[4] == payload.subrange(4, 8)[0]);
        assert(payload[5] == payload.subrange(4, 8)[1]);
        assert(payload[6] == payload.subrange(4, 8)[2]);
        assert(payload[7] == payload.subrange(4, 8)[3]);
    }
    assert(u32_at(payload, 8) == u32_at(e, 0)) by {
        assert(payload[8] == payload.subrange(8, 12)[0]);
        assert(payload[9] == payload.subrange(8, 12)[1]);
        assert(payload[10] == payload.subrange(8, 12)[2]);
        assert(payload[11] == payload.subrange(8, 12)[3]);
    }
    assert(payload.skip(a.chunk_start() as int) =~= a.data.skip(12));
    assert(payload.take(4) =~= a.data.take(4));
}

proof fn lemma_padding(pos: int)
    requires
        pos >= 0,
    ensures
        (pos + padding_at(pos)) % 8 == 0,
{
}

/// The header of a page that was laid out says how many bytes its definition levels and its
/// repetition levels take, counts both to its size before compression, and counts the padding to its
/// size as it is written. In all else it is the header of the page.
pub proof fn headers_say_how_long_levels_are(
    start: int,
    page: PageModel,
    def: Option<Seq<i16>>,
    rep: Option<Seq<i16>>,
    descr: ColumnDescriptor,
)
    requires
        page_alignable(start, page, def, rep, descr),
        page.data_page_header_v2 is Some,
        level_bytes(def, descr.max_def_level).len() <= i32::MAX,
        level_bytes(rep, descr.max_rep_level).len() <= i32::MAX,
        page.uncompressed_size <= i32::MAX,
        page.data.len() <= i32::MAX,
    ensures
        ({
            let a = aligned_page(start, page, def, rep, descr);
            let h = a.padded_header();
            let described = page.data_page_header_v2->0;
            let def_len = if def is Some {
                encoded_levels(def->0, descr.max_def_level).len()
            } else {
                0
            };
            let rep_len = if rep is Some {
                encoded_levels(rep->0, descr.max_rep_level).len()
            } else {
                0
            };
            &&& h.data_page_header_v2 matches Some(d) && {
                &&& d.definition_levels_byte_length == def_len
                &&& d.repetition_levels_byte_length == rep_len
                &&& d.num_values == described.num_values
                &&& d.num_nulls == described.num_nulls
                &&& d.num_rows == described.num_rows
                &&& d.encoding == described.encoding
                &&& d.is_compressed == described.is_compressed
                &&& d.statistics == described.statistics
            }
            &&& h.uncompressed_page_size == page.uncompressed_size + def_len + rep_len
            &&& h.compressed_page_size == page.data.len() + a.padding
            &&& h.type_ == page.header().type_
            &&& h.decoder_version == page.decoder_version
        }),
{
}

/// A page that was laid out can be taken apart by what its header says. The definition levels are as
/// many bytes as it says, and are read back from them; the repetition levels follow in the same way;
/// then come the header itself and the payload, in which the words of the page stand in front of the
/// padding, zeros all, and the data chunk behind it.
#[verifier::spinoff_prover]
#[verifier::rlimit(60)]
pub proof fn pages_can_be_taken_apart(
    start: int,
    page: PageModel,
    def: Option<Seq<i16>>,
    rep: Option<Seq<i16>>,
    descr: ColumnDescriptor,
)
    requires
        page_alignable(start, page, def, rep, descr),
        descr.wf(),
        page.data_page_header_v2 is Some,
        level_bytes(def, descr.max_def_level).len() <= i32::MAX,
        level_bytes(rep, descr.max_rep_level).len() <= i32::MAX,
        page.uncompressed_size <= i32::MAX,
        page.data.len() <= i32::MAX,
    ensures
        ({
            let a = aligned_page(start, page, def, rep, descr);
            let d = a.padded_header().data_page_header_v2->0;
            let rep_at = d.definition_levels_byte_length as int;
            let header_at = rep_at + d.repetition_levels_byte_length;
            let payload_at = header_at + a.padded_header().bytes().len();
            let payload = a.bytes().skip(payload_at);
            &&& 0 <= rep_at <= header_at <= payload_at <= a.bytes().len()
            &&& def matches Some(levels) ==> decoded(
                a.bytes().subrange(0, rep_at),
                bit_width(descr.max_def_level as nat),
                levels.len(),
            ) == levels
            &&& def is None ==> rep_at == 0
            &&& rep matches Some(levels) ==> decoded(
                a.bytes().subrange(rep_at, header_at),
                bit_width(descr.max_rep_level as nat),
                levels.len(),
            ) == levels
            &&& rep is None ==> header_at == rep_at
            &&& a.bytes().subrange(header_at, payload_at) == a.padded_header().bytes()
            &&& payload.len() == page.data.len() + a.padding
            &&& 0 <= a.padding < 8
            &&& payload.take(4) == page.data.take(4)
            &&& u32_at(payload, 4) == 12 + a.padding
            &&& u32_at(payload, 8) == u32_at(page.data, 8) + a.padding
            &&& forall|i: int| 12 <= i < 12 + a.padding ==> #[trigger] payload[i] == 0
            &&& payload.skip(12 + a.padding) == page.data.skip(12)
            &&& (start + payload_at + 12 + a.padding) % 8 == 0
        }),
{
    headers_say_how_long_levels_are(start, page, def, rep, descr);
    data_chunk_is_aligned_anywhere(start, page, def, rep, descr);
    let a = aligned_page(start, page, def, rep, descr);
    lemma_payload(a);
    lemma_parts(a);
    if let Some(levels) = def {
        levels_round_trip(levels, descr.max_def_level);
    }
    if let Some(levels) = rep {
        levels_round_trip(levels, descr.max_rep_level);
    }
}

/// Where the parts of a page stand that was laid out.
proof fn lemma_parts(a: AlignedPage)
    requires
        a.wf(),
    ensures
        ({
            let rep_at = a.def.len() as int;
            let header_at = rep_at + a.rep.len();
            let payload_at = header_at + a.padded_header().bytes().len();
            &&& payload_at <= a.bytes().len()
            &&& a.bytes().subrange(0, rep_at) == a.def
            &&& a.bytes().subrange(rep_at, header_at) == a.rep
            &&& a.bytes().subrange(header_at, payload_at) == a.padded_header().bytes()
            &&& a.bytes().skip(payload_at) == a.payload()
            &&& forall|i: int| 12 <= i < 12 + a.padding ==> #[trigger] a.payload()[i] == 0
        }),
{
    let rep_at = a.def.len() as int;
    let header_at = rep_at + a.rep.len();
    let header = a.padded_header().bytes();
    let payload_at = header_at + header.len();
    assert(a.bytes().subrange(0, rep_at) =~= a.def);
    assert(a.bytes().subrange(rep_at, header_at) =~= a.rep);
    assert(a.bytes().subrange(header_at, payload_at) =~= header);
    assert(a.bytes().skip(payload_at) =~= a.payload());
    assert forall|i: int| 12 <= i < 12 + a.padding implies #[trigger] a.payload()[i] == 0 by {}
}

proof fn data_chunk_is_aligned_anywhere(
    start: int,
    page: PageModel,
    def: Option<Seq<i16>>,
    rep: Option<Seq<i16>>,
    descr: ColumnDescriptor,
)
    requires
        page_alignable(start, page, def, rep, descr),
    ensures
        ({
            let a = aligned_page(start, page, def, rep, descr);
            (start + a.def.len() + a.rep.len() + a.padded_header().bytes().len() + 12 + a.padding)
                % 8 == 0
        }),
{
}

/// What is recorded of a page that was laid out: its type and its values, the position behind which
/// it stands, all bytes that were written, and the sizes of header, payload and padding, without the
/// levels.
pub proof fn records_of_pages_count_their_bytes(
    start: usize,
    page: PageModel,
    def: Option<Seq<i16>>,
    rep: Option<Seq<i16>>,
    descr: ColumnDescriptor,
)
    requires
        page_alignable(start as int, page, def, rep, descr),
    ensures
        ({
            let a = aligned_page(start as int, page, def, rep, descr);
            let spec = aligned_spec(start, page, a);
            let header = a.padded_header().bytes().len();
            let levels = a.def.len() + a.rep.len();
            &&& spec.page_type == page.page_type
            &&& spec.num_values == page.num_values
            &&& spec.offset == start
            &&& spec.bytes_written == a.bytes().len()
            &&& spec.compressed_size == a.bytes().len() - levels
            &&& spec.compressed_size == header + page.data.len() + a.padding
            &&& spec.uncompressed_size == header + page.uncompressed_size + a.padding
        }),
{
    aligned_page_size(aligned_page(start as int, page, def, rep, descr));
}

/// What is recorded of a page that was written header first: its type and its values, the position
/// behind which it stands, all bytes that were written, and the sizes of header and payload.
pub proof fn records_of_plain_pages_count_their_bytes(start: usize, page: PageModel)
    ensures
        page_fits(start as int, page) <==> {
            &&& start + page.header().bytes().len() + page.data.len() <= usize::MAX
            &&& page.uncompressed_size + page.header().bytes().len() <= usize::MAX
        },
        page_fits(start as int, page) ==> {
            let spec = plain_spec(start, page);
            let header = page.header().bytes().len();
            &&& spec.page_type == page.page_type
            &&& spec.num_values == page.num_values
            &&& spec.offset == start
            &&& spec.bytes_written == header + page.data.len()
            &&& spec.compressed_size == header + page.data.len()
            &&& spec.uncompressed_size == header + page.uncompressed_size
        },
{
}

/// A page can be laid out where its levels are levels of the column, its payload has room for the
/// three words, no size or offset leaves its range, and the padding does not make the header longer.
pub proof fn ordinary_pages_can_be_laid_out(
    start: int,
    page: PageModel,
    def: Option<Seq<i16>>,
    rep: Option<Seq<i16>>,
    descr: ColumnDescriptor,
)
    requires
        start >= 0,
        def matches Some(l) ==> forall|i: int|
            0 <= i < l.len() ==> 0 <= #[trigger] l[i] <= descr.max_def_level,
        rep matches Some(l) ==> forall|i: int|
            0 <= i < l.len() ==> 0 <= #[trigger] l[i] <= descr.max_rep_level,
        page.data.len() >= 12,
        page.data.len() + 7 <= i32::MAX,
        u32_at(page.data, 8) + 7 <= u32::MAX,
        ({
            let a = aligned_page(start, page, def, rep, descr);
            &&& page.uncompressed_size + a.def.len() + a.rep.len() <= i32::MAX
            &&& start + a.def.len() + a.rep.len() + a.header.bytes().len() + page.data.len() + 7
                <= usize::MAX
            &&& page.uncompressed_size + a.header.bytes().len() + 7 <= usize::MAX
            &&& a.padded_header().bytes().len() == a.header.bytes().len()
        }),
    ensures
        page_alignable(start, page, def, rep, descr),
{
}

} // verus!
