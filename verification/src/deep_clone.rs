//! Copying arrays out of memory that is about to be overwritten.
use arrow_buffer::{BooleanBuffer, Buffer, NullBuffer};
use arrow_data::ArrayData;
use arrow_schema::ArrowError;
use vstd::prelude::*;

use crate::arrays::{
    all_valid, array_buffers, array_children, array_depth, array_nulls, array_offset, array_rows,
    array_type, array_valid, buffer_data, buffers, child_data, is_checkable, nulls,
};

verus! {

/// For each row, whether it is not null.
pub uninterp spec fn null_bits(n: NullBuffer) -> Seq<bool>;

/// The bits of a byte string, from the least significant bit of the first byte on.
pub open spec fn bits(bytes: Seq<u8>) -> Seq<bool> {
    Seq::new(8 * bytes.len(), |i: int| (bytes[i / 8] >> ((i % 8) as u8)) & 1 == 1)
}

/// Whether the buffers hold the same bytes.
pub open spec fn same_bytes(a: Seq<Buffer>, b: Seq<Buffer>) -> bool {
    a.len() == b.len() && forall|i: int|
        0 <= i < a.len() ==> buffer_data(#[trigger] a[i]) == buffer_data(b[i])
}

/// Whether the nulls `kept` are the nulls `all`. Where no row is null, they need not be kept.
pub open spec fn nulls_kept(kept: Option<NullBuffer>, all: Option<NullBuffer>) -> bool {
    match (kept, all) {
        (Some(x), Some(y)) => null_bits(x) == null_bits(y),
        (None, Some(y)) => !null_bits(y).contains(false),
        (None, None) => true,
        (Some(_), None) => false,
    }
}

/// Whether an array is a copy of another: it has the same type, rows and nulls, its buffers hold the
/// same bytes, the first row stands at the same place in them, and its children are copies.
pub open spec fn is_copy(copy: ArrayData, original: ArrayData) -> bool
    decreases array_depth(original),
{
    &&& array_type(copy) == array_type(original)
    &&& array_rows(copy) == array_rows(original)
    &&& array_offset(copy) == array_offset(original)
    &&& same_bytes(array_buffers(copy), array_buffers(original))
    &&& nulls_kept(array_nulls(copy), array_nulls(original))
    &&& array_children(copy).len() == array_children(original).len()
    &&& forall|i: int|
        0 <= i < array_children(original).len() ==> array_depth(
            #[trigger] array_children(original)[i],
        ) < array_depth(original) && is_copy(array_children(copy)[i], array_children(original)[i])
}

/// Whether the arrays `copies` are copies of the arrays `originals`.
pub open spec fn are_copies(copies: Seq<ArrayData>, originals: Seq<ArrayData>) -> bool {
    copies.len() == originals.len() && forall|i: int|
        0 <= i < copies.len() ==> is_copy(#[trigger] copies[i], originals[i])
}

/// Whether the same rows are null.
pub open spec fn same_nulls(a: Option<NullBuffer>, b: Option<NullBuffer>) -> bool {
    match (a, b) {
        (Some(x), Some(y)) => null_bits(x) == null_bits(y),
        (None, None) => true,
        _ => false,
    }
}

/// Whether these parts hold what those of `original` hold.
pub open spec fn same_parts(
    original: ArrayData,
    buffers: Seq<Buffer>,
    child_data: Seq<ArrayData>,
    nulls: Option<NullBuffer>,
) -> bool {
    &&& same_bytes(buffers, array_buffers(original))
    &&& are_copies(child_data, array_children(original))
    &&& same_nulls(nulls, array_nulls(original))
}

/// `Buffer::from_slice_ref`: a buffer of its own with the bytes of another.
#[verifier::external_body]
fn copy_buffer(b: &Buffer) -> (copy: Buffer)
    ensures
        buffer_data(copy) == buffer_data(*b),
{
    Buffer::from_slice_ref(b.as_slice())
}

/// The buffer that a `NullBuffer` reads its bits from, the first of the bits and their number.
#[verifier::external_body]
fn null_parts(n: &NullBuffer) -> (r: (&Buffer, usize, usize))
    ensures
        r.1 + r.2 <= 8 * buffer_data(*r.0).len(),
        null_bits(*n) == bits(buffer_data(*r.0)).subrange(r.1 as int, r.1 + r.2),
{
    (n.buffer(), n.offset(), n.len())
}

/// `NullBuffer::new` on `BooleanBuffer::new`: `len` bits of a buffer from bit `offset` on. It stops
/// where there are not as many.
#[verifier::external_body]
fn new_nulls(buffer: Buffer, offset: usize, len: usize) -> (n: NullBuffer)
    requires
        offset + len <= 8 * buffer_data(buffer).len(),
    ensures
        null_bits(n) == bits(buffer_data(buffer)).subrange(offset as int, offset + len),
{
    NullBuffer::new(BooleanBuffer::new(buffer, offset, len))
}

/// `ArrayDataBuilder::build`: an array with the type, the length and the offset of another, from
/// parts that hold what those of the other hold. The builder copies buffers that are not aligned,
/// also those of the children, drops nulls where no row is null, validates the parts, and returns an
/// error where they do not form an array; those of a valid array do form one. It stops where the
/// array is not checkable.
#[verifier::external_body]
fn build_like(
    original: &ArrayData,
    buffers: Vec<Buffer>,
    child_data: Vec<ArrayData>,
    nulls: Option<NullBuffer>,
) -> (r: Result<ArrayData, ArrowError>)
    requires
        is_checkable(*original),
        same_parts(*original, buffers@, child_data@, nulls),
        all_valid(child_data@),
    ensures
        r is Err ==> !array_valid(*original),
        r matches Ok(a) ==> array_valid(a),
        r matches Ok(a) ==> array_type(a) == array_type(*original),
        r matches Ok(a) ==> array_rows(a) == array_rows(*original),
        r matches Ok(a) ==> array_offset(a) == array_offset(*original),
        r matches Ok(a) ==> same_bytes(array_buffers(a), buffers@),
        r matches Ok(a) ==> are_copies(array_children(a), child_data@),
        r matches Ok(a) ==> nulls_kept(array_nulls(a), nulls),
{
    ArrayData::builder(original.data_type().clone())
        .len(original.len())
        .offset(original.offset())
        .buffers(buffers)
        .child_data(child_data)
        .nulls(nulls)
        .align_buffers(true)
        .build()
}

/// A copy of a copy is a copy.
proof fn lemma_copy_of_copy(a: ArrayData, b: ArrayData, c: ArrayData)
    requires
        is_copy(a, b),
        is_copy(b, c),
    ensures
        is_copy(a, c),
    decreases array_depth(c),
{
    assert forall|i: int| 0 <= i < array_children(c).len() implies array_depth(
        #[trigger] array_children(c)[i],
    ) < array_depth(c) && is_copy(array_children(a)[i], array_children(c)[i]) by {
        assert(is_copy(array_children(b)[i], array_children(c)[i]));
        assert(array_depth(array_children(b)[i]) < array_depth(b));
        assert(is_copy(array_children(a)[i], array_children(b)[i]));
        lemma_copy_of_copy(array_children(a)[i], array_children(b)[i], array_children(c)[i]);
    }
}

/// Copies an array, and its children with it, into memory of its own. Every valid array can be
/// copied, and a copy is valid.
pub fn deep_clone_array(original: &ArrayData) -> (r: Result<ArrayData, ArrowError>)
    requires
        is_checkable(*original),
    ensures
        array_valid(*original) ==> r is Ok,
        r matches Ok(copy) ==> is_copy(copy, *original) && array_valid(copy),
    decreases array_depth(*original),
{
    let old_buffers = buffers(original);
    let mut new_buffers: Vec<Buffer> = Vec::new();
    let mut i: usize = 0;
    while i < old_buffers.len()
        invariant
            i <= old_buffers@.len(),
            same_bytes(new_buffers@, old_buffers@.take(i as int)),
        decreases old_buffers@.len() - i,
    {
        new_buffers.push(copy_buffer(&old_buffers[i]));
        i = i + 1;
        assert(old_buffers@.take(i as int).drop_last() =~= old_buffers@.take(i - 1));
    }
    assert(old_buffers@.take(i as int) =~= old_buffers@);
    let old_children = child_data(original);
    let mut new_children: Vec<ArrayData> = Vec::new();
    let mut i: usize = 0;
    while i < old_children.len()
        invariant
            i <= old_children@.len(),
            forall|k: int|
                0 <= k < old_children@.len() ==> array_depth(#[trigger] old_children@[k])
                    < array_depth(*original) && is_checkable(old_children@[k]),
            array_valid(*original) ==> all_valid(old_children@),
            all_valid(new_children@),
            are_copies(new_children@, old_children@.take(i as int)),
        decreases old_children@.len() - i,
    {
        match deep_clone_array(&old_children[i]) {
            Ok(child) => {
                new_children.push(child);
            },
            Err(e) => {
                return Err(e);
            },
        }
        i = i + 1;
    }
    assert(old_children@.take(i as int) =~= old_children@);
    let new_nulls = match nulls(original) {
        Some(n) => {
            let (buffer, offset, len) = null_parts(n);
            Some(new_nulls(copy_buffer(buffer), offset, len))
        },
        None => None,
    };
    assert(same_bytes(new_buffers@, array_buffers(*original)));
    let ghost children = new_children@;
    let r = build_like(original, new_buffers, new_children, new_nulls);
    proof {
        if r is Ok {
            let copy = r->Ok_0;
            assert forall|i: int| 0 <= i < old_children@.len() implies array_depth(
                #[trigger] array_children(*original)[i],
            ) < array_depth(*original) && is_copy(
                array_children(copy)[i],
                array_children(*original)[i],
            ) by {
                assert(is_copy(array_children(copy)[i], children[i]));
                assert(is_copy(children[i], old_children@[i]));
                lemma_copy_of_copy(array_children(copy)[i], children[i], old_children@[i]);
            }
        }
    }
    r
}

/// A copy has the type and the rows of the array, its buffers hold the same bytes, its first row stands
/// at the same place, the same rows are null, and its children are copies of the array's children.
pub proof fn copies_agree_in_all_parts(copy: ArrayData, original: ArrayData, i: int)
    requires
        is_copy(copy, original),
    ensures
        array_type(copy) == array_type(original),
        array_rows(copy) == array_rows(original),
        array_offset(copy) == array_offset(original),
        array_buffers(copy).len() == array_buffers(original).len(),
        0 <= i < array_buffers(original).len() ==> buffer_data(array_buffers(copy)[i])
            == buffer_data(array_buffers(original)[i]),
        array_children(copy).len() == array_children(original).len(),
        0 <= i < array_children(original).len() ==> is_copy(
            array_children(copy)[i],
            array_children(original)[i],
        ),
        array_nulls(copy) matches Some(n) ==> (array_nulls(original) matches Some(m) && null_bits(n)
            == null_bits(m)),
        array_nulls(copy) is None ==> (array_nulls(original) matches Some(m) ==> !null_bits(
            m,
        ).contains(false)),
{
    if 0 <= i < array_buffers(original).len() {
        assert(buffer_data(array_buffers(copy)[i]) == buffer_data(array_buffers(original)[i]));
    }
}

} // verus!
