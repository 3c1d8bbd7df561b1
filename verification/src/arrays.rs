//! Arrow arrays, as far as reading a column needs them: what they are made of, how many rows they
//! have, parts of them, and one behind another.
//!
//! What the Arrow crates do is trusted as the contracts of this module say. An array is seen as the
//! sequence of its rows.
use arrow_array::Array;
use arrow_buffer::{Buffer, NullBuffer, ScalarBuffer};
use arrow_data::ArrayData;
use arrow_schema::{ArrowError, DataType};
use vstd::prelude::*;

use crate::errors::ParquetError;
use crate::types::{
    are_long_words_needed, buffer_width, has_layout, has_narrow_offsets, is_flat, is_flat_type,
    is_joinable, is_joinable_type, is_layout_known, is_wide, is_wide_type, key_width,
    length_of_lists, list_length, needs_long_words, reserved_width, run_end_width, width_of_buffer,
    width_of_keys, width_of_run_ends, width_reserved,
};

verus! {

/// The data of an Arrow array.
#[verifier::external_type_specification]
#[verifier::external_body]
pub struct ExArrayData(ArrayData);

/// A region of memory that holds part of an Arrow array.
#[verifier::external_type_specification]
#[verifier::external_body]
pub struct ExBuffer(Buffer);

/// Which rows of an Arrow array are not null.
#[verifier::external_type_specification]
#[verifier::external_body]
pub struct ExNullBuffer(NullBuffer);

/// A row of an array.
pub struct Row {
    /// The bytes of its value. A row without a value is null, or stands for a null value of a
    /// dictionary or a run.
    pub value: Option<Seq<u8>>,
    /// How many bytes the row takes up in an array of byte strings or text with offsets of 32 bits,
    /// where a null row can take up bytes as well; in other arrays, zero.
    pub stored: nat,
}

/// The rows of an array.
pub uninterp spec fn array_rows(a: ArrayData) -> Seq<Row>;

/// The type of an array.
pub uninterp spec fn array_type(a: ArrayData) -> DataType;

/// The place of the first row in the buffers of an array.
pub uninterp spec fn array_offset(a: ArrayData) -> nat;

/// The buffers of an array.
pub uninterp spec fn array_buffers(a: ArrayData) -> Seq<Buffer>;

/// The bytes of a buffer.
pub uninterp spec fn buffer_data(b: Buffer) -> Seq<u8>;

/// The children of an array.
pub uninterp spec fn array_children(a: ArrayData) -> Seq<ArrayData>;

/// How many levels of children an array has below it.
pub uninterp spec fn array_depth(a: ArrayData) -> nat;

/// Which rows of an array are not null, where some are.
pub uninterp spec fn array_nulls(a: ArrayData) -> Option<NullBuffer>;

/// Whether an array is checkable, and its parts and those of its children fit together and hold what
/// the array's type asks for, such as text or offsets that ascend.
pub uninterp spec fn array_valid(a: ArrayData) -> bool;

/// The keys of an array of dictionary entries, also those of null rows, as unsigned integers.
pub uninterp spec fn array_keys(a: ArrayData) -> Seq<nat>;

/// Whether `concat` puts the rows of `b` behind those of `a`, where both are of one type that is
/// made up of others.
pub uninterp spec fn nested_joins(a: ArrayData, b: ArrayData) -> bool;

/// Whether all of the arrays are valid.
pub open spec fn all_valid(arrays: Seq<ArrayData>) -> bool {
    forall|i: int| 0 <= i < arrays.len() ==> array_valid(#[trigger] arrays[i])
}

/// How many bytes the rows take up.
pub open spec fn stored(rows: Seq<Row>) -> nat
    decreases rows.len(),
{
    if rows.len() == 0 {
        0
    } else {
        stored(rows.drop_last()) + rows.last().stored
    }
}

/// Whether an array of type `t` can hold the rows: its offsets reach as far as they take up bytes.
pub open spec fn rows_fit(t: DataType, rows: Seq<Row>) -> bool {
    has_narrow_offsets(t) ==> stored(rows) <= i32::MAX
}

/// Whether `concat` puts the rows of `b` behind those of `a`, where both are of one type.
pub open spec fn joins(a: ArrayData, b: ArrayData) -> bool {
    if is_flat(array_type(a)) {
        rows_fit(array_type(a), array_rows(a) + array_rows(b))
    } else {
        nested_joins(a, b)
    }
}

/// How many bytes the buffers hold.
pub open spec fn bytes_in(buffers: Seq<Buffer>) -> nat
    decreases buffers.len(),
{
    if buffers.len() == 0 {
        0
    } else {
        bytes_in(buffers.drop_last()) + buffer_data(buffers.last()).len()
    }
}

/// How large an array is: its rows, the bytes that room is made for with each of them, the bytes in
/// its buffers, and the same of its children.
pub open spec fn weight(a: ArrayData) -> nat
    decreases array_depth(a), array_children(a).len() + 1,
{
    array_rows(a).len() + array_rows(a).len() * reserved_width(array_type(a)) + bytes_in(
        array_buffers(a),
    ) + weight_of_children(a, array_children(a).len())
}

/// How large the first `n` children of an array are.
pub open spec fn weight_of_children(a: ArrayData, n: nat) -> nat
    decreases array_depth(a), n,
{
    if n == 0 || n > array_children(a).len() {
        0
    } else {
        let child = array_children(a)[n - 1];
        weight_of_children(a, (n - 1) as nat) + if array_depth(child) < array_depth(a) {
            weight(child)
        } else {
            0
        }
    }
}

/// Whether the rows in the lists of an array can be counted, where all lists have one length.
pub open spec fn lists_counted(a: ArrayData) -> bool {
    list_length(array_type(a)) matches Some(n) ==> n < 0 || (array_offset(a) + array_rows(a).len())
        * n <= usize::MAX
}

/// Whether the buffers of an array, and the one with the ends of its runs, hold whole integers where
/// they say where the rows are.
pub open spec fn buffers_whole(a: ArrayData) -> bool {
    &&& forall|i: int|
        0 <= i < array_buffers(a).len() ==> buffer_data(#[trigger] array_buffers(a)[i]).len()
            % buffer_width(array_type(a), i) == 0
    &&& array_children(a).len() > 0 && array_buffers(array_children(a)[0]).len() > 0
        ==> buffer_data(array_buffers(array_children(a)[0])[0]).len() % run_end_width(array_type(a))
        == 0
}

/// Whether Arrow can check an array and its children: the check stops where the layout of the type
/// is not known, where rows in lists of one length cannot be counted, where buffers do not hold
/// whole integers, and where the sum of two places leaves a machine word.
pub open spec fn is_checkable(a: ArrayData) -> bool
    decreases array_depth(a),
{
    &&& has_layout(array_type(a))
    &&& needs_long_words(array_type(a)) ==> usize::MAX > u32::MAX
    &&& lists_counted(a)
    &&& buffers_whole(a)
    &&& forall|i: int|
        0 <= i < array_children(a).len() && array_depth(#[trigger] array_children(a)[i])
            < array_depth(a) ==> is_checkable(array_children(a)[i])
}

/// Whether the keys of an array of dictionary entries, also those of null rows, are keys of its
/// dictionary. Where the dictionary is empty they are zero.
pub open spec fn keys_in_range(a: ArrayData) -> bool {
    let n = array_rows(array_children(a)[0]).len();
    forall|i: int|
        0 <= i < array_keys(a).len() ==> #[trigger] array_keys(a)[i] < if n == 0 {
            1
        } else {
            n
        }
}

/// Whether the keys of all dictionary entries in an array are in range.
pub open spec fn all_keys_in_range(a: ArrayData) -> bool
    decreases array_depth(a),
{
    &&& key_width(array_type(a)) is Some ==> keys_in_range(a)
    &&& forall|i: int|
        0 <= i < array_children(a).len() ==> array_depth(#[trigger] array_children(a)[i])
            < array_depth(a) && all_keys_in_range(array_children(a)[i])
}

/// How large two arrays of a type that is made up of others may be together, so that they are small
/// enough for the offsets in it. Where values are put together one by one, room is made for as many
/// of the widest numbers as there are rows, which has to be counted in a machine word.
pub open spec fn join_limit(t: DataType) -> int {
    if is_wide(t) {
        isize::MAX as int
    } else if usize::MAX > u32::MAX {
        i32::MAX as int
    } else {
        0x1ff_ffff
    }
}

/// Whether it is safe to put the rows of `b` behind those of `a`. With a type that is made up of
/// others both together have to be small enough, and all keys have to be in range: `concat` stops
/// where the offsets of lists or of the values of a dictionary leave their range, and adds to the
/// keys of null rows as well.
pub open spec fn is_safe_to_join(a: ArrayData, b: ArrayData) -> bool {
    is_flat(array_type(a)) || (all_keys_in_range(b) && weight(a) + weight(b) <= join_limit(
        array_type(a),
    ))
}

/// Whether the rows of `b` can be put behind those of `a`, where both are of one type.
pub open spec fn is_joinable_pair(a: ArrayData, b: ArrayData) -> bool {
    is_safe_to_join(a, b) && joins(a, b)
}

/// Whether arrays of type `t` come up on the way from the rows `before` to the rows `after` that
/// cannot be put together.
pub open spec fn is_stuck(t: DataType, before: Seq<Row>, after: Seq<Row>) -> bool {
    exists|a: ArrayData, b: ArrayData|
        {
            &&& array_type(a) == t
            &&& array_type(b) == t
            &&& array_valid(a)
            &&& array_valid(b)
            &&& array_rows(b).len() > 0
            &&& before.is_prefix_of(array_rows(a))
            &&& (array_rows(a) + array_rows(b)).is_prefix_of(after)
            &&& !#[trigger] is_joinable_pair(a, b)
        }
}

/// `ArrayData::len`: the number of rows.
#[verifier::external_body]
pub(crate) fn array_len(a: &ArrayData) -> (n: usize)
    ensures
        n == array_rows(*a).len(),
{
    a.len()
}

/// `ArrayData::offset`: the place of the first row in the buffers.
#[verifier::external_body]
fn array_start(a: &ArrayData) -> (n: usize)
    ensures
        n == array_offset(*a),
{
    a.offset()
}

/// `ArrayData::data_type`: the type of an array.
#[verifier::external_body]
pub(crate) fn data_type(a: &ArrayData) -> (t: &DataType)
    ensures
        *t == array_type(*a),
{
    a.data_type()
}

/// `ArrayData::buffers`: the buffers of an array.
#[verifier::external_body]
pub(crate) fn buffers(a: &ArrayData) -> (r: &[Buffer])
    ensures
        r@ == array_buffers(*a),
{
    a.buffers()
}

/// `Buffer::len`: how many bytes a buffer holds.
#[verifier::external_body]
fn buffer_len(b: &Buffer) -> (n: usize)
    ensures
        n == buffer_data(*b).len(),
{
    b.len()
}

/// `ArrayData::child_data`: the children of an array. An array is a finite tree, so each child has
/// fewer levels below it. The children of a valid array are valid, and a valid array of dictionary
/// entries has one child, the dictionary.
#[verifier::external_body]
pub(crate) fn child_data(a: &ArrayData) -> (r: &[ArrayData])
    ensures
        r@ == array_children(*a),
        forall|i: int| 0 <= i < r@.len() ==> array_depth(#[trigger] r@[i]) < array_depth(*a),
        array_valid(*a) ==> all_valid(r@),
        array_valid(*a) && key_width(array_type(*a)) is Some ==> r@.len() == 1,
{
    a.child_data()
}

/// `ArrayData::nulls`: which rows of an array are not null.
#[verifier::external_body]
pub(crate) fn nulls(a: &ArrayData) -> (r: Option<&NullBuffer>)
    ensures
        match r {
            Some(n) => array_nulls(*a) == Some(*n),
            None => array_nulls(*a) is None,
        },
{
    a.nulls()
}

/// `ArrayData::validate_full`: whether an array and its children are valid. It stops on arrays that
/// are not checkable.
#[verifier::external_body]
fn validate_full(a: &ArrayData) -> (valid: bool)
    requires
        is_checkable(*a),
    ensures
        valid == array_valid(*a),
{
    a.validate_full().is_ok()
}

/// Whether the rows in the lists of an array can be counted, where all lists have one length.
fn are_lists_counted(a: &ArrayData) -> (b: bool)
    ensures
        b == lists_counted(*a),
{
    if let Some(n) = length_of_lists(data_type(a)) {
        if n > 0 {
            match array_start(a).checked_add(array_len(a)) {
                Some(end) => {
                    return end.checked_mul(n as usize).is_some();
                },
                None => {
                    assert((array_offset(*a) + array_rows(*a).len()) * n > usize::MAX)
                        by (nonlinear_arith)
                        requires
                            array_offset(*a) + array_rows(*a).len() > usize::MAX,
                            n >= 1,
                    ;
                    return false;
                },
            }
        }
        assert(n == 0 ==> (array_offset(*a) + array_rows(*a).len()) * n == 0) by (nonlinear_arith);
    }
    true
}

/// Whether the buffers of an array hold whole integers where they say where the rows are.
fn are_buffers_whole(a: &ArrayData) -> (b: bool)
    ensures
        b == buffers_whole(*a),
{
    let parts = buffers(a);
    let mut i: usize = 0;
    while i < parts.len()
        invariant
            i <= parts@.len(),
            parts@ == array_buffers(*a),
            forall|k: int|
                0 <= k < i ==> buffer_data(#[trigger] array_buffers(*a)[k]).len() % buffer_width(
                    array_type(*a),
                    k,
                ) == 0,
        decreases parts@.len() - i,
    {
        if buffer_len(&parts[i]) % width_of_buffer(data_type(a), i) != 0 {
            assert(buffer_data(array_buffers(*a)[i as int]).len() % buffer_width(
                array_type(*a),
                i as int,
            ) != 0);
            return false;
        }
        i = i + 1;
    }
    let children = child_data(a);
    if children.len() > 0 {
        let ends = buffers(&children[0]);
        if ends.len() > 0 {
            return buffer_len(&ends[0]) % width_of_run_ends(data_type(a)) == 0;
        }
    }
    true
}

/// Whether Arrow can check an array and its children.
pub fn is_checkable_array(a: &ArrayData) -> (b: bool)
    ensures
        b == is_checkable(*a),
    decreases array_depth(*a),
{
    let t = data_type(a);
    let long_words: bool = usize::MAX as u64 > u32::MAX as u64;
    if !is_layout_known(t) || (are_long_words_needed(t) && !long_words) || !are_lists_counted(a)
        || !are_buffers_whole(a) {
        return false;
    }
    let children = child_data(a);
    let mut i: usize = 0;
    while i < children.len()
        invariant
            i <= children@.len(),
            children@ == array_children(*a),
            forall|k: int|
                0 <= k < children@.len() ==> array_depth(#[trigger] children@[k]) < array_depth(*a),
            forall|k: int| 0 <= k < i ==> is_checkable(#[trigger] array_children(*a)[k]),
        decreases children@.len() - i,
    {
        if !is_checkable_array(&children[i]) {
            assert(!is_checkable(array_children(*a)[i as int]));
            return false;
        }
        i = i + 1;
    }
    true
}

/// Whether an array and its children are checkable and valid.
pub fn is_valid_array(a: &ArrayData) -> (valid: bool)
    ensures
        valid == (is_checkable(*a) && array_valid(*a)),
{
    is_checkable_array(a) && validate_full(a)
}

/// `ScalarBuffer::new` on keys that are one byte wide.
#[verifier::external_body]
fn keys_u8(a: &ArrayData) -> (keys: Vec<u64>)
    requires
        array_valid(*a),
        key_width(array_type(*a)) == Some(1nat),
    ensures
        keys@.map_values(|k: u64| k as nat) == array_keys(*a),
{
    let keys = ScalarBuffer::<u8>::new(a.buffers()[0].clone(), a.offset(), a.len());
    keys.iter().map(|k| *k as u64).collect()
}

/// `ScalarBuffer::new` on keys that are two bytes wide.
#[verifier::external_body]
fn keys_u16(a: &ArrayData) -> (keys: Vec<u64>)
    requires
        array_valid(*a),
        key_width(array_type(*a)) == Some(2nat),
    ensures
        keys@.map_values(|k: u64| k as nat) == array_keys(*a),
{
    let keys = ScalarBuffer::<u16>::new(a.buffers()[0].clone(), a.offset(), a.len());
    keys.iter().map(|k| *k as u64).collect()
}

/// `ScalarBuffer::new` on keys that are four bytes wide.
#[verifier::external_body]
fn keys_u32(a: &ArrayData) -> (keys: Vec<u64>)
    requires
        array_valid(*a),
        key_width(array_type(*a)) == Some(4nat),
    ensures
        keys@.map_values(|k: u64| k as nat) == array_keys(*a),
{
    let keys = ScalarBuffer::<u32>::new(a.buffers()[0].clone(), a.offset(), a.len());
    keys.iter().map(|k| *k as u64).collect()
}

/// `ScalarBuffer::new` on keys that are eight bytes wide.
#[verifier::external_body]
fn keys_u64(a: &ArrayData) -> (keys: Vec<u64>)
    requires
        array_valid(*a),
        key_width(array_type(*a)) == Some(8nat),
    ensures
        keys@.map_values(|k: u64| k as nat) == array_keys(*a),
{
    ScalarBuffer::<u64>::new(a.buffers()[0].clone(), a.offset(), a.len()).to_vec()
}

/// `arrow_array::new_empty_array`: the array without rows of a type, which is valid. `make_array`
/// stops on types that have no arrays; a joinable type is none of them.
#[verifier::external_body]
pub(crate) fn new_empty_array(t: &DataType) -> (a: ArrayData)
    requires
        is_joinable(*t),
    ensures
        array_rows(a).len() == 0,
        array_type(a) == *t,
        array_valid(a),
{
    arrow_array::new_empty_array(t).to_data()
}

/// `ArrayData::slice`: `length` rows from row `offset` on. It stops where there are not as many, or
/// where the children of a struct have fewer rows than the struct. Part of a valid array is valid.
#[verifier::external_body]
pub(crate) fn slice(a: &ArrayData, offset: usize, length: usize) -> (s: ArrayData)
    requires
        offset + length <= array_rows(*a).len(),
        array_valid(*a),
    ensures
        array_rows(s) == array_rows(*a).subrange(offset as int, offset + length),
        array_type(s) == array_type(*a),
        array_valid(s),
{
    a.slice(offset, length)
}

/// `arrow_select::concat::concat` on two arrays: the rows of the second behind those of the first, as
/// a valid array. It fails where the types differ. Where they do not and the type is not made up of
/// others, it fails only if the rows take up more bytes than offsets of 32 bits reach.
#[verifier::external_body]
fn concat(a: &ArrayData, b: &ArrayData) -> (r: Result<ArrayData, ArrowError>)
    requires
        array_valid(*a),
        array_valid(*b),
        is_joinable(array_type(*a)),
        is_joinable(array_type(*b)),
        array_type(*a) == array_type(*b) ==> is_safe_to_join(*a, *b),
        array_rows(*a).len() + array_rows(*b).len() <= usize::MAX,
    ensures
        r is Ok ==> array_type(*a) == array_type(*b),
        array_type(*a) == array_type(*b) ==> (r is Ok <==> if is_flat(array_type(*a)) {
            rows_fit(array_type(*a), array_rows(*a) + array_rows(*b))
        } else {
            nested_joins(*a, *b)
        }),
        r matches Ok(c) ==> array_rows(c) == array_rows(*a) + array_rows(*b),
        r matches Ok(c) ==> array_type(c) == array_type(*a) && array_valid(c),
{
    let first = arrow_array::make_array(a.clone());
    let second = arrow_array::make_array(b.clone());
    arrow_select::concat::concat(&[first.as_ref(), second.as_ref()]).map(|c| c.to_data())
}

proof fn lemma_bytes_in_front(buffers: Seq<Buffer>, i: int)
    requires
        0 <= i <= buffers.len(),
    ensures
        bytes_in(buffers.take(i)) <= bytes_in(buffers),
    decreases buffers.len(),
{
    if i < buffers.len() {
        lemma_bytes_in_front(buffers.drop_last(), i);
        assert(buffers.drop_last().take(i) =~= buffers.take(i));
    } else {
        assert(buffers.take(i) =~= buffers);
    }
}

proof fn lemma_weight_of_first_children(a: ArrayData, n: nat, m: nat)
    requires
        n <= m <= array_children(a).len(),
    ensures
        weight_of_children(a, n) <= weight_of_children(a, m),
    decreases m,
{
    if n < m {
        lemma_weight_of_first_children(a, n, (m - 1) as nat);
    }
}

/// How large an array is, unless it is larger than `limit`.
fn weigh(a: &ArrayData, limit: usize) -> (r: Option<usize>)
    ensures
        r is Some <==> weight(*a) <= limit,
        r matches Some(w) ==> w == weight(*a),
    decreases array_depth(*a),
{
    let len: usize = array_len(a);
    let mut w: usize = len;
    if w > limit {
        return None;
    }
    if len > 0 {
        let width: usize = match width_reserved(data_type(a)) {
            Some(width) => width,
            None => {
                assert(len * reserved_width(array_type(*a)) > usize::MAX) by (nonlinear_arith)
                    requires
                        len >= 1,
                        reserved_width(array_type(*a)) > usize::MAX,
                ;
                return None;
            },
        };
        match len.checked_mul(width) {
            Some(room) => {
                if room > limit - w {
                    return None;
                }
                w = w + room;
            },
            None => {
                return None;
            },
        }
    }
    let ghost rows = w;
    assert(len == 0 ==> len * reserved_width(array_type(*a)) == 0) by (nonlinear_arith);
    let parts = buffers(a);
    let mut i: usize = 0;
    while i < parts.len()
        invariant
            i <= parts@.len(),
            parts@ == array_buffers(*a),
            w <= limit,
            rows == array_rows(*a).len() + array_rows(*a).len() * reserved_width(array_type(*a)),
            w == rows + bytes_in(parts@.take(i as int)),
        decreases parts@.len() - i,
    {
        let len: usize = buffer_len(&parts[i]);
        proof {
            assert(parts@.take(i + 1).drop_last() =~= parts@.take(i as int));
            lemma_bytes_in_front(parts@, i + 1);
        }
        if len > limit - w {
            return None;
        }
        w = w + len;
        i = i + 1;
    }
    assert(parts@.take(i as int) =~= parts@);
    let children = child_data(a);
    let ghost own = w;
    let mut i: usize = 0;
    while i < children.len()
        invariant
            i <= children@.len(),
            children@ == array_children(*a),
            forall|k: int|
                0 <= k < children@.len() ==> array_depth(#[trigger] children@[k]) < array_depth(*a),
            own == array_rows(*a).len() + array_rows(*a).len() * reserved_width(array_type(*a))
                + bytes_in(array_buffers(*a)),
            w <= limit,
            w == own + weight_of_children(*a, i as nat),
        decreases children@.len() - i,
    {
        proof {
            lemma_weight_of_first_children(*a, (i + 1) as nat, children@.len());
        }
        match weigh(&children[i], limit - w) {
            Some(more) => {
                w = w + more;
            },
            None => {
                return None;
            },
        }
        i = i + 1;
    }
    Some(w)
}

/// Whether the keys of an array of dictionary entries are in range.
fn has_keys_in_range(a: &ArrayData, width: u8) -> (b: bool)
    requires
        array_valid(*a),
        key_width(array_type(*a)) == Some(width as nat),
        width == 1 || width == 2 || width == 4 || width == 8,
    ensures
        b == keys_in_range(*a),
{
    let dictionary: usize = array_len(&child_data(a)[0]);
    let limit: u64 = if dictionary == 0 {
        1
    } else {
        dictionary as u64
    };
    let keys = match width {
        1 => keys_u8(a),
        2 => keys_u16(a),
        4 => keys_u32(a),
        _ => keys_u64(a),
    };
    let mut i: usize = 0;
    while i < keys.len()
        invariant
            i <= keys@.len(),
            keys@.map_values(|k: u64| k as nat) == array_keys(*a),
            limit == if array_rows(array_children(*a)[0]).len() == 0 {
                1
            } else {
                array_rows(array_children(*a)[0]).len()
            },
            forall|k: int| 0 <= k < i ==> #[trigger] array_keys(*a)[k] < limit,
        decreases keys@.len() - i,
    {
        assert(array_keys(*a)[i as int] == keys@[i as int] as nat);
        if keys[i] >= limit {
            return false;
        }
        i = i + 1;
    }
    assert(array_keys(*a).len() == keys@.len());
    true
}

/// Whether the keys of all dictionary entries in an array are in range.
fn has_all_keys_in_range(a: &ArrayData) -> (b: bool)
    requires
        array_valid(*a),
    ensures
        b == all_keys_in_range(*a),
    decreases array_depth(*a),
{
    if let Some(width) = width_of_keys(data_type(a)) {
        if !has_keys_in_range(a, width) {
            return false;
        }
    }
    let children = child_data(a);
    let mut i: usize = 0;
    while i < children.len()
        invariant
            i <= children@.len(),
            children@ == array_children(*a),
            all_valid(children@),
            key_width(array_type(*a)) is Some ==> keys_in_range(*a),
            forall|k: int|
                0 <= k < children@.len() ==> array_depth(#[trigger] children@[k]) < array_depth(*a),
            forall|k: int|
                0 <= k < i ==> all_keys_in_range(#[trigger] array_children(*a)[k]),
        decreases children@.len() - i,
    {
        if !has_all_keys_in_range(&children[i]) {
            assert(!all_keys_in_range(array_children(*a)[i as int]));
            return false;
        }
        i = i + 1;
    }
    true
}

/// What is wrong with an array of another type than `t`. Arrow says so where it can look at the
/// array.
pub(crate) fn type_mismatch(t: &DataType, a: &ArrayData) -> (e: ParquetError)
    requires
        is_joinable(*t),
        array_type(*a) != *t,
        array_rows(*a).len() <= usize::MAX,
    ensures
        if is_joinable(array_type(*a)) && is_checkable(*a) && array_valid(*a) {
            e is ArrowError
        } else {
            e is WrongArrayType
        },
{
    if is_joinable_type(data_type(a)) && is_valid_array(a) {
        if let Err(e) = concat(&new_empty_array(t), a) {
            return ParquetError::ArrowError(e);
        }
    }
    ParquetError::WrongArrayType
}

/// Puts the rows of `b` behind those of `a`, where that is safe and Arrow can do it.
pub(crate) fn join(a: &ArrayData, b: &ArrayData) -> (r: Result<ArrayData, ParquetError>)
    requires
        array_valid(*a),
        array_valid(*b),
        array_type(*a) == array_type(*b),
        is_joinable(array_type(*a)),
        array_rows(*a).len() + array_rows(*b).len() <= usize::MAX,
    ensures
        r is Ok <==> is_joinable_pair(*a, *b),
        r matches Ok(c) ==> array_rows(c) == array_rows(*a) + array_rows(*b) && array_type(c)
            == array_type(*a) && array_valid(c),
        r matches Err(e) ==> if is_safe_to_join(*a, *b) {
            e is ArrowError
        } else {
            e is UnjoinableArrays
        },
{
    if !is_flat_type(data_type(a)) {
        let limit: usize = if is_wide_type(data_type(a)) {
            isize::MAX as usize
        } else if usize::MAX as u64 > u32::MAX as u64 {
            i32::MAX as usize
        } else {
            0x1ff_ffff
        };
        let safe = match weigh(a, limit) {
            Some(w) => weigh(b, limit - w).is_some(),
            None => false,
        };
        if !safe || !has_all_keys_in_range(b) {
            return Err(ParquetError::UnjoinableArrays);
        }
    }
    match concat(a, b) {
        Ok(c) => Ok(c),
        Err(e) => Err(ParquetError::ArrowError(e)),
    }
}

proof fn lemma_stored_front(rows: Seq<Row>, n: int)
    requires
        0 <= n <= rows.len(),
    ensures
        stored(rows.take(n)) <= stored(rows),
    decreases rows.len(),
{
    if n < rows.len() {
        lemma_stored_front(rows.drop_last(), n);
        assert(rows.drop_last().take(n) =~= rows.take(n));
    } else {
        assert(rows.take(n) =~= rows);
    }
}

/// Where no rows are added, there is nothing that cannot be put together.
pub proof fn same_rows_are_joined(t: DataType, rows: Seq<Row>)
    ensures
        !is_stuck(t, rows, rows),
{
}

/// Where an array of a type that is not made up of others can hold the rows, there is nothing on
/// the way to them that cannot be put together.
pub proof fn fitting_rows_are_joined(t: DataType, before: Seq<Row>, after: Seq<Row>)
    requires
        is_flat(t),
        rows_fit(t, after),
    ensures
        !is_stuck(t, before, after),
{
    assert forall|a: ArrayData, b: ArrayData|
        array_type(a) == t && (array_rows(a) + array_rows(b)).is_prefix_of(
            after,
        ) implies #[trigger] is_joinable_pair(a, b) by {
        let rows = array_rows(a) + array_rows(b);
        lemma_stored_front(after, rows.len() as int);
        assert(after.take(rows.len() as int) =~= rows);
    }
}

/// What rows take up is summed row by row, and an array with offsets of 32 bits has room for rows if
/// and only if they take up no more bytes than those reach; other arrays always have.
pub proof fn rows_take_up_their_bytes(t: DataType, rows: Seq<Row>, row: Row)
    ensures
        stored(Seq::<Row>::empty()) == 0,
        stored(rows.push(row)) == stored(rows) + row.stored,
        has_narrow_offsets(t) ==> (rows_fit(t, rows) <==> stored(rows) <= 0x7fff_ffff),
        !has_narrow_offsets(t) ==> rows_fit(t, rows),
{
    assert(rows.push(row).drop_last() =~= rows);
}

proof fn lemma_buffer_is_part(buffers: Seq<Buffer>, i: int)
    requires
        0 <= i < buffers.len(),
    ensures
        buffer_data(buffers[i]).len() <= bytes_in(buffers),
    decreases buffers.len(),
{
    if i < buffers.len() - 1 {
        lemma_buffer_is_part(buffers.drop_last(), i);
    }
}

proof fn lemma_child_is_part(a: ArrayData, n: nat, i: int)
    requires
        0 <= i < n <= array_children(a).len(),
        array_depth(array_children(a)[i]) < array_depth(a),
    ensures
        weight(array_children(a)[i]) <= weight_of_children(a, n),
    decreases n,
{
    if i < n - 1 {
        lemma_child_is_part(a, (n - 1) as nat, i);
    }
}

/// An array is as large as its rows, each of its buffers and each of its children, and larger than
/// two of them are together.
pub proof fn arrays_are_as_large_as_their_parts(a: ArrayData, i: int, k: int)
    requires
        0 <= i < array_buffers(a).len(),
        0 <= k < array_children(a).len(),
        array_depth(array_children(a)[k]) < array_depth(a),
    ensures
        weight(a) >= array_rows(a).len() + buffer_data(array_buffers(a)[i]).len() + weight(
            array_children(a)[k],
        ),
        weight(a) >= array_rows(a).len() * reserved_width(array_type(a)),
{
    lemma_buffer_is_part(array_buffers(a), i);
    lemma_child_is_part(a, array_children(a).len(), k);
}

/// Arrays of a type that is made up of others are put together only if all keys of the second are
/// keys of its dictionaries, and both together are no larger than integers of 32 bits count; where
/// nothing in the type is found by such integers, than a machine word counts. Others always can be.
pub proof fn arrays_are_joined_only_if_small(a: ArrayData, b: ArrayData)
    ensures
        is_flat(array_type(a)) ==> is_safe_to_join(a, b),
        is_safe_to_join(a, b) && !is_flat(array_type(a)) ==> {
            &&& all_keys_in_range(b)
            &&& !is_wide(array_type(a)) ==> weight(a) + weight(b) <= 0x7fff_ffff
            &&& is_wide(array_type(a)) ==> weight(a) + weight(b) <= isize::MAX
        },
        all_keys_in_range(b) && key_width(array_type(b)) is Some ==> forall|i: int|
            0 <= i < array_keys(b).len() ==> #[trigger] array_keys(b)[i] == 0 || array_keys(b)[i]
                < array_rows(array_children(b)[0]).len(),
        is_flat(array_type(a)) ==> (joins(a, b) <==> rows_fit(
            array_type(a),
            array_rows(a) + array_rows(b),
        )),
        is_joinable_pair(a, b) <==> is_safe_to_join(a, b) && joins(a, b),
{
}

/// Arrow is asked to check an array only if its type has a known layout, its lists of one length can
/// be counted, and its buffers hold whole integers; and the same holds of its children.
pub proof fn checkable_arrays_hold_whole_integers(a: ArrayData, i: int, k: int)
    requires
        is_checkable(a),
    ensures
        has_layout(array_type(a)),
        list_length(array_type(a)) matches Some(n) ==> (n >= 0 ==> (array_offset(a) + array_rows(
            a,
        ).len()) * n <= usize::MAX),
        0 <= i < array_buffers(a).len() ==> buffer_data(array_buffers(a)[i]).len() % buffer_width(
            array_type(a),
            i,
        ) == 0,
        0 <= k < array_children(a).len() && array_depth(array_children(a)[k]) < array_depth(a)
            ==> is_checkable(array_children(a)[k]),
{
}

} // verus!
