//! The order of the values of a column, and the running minimum and maximum that follow it.
use vstd::prelude::*;

use crate::basic::{ConvertedType, LogicalType, Type};
use crate::byte_order::{
    compare_greater_byte_array_decimals, decimal_greater, decimal_order_is_total,
    decimals_compare_as_numbers, signed_value,
};
use crate::data_type::{
    integers_have_unsigned_readings, view_opt, ByteArray, FixedLenByteArray, ParquetValueType,
};
use crate::schema::ColumnDescriptor;

verus! {

/// Whether the column holds unsigned integers.
pub open spec fn is_unsigned_column(descr: &ColumnDescriptor) -> bool {
    ||| descr.logical_type matches Some(LogicalType::Integer { is_signed, .. }) && !is_signed
    ||| descr.converted_type == ConvertedType::UINT_8
    ||| descr.converted_type == ConvertedType::UINT_16
    ||| descr.converted_type == ConvertedType::UINT_32
    ||| descr.converted_type == ConvertedType::UINT_64
}

/// Whether the column holds decimals that are stored as byte strings.
pub open spec fn is_byte_decimal_column(descr: &ColumnDescriptor, t: Type) -> bool {
    &&& t == Type::FIXED_LEN_BYTE_ARRAY || t == Type::BYTE_ARRAY
    &&& (descr.logical_type matches Some(LogicalType::Decimal { .. })) || descr.converted_type
        == ConvertedType::DECIMAL
}

/// Whether the values of the column can be compared: unsigned columns hold values with an unsigned
/// reading, and there is no order on half precision values.
pub open spec fn comparable<T: ParquetValueType>(descr: &ColumnDescriptor) -> bool {
    if is_unsigned_column(descr) {
        T::unsigned_reading()
    } else {
        is_byte_decimal_column(descr, T::type_of()) || descr.logical_type != Some(
            LogicalType::Float16,
        )
    }
}

/// Whether `a` comes after `b` in the column.
pub open spec fn column_greater<T: ParquetValueType>(
    descr: &ColumnDescriptor,
    a: T::V,
    b: T::V,
) -> bool {
    if is_unsigned_column(descr) {
        T::u64_of(a) > T::u64_of(b)
    } else if is_byte_decimal_column(descr, T::type_of()) {
        decimal_greater(T::plain(a), T::plain(b))
    } else {
        T::after(a, b)
    }
}

/// Whether it can be told if a value of the column is no number: it cannot for half precision
/// values.
pub open spec fn nan_decidable<T: ParquetValueType>(descr: &ColumnDescriptor) -> bool {
    !(T::type_of() == Type::FIXED_LEN_BYTE_ARRAY && descr.logical_type == Some(
        LogicalType::Float16,
    ))
}

/// Whether `v` is a floating-point value that is no number.
pub open spec fn column_nan<T: ParquetValueType>(v: T::V) -> bool {
    (T::type_of() == Type::FLOAT || T::type_of() == Type::DOUBLE) && T::is_nan_value(v)
}

/// Whether the running bound `cur` can be updated with `v`.
pub open spec fn updatable<T: ParquetValueType>(
    descr: &ColumnDescriptor,
    v: T::V,
    cur: Option<T::V>,
) -> bool {
    nan_decidable::<T>(descr) && (cur is Some && !column_nan::<T>(v) ==> comparable::<T>(descr))
}

/// The running minimum `cur` after `v`.
pub open spec fn min_with<T: ParquetValueType>(
    descr: &ColumnDescriptor,
    cur: Option<T::V>,
    v: T::V,
) -> Option<T::V> {
    if column_nan::<T>(v) {
        cur
    } else {
        match cur {
            Some(c) => if column_greater::<T>(descr, c, v) {
                Some(v)
            } else {
                cur
            },
            None => Some(v),
        }
    }
}

/// The running maximum `cur` after `v`.
pub open spec fn max_with<T: ParquetValueType>(
    descr: &ColumnDescriptor,
    cur: Option<T::V>,
    v: T::V,
) -> Option<T::V> {
    if column_nan::<T>(v) {
        cur
    } else {
        match cur {
            Some(c) => if column_greater::<T>(descr, v, c) {
                Some(v)
            } else {
                cur
            },
            None => Some(v),
        }
    }
}

/// Whether `val` is a floating-point value that is no number.
pub fn is_nan<T: ParquetValueType>(descr: &ColumnDescriptor, val: &T) -> (nan: bool)
    requires
        nan_decidable::<T>(descr),
    ensures
        nan == column_nan::<T>(val@),
{
    match T::physical_type() {
        Type::FLOAT | Type::DOUBLE => val.differs_from_itself(),
        _ => false,
    }
}

/// Evaluates `a > b` according to the underlying logical type.
pub fn compare_greater<T: ParquetValueType>(descr: &ColumnDescriptor, a: &T, b: &T) -> (greater:
    bool)
    requires
        comparable::<T>(descr),
    ensures
        greater == column_greater::<T>(descr, a@, b@),
{
    if has_unsigned_order(descr) {
        return match (a.as_u64(), b.as_u64()) {
            (Ok(x), Ok(y)) => x > y,
            _ => false,
        };
    }
    if has_decimal_bytes(descr, T::physical_type()) {
        let x = a.as_bytes();
        let y = b.as_bytes();
        return compare_greater_byte_array_decimals(x.as_slice(), y.as_slice());
    }
    a.greater(b)
}

/// Computes `is_unsigned_column`.
fn has_unsigned_order(descr: &ColumnDescriptor) -> (b: bool)
    ensures
        b == is_unsigned_column(descr),
{
    if let Some(LogicalType::Integer { is_signed, .. }) = descr.logical_type {
        if !is_signed {
            return true;
        }
    }
    match descr.converted_type {
        ConvertedType::UINT_8 | ConvertedType::UINT_16 | ConvertedType::UINT_32
        | ConvertedType::UINT_64 => true,
        _ => false,
    }
}

/// Computes `is_byte_decimal_column`.
fn has_decimal_bytes(descr: &ColumnDescriptor, t: Type) -> (b: bool)
    ensures
        b == is_byte_decimal_column(descr, t),
{
    match t {
        Type::FIXED_LEN_BYTE_ARRAY | Type::BYTE_ARRAY => {
            if let Some(LogicalType::Decimal { .. }) = descr.logical_type {
                return true;
            }
            descr.converted_type == ConvertedType::DECIMAL
        },
        _ => false,
    }
}

/// Whether the values of the column can be compared.
pub fn can_compare<T: ParquetValueType>(descr: &ColumnDescriptor) -> (b: bool)
    ensures
        b == comparable::<T>(descr),
{
    if has_unsigned_order(descr) {
        T::converts_to_u64()
    } else {
        has_decimal_bytes(descr, T::physical_type()) || !is_half_precision(descr)
    }
}

/// Whether the column holds half precision values.
fn is_half_precision(descr: &ColumnDescriptor) -> (b: bool)
    ensures
        b == (descr.logical_type == Some(LogicalType::Float16)),
{
    match descr.logical_type {
        Some(LogicalType::Float16) => true,
        _ => false,
    }
}

/// Whether the running bound `cur` can be updated with `val`.
pub fn can_update<T: ParquetValueType>(descr: &ColumnDescriptor, val: &T, cur: &Option<T>) -> (b:
    bool)
    ensures
        b == updatable::<T>(descr, val@, view_opt(*cur)),
{
    if T::physical_type() == Type::FIXED_LEN_BYTE_ARRAY && is_half_precision(descr) {
        return false;
    }
    cur.is_none() || is_nan(descr, val) || can_compare::<T>(descr)
}

/// Performs a conditional update of `cur`, skipping any NaN values.
///
/// If `cur` is `None`, sets `cur` to `Some(val)`, otherwise calls `should_update` with the value
/// of `cur`, and updates `cur` to `Some(val)` if it returns `true`.
pub fn update_stat<T: ParquetValueType, F: Fn(&T) -> bool>(
    descr: &ColumnDescriptor,
    val: &T,
    cur: &mut Option<T>,
    should_update: F,
)
    requires
        nan_decidable::<T>(descr),
        *old(cur) matches Some(c) ==> !column_nan::<T>(val@) ==> call_requires(
            should_update,
            (&c,),
        ),
    ensures
        column_nan::<T>(val@) ==> *final(cur) == *old(cur),
        !column_nan::<T>(val@) && *old(cur) is None ==> view_opt(*final(cur)) == Some(val@),
        !column_nan::<T>(val@) && *old(cur) is Some ==> exists|update: bool| #[trigger]
            call_ensures(should_update, (&old(cur)->0,), update) && if update {
                view_opt(*final(cur)) == Some(val@)
            } else {
                *final(cur) == *old(cur)
            },
{
    if is_nan(descr, val) {
        return ;
    }
    let update: bool = match cur.as_ref() {
        Some(c) => should_update(c),
        None => true,
    };
    if update {
        *cur = Some(val.duplicate());
    }
}

/// Takes `val` into the running minimum.
pub fn update_min<T: ParquetValueType>(descr: &ColumnDescriptor, val: &T, min: &mut Option<T>)
    requires
        updatable::<T>(descr, val@, view_opt(*old(min))),
    ensures
        view_opt(*final(min)) == min_with::<T>(descr, view_opt(*old(min)), val@),
{
    let should_update = |cur: &T| -> (b: bool)
        requires
            comparable::<T>(descr),
        ensures
            b == column_greater::<T>(descr, cur@, val@),
        { compare_greater(descr, cur, val) };
    update_stat(descr, val, min, should_update);
}

/// Takes `val` into the running maximum.
pub fn update_max<T: ParquetValueType>(descr: &ColumnDescriptor, val: &T, max: &mut Option<T>)
    requires
        updatable::<T>(descr, val@, view_opt(*old(max))),
    ensures
        view_opt(*final(max)) == max_with::<T>(descr, view_opt(*old(max)), val@),
{
    let should_update = |cur: &T| -> (b: bool)
        requires
            comparable::<T>(descr),
        ensures
            b == column_greater::<T>(descr, val@, cur@),
        { compare_greater(descr, val, cur) };
    update_stat(descr, val, max, should_update);
}

/// The running minimum over `values`, in the order in which they come.
pub open spec fn running_min<T: ParquetValueType>(
    descr: &ColumnDescriptor,
    values: Seq<T::V>,
) -> Option<T::V>
    decreases values.len(),
{
    if values.len() == 0 {
        None
    } else {
        min_with::<T>(descr, running_min::<T>(descr, values.drop_last()), values.last())
    }
}

/// The running maximum over `values`, in the order in which they come.
pub open spec fn running_max<T: ParquetValueType>(
    descr: &ColumnDescriptor,
    values: Seq<T::V>,
) -> Option<T::V>
    decreases values.len(),
{
    if values.len() == 0 {
        None
    } else {
        max_with::<T>(descr, running_max::<T>(descr, values.drop_last()), values.last())
    }
}

/// The order of a column is total on the values that are numbers: "does not come after" is
/// reflexive, total and transitive there.
pub proof fn column_order_is_total<T: ParquetValueType>(
    descr: &ColumnDescriptor,
    a: T::V,
    b: T::V,
    c: T::V,
)
    requires
        !column_nan::<T>(a),
        !column_nan::<T>(b),
        !column_nan::<T>(c),
    ensures
        !column_greater::<T>(descr, a, a),
        column_greater::<T>(descr, a, b) ==> !column_greater::<T>(descr, b, a),
        !column_greater::<T>(descr, a, b) && !column_greater::<T>(descr, b, c) ==> !column_greater::<
            T,
        >(descr, a, c),
{
    T::only_floats_are_nan(a);
    T::only_floats_are_nan(b);
    T::only_floats_are_nan(c);
    decimal_order_is_total(T::plain(a), T::plain(b), T::plain(c));
    T::order_is_total(a, b, c);
}

/// The running minimum is one of the values, no number comes before it, and it is missing only
/// where no value is a number.
pub proof fn running_min_is_least<T: ParquetValueType>(descr: &ColumnDescriptor, values: Seq<T::V>)
    ensures
        running_min::<T>(descr, values) is None <==> forall|i: int|
            0 <= i < values.len() ==> column_nan::<T>(#[trigger] values[i]),
        running_min::<T>(descr, values) matches Some(m) ==> values.contains(m) && !column_nan::<T>(
            m,
        ) && forall|i: int|
            0 <= i < values.len() && !column_nan::<T>(values[i]) ==> !column_greater::<T>(
                descr,
                m,
                #[trigger] values[i],
            ),
    decreases values.len(),
{
    if values.len() > 0 {
        let head = values.drop_last();
        let last = values.last();
        running_min_is_least::<T>(descr, head);
        let before = running_min::<T>(descr, head);
        let m = running_min::<T>(descr, values);
        assert forall|i: int| 0 <= i < head.len() implies head[i] == #[trigger] values[i] by {}
        if before is None {
            assert forall|i: int|
                0 <= i < values.len() && !column_nan::<T>(values[i]) implies i == values.len() - 1
                by {
                if i < head.len() {
                    assert(column_nan::<T>(head[i]));
                }
            }
        }
        if m is Some {
            let best = m->0;
            if !column_nan::<T>(last) && before is Some {
                let c = before->0;
                let k = choose|k: int| 0 <= k < head.len() && head[k] == c;
                assert(values[k] == c);
            } else if before is Some {
                let k = choose|k: int| 0 <= k < head.len() && head[k] == best;
                assert(values[k] == best);
            }
            assert(values[values.len() - 1] == last);
            assert forall|i: int| 0 <= i < values.len() && !column_nan::<T>(values[i]) implies
                !column_greater::<T>(descr, best, #[trigger] values[i]) by {
                if i < head.len() {
                    assert(head[i] == values[i]);
                    let c = before->0;
                    column_order_is_total::<T>(descr, best, c, values[i]);
                    column_order_is_total::<T>(descr, c, best, values[i]);
                } else {
                    column_order_is_total::<T>(descr, best, best, best);
                }
            }
        }
    }
}

/// The running maximum is one of the values, no number comes after it, and it is missing only
/// where no value is a number.
pub proof fn running_max_is_greatest<T: ParquetValueType>(
    descr: &ColumnDescriptor,
    values: Seq<T::V>,
)
    ensures
        running_max::<T>(descr, values) is None <==> forall|i: int|
            0 <= i < values.len() ==> column_nan::<T>(#[trigger] values[i]),
        running_max::<T>(descr, values) matches Some(m) ==> values.contains(m) && !column_nan::<T>(
            m,
        ) && forall|i: int|
            0 <= i < values.len() && !column_nan::<T>(values[i]) ==> !column_greater::<T>(
                descr,
                #[trigger] values[i],
                m,
            ),
    decreases values.len(),
{
    if values.len() > 0 {
        let head = values.drop_last();
        let last = values.last();
        running_max_is_greatest::<T>(descr, head);
        let before = running_max::<T>(descr, head);
        let m = running_max::<T>(descr, values);
        assert forall|i: int| 0 <= i < head.len() implies head[i] == #[trigger] values[i] by {}
        if before is None {
            assert forall|i: int|
                0 <= i < values.len() && !column_nan::<T>(values[i]) implies i == values.len() - 1
                by {
                if i < head.len() {
                    assert(column_nan::<T>(head[i]));
                }
            }
        }
        if m is Some {
            let best = m->0;
            if !column_nan::<T>(last) && before is Some {
                let c = before->0;
                let k = choose|k: int| 0 <= k < head.len() && head[k] == c;
                assert(values[k] == c);
            } else if before is Some {
                let k = choose|k: int| 0 <= k < head.len() && head[k] == best;
                assert(values[k] == best);
            }
            assert(values[values.len() - 1] == last);
            assert forall|i: int| 0 <= i < values.len() && !column_nan::<T>(values[i]) implies
                !column_greater::<T>(descr, #[trigger] values[i], best) by {
                if i < head.len() {
                    assert(head[i] == values[i]);
                    let c = before->0;
                    column_order_is_total::<T>(descr, values[i], c, best);
                    column_order_is_total::<T>(descr, best, c, c);
                } else {
                    column_order_is_total::<T>(descr, best, best, best);
                }
            }
        }
    }
}

/// In a column of unsigned integers, by its logical or by its converted type, one value comes after
/// another if and only if its unsigned reading is the greater. Its values can be compared if and only
/// if their type has an unsigned reading.
pub proof fn unsigned_columns_compare_unsigned<T: ParquetValueType>(
    descr: &ColumnDescriptor,
    a: T::V,
    b: T::V,
)
    requires
        (descr.logical_type matches Some(LogicalType::Integer { is_signed, .. }) && !is_signed)
            || descr.converted_type is UINT_8 || descr.converted_type is UINT_16
            || descr.converted_type is UINT_32 || descr.converted_type is UINT_64,
    ensures
        column_greater::<T>(descr, a, b) <==> T::u64_of(a) > T::u64_of(b),
        comparable::<T>(descr) <==> T::unsigned_reading(),
{
}

/// In such a column integers compare as their bits do, taken as unsigned numbers.
pub proof fn unsigned_integers_compare_by_their_bits(
    descr: &ColumnDescriptor,
    a: i32,
    b: i32,
    c: i64,
    d: i64,
)
    requires
        (descr.logical_type matches Some(LogicalType::Integer { is_signed, .. }) && !is_signed)
            || descr.converted_type is UINT_8 || descr.converted_type is UINT_16
            || descr.converted_type is UINT_32 || descr.converted_type is UINT_64,
    ensures
        comparable::<i32>(descr) && comparable::<i64>(descr),
        column_greater::<i32>(descr, a, b) <==> (a as u32) > (b as u32),
        column_greater::<i64>(descr, c, d) <==> (c as u64) > (d as u64),
{
    integers_have_unsigned_readings(true, true, a, b, c, d);
}

/// The running bounds of a column of unsigned integers are the values with the least and the greatest
/// unsigned reading.
pub proof fn unsigned_bounds_are_unsigned<T: ParquetValueType>(
    descr: &ColumnDescriptor,
    values: Seq<T::V>,
)
    requires
        (descr.logical_type matches Some(LogicalType::Integer { is_signed, .. }) && !is_signed)
            || descr.converted_type is UINT_8 || descr.converted_type is UINT_16
            || descr.converted_type is UINT_32 || descr.converted_type is UINT_64,
        !(T::type_of() is FLOAT),
        !(T::type_of() is DOUBLE),
        values.len() > 0,
    ensures
        running_min::<T>(descr, values) matches Some(m) && values.contains(m) && forall|i: int|
            0 <= i < values.len() ==> T::u64_of(m) <= T::u64_of(#[trigger] values[i]),
        running_max::<T>(descr, values) matches Some(m) && values.contains(m) && forall|i: int|
            0 <= i < values.len() ==> T::u64_of(m) >= T::u64_of(#[trigger] values[i]),
{
    running_min_is_least::<T>(descr, values);
    running_max_is_greatest::<T>(descr, values);
    assert(!column_nan::<T>(values[0]));
}

/// In a column that is not unsigned, decimals that are stored as bytes compare as the numbers that
/// they are. An empty one is below all others.
pub proof fn byte_decimals_compare_as_numbers(descr: &ColumnDescriptor, a: Seq<u8>, b: Seq<u8>)
    requires
        !(descr.logical_type matches Some(LogicalType::Integer { is_signed, .. }) && !is_signed),
        !(descr.converted_type is UINT_8),
        !(descr.converted_type is UINT_16),
        !(descr.converted_type is UINT_32),
        !(descr.converted_type is UINT_64),
        (descr.logical_type matches Some(LogicalType::Decimal { .. }))
            || descr.converted_type is DECIMAL,
    ensures
        comparable::<ByteArray>(descr) && comparable::<FixedLenByteArray>(descr),
        a.len() > 0 && b.len() > 0 ==> {
            &&& column_greater::<ByteArray>(descr, a, b) <==> signed_value(a) > signed_value(b)
            &&& column_greater::<FixedLenByteArray>(descr, a, b) <==> signed_value(a)
                > signed_value(b)
        },
        a.len() > 0 && b.len() == 0 ==> column_greater::<ByteArray>(descr, a, b)
            && column_greater::<FixedLenByteArray>(descr, a, b),
        a.len() == 0 ==> !column_greater::<ByteArray>(descr, a, b)
            && !column_greater::<FixedLenByteArray>(descr, a, b),
{
    decimals_compare_as_numbers(a, b);
}

/// In a column that is neither unsigned nor of decimals, values compare in the order of their type.
/// They can be compared unless they are half precision values.
pub proof fn other_columns_compare_by_type<T: ParquetValueType>(
    descr: &ColumnDescriptor,
    a: T::V,
    b: T::V,
)
    requires
        !(descr.logical_type matches Some(LogicalType::Integer { is_signed, .. }) && !is_signed),
        !(descr.converted_type is UINT_8),
        !(descr.converted_type is UINT_16),
        !(descr.converted_type is UINT_32),
        !(descr.converted_type is UINT_64),
        !(T::type_of() is BYTE_ARRAY) && !(T::type_of() is FIXED_LEN_BYTE_ARRAY) || (
        !(descr.logical_type matches Some(LogicalType::Decimal { .. }))
            && !(descr.converted_type is DECIMAL)),
    ensures
        column_greater::<T>(descr, a, b) <==> T::after(a, b),
        comparable::<T>(descr) <==> !(descr.logical_type matches Some(LogicalType::Float16)),
{
}

/// A column passes over a value as no number if and only if it is a floating-point value that is
/// none. It cannot be told only of half precision values in byte strings of one length. Then a bound
/// can be updated unless there is one already that the value cannot be compared with.
pub proof fn only_float_columns_have_nans<T: ParquetValueType>(
    descr: &ColumnDescriptor,
    v: T::V,
    cur: Option<T::V>,
)
    ensures
        !(T::type_of() is FLOAT) && !(T::type_of() is DOUBLE) ==> !column_nan::<T>(v),
        T::type_of() is FLOAT || T::type_of() is DOUBLE ==> (column_nan::<T>(v) <==> T::is_nan_value(
            v,
        )),
        nan_decidable::<T>(descr) <==> !(T::type_of() is FIXED_LEN_BYTE_ARRAY) || !(
        descr.logical_type matches Some(LogicalType::Float16)),
        updatable::<T>(descr, v, cur) <==> nan_decidable::<T>(descr) && (cur is None
            || column_nan::<T>(v) || comparable::<T>(descr)),
{
}

/// A value that is no number leaves a bound as it is. Another takes its place if there is none, or if
/// the bound lies on the wrong side of it: of values that are level, the first one stays.
pub proof fn bounds_move_only_outwards<T: ParquetValueType>(
    descr: &ColumnDescriptor,
    cur: Option<T::V>,
    v: T::V,
)
    ensures
        column_nan::<T>(v) ==> min_with::<T>(descr, cur, v) == cur && max_with::<T>(descr, cur, v)
            == cur,
        !column_nan::<T>(v) && cur is None ==> min_with::<T>(descr, cur, v) == Some(v)
            && max_with::<T>(descr, cur, v) == Some(v),
        !column_nan::<T>(v) ==> (cur matches Some(c) ==> {
            &&& column_greater::<T>(descr, c, v) ==> min_with::<T>(descr, cur, v) == Some(v)
            &&& !column_greater::<T>(descr, c, v) ==> min_with::<T>(descr, cur, v) == cur
            &&& column_greater::<T>(descr, v, c) ==> max_with::<T>(descr, cur, v) == Some(v)
            &&& !column_greater::<T>(descr, v, c) ==> max_with::<T>(descr, cur, v) == cur
        }),
{
}

} // verus!
