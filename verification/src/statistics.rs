//! The statistics that are recorded of a page and of a column chunk.
use vstd::prelude::*;

use crate::basic::Type;
use crate::data_type::{
    plain_opt, ByteArray, Double, FixedLenByteArray, Float, Int96, ParquetValueType,
};

verus! {

/// Statistics as a reader of the file sees them: bounds are byte strings.
pub struct StatisticsModel {
    /// The type of the values that the bounds are written in.
    pub physical_type: Type,
    pub min: Option<Seq<u8>>,
    pub max: Option<Seq<u8>>,
    pub distinct_count: Option<u64>,
    pub null_count: Option<u64>,
    pub min_exact: bool,
    pub max_exact: bool,
    /// The bounds may only be written to the fields that later versions of the format gave up.
    pub deprecated: bool,
    /// The bounds may also be written to the fields that later versions of the format gave up.
    pub backwards_compatible: bool,
}

/// Statistics over values of one type.
#[derive(Debug)]
pub struct ValueStatistics<T> {
    pub min: Option<T>,
    pub max: Option<T>,
    pub distinct_count: Option<u64>,
    pub null_count: Option<u64>,
    pub is_max_value_exact: bool,
    pub is_min_value_exact: bool,
    pub is_min_max_deprecated: bool,
    pub is_min_max_backwards_compatible: bool,
}

/// The statistics of bounds that are exact where they are known.
pub open spec fn new_statistics(
    physical_type: Type,
    min: Option<Seq<u8>>,
    max: Option<Seq<u8>>,
    distinct_count: Option<u64>,
    null_count: Option<u64>,
    deprecated: bool,
) -> StatisticsModel {
    StatisticsModel {
        physical_type,
        min,
        max,
        distinct_count,
        null_count,
        min_exact: min is Some,
        max_exact: max is Some,
        deprecated,
        backwards_compatible: deprecated,
    }
}

impl<T: ParquetValueType> View for ValueStatistics<T> {
    type V = StatisticsModel;

    open spec fn view(&self) -> StatisticsModel {
        StatisticsModel {
            physical_type: T::type_of(),
            min: plain_opt(self.min),
            max: plain_opt(self.max),
            distinct_count: self.distinct_count,
            null_count: self.null_count,
            min_exact: self.is_min_value_exact,
            max_exact: self.is_max_value_exact,
            deprecated: self.is_min_max_deprecated,
            backwards_compatible: self.is_min_max_backwards_compatible,
        }
    }
}

impl<T: ParquetValueType> ValueStatistics<T> {
    /// Statistics whose bounds are exact where they are known.
    pub fn new(
        min: Option<T>,
        max: Option<T>,
        distinct_count: Option<u64>,
        null_count: Option<u64>,
        is_min_max_deprecated: bool,
    ) -> (stats: Self)
        ensures
            stats@ == new_statistics(
                T::type_of(),
                plain_opt(min),
                plain_opt(max),
                distinct_count,
                null_count,
                is_min_max_deprecated,
            ),
            stats.min == min,
            stats.max == max,
            stats.distinct_count == distinct_count,
            stats.null_count == null_count,
            stats.is_min_value_exact <==> min is Some,
            stats.is_max_value_exact <==> max is Some,
            stats.is_min_max_deprecated == is_min_max_deprecated,
            stats.is_min_max_backwards_compatible == is_min_max_deprecated,
    {
        let is_max_value_exact: bool = max.is_some();
        let is_min_value_exact: bool = min.is_some();
        ValueStatistics {
            min,
            max,
            distinct_count,
            null_count,
            is_max_value_exact,
            is_min_value_exact,
            is_min_max_deprecated,
            is_min_max_backwards_compatible: is_min_max_deprecated,
        }
    }

    /// The same statistics with a minimum that is exact or not.
    pub fn with_min_is_exact(self, is_min_value_exact: bool) -> (stats: Self)
        ensures
            stats@ == (StatisticsModel { min_exact: is_min_value_exact, ..self@ }),
    {
        ValueStatistics { is_min_value_exact, ..self }
    }

    /// The same statistics with a maximum that is exact or not.
    pub fn with_max_is_exact(self, is_max_value_exact: bool) -> (stats: Self)
        ensures
            stats@ == (StatisticsModel { max_exact: is_max_value_exact, ..self@ }),
    {
        ValueStatistics { is_max_value_exact, ..self }
    }

    /// The same statistics with bounds that may be written to the older fields too, or not.
    pub fn with_backwards_compatible_min_max(self, backwards_compatible: bool) -> (stats: Self)
        ensures
            stats@ == (StatisticsModel { backwards_compatible, ..self@ }),
    {
        ValueStatistics { is_min_max_backwards_compatible: backwards_compatible, ..self }
    }
}

/// Statistics over values of any type.
#[derive(Debug)]
pub enum Statistics {
    Boolean(ValueStatistics<bool>),
    Int32(ValueStatistics<i32>),
    Int64(ValueStatistics<i64>),
    Int96(ValueStatistics<Int96>),
    Float(ValueStatistics<Float>),
    Double(ValueStatistics<Double>),
    ByteArray(ValueStatistics<ByteArray>),
    FixedLenByteArray(ValueStatistics<FixedLenByteArray>),
}

impl View for Statistics {
    type V = StatisticsModel;

    open spec fn view(&self) -> StatisticsModel {
        match self {
            Statistics::Boolean(s) => s@,
            Statistics::Int32(s) => s@,
            Statistics::Int64(s) => s@,
            Statistics::Int96(s) => s@,
            Statistics::Float(s) => s@,
            Statistics::Double(s) => s@,
            Statistics::ByteArray(s) => s@,
            Statistics::FixedLenByteArray(s) => s@,
        }
    }
}

/// A type of values whose statistics can be recorded.
pub trait StatisticsValue: ParquetValueType {
    /// The statistics as statistics over values of any type.
    fn into_statistics(stats: ValueStatistics<Self>) -> (s: Statistics)
        ensures
            s@ == stats@,
            (s is ByteArray) <==> Self::type_of() == Type::BYTE_ARRAY,
            (s is FixedLenByteArray) <==> Self::type_of() == Type::FIXED_LEN_BYTE_ARRAY,
    ;
}

impl StatisticsValue for bool {
    fn into_statistics(stats: ValueStatistics<Self>) -> (s: Statistics) {
        Statistics::Boolean(stats)
    }
}

impl StatisticsValue for i32 {
    fn into_statistics(stats: ValueStatistics<Self>) -> (s: Statistics) {
        Statistics::Int32(stats)
    }
}

impl StatisticsValue for i64 {
    fn into_statistics(stats: ValueStatistics<Self>) -> (s: Statistics) {
        Statistics::Int64(stats)
    }
}

impl StatisticsValue for Int96 {
    fn into_statistics(stats: ValueStatistics<Self>) -> (s: Statistics) {
        Statistics::Int96(stats)
    }
}

impl StatisticsValue for Float {
    fn into_statistics(stats: ValueStatistics<Self>) -> (s: Statistics) {
        Statistics::Float(stats)
    }
}

impl StatisticsValue for Double {
    fn into_statistics(stats: ValueStatistics<Self>) -> (s: Statistics) {
        Statistics::Double(stats)
    }
}

impl StatisticsValue for ByteArray {
    fn into_statistics(stats: ValueStatistics<Self>) -> (s: Statistics) {
        Statistics::ByteArray(stats)
    }
}

impl StatisticsValue for FixedLenByteArray {
    fn into_statistics(stats: ValueStatistics<Self>) -> (s: Statistics) {
        Statistics::FixedLenByteArray(stats)
    }
}

/// Statistics are seen as what their fields hold, and bounds as the bytes that stand for them.
pub proof fn statistics_are_seen_as_they_are<T: ParquetValueType>(s: ValueStatistics<T>)
    ensures
        s@.physical_type == T::type_of(),
        s@.distinct_count == s.distinct_count,
        s@.null_count == s.null_count,
        s@.min_exact == s.is_min_value_exact,
        s@.max_exact == s.is_max_value_exact,
        s@.deprecated == s.is_min_max_deprecated,
        s@.backwards_compatible == s.is_min_max_backwards_compatible,
        s.min is None <==> s@.min is None,
        s.max is None <==> s@.max is None,
        s.min matches Some(m) ==> s@.min == Some(T::plain(m@)),
        s.max matches Some(m) ==> s@.max == Some(T::plain(m@)),
{
}

/// New statistics hold what they are made of. Bounds are exact where they are known, and are written
/// to the older fields if and only if they are written there alone.
pub proof fn new_statistics_hold_what_they_are_made_of(
    physical_type: Type,
    min: Option<Seq<u8>>,
    max: Option<Seq<u8>>,
    distinct_count: Option<u64>,
    null_count: Option<u64>,
    deprecated: bool,
)
    ensures
        ({
            let s = new_statistics(
                physical_type,
                min,
                max,
                distinct_count,
                null_count,
                deprecated,
            );
            &&& s.physical_type == physical_type
            &&& s.min == min && s.max == max
            &&& s.distinct_count == distinct_count
            &&& s.null_count == null_count
            &&& s.min_exact <==> min is Some
            &&& s.max_exact <==> max is Some
            &&& s.deprecated == deprecated && s.backwards_compatible == deprecated
        }),
{
}

} // verus!
