//! Split block bloom filters, as far as writing a column needs them: empty ones of the right size.
use vstd::prelude::*;

use crate::data_type::{double_is_nan, double_rank};
use crate::errors::ParquetError;
use crate::levels::pow2;

verus! {

/// The least number of bytes of a filter: one block.
pub const BITSET_MIN_LENGTH: usize = 32;

/// The greatest number of bytes of a filter.
pub const BITSET_MAX_LENGTH: usize = 134_217_728;

/// The bits of one as a double precision value.
pub const ONE_BITS: u64 = 0x3ff0_0000_0000_0000;

/// The bits of negative zero as a double precision value.
pub const NEGATIVE_ZERO_BITS: u64 = 0x8000_0000_0000_0000;

/// Whether the double precision value with these bits is at least zero and less than one.
pub open spec fn is_probability(bits: u64) -> bool {
    bits < ONE_BITS || bits == NEGATIVE_ZERO_BITS
}

/// Whether `n` is a power of two, at least `least`.
pub open spec fn doubled_from(least: nat, n: nat) -> bool
    decreases n,
{
    if n <= least {
        n == least
    } else {
        n % 2 == 0 && doubled_from(least, n / 2)
    }
}

/// The size of a filter that is asked to have `num_bytes` bytes: the least power of two that
/// reaches it, within the bounds on the size of a filter.
pub open spec fn is_filter_size(num_bytes: nat, size: nat) -> bool {
    &&& BITSET_MIN_LENGTH <= size <= BITSET_MAX_LENGTH
    &&& doubled_from(BITSET_MIN_LENGTH as nat, size)
    &&& num_bytes <= size || size == BITSET_MAX_LENGTH
    &&& size == BITSET_MIN_LENGTH || size / 2 < num_bytes
}

/// A bloom filter: its bits, eight words to a block.
#[derive(Debug)]
pub struct Sbbf {
    pub words: Vec<u32>,
}

impl Sbbf {
    /// Whether this is the filter without members of the size that `num_bytes` asks for.
    pub open spec fn is_empty_of(&self, num_bytes: nat) -> bool {
        &&& is_filter_size(num_bytes, (4 * self.words@.len()) as nat)
        &&& forall|i: int| 0 <= i < self.words@.len() ==> #[trigger] self.words@[i] == 0
    }

    /// An empty filter with room for at least `num_bytes` bytes, as far as filters can have that.
    pub fn new_with_num_of_bytes(num_bytes: u64) -> (filter: Self)
        ensures
            filter.is_empty_of(num_bytes as nat),
            32 <= 4 * filter.words@.len() <= 134_217_728,
            num_bytes <= 4 * filter.words@.len() || 4 * filter.words@.len() == 134_217_728,
            4 * filter.words@.len() == 32 || 2 * filter.words@.len() < num_bytes,
            forall|i: int| 0 <= i < filter.words@.len() ==> #[trigger] filter.words@[i] == 0,
    {
        let mut size: usize = BITSET_MIN_LENGTH;
        proof {
            assert(doubled_from(32, 32));
            lemma_maximum_is_doubled();
        }
        while size < BITSET_MAX_LENGTH && (size as u64) < num_bytes
            invariant
                BITSET_MIN_LENGTH <= size <= BITSET_MAX_LENGTH,
                doubled_from(BITSET_MIN_LENGTH as nat, size as nat),
                doubled_from(size as nat, BITSET_MAX_LENGTH as nat),
                size == BITSET_MIN_LENGTH || size / 2 < num_bytes,
            decreases BITSET_MAX_LENGTH - size,
        {
            proof {
                lemma_next_double(size as nat, BITSET_MAX_LENGTH as nat);
            }
            size = size * 2;
        }
        let mut words: Vec<u32> = Vec::new();
        let len: usize = size / 4;
        proof {
            lemma_doubled_is_multiple(size as nat);
        }
        while words.len() < len
            invariant
                words.len() <= len,
                forall|i: int| 0 <= i < words@.len() ==> #[trigger] words@[i] == 0,
            decreases len - words.len(),
        {
            words.push(0);
        }
        Sbbf { words }
    }

    /// An empty filter of `num_bits` bits, which is the size for `ndv` values and a false positive
    /// probability with the bits `fpp_bits`.
    pub fn new_with_ndv_fpp(num_bits: u64, fpp_bits: u64) -> (r: Result<Self, ParquetError>)
        ensures
            r is Ok <==> is_probability(fpp_bits),
            r matches Ok(filter) ==> filter.is_empty_of((num_bits / 8) as nat),
            r matches Err(e) ==> e == (ParquetError::InvalidFalsePositiveProbability {
                bits: fpp_bits,
            }),
    {
        if fpp_bits < ONE_BITS || fpp_bits == NEGATIVE_ZERO_BITS {
            Ok(Sbbf::new_with_num_of_bytes(num_bits / 8))
        } else {
            Err(ParquetError::InvalidFalsePositiveProbability { bits: fpp_bits })
        }
    }
}

proof fn lemma_maximum_is_doubled()
    ensures
        doubled_from(BITSET_MIN_LENGTH as nat, BITSET_MAX_LENGTH as nat),
{
    reveal_with_fuel(doubled_from, 24);
}

/// A size below the maximum that it doubles up to can be doubled once.
proof fn lemma_next_double(size: nat, max: nat)
    requires
        0 < size < max,
        doubled_from(size, max),
        doubled_from(BITSET_MIN_LENGTH as nat, size),
        size >= BITSET_MIN_LENGTH,
    ensures
        2 * size <= max,
        doubled_from(2 * size, max),
        doubled_from(BITSET_MIN_LENGTH as nat, 2 * size),
    decreases max,
{
    assert(2 * size / 2 == size);
    assert(max % 2 == 0 && doubled_from(size, max / 2));
    if max / 2 > size {
        lemma_next_double(size, max / 2);
    } else {
        assert(max / 2 == size);
    }
}

proof fn lemma_doubled_is_multiple(size: nat)
    requires
        doubled_from(BITSET_MIN_LENGTH as nat, size),
    ensures
        size % 4 == 0,
        size >= BITSET_MIN_LENGTH,
    decreases size,
{
    if size > BITSET_MIN_LENGTH {
        lemma_doubled_is_multiple(size / 2);
    }
}

proof fn lemma_doubled_is_power(size: nat)
    requires
        doubled_from(32, size),
    ensures
        exists|k: nat| size == 32 * #[trigger] pow2(k),
    decreases size,
{
    if size > 32 {
        lemma_doubled_is_power(size / 2);
        let k = choose|k: nat| size / 2 == 32 * #[trigger] pow2(k);
        assert(pow2(k + 1) == 2 * pow2(k));
        assert(size == 32 * pow2(k + 1));
    } else {
        assert(pow2(0) == 1);
        assert(size == 32 * pow2(0));
    }
}

/// A filter has a power of two of bytes, not fewer than one block of 32 and not more than 128 MiB. It
/// has as many as were asked for unless that is beyond the most, and it would not have them with half
/// its size unless that is below the least.
pub proof fn filters_have_the_least_size(num_bytes: nat, size: nat)
    requires
        is_filter_size(num_bytes, size),
    ensures
        32 <= size <= 134_217_728,
        exists|k: nat| size == 32 * #[trigger] pow2(k),
        num_bytes <= size || size == 134_217_728,
        size == 32 || size / 2 < num_bytes,
{
    lemma_doubled_is_power(size);
}

/// A probability is a double precision number that is not less than zero and less than one.
pub proof fn probabilities_are_below_one(bits: u64)
    ensures
        is_probability(bits) <==> !double_is_nan(bits) && 0 <= double_rank(bits) < double_rank(
            0x3ff0_0000_0000_0000,
        ),
{
}

} // verus!
