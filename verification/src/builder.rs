//! Configuration of a filter: validated once, sized once, then frozen.

use vstd::prelude::*;
use crate::error::FilterError;
use crate::filter::BloomFilter;
use crate::params::aligned_size;
use crate::params::optimal_k;
use crate::params::round_up_to_word;
use crate::params::stored_hash_count;
use crate::params::WORD_BITS;

verus! {

/// The binary64 bit pattern of 1.0. The patterns strictly between zero and
/// this one are exactly the numbers strictly between 0.0 and 1.0: a set sign
/// bit, an infinity or a NaN all give a larger pattern.
pub const ONE_BITS: u64 = 0x3FF0_0000_0000_0000;

/// Whether `bits` is the binary64 bit pattern of a number in the open
/// interval (0, 1).
pub open spec fn is_probability(bits: u64) -> bool {
    0 < bits < ONE_BITS
}

/// Whether a filter of `size` bits can be stored: a positive whole number of
/// words that a vector can index.
pub open spec fn is_storable_size(size: int) -> bool {
    &&& size > 0
    &&& size % 32 == 0
    &&& size / 32 <= usize::MAX as int
}

/// Whether `estimate`, a bit count before rounding, rounds to a storable size.
pub open spec fn is_usable_estimate(estimate: u64) -> bool {
    &&& aligned_size(estimate as int) <= u64::MAX as int
    &&& is_storable_size(aligned_size(estimate as int))
}

/// The parameters of a filter.
///
/// The probability is kept as a binary64 bit pattern, which this module
/// compares but never computes with. The bit count that the probability calls
/// for, `ceil(-n * ln p / (ln 2)^2)`, is handed to [`FilterBuilder::complete`]
/// by the caller; rounding it and deriving the hash count happen here.
#[derive(Clone, Copy, Debug)]
pub struct FilterBuilder {
    expected_elements: u64,
    false_positive_probability: u64,
    size: u64,
    hashes: u32,
    done: bool,
}

impl FilterBuilder {
    /// The expected number of elements; zero when the sizes were given directly.
    pub closed spec fn expected(&self) -> u64 {
        self.expected_elements
    }

    /// The bit pattern of the tolerated false-positive probability.
    pub closed spec fn probability_bits(&self) -> u64 {
        self.false_positive_probability
    }

    /// The number of bits of the filter; zero until it is derived or given.
    pub closed spec fn bit_array_size(&self) -> u64 {
        self.size
    }

    /// The number of positions per element.
    pub closed spec fn hash_count(&self) -> u32 {
        self.hashes
    }

    /// Whether the sizes are frozen.
    pub closed spec fn is_finalized(&self) -> bool {
        self.done
    }

    /// What holds of every builder: until sizes are set it holds a valid
    /// element count and probability; once sizes are set they are storable and
    /// there is at least one hash; a finalized builder has its sizes.
    pub closed spec fn wf(&self) -> bool {
        &&& self.size == 0 ==> self.expected_elements > 0 && is_probability(
            self.false_positive_probability,
        ) && self.hashes == 0
        &&& self.size != 0 ==> is_storable_size(self.size as int) && self.hashes >= 1
        &&& self.done ==> self.size != 0
    }

    /// Two builders are compatible when size and hash count agree.
    pub open spec fn compatible(&self, other: &FilterBuilder) -> bool {
        self.bit_array_size() == other.bit_array_size() && self.hash_count() == other.hash_count()
    }

    /// A finalized builder has a storable size and at least one hash.
    pub proof fn lemma_finalized_sizes(&self)
        requires
            self.wf(),
            self.is_finalized(),
        ensures
            is_storable_size(self.bit_array_size() as int),
            self.bit_array_size() % 32 == 0,
            self.hash_count() >= 1,
    {
    }

    /// A builder for `expected_elements` elements and the false-positive
    /// probability whose binary64 bit pattern is `false_positive_probability`.
    /// Fails exactly when the count is zero or the probability is not
    /// strictly between 0 and 1.
    pub fn new(expected_elements: u64, false_positive_probability: u64) -> (r: Result<
        FilterBuilder,
        FilterError,
    >)
        ensures
            r.is_ok() <==> expected_elements > 0 && is_probability(false_positive_probability),
            r.is_err() ==> r == Err::<FilterBuilder, FilterError>(FilterError::InvalidParameter),
            r.is_ok() ==> {
                &&& r.unwrap().wf()
                &&& r.unwrap().expected() == expected_elements
                &&& r.unwrap().probability_bits() == false_positive_probability
                &&& r.unwrap().bit_array_size() == 0
                &&& r.unwrap().hash_count() == 0
                &&& !r.unwrap().is_finalized()
            },
    {
        if expected_elements == 0 || false_positive_probability == 0 || false_positive_probability
            >= ONE_BITS {
            return Err(FilterError::InvalidParameter);
        }
        Ok(
            FilterBuilder {
                expected_elements,
                false_positive_probability,
                size: 0,
                hashes: 0,
                done: false,
            },
        )
    }

    /// A builder with the size and the hash count given directly. Fails
    /// exactly when the size is not storable or the hash count is zero.
    pub fn from_size_and_hashes(size: u64, hashes: u32) -> (r: Result<FilterBuilder, FilterError>)
        ensures
            r.is_ok() <==> is_storable_size(size as int) && hashes >= 1,
            r.is_err() ==> r == Err::<FilterBuilder, FilterError>(FilterError::InvalidParameter),
            r.is_ok() ==> {
                &&& r.unwrap().wf()
                &&& r.unwrap().expected() == 0
                &&& r.unwrap().probability_bits() == 0
                &&& r.unwrap().bit_array_size() == size
                &&& r.unwrap().hash_count() == hashes
                &&& !r.unwrap().is_finalized()
            },
    {
        if size == 0 || size % WORD_BITS != 0 || hashes == 0 || !fits_index(size / WORD_BITS) {
            return Err(FilterError::InvalidParameter);
        }
        Ok(
            FilterBuilder {
                expected_elements: 0,
                false_positive_probability: 0,
                size,
                hashes,
                done: false,
            },
        )
    }

    /// The expected number of elements.
    pub fn expected_elements(&self) -> (n: u64)
        ensures
            n == self.expected(),
    {
        self.expected_elements
    }

    /// The bit pattern of the false-positive probability.
    pub fn false_positive_probability(&self) -> (p: u64)
        ensures
            p == self.probability_bits(),
    {
        self.false_positive_probability
    }

    /// The number of bits of the filter; zero until derived or given.
    pub fn size(&self) -> (m: u64)
        ensures
            m == self.bit_array_size(),
    {
        self.size
    }

    /// The number of positions per element; zero until derived or given.
    pub fn hashes(&self) -> (k: u32)
        ensures
            k == self.hash_count(),
    {
        self.hashes
    }

    /// Whether the sizes are frozen.
    pub fn is_done(&self) -> (d: bool)
        ensures
            d == self.is_finalized(),
    {
        self.done
    }

    /// Whether [`FilterBuilder::complete`] succeeds with this estimate: the
    /// sizes are there already, or the estimate rounds to a storable size.
    pub open spec fn can_complete(&self, estimate: u64) -> bool {
        self.is_finalized() || self.bit_array_size() != 0 || is_usable_estimate(estimate)
    }

    /// Whether `after` is this builder, finalized with `estimate`. A
    /// finalized builder stays as it is; given sizes are kept; otherwise the
    /// size is the estimate rounded up to whole words and the hash count is
    /// derived from the rounded size.
    pub open spec fn completes_to(&self, estimate: u64, after: &FilterBuilder) -> bool {
        &&& after.is_finalized()
        &&& after.expected() == self.expected()
        &&& after.probability_bits() == self.probability_bits()
        &&& self.bit_array_size() != 0 ==> {
            &&& after.bit_array_size() == self.bit_array_size()
            &&& after.hash_count() == self.hash_count()
        }
        &&& self.bit_array_size() == 0 ==> {
            &&& after.bit_array_size() as int == aligned_size(estimate as int)
            &&& after.hash_count() as int == stored_hash_count(
                self.expected() as int,
                aligned_size(estimate as int),
            )
        }
    }

    /// Freezes the sizes.
    ///
    /// On a finalized builder nothing changes. On one whose size was given,
    /// size and hash count are kept. Otherwise `estimate`, the bit count
    /// `ceil(-n * ln p / (ln 2)^2)`, is rounded up to whole words and the hash
    /// count is derived from the rounded size; this fails, changing nothing,
    /// exactly when the estimate does not round to a storable size.
    pub fn complete(&mut self, estimate: u64) -> (r: Result<(), FilterError>)
        requires
            old(self).wf(),
        ensures
            final(self).wf(),
            r.is_ok() <==> old(self).can_complete(estimate),
            r.is_ok() ==> old(self).completes_to(estimate, final(self)),
            r.is_err() ==> r == Err::<(), FilterError>(FilterError::InvalidParameter),
            r.is_err() ==> *final(self) == *old(self),
            old(self).is_finalized() ==> *final(self) == *old(self),
    {
        if self.done {
            return Ok(());
        }
        if self.size == 0 {
            let size: u64 = match round_up_to_word(estimate) {
                Some(size) => size,
                None => { return Err(FilterError::InvalidParameter); },
            };
            if size == 0 || !fits_index(size / WORD_BITS) {
                return Err(FilterError::InvalidParameter);
            }
            self.size = size;
            self.hashes = optimal_k(self.expected_elements, size);
        }
        self.done = true;
        Ok(())
    }

    /// Finalizes the builder with `estimate` and builds an empty filter with
    /// freshly drawn keys.
    ///
    /// Fails with `InvalidParameter`, changing nothing, exactly when the
    /// builder cannot be completed; otherwise the builder is finalized, and
    /// the only failure left is that of the random source.
    pub fn build_bloom_filter(&mut self, estimate: u64) -> (r: Result<BloomFilter, FilterError>)
        requires
            old(self).wf(),
        ensures
            final(self).wf(),
            !old(self).can_complete(estimate) ==> {
                &&& r == Err::<BloomFilter, FilterError>(FilterError::InvalidParameter)
                &&& *final(self) == *old(self)
            },
            old(self).can_complete(estimate) ==> {
                &&& old(self).completes_to(estimate, final(self))
                &&& r.is_err() ==> r == Err::<BloomFilter, FilterError>(FilterError::RandomSourceError)
                &&& r.is_ok() ==> {
                    &&& r.unwrap().wf()
                    &&& r.unwrap().parameters() == *final(self)
                    &&& r.unwrap()@ == Seq::new(
                        final(self).bit_array_size() as nat,
                        |j: int| false,
                    )
                }
            },
            old(self).is_finalized() ==> *final(self) == *old(self),
    {
        match self.complete(estimate) {
            Ok(()) => BloomFilter::new(self),
            Err(e) => Err(e),
        }
    }

    /// Whether two builders describe filters of the same size and hash count.
    pub fn is_compatible_to(&self, other: &FilterBuilder) -> (r: bool)
        ensures
            r == self.compatible(other),
    {
        self.size == other.size && self.hashes == other.hashes
    }
}

/// Whether a word count can index a vector on this machine.
pub fn fits_index(words: u64) -> (r: bool)
    ensures
        r == (words as int <= usize::MAX as int),
{
    words <= usize::MAX as u64
}

} // verus!
