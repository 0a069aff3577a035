//! What holds of insertion, lookup and compatibility, for every filter and
//! every element. Each law is stated over the model of the filter: its bit
//! sequence, and the base hashes of the elements involved.

use vstd::prelude::*;
use crate::builder::FilterBuilder;
use crate::filter::BloomFilter;
use crate::filter::inserted;
use crate::filter::member;
use crate::hashing::bit_index;
use crate::hashing::probe;
use crate::hashing::touches;
use crate::params::aligned_size;
use crate::params::hash_count;
use crate::params::lemma_ceil_div_is_least;
use crate::params::q64;
use crate::params::stored_hash_count;
use crate::params::LN2_Q64;

verus! {

/// Every bit position of an element lies inside the filter.
pub proof fn law_position_in_range(h0: u64, h1: u64, i: int, size: int)
    requires
        i >= 0,
        size > 0,
    ensures
        0 <= probe(h0, h1, i) <= u64::MAX,
        0 <= bit_index(h0, h1, i, size) < size,
{
    if i >= 2 {
        assert(h0 as int + i * h1 as int >= 0) by (nonlinear_arith)
            requires
                i >= 0,
                h0 as int >= 0,
                h1 as int >= 0,
        ;
    }
}

/// Insertion only sets bits: the length stays, and a bit that was set stays
/// set.
pub proof fn law_insertion_is_monotone(bits: Seq<bool>, h0: u64, h1: u64, k: int, j: int)
    requires
        0 <= j < bits.len(),
        bits[j],
    ensures
        inserted(bits, h0, h1, k).len() == bits.len(),
        inserted(bits, h0, h1, k)[j],
{
}

/// No false negatives, first half: right after an element is inserted, it is
/// found.
pub proof fn law_inserted_is_member(bits: Seq<bool>, h0: u64, h1: u64, k: int)
    requires
        bits.len() > 0,
    ensures
        member(inserted(bits, h0, h1, k), h0, h1, k),
{
    let size = bits.len() as int;
    let after = inserted(bits, h0, h1, k);
    assert forall|i: int| 0 <= i < k implies after[#[trigger] bit_index(h0, h1, i, size)] by {
        law_position_in_range(h0, h1, i, size);
        assert(touches(h0, h1, k, size, bit_index(h0, h1, i, size)));
    }
}

/// No false negatives, second half: an element that is found is still found
/// after any other element is inserted. With the first half, an element that
/// was inserted once is found ever after.
pub proof fn law_insertion_keeps_members(
    bits: Seq<bool>,
    h0: u64,
    h1: u64,
    k: int,
    other_h0: u64,
    other_h1: u64,
    other_k: int,
)
    requires
        bits.len() > 0,
        member(bits, h0, h1, k),
    ensures
        member(inserted(bits, other_h0, other_h1, other_k), h0, h1, k),
{
    let size = bits.len() as int;
    let after = inserted(bits, other_h0, other_h1, other_k);
    assert forall|i: int| 0 <= i < k implies after[#[trigger] bit_index(h0, h1, i, size)] by {
        law_position_in_range(h0, h1, i, size);
    }
}

/// Inserting an element a second time changes nothing.
pub proof fn law_insertion_is_idempotent(bits: Seq<bool>, h0: u64, h1: u64, k: int)
    ensures
        inserted(inserted(bits, h0, h1, k), h0, h1, k) == inserted(bits, h0, h1, k),
{
    assert(inserted(inserted(bits, h0, h1, k), h0, h1, k) =~= inserted(bits, h0, h1, k));
}

/// The order in which two elements are inserted does not matter.
pub proof fn law_insertions_commute(
    bits: Seq<bool>,
    a0: u64,
    a1: u64,
    b0: u64,
    b1: u64,
    k: int,
)
    ensures
        inserted(inserted(bits, a0, a1, k), b0, b1, k) == inserted(
            inserted(bits, b0, b1, k),
            a0,
            a1,
            k,
        ),
{
    assert(inserted(inserted(bits, a0, a1, k), b0, b1, k) =~= inserted(
        inserted(bits, b0, b1, k),
        a0,
        a1,
        k,
    ));
}

/// No false negatives: an element is found in the filter that its insertion
/// leaves.
pub proof fn law_added_element_is_held(before: BloomFilter, element: Seq<u8>, after: BloomFilter)
    requires
        before.wf(),
        before.added(element, &after),
    ensures
        after.holds(element),
{
    before.lemma_shape();
    let h = before.base_hashes(element);
    law_inserted_is_member(before@, h.0, h.1, before.k());
}

/// No false negatives, continued: an element that is found is still found
/// after any element is inserted.
pub proof fn law_held_element_stays_held(
    before: BloomFilter,
    element: Seq<u8>,
    other: Seq<u8>,
    after: BloomFilter,
)
    requires
        before.wf(),
        before.holds(element),
        before.added(other, &after),
    ensures
        after.holds(element),
{
    before.lemma_shape();
    let h = before.base_hashes(element);
    let o = before.base_hashes(other);
    law_insertion_keeps_members(before@, h.0, h.1, before.k(), o.0, o.1, before.k());
}

/// Inserting an element into a filter that its insertion left leaves the
/// same bits.
pub proof fn law_adding_twice_is_adding_once(
    before: BloomFilter,
    element: Seq<u8>,
    once: BloomFilter,
    twice: BloomFilter,
)
    requires
        before.added(element, &once),
        once.added(element, &twice),
    ensures
        twice@ == once@,
        before.added(element, &twice),
{
    let h = before.base_hashes(element);
    law_insertion_is_idempotent(before@, h.0, h.1, before.k());
}

/// A filter with no bit set holds no element.
pub proof fn law_empty_filter_holds_nothing(filter: BloomFilter, element: Seq<u8>)
    requires
        filter.wf(),
        filter@ == Seq::new(filter@.len(), |j: int| false),
    ensures
        !filter.holds(element),
{
    filter.lemma_shape();
    let h = filter.base_hashes(element);
    let size = filter@.len() as int;
    law_position_in_range(h.0, h.1, 0, size);
    assert(!filter@[bit_index(h.0, h.1, 0, size)]);
}

/// Two filters are compatible exactly when their parameters are, so the
/// relation is reflexive and symmetric on filters too.
pub proof fn law_filter_compatibility(a: BloomFilter, b: BloomFilter)
    ensures
        a.parameters().compatible(&a.parameters()),
        a.parameters().compatible(&b.parameters()) == b.parameters().compatible(&a.parameters()),
{
}

/// The size of a finalized builder is a positive multiple of 32, and it has
/// at least one hash.
pub proof fn law_finalized_size_is_word_multiple(builder: FilterBuilder)
    requires
        builder.wf(),
        builder.is_finalized(),
    ensures
        builder.bit_array_size() > 0,
        builder.bit_array_size() % 32 == 0,
        builder.hash_count() >= 1,
{
    builder.lemma_finalized_sizes();
}

/// A size derived from an estimate is the least multiple of 32 that is not
/// below the estimate: it is such a multiple, and any other, `t`, is at least
/// as large.
pub proof fn law_derived_size_is_least_word_multiple(estimate: u64, t: int)
    requires
        t % 32 == 0,
        t >= estimate,
    ensures
        aligned_size(estimate as int) % 32 == 0,
        aligned_size(estimate as int) >= estimate,
        aligned_size(estimate as int) <= t,
{
}

/// The hash count is the least `k` with `k * n >= m * ln 2`, where ln 2 is
/// `LN2_Q64 / 2^64`: `k` reaches the bound, and `k - 1` does not.
pub proof fn law_hash_count_is_least(n: u64, m: u64)
    requires
        n > 0,
        m > 0,
    ensures
        hash_count(n as int, m as int) * (n * q64()) >= m * LN2_Q64,
        (hash_count(n as int, m as int) - 1) * (n * q64()) < m * LN2_Q64,
        hash_count(n as int, m as int) >= 1,
        1 <= stored_hash_count(n as int, m as int) <= u32::MAX,
{
    let a = m as int * LN2_Q64 as int;
    let b = n as int * q64();
    assert(a > 0 && b > 0) by (nonlinear_arith)
        requires
            a == m as int * LN2_Q64 as int,
            b == n as int * q64(),
            m > 0,
            n > 0,
            LN2_Q64 > 0,
            q64() > 0,
    ;
    lemma_ceil_div_is_least(a, b);
    let k = hash_count(n as int, m as int);
    assert(k >= 1) by (nonlinear_arith)
        requires
            k * b >= a,
            a > 0,
            b > 0,
    ;
}

/// Every builder is compatible with itself.
pub proof fn law_compatibility_is_reflexive(a: FilterBuilder)
    ensures
        a.compatible(&a),
{
}

/// Compatibility does not depend on the side from which it is asked.
pub proof fn law_compatibility_is_symmetric(a: FilterBuilder, b: FilterBuilder)
    ensures
        a.compatible(&b) == b.compatible(&a),
{
}

/// Two builders for the same number of elements, completed with the same
/// estimate, are compatible.
pub proof fn law_same_parameters_are_compatible(
    a: FilterBuilder,
    b: FilterBuilder,
    estimate: u64,
    a_done: FilterBuilder,
    b_done: FilterBuilder,
)
    requires
        a.expected() == b.expected(),
        a.bit_array_size() == 0,
        b.bit_array_size() == 0,
        a.completes_to(estimate, &a_done),
        b.completes_to(estimate, &b_done),
    ensures
        a_done.compatible(&b_done),
{
}

} // verus!
