//! From an element to its bit positions: two keyed base hashes, extended to
//! any number of positions by double hashing.

use vstd::prelude::*;
use siphasher::sip::SipHasher13;

verus! {

/// `2^64 - 59`, the largest prime below `2^64`.
pub const PROBE_MODULUS: u64 = 0xFFFF_FFFF_FFFF_FFC5;

/// The SipHash-1-3 digest of `data` under the 16-byte `key`.
pub uninterp spec fn keyed_digest(key: Seq<u8>, data: Seq<u8>) -> u64;

/// Calls `siphasher::sip::SipHasher13::new_with_key` and then `hash` on the
/// hasher it returns. Trusted: the digest is a function of the key and the
/// data alone, which is all that [`keyed_digest`] claims of it.
#[verifier::external_body]
pub(crate) fn keyed_hash(key: &[u8; 16], data: &[u8]) -> (h: u64)
    ensures
        h == keyed_digest(key@, data@),
{
    SipHasher13::new_with_key(key).hash(data)
}

/// The `i`-th hash of an element with base hashes `h0` and `h1`: the base
/// hashes themselves for `i` below two, then `(h0 + i * h1) mod (2^64 - 59)`.
pub open spec fn probe(h0: u64, h1: u64, i: int) -> int {
    if i == 0 {
        h0 as int
    } else if i == 1 {
        h1 as int
    } else {
        (h0 as int + i * h1 as int) % (PROBE_MODULUS as int)
    }
}

/// The `i`-th bit position in a filter of `size` bits.
pub open spec fn bit_index(h0: u64, h1: u64, i: int, size: int) -> int {
    probe(h0, h1, i) % size
}

/// Whether one of the first `k` positions of the element is `j`.
pub open spec fn touches(h0: u64, h1: u64, k: int, size: int, j: int) -> bool {
    exists|i: int| 0 <= i < k && #[trigger] bit_index(h0, h1, i, size) == j
}

/// The `i`-th hash of an element, computed in 128 bits so that the sum
/// cannot wrap.
pub fn bloom_hash(h0: u64, h1: u64, i: u32) -> (h: u64)
    ensures
        h as int == probe(h0, h1, i as int),
{
    if i == 0 {
        h0
    } else if i == 1 {
        h1
    } else {
        assert((i as int) * (h1 as int) <= 0xFFFF_FFFF * 0xFFFF_FFFF_FFFF_FFFF) by (nonlinear_arith)
            requires
                0 <= i as int <= 0xFFFF_FFFF,
                0 <= h1 as int <= 0xFFFF_FFFF_FFFF_FFFF,
        ;
        let step: u128 = (i as u128) * (h1 as u128);
        let sum: u128 = (h0 as u128) + step;
        (sum % (PROBE_MODULUS as u128)) as u64
    }
}

/// The `i`-th bit position of an element in a filter of `size` bits.
pub fn bit_position(h0: u64, h1: u64, i: u32, size: u64) -> (pos: u64)
    requires
        size > 0,
    ensures
        pos as int == bit_index(h0, h1, i as int, size as int),
        pos < size,
{
    bloom_hash(h0, h1, i) % size
}

/// One more position touches what the positions before it touched, and its
/// own bit.
pub proof fn lemma_touches_step(h0: u64, h1: u64, k: int, size: int, j: int)
    requires
        k >= 0,
    ensures
        touches(h0, h1, k + 1, size, j) <==> (touches(h0, h1, k, size, j) || bit_index(
            h0,
            h1,
            k,
            size,
        ) == j),
        !touches(h0, h1, 0, size, j),
{
    if touches(h0, h1, k + 1, size, j) {
        let i = choose|i: int| 0 <= i < k + 1 && #[trigger] bit_index(h0, h1, i, size) == j;
        if i < k {
            assert(touches(h0, h1, k, size, j));
        }
    }
    if touches(h0, h1, k, size, j) {
        let i = choose|i: int| 0 <= i < k && #[trigger] bit_index(h0, h1, i, size) == j;
        assert(0 <= i < k + 1 && bit_index(h0, h1, i, size) == j);
    }
    if bit_index(h0, h1, k, size) == j {
        assert(0 <= k < k + 1 && bit_index(h0, h1, k, size) == j);
    }
}

} // verus!
