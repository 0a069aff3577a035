//! The random seed of a filter: where it comes from and how it is split
//! into the keys of the two hash functions.

use vstd::prelude::*;

verus! {

/// The error of the random source, `getrandom::Error`. Opaque here: it is
/// only told apart from success.
#[verifier::external_type_specification]
#[verifier::external_body]
pub struct ExRandomSourceError(getrandom::Error);

/// Calls `getrandom::getrandom` on a 32-byte buffer. Trusted, and nothing is
/// claimed of the outcome: the bytes are random, and the call may fail.
#[verifier::external_body]
pub(crate) fn draw_seed() -> (r: Result<[u8; 32], getrandom::Error>) {
    let mut seed = [0u8;32];
    match getrandom::getrandom(&mut seed) {
        Ok(()) => Ok(seed),
        Err(e) => Err(e),
    }
}

/// The two halves of a 32-byte seed, as the keys of the two hash functions.
pub fn split_seed(seed: &[u8; 32]) -> (keys: ([u8; 16], [u8; 16]))
    ensures
        keys.0@ == seed@.subrange(0, 16),
        keys.1@ == seed@.subrange(16, 32),
{
    let mut first = [0u8;16];
    let mut second = [0u8;16];
    let mut i: usize = 0;
    while i < 16
        invariant
            i <= 16,
            forall|j: int| 0 <= j < i ==> first@[j] == seed@[j],
            forall|j: int| 0 <= j < i ==> second@[j] == seed@[j + 16],
        decreases 16 - i,
    {
        first[i] = seed[i];
        second[i] = seed[i + 16];
        i += 1;
    }
    assert(first@ =~= seed@.subrange(0, 16));
    assert(second@ =~= seed@.subrange(16, 32));
    (first, second)
}

} // verus!
