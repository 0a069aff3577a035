//! The filter itself: a word array of bits, two hash keys, insertion and
//! lookup.
//!
//! A filter is viewed as a sequence of booleans, one per bit. Insertion and
//! lookup are stated over that view by [`inserted`] and [`member`].

use vstd::prelude::*;
use crate::builder::FilterBuilder;
use crate::hashing::bit_index;
use crate::hashing::bit_position;
use crate::hashing::keyed_digest;
use crate::hashing::keyed_hash;
use crate::hashing::lemma_touches_step;
use crate::hashing::touches;
use crate::seed::draw_seed;
use crate::seed::split_seed;
use crate::error::FilterError;

verus! {

/// Bit `j` of the word `w`.
pub open spec fn word_bit(w: u32, j: u32) -> bool {
    (w >> j) & 1u32 == 1u32
}

/// The bits of a word array, word after word, lowest bit first.
pub open spec fn bits_of(words: Seq<u32>) -> Seq<bool> {
    Seq::new(words.len() * 32, |j: int| word_bit(words[j / 32], (j % 32) as u32))
}

/// The bit array after the first `k` positions of an element with base
/// hashes `h0` and `h1` have been set: every bit that was set stays set, and
/// the touched ones are set.
pub open spec fn inserted(bits: Seq<bool>, h0: u64, h1: u64, k: int) -> Seq<bool> {
    Seq::new(bits.len(), |j: int| bits[j] || touches(h0, h1, k, bits.len() as int, j))
}

/// Whether all of the first `k` positions of an element with base hashes
/// `h0` and `h1` are set.
pub open spec fn member(bits: Seq<bool>, h0: u64, h1: u64, k: int) -> bool {
    forall|i: int| 0 <= i < k ==> bits[#[trigger] bit_index(h0, h1, i, bits.len() as int)]
}

/// Setting bit `j` of a word sets that bit and changes no other.
proof fn lemma_set_bit(w: u32, j: u32, k: u32)
    requires
        j < 32,
        k < 32,
    ensures
        word_bit(w | (1u32 << j), k) == (word_bit(w, k) || k == j),
{
    assert(((w | (1u32 << j)) >> k) & 1u32 == 1u32 <==> ((w >> k) & 1u32 == 1u32 || k == j))
        by (bit_vector)
        requires
            j < 32,
            k < 32,
    ;
}

/// No bit of the zero word is set.
proof fn lemma_zero_word(k: u32)
    requires
        k < 32,
    ensures
        !word_bit(0u32, k),
{
    assert((0u32 >> k) & 1u32 == 0u32) by (bit_vector)
        requires
            k < 32,
    ;
}

/// A Bloom filter over byte strings.
pub struct BloomFilter {
    words: Vec<u32>,
    config: FilterBuilder,
    key_a: [u8; 16],
    key_b: [u8; 16],
}

impl View for BloomFilter {
    type V = Seq<bool>;

    closed spec fn view(&self) -> Seq<bool> {
        bits_of(self.words@)
    }
}

impl BloomFilter {
    /// The frozen parameters of the filter.
    pub closed spec fn parameters(&self) -> FilterBuilder {
        self.config
    }

    /// The key of the first hash function.
    pub closed spec fn seed_a(&self) -> Seq<u8> {
        self.key_a@
    }

    /// The key of the second hash function.
    pub closed spec fn seed_b(&self) -> Seq<u8> {
        self.key_b@
    }

    /// The two base hashes of an element under this filter's keys.
    pub open spec fn base_hashes(&self, element: Seq<u8>) -> (u64, u64) {
        (keyed_digest(self.seed_a(), element), keyed_digest(self.seed_b(), element))
    }

    /// The number of positions per element.
    pub open spec fn k(&self) -> int {
        self.parameters().hash_count() as int
    }

    /// What holds of every filter: its parameters are finalized and it has
    /// exactly as many bits as they say.
    pub closed spec fn wf(&self) -> bool {
        &&& self.config.wf()
        &&& self.config.is_finalized()
        &&& self.words@.len() * 32 == self.config.bit_array_size()
    }

    /// A well-formed filter has as many bits as its parameters say, a
    /// positive multiple of 32, and at least one hash.
    pub proof fn lemma_shape(&self)
        requires
            self.wf(),
        ensures
            self@.len() == self.parameters().bit_array_size(),
            self@.len() > 0,
            self@.len() % 32 == 0,
            self.k() >= 1,
    {
        self.config.lemma_finalized_sizes();
    }

    /// An empty filter with the given finalized parameters, keyed by the two
    /// halves of `seed`.
    pub fn with_seed(config: &FilterBuilder, seed: &[u8; 32]) -> (f: BloomFilter)
        requires
            config.wf(),
            config.is_finalized(),
        ensures
            f.wf(),
            f.parameters() == *config,
            f.seed_a() == seed@.subrange(0, 16),
            f.seed_b() == seed@.subrange(16, 32),
            f@ == Seq::new(config.bit_array_size() as nat, |j: int| false),
    {
        proof {
            config.lemma_finalized_sizes();
        }
        let count: usize = (config.size() / 32) as usize;
        let words: Vec<u32> = vec![0u32; count];
        let keys = split_seed(seed);
        let f = BloomFilter { words, config: *config, key_a: keys.0, key_b: keys.1 };
        proof {
            assert forall|j: int| 0 <= j < f@.len() implies !f@[j] by {
                lemma_zero_word((j % 32) as u32);
            }
            assert(f@ =~= Seq::new(config.bit_array_size() as nat, |j: int| false));
        }
        f
    }

    /// A filter from the outcome of a seed draw: the empty filter keyed by the
    /// seed when there is one, `RandomSourceError` when the draw failed.
    pub fn from_draw(config: &FilterBuilder, draw: Result<[u8; 32], getrandom::Error>) -> (r:
        Result<BloomFilter, FilterError>)
        requires
            config.wf(),
            config.is_finalized(),
        ensures
            r.is_ok() <==> draw.is_ok(),
            r.is_err() ==> r == Err::<BloomFilter, FilterError>(FilterError::RandomSourceError),
            r.is_ok() ==> {
                &&& r.unwrap().wf()
                &&& r.unwrap().parameters() == *config
                &&& r.unwrap().seed_a() == draw.unwrap()@.subrange(0, 16)
                &&& r.unwrap().seed_b() == draw.unwrap()@.subrange(16, 32)
                &&& r.unwrap()@ == Seq::new(config.bit_array_size() as nat, |j: int| false)
            },
    {
        match draw {
            Ok(seed) => Ok(BloomFilter::with_seed(config, &seed)),
            Err(_) => Err(FilterError::RandomSourceError),
        }
    }

    /// An empty filter with the given finalized parameters and freshly drawn
    /// keys. Fails only when the random source does, with
    /// `RandomSourceError`.
    pub fn new(config: &FilterBuilder) -> (r: Result<BloomFilter, FilterError>)
        requires
            config.wf(),
            config.is_finalized(),
        ensures
            r.is_err() ==> r == Err::<BloomFilter, FilterError>(FilterError::RandomSourceError),
            r.is_ok() ==> {
                &&& r.unwrap().wf()
                &&& r.unwrap().parameters() == *config
                &&& r.unwrap()@ == Seq::new(config.bit_array_size() as nat, |j: int| false)
            },
    {
        BloomFilter::from_draw(config, draw_seed())
    }

    /// The number of bits.
    pub fn size(&self) -> (m: u64)
        ensures
            m == self.parameters().bit_array_size(),
    {
        self.config.size()
    }

    /// The number of positions per element.
    pub fn hashes(&self) -> (k: u32)
        ensures
            k == self.parameters().hash_count(),
    {
        self.config.hashes()
    }

    /// Whether bit `index` lies in the filter and is set.
    pub fn bit(&self, index: u64) -> (r: bool)
        requires
            self.wf(),
        ensures
            r == (index < self@.len() && self@[index as int]),
    {
        if index >= self.config.size() {
            return false;
        }
        let len: usize = self.words.len();
        assert(index / 32 < len);
        let word: u32 = self.words[(index / 32) as usize];
        let off: u32 = (index % 32) as u32;
        (word >> off) & 1u32 == 1u32
    }

    /// The two base hashes of `element` under this filter's keys.
    pub fn hash_pair(&self, element: &[u8]) -> (h: (u64, u64))
        ensures
            h == self.base_hashes(element@),
    {
        (keyed_hash(&self.key_a, element), keyed_hash(&self.key_b, element))
    }

    /// Sets the bits of the element with base hashes `h0` and `h1`.
    pub fn add_hashed(&mut self, h0: u64, h1: u64)
        requires
            old(self).wf(),
        ensures
            final(self).wf(),
            final(self).parameters() == old(self).parameters(),
            final(self).seed_a() == old(self).seed_a(),
            final(self).seed_b() == old(self).seed_b(),
            final(self)@ == inserted(old(self)@, h0, h1, old(self).k()),
    {
        proof {
            self.lemma_shape();
        }
        let k: u32 = self.config.hashes();
        let size: u64 = self.config.size();
        let len: usize = self.words.len();
        let ghost start = self@;
        let ghost before = *self;
        let mut i: u32 = 0;
        proof {
            assert forall|j: int| 0 <= j < size implies self@[j] == (start[j] || touches(
                h0,
                h1,
                0,
                size as int,
                j,
            )) by {
                lemma_touches_step(h0, h1, 0, size as int, j);
            }
        }
        while i < k
            invariant
                i <= k,
                self.wf(),
                self.config == before.config,
                self.key_a == before.key_a,
                self.key_b == before.key_b,
                size == self.config.bit_array_size(),
                size > 0,
                len == self.words@.len(),
                start.len() == size,
                self@.len() == size,
                forall|j: int|
                    0 <= j < size ==> self@[j] == (start[j] || touches(
                        h0,
                        h1,
                        i as int,
                        size as int,
                        j,
                    )),
            decreases k - i,
        {
            let pos: u64 = bit_position(h0, h1, i, size);
            assert(pos / 32 < self.words@.len() && self@[pos as int] == word_bit(
                self.words@[pos as int / 32],
                (pos % 32) as u32,
            ));
            let idx: usize = (pos / 32) as usize;
            let off: u32 = (pos % 32) as u32;
            let word: u32 = self.words[idx];
            let ghost prev = self@;
            self.words.set(idx, word | (1u32 << off));
            proof {
                assert forall|j: int| 0 <= j < size implies self@[j] == (start[j] || touches(
                    h0,
                    h1,
                    i as int + 1,
                    size as int,
                    j,
                )) by {
                    lemma_touches_step(h0, h1, i as int, size as int, j);
                    assert(prev[j] == (start[j] || touches(h0, h1, i as int, size as int, j)));
                    if j / 32 == idx as int {
                        lemma_set_bit(word, off, (j % 32) as u32);
                    }
                }
            }
            i += 1;
        }
        assert(self@ =~= inserted(start, h0, h1, k as int));
    }

    /// Whether all bits of the element with base hashes `h0` and `h1` are set.
    pub fn contains_hashed(&self, h0: u64, h1: u64) -> (r: bool)
        requires
            self.wf(),
        ensures
            r == member(self@, h0, h1, self.k()),
    {
        proof {
            self.lemma_shape();
        }
        let k: u32 = self.config.hashes();
        let size: u64 = self.config.size();
        let len: usize = self.words.len();
        let mut i: u32 = 0;
        while i < k
            invariant
                i <= k,
                self.wf(),
                size == self.config.bit_array_size(),
                size > 0,
                len == self.words@.len(),
                self@.len() == size,
                k == self.config.hash_count(),
                forall|t: int|
                    0 <= t < i ==> self@[#[trigger] bit_index(h0, h1, t, size as int)],
            decreases k - i,
        {
            let pos: u64 = bit_position(h0, h1, i, size);
            assert(pos / 32 < self.words@.len() && self@[pos as int] == word_bit(
                self.words@[pos as int / 32],
                (pos % 32) as u32,
            ));
            let idx: usize = (pos / 32) as usize;
            let off: u32 = (pos % 32) as u32;
            let word: u32 = self.words[idx];
            if (word >> off) & 1u32 != 1u32 {
                assert(!self@[bit_index(h0, h1, i as int, size as int)]);
                return false;
            }
            i += 1;
        }
        true
    }

    /// Whether `after` is this filter with `element` inserted: same
    /// parameters, same keys, and the element's positions set.
    pub open spec fn added(&self, element: Seq<u8>, after: &BloomFilter) -> bool {
        &&& after.parameters() == self.parameters()
        &&& after.seed_a() == self.seed_a()
        &&& after.seed_b() == self.seed_b()
        &&& after@ == inserted(
            self@,
            self.base_hashes(element).0,
            self.base_hashes(element).1,
            self.k(),
        )
    }

    /// Whether all bit positions of `element` are set in this filter.
    pub open spec fn holds(&self, element: Seq<u8>) -> bool {
        member(self@, self.base_hashes(element).0, self.base_hashes(element).1, self.k())
    }

    /// Inserts `element`: sets each of its bit positions.
    pub fn add(&mut self, element: &[u8])
        requires
            old(self).wf(),
        ensures
            final(self).wf(),
            old(self).added(element@, final(self)),
    {
        let h = self.hash_pair(element);
        self.add_hashed(h.0, h.1);
    }

    /// Looks `element` up: `false` when one of its bit positions is clear, so
    /// that it was never inserted; `true` when all are set.
    pub fn contains(&self, element: &[u8]) -> (r: bool)
        requires
            self.wf(),
        ensures
            r == self.holds(element@),
    {
        let h = self.hash_pair(element);
        self.contains_hashed(h.0, h.1)
    }

    /// Whether the two filters have the same size and hash count, as any
    /// operation that combines their bit arrays demands.
    pub fn is_compatible_to(&self, other: &BloomFilter) -> (r: bool)
        ensures
            r == self.parameters().compatible(&other.parameters()),
    {
        self.config.is_compatible_to(&other.config)
    }
}

} // verus!
