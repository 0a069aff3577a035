//! A Bloom filter: a fixed array of bits that answers "certainly absent" or
//! "possibly present" for byte strings, with its sizing rules.
//!
//! Every function carries a contract. Verus proves each of them but two: the
//! keyed hash and the seed draw call outside crates, and their doc comments
//! say what is taken on trust. The filter is modelled as a sequence of
//! booleans; the laws that relate insertion and lookup are stated over that
//! model in [`laws`].

pub mod error;
pub mod params;
pub mod builder;
pub mod hashing;
pub mod seed;
pub mod filter;
pub mod laws;
