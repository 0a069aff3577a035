use fastbloom::builder::FilterBuilder;
use fastbloom::error::FilterError;
use fastbloom::filter::BloomFilter;
use fastbloom::hashing::bit_position;
use fastbloom::hashing::bloom_hash;
use fastbloom::seed::split_seed;
use siphasher::sip::SipHasher13;

fn bits_for(n: u64, p: f64) -> u64 {
    (-(n as f64) * p.ln() / 2f64.ln().powi(2)).ceil() as u64
}

fn counting_seed() -> [u8; 32] {
    let mut seed = [0u8; 32];
    for i in 0..32 {
        seed[i] = i as u8;
    }
    seed
}

fn small_filter(size: u64, hashes: u32) -> BloomFilter {
    let mut config = FilterBuilder::from_size_and_hashes(size, hashes).unwrap();
    config.complete(0).unwrap();
    BloomFilter::with_seed(&config, &counting_seed())
}

#[test]
fn builder_test() {
    let mut bloom = FilterBuilder::new(100_000_000, 0.01f64.to_bits())
        .unwrap()
        .build_bloom_filter(bits_for(100_000_000, 0.01))
        .ok()
        .unwrap();
    bloom.add(b"helloworld");
    assert_eq!(bloom.contains(b"helloworld"), true);
    assert_eq!(bloom.contains(b"helloworld!"), false);
}

#[test]
fn build_finalizes_the_builder() {
    let mut builder = FilterBuilder::new(216553, 0.01f64.to_bits()).unwrap();
    let bloom = builder.build_bloom_filter(bits_for(216553, 0.01)).ok().unwrap();
    assert!(builder.is_done());
    assert_eq!(builder.size(), 2075680);
    assert_eq!(builder.hashes(), 7);
    assert_eq!(bloom.size(), 2075680);
    assert_eq!(bloom.hashes(), 7);
}

#[test]
fn build_rejects_unusable_estimate() {
    let mut builder = FilterBuilder::new(10, 0.5f64.to_bits()).unwrap();
    assert_eq!(builder.build_bloom_filter(0).err(), Some(FilterError::InvalidParameter));
    assert!(!builder.is_done());
}

#[test]
fn failed_draw_is_random_source_error() {
    let mut config = FilterBuilder::from_size_and_hashes(64, 2).unwrap();
    config.complete(0).unwrap();
    let r = BloomFilter::from_draw(&config, Err(getrandom::Error::UNSUPPORTED));
    assert_eq!(r.err(), Some(FilterError::RandomSourceError));
}

#[test]
fn successful_draw_gives_empty_filter() {
    let mut config = FilterBuilder::from_size_and_hashes(64, 2).unwrap();
    config.complete(0).unwrap();
    let f = BloomFilter::from_draw(&config, Ok(counting_seed())).ok().unwrap();
    for j in 0..64 {
        assert!(!f.bit(j));
    }
    assert_eq!(f.hash_pair(b"x"), small_filter(64, 2).hash_pair(b"x"));
}

#[test]
fn seed_splits_in_halves() {
    let (a, b) = split_seed(&counting_seed());
    assert_eq!(a, [0, 1, 2, 3, 4, 5, 6, 7, 8, 9, 10, 11, 12, 13, 14, 15]);
    assert_eq!(b, [16, 17, 18, 19, 20, 21, 22, 23, 24, 25, 26, 27, 28, 29, 30, 31]);
}

#[test]
fn base_hashes_are_siphash_1_3_digests() {
    let f = small_filter(64, 2);
    let (h0, _) = f.hash_pair(b"");
    assert_eq!(h0, 0xabac0158050fc4dc);
    let (h0, _) = f.hash_pair(&[0u8]);
    assert_eq!(h0, 0xc9f49bf37d57ca93);
    let (a, b) = split_seed(&counting_seed());
    let (h0, h1) = f.hash_pair(b"helloworld");
    assert_eq!(h0, SipHasher13::new_with_key(&a).hash(b"helloworld"));
    assert_eq!(h1, SipHasher13::new_with_key(&b).hash(b"helloworld"));
    assert_ne!(h0, h1);
}

#[test]
fn first_two_hashes_are_the_base_hashes() {
    assert_eq!(bloom_hash(11, 22, 0), 11);
    assert_eq!(bloom_hash(11, 22, 1), 22);
}

#[test]
fn later_hashes_combine_modulo_the_prime() {
    assert_eq!(bloom_hash(11, 22, 2), 55);
    assert_eq!(bloom_hash(u64::MAX, u64::MAX, 2), 174);
    assert_eq!(bloom_hash(u64::MAX, 12345, 5), 61783);
    assert_eq!(bloom_hash(0xFFFF_FFFF_FFFF_FFC5, 0, 7), 0);
}

#[test]
fn bit_position_reduces_by_size() {
    assert_eq!(bit_position(100, 7, 0, 64), 36);
    assert_eq!(bit_position(100, 7, 1, 64), 7);
    assert_eq!(bit_position(100, 7, 3, 64), 57);
    assert_eq!(bit_position(u64::MAX, u64::MAX, 2, 32), 14);
}

#[test]
fn new_filter_is_empty() {
    let f = small_filter(128, 3);
    for j in 0..128 {
        assert!(!f.bit(j));
    }
    assert!(!f.bit(128));
    assert!(!f.contains(b"anything"));
    assert!(!f.contains(b""));
}

#[test]
fn add_sets_exactly_the_element_positions() {
    let mut f = small_filter(128, 5);
    f.add_hashed(3, 10);
    let mut expected = [false; 128];
    for i in 0..5u32 {
        expected[bit_position(3, 10, i, 128) as usize] = true;
    }
    for j in 0..128u64 {
        assert_eq!(f.bit(j), expected[j as usize]);
    }
    assert!(f.bit(3));
    assert!(f.bit(10));
    assert!(f.bit(23));
    assert!(f.bit(33));
    assert!(f.bit(43));
    assert!(f.contains_hashed(3, 10));
    assert!(!f.contains_hashed(4, 10));
}

#[test]
fn added_elements_are_always_found() {
    let mut f = small_filter(4096, 4);
    for i in 0..500u32 {
        f.add(&i.to_le_bytes());
        assert!(f.contains(&i.to_le_bytes()));
    }
    for i in 0..500u32 {
        assert!(f.contains(&i.to_le_bytes()));
    }
}

#[test]
fn adding_twice_is_adding_once() {
    let mut once = small_filter(512, 6);
    let mut twice = small_filter(512, 6);
    once.add(b"helloworld");
    twice.add(b"helloworld");
    twice.add(b"helloworld");
    for j in 0..512 {
        assert_eq!(once.bit(j), twice.bit(j));
    }
}

#[test]
fn add_never_clears_a_bit() {
    let mut f = small_filter(256, 3);
    f.add(b"first");
    let mut before = [false; 256];
    for j in 0..256u64 {
        before[j as usize] = f.bit(j);
    }
    f.add(b"second");
    for j in 0..256u64 {
        assert!(!before[j as usize] || f.bit(j));
    }
}

#[test]
fn filters_from_same_parameters_are_compatible() {
    let mut a = FilterBuilder::new(1000, 0.01f64.to_bits()).unwrap();
    let mut b = FilterBuilder::new(1000, 0.01f64.to_bits()).unwrap();
    let fa = a.build_bloom_filter(bits_for(1000, 0.01)).ok().unwrap();
    let fb = b.build_bloom_filter(bits_for(1000, 0.01)).ok().unwrap();
    assert!(fa.is_compatible_to(&fb));
    assert!(fb.is_compatible_to(&fa));
    assert!(fa.is_compatible_to(&fa));
}

#[test]
fn filters_of_other_shape_are_incompatible() {
    let a = small_filter(1024, 3);
    let b = small_filter(2048, 3);
    let c = small_filter(1024, 4);
    assert!(!a.is_compatible_to(&b));
    assert!(!b.is_compatible_to(&a));
    assert!(!a.is_compatible_to(&c));
}

#[test]
fn false_positive_rate_stays_near_target() {
    let n: u64 = 10_000;
    let mut config = FilterBuilder::new(n, 0.01f64.to_bits()).unwrap();
    config.complete(bits_for(n, 0.01)).unwrap();
    assert_eq!(config.size(), 95872);
    assert_eq!(config.hashes(), 7);
    let mut f = BloomFilter::with_seed(&config, &counting_seed());
    for i in 0..n {
        f.add(&i.to_le_bytes());
    }
    let mut hits: u64 = 0;
    for i in n..2 * n {
        if f.contains(&i.to_le_bytes()) {
            hits += 1;
        }
    }
    assert!(hits <= 200);
}
