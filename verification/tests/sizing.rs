use fastbloom::builder::FilterBuilder;
use fastbloom::error::FilterError;
use fastbloom::params::optimal_k;
use fastbloom::params::round_up_to_word;

fn estimate(n: u64, p: f64) -> u64 {
    (-(n as f64) * p.ln() / 2f64.ln().powi(2)).ceil() as u64
}

#[test]
fn optimal_test() {
    let m = round_up_to_word(estimate(216553, 0.01)).unwrap();
    let k = optimal_k(216553, 2075680);
    println!("{m} {k}");
    assert_eq!(m, 2075680);
    assert_eq!(k, 7)
}

#[test]
fn round_up_leaves_multiples_alone() {
    assert_eq!(round_up_to_word(0), Some(0));
    assert_eq!(round_up_to_word(32), Some(32));
    assert_eq!(round_up_to_word(2075680), Some(2075680));
    assert_eq!(round_up_to_word(0xFFFF_FFFF_FFFF_FFE0), Some(0xFFFF_FFFF_FFFF_FFE0));
}

#[test]
fn round_up_goes_to_next_multiple() {
    assert_eq!(round_up_to_word(1), Some(32));
    assert_eq!(round_up_to_word(31), Some(32));
    assert_eq!(round_up_to_word(33), Some(64));
    assert_eq!(round_up_to_word(2075674), Some(2075680));
    assert_eq!(round_up_to_word(958505838), Some(958505856));
}

#[test]
fn round_up_fails_past_last_multiple() {
    assert_eq!(round_up_to_word(0xFFFF_FFFF_FFFF_FFE1), None);
    assert_eq!(round_up_to_word(u64::MAX), None);
}

#[test]
fn rounded_sizes_are_word_multiples() {
    let mut m: u64 = 0;
    while m < 5000 {
        let r = round_up_to_word(m).unwrap();
        assert_eq!(r % 32, 0);
        assert!(r >= m && r < m + 32);
        m += 1;
    }
}

#[test]
fn hash_count_exact_values() {
    assert_eq!(optimal_k(1, 32), 23);
    assert_eq!(optimal_k(2, 64), 23);
    assert_eq!(optimal_k(3, 64), 15);
    assert_eq!(optimal_k(64, 64), 1);
    assert_eq!(optimal_k(10000, 95872), 7);
    assert_eq!(optimal_k(100_000_000, 958505856), 7);
    assert_eq!(optimal_k(u64::MAX, 32), 1);
}

#[test]
fn hash_count_of_empty_filter_is_zero() {
    assert_eq!(optimal_k(5, 0), 0);
}

#[test]
fn hash_count_saturates() {
    assert_eq!(optimal_k(1, 6196328000), 4294967284);
    assert_eq!(optimal_k(1, 6196328018), u32::MAX);
    assert_eq!(optimal_k(1, 0xFFFF_FFFF_FFFF_FFE0), u32::MAX);
}

#[test]
fn new_accepts_valid_parameters() {
    let b = FilterBuilder::new(216553, 0.01f64.to_bits()).unwrap();
    assert_eq!(b.expected_elements(), 216553);
    assert_eq!(b.false_positive_probability(), 0.01f64.to_bits());
    assert_eq!(b.size(), 0);
    assert_eq!(b.hashes(), 0);
    assert!(!b.is_done());
    assert!(FilterBuilder::new(1, f64::MIN_POSITIVE.to_bits()).is_ok());
    assert!(FilterBuilder::new(u64::MAX, 0.999999f64.to_bits()).is_ok());
}

#[test]
fn new_rejects_zero_elements() {
    assert_eq!(FilterBuilder::new(0, 0.01f64.to_bits()).err(), Some(FilterError::InvalidParameter));
}

#[test]
fn new_rejects_probability_outside_unit_interval() {
    let bad = [0.0f64, -0.0, 1.0, 1.5, -0.5, f64::INFINITY, f64::NEG_INFINITY, f64::NAN];
    for p in bad {
        assert_eq!(
            FilterBuilder::new(10, p.to_bits()).err(),
            Some(FilterError::InvalidParameter)
        );
    }
}

#[test]
fn complete_derives_size_and_hashes() {
    let mut b = FilterBuilder::new(216553, 0.01f64.to_bits()).unwrap();
    assert_eq!(b.complete(estimate(216553, 0.01)), Ok(()));
    assert!(b.is_done());
    assert_eq!(b.size(), 2075680);
    assert_eq!(b.hashes(), 7);
    assert_eq!(b.size() % 32, 0);
}

#[test]
fn complete_twice_changes_nothing() {
    let mut b = FilterBuilder::new(216553, 0.01f64.to_bits()).unwrap();
    b.complete(2075674).unwrap();
    assert_eq!(b.complete(64), Ok(()));
    assert_eq!(b.size(), 2075680);
    assert_eq!(b.hashes(), 7);
    assert_eq!(b.complete(0), Ok(()));
    assert_eq!(b.size(), 2075680);
}

#[test]
fn complete_keeps_given_sizes() {
    let mut b = FilterBuilder::from_size_and_hashes(1024, 3).unwrap();
    assert!(!b.is_done());
    assert_eq!(b.complete(0), Ok(()));
    assert!(b.is_done());
    assert_eq!(b.size(), 1024);
    assert_eq!(b.hashes(), 3);
}

#[test]
fn complete_rejects_unusable_estimate() {
    let mut b = FilterBuilder::new(10, 0.5f64.to_bits()).unwrap();
    assert_eq!(b.complete(0), Err(FilterError::InvalidParameter));
    assert!(!b.is_done());
    assert_eq!(b.size(), 0);
    assert_eq!(b.complete(u64::MAX), Err(FilterError::InvalidParameter));
    assert!(!b.is_done());
    assert_eq!(b.complete(1), Ok(()));
    assert_eq!(b.size(), 32);
    assert_eq!(b.hashes(), 3);
}

#[test]
fn from_size_and_hashes_validates() {
    assert!(FilterBuilder::from_size_and_hashes(32, 1).is_ok());
    assert_eq!(
        FilterBuilder::from_size_and_hashes(0, 1).err(),
        Some(FilterError::InvalidParameter)
    );
    assert_eq!(
        FilterBuilder::from_size_and_hashes(33, 1).err(),
        Some(FilterError::InvalidParameter)
    );
    assert_eq!(
        FilterBuilder::from_size_and_hashes(64, 0).err(),
        Some(FilterError::InvalidParameter)
    );
}

#[test]
fn builders_from_same_parameters_are_compatible() {
    let mut a = FilterBuilder::new(216553, 0.01f64.to_bits()).unwrap();
    let mut b = FilterBuilder::new(216553, 0.01f64.to_bits()).unwrap();
    a.complete(estimate(216553, 0.01)).unwrap();
    b.complete(estimate(216553, 0.01)).unwrap();
    assert!(a.is_compatible_to(&b));
    assert!(b.is_compatible_to(&a));
    assert!(a.is_compatible_to(&a));
}

#[test]
fn builders_of_other_size_or_hashes_are_incompatible() {
    let a = FilterBuilder::from_size_and_hashes(1024, 3).unwrap();
    let b = FilterBuilder::from_size_and_hashes(2048, 3).unwrap();
    let c = FilterBuilder::from_size_and_hashes(1024, 4).unwrap();
    assert!(!a.is_compatible_to(&b));
    assert!(!b.is_compatible_to(&a));
    assert!(!a.is_compatible_to(&c));
    assert!(!c.is_compatible_to(&a));
}
