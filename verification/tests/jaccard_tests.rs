use rust_jaccard::{calculate_chunk_similarity, jaccard_coefficient, BinaryFeatures, Fraction};
use std::collections::HashSet;

fn value(f: Fraction) -> f64 {
    f.numerator as f64 / f.denominator as f64
}

#[test]
fn test_jaccard_coefficient_identical() {
    let set1: HashSet<u64> = [1, 2, 3, 4].iter().cloned().collect();
    let set2: HashSet<u64> = [1, 2, 3, 4].iter().cloned().collect();

    let coefficient = jaccard_coefficient(&set1, &set2);
    assert_eq!(value(coefficient), 1.0);
}

#[test]
fn test_jaccard_coefficient_disjoint() {
    let set1: HashSet<u64> = [1, 2, 3].iter().cloned().collect();
    let set2: HashSet<u64> = [4, 5, 6].iter().cloned().collect();

    let coefficient = jaccard_coefficient(&set1, &set2);
    assert_eq!(value(coefficient), 0.0);
}

#[test]
fn test_jaccard_coefficient_partial_overlap() {
    let set1: HashSet<u64> = [1, 2, 3, 4].iter().cloned().collect();
    let set2: HashSet<u64> = [3, 4, 5, 6].iter().cloned().collect();

    let coefficient = jaccard_coefficient(&set1, &set2);
    assert_eq!(value(coefficient), 2.0 / 6.0);
}

#[test]
fn test_jaccard_coefficient_empty_sets() {
    let set1: HashSet<u64> = HashSet::new();
    let set2: HashSet<u64> = HashSet::new();

    let coefficient = jaccard_coefficient(&set1, &set2);
    assert_eq!(value(coefficient), 1.0);
}

#[test]
fn jaccard_fraction_is_intersection_over_union() {
    let set1: HashSet<u64> = [1, 2, 3, 4].iter().cloned().collect();
    let set2: HashSet<u64> = [3, 4, 5, 6].iter().cloned().collect();
    let coefficient = jaccard_coefficient(&set1, &set2);
    assert_eq!(coefficient, Fraction { numerator: 2, denominator: 6 });
}

#[test]
fn jaccard_one_empty_set_scores_zero() {
    let set1: HashSet<u64> = HashSet::new();
    let set2: HashSet<u64> = [7, 8].iter().cloned().collect();
    assert_eq!(jaccard_coefficient(&set1, &set2), Fraction { numerator: 0, denominator: 2 });
    assert_eq!(jaccard_coefficient(&set2, &set1), Fraction { numerator: 0, denominator: 2 });
}

#[test]
fn jaccard_is_symmetric_on_values() {
    let set1: HashSet<u64> = [1, 2, 3, 10, 20].iter().cloned().collect();
    let set2: HashSet<u64> = [2, 3, 4].iter().cloned().collect();
    let a = jaccard_coefficient(&set1, &set2);
    let b = jaccard_coefficient(&set2, &set1);
    assert_eq!(a, b);
    assert_eq!(a, Fraction { numerator: 2, denominator: 6 });
}

#[test]
fn jaccard_subset_scores_ratio_of_sizes() {
    let set1: HashSet<u64> = [1, 2].iter().cloned().collect();
    let set2: HashSet<u64> = [1, 2, 3, 4, 5].iter().cloned().collect();
    let c = jaccard_coefficient(&set1, &set2);
    assert_eq!(c, Fraction { numerator: 2, denominator: 5 });
    assert!(c.numerator <= c.denominator);
}

#[test]
fn binary_compared_with_itself_scores_one() {
    let bytes: Vec<u8> = (0u8..100).collect();
    let a = BinaryFeatures::extract_from_bytes(&bytes, "a".to_string(), "/a".to_string());
    let s = calculate_chunk_similarity(&a, &a);
    assert_eq!(s.chunk_4.numerator, s.chunk_4.denominator);
    assert_eq!(s.chunk_16.numerator, s.chunk_16.denominator);
    assert_eq!(s.chunk_8.numerator, s.chunk_8.denominator);
    assert_eq!(s.chunk_4.denominator, 25);
    assert_eq!(s.chunk_16.denominator, 7);
    assert_eq!(s.chunk_8.denominator, 13);
}

#[test]
fn same_bytes_under_other_names_score_one() {
    let bytes: Vec<u8> = (0u8..40).collect();
    let a = BinaryFeatures::extract_from_bytes(&bytes, "a".to_string(), "/x/a".to_string());
    let b = BinaryFeatures::extract_from_bytes(&bytes, "b".to_string(), "/y/b".to_string());
    let s = calculate_chunk_similarity(&a, &b);
    assert_eq!(s.chunk_4, Fraction { numerator: 10, denominator: 10 });
    assert_eq!(s.chunk_16, Fraction { numerator: 3, denominator: 3 });
    assert_eq!(s.chunk_8, Fraction { numerator: 5, denominator: 5 });
}
