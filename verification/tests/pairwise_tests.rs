use rust_jaccard::{
    binary_pair_key, compare_binaries, compare_pairwise, compare_to_reference, BinaryFeatures,
    Fraction,
};

fn features(name: &str, bytes: &[u8]) -> BinaryFeatures {
    BinaryFeatures::extract_from_bytes(bytes, name.to_string(), format!("/bin/{}", name))
}

#[test]
fn pairwise_compares_each_pair_once_in_order() {
    let binaries = vec![
        features("a", b"aaaabbbb"),
        features("b", b"aaaacccc"),
        features("c", b"ddddbbbb"),
        features("d", b"aaaabbbb"),
    ];
    let results = compare_pairwise(&binaries);
    let names: Vec<(String, String)> = results
        .iter()
        .map(|r| (r.binary1.clone(), r.binary2.clone()))
        .collect();
    let expected: Vec<(String, String)> = [("a", "b"), ("a", "c"), ("a", "d"), ("b", "c"), ("b", "d"), ("c", "d")]
        .iter()
        .map(|(x, y)| (x.to_string(), y.to_string()))
        .collect();
    assert_eq!(names, expected);
    assert_eq!(results[0].pair_path, "/bin/a <-> /bin/b");
    assert_eq!(results[0].similarity.chunk_4, Fraction { numerator: 1, denominator: 3 });
    assert_eq!(results[2].similarity.chunk_4, Fraction { numerator: 2, denominator: 2 });
}

#[test]
fn pairwise_of_fewer_than_two_is_empty() {
    assert!(compare_pairwise(&[]).is_empty());
    assert!(compare_pairwise(&[features("x", b"x")]).is_empty());
}

#[test]
fn pairwise_count_is_n_choose_two() {
    let binaries: Vec<BinaryFeatures> = (0u8..7).map(|i| features(&i.to_string(), &[i; 5])).collect();
    assert_eq!(compare_pairwise(&binaries).len(), 21);
}

#[test]
fn reference_comparison_keeps_order_and_names() {
    let reference = features("ref", b"aaaabbbb");
    let binaries = vec![features("x", b"aaaacccc"), features("y", b"aaaabbbb")];
    let results = compare_to_reference(&reference, &binaries);
    assert_eq!(results.len(), 2);
    assert_eq!(results[0].binary1, "ref");
    assert_eq!(results[0].binary2, "x");
    assert_eq!(results[0].pair_path, "/bin/ref <-> /bin/x");
    assert_eq!(results[1].binary2, "y");
    assert_eq!(results[1].similarity.chunk_8, Fraction { numerator: 1, denominator: 1 });
}

#[test]
fn comparison_is_symmetric_in_scores() {
    let a = features("a", b"0123456789abcdef0123");
    let b = features("b", b"0123xxxx89abcdef");
    let ab = compare_binaries(&a, &b);
    let ba = compare_binaries(&b, &a);
    assert_eq!(ab.similarity, ba.similarity);
    assert_eq!(ab.pair_path, "/bin/a <-> /bin/b");
    assert_eq!(ba.pair_path, "/bin/b <-> /bin/a");
}

#[test]
fn pair_key_joins_names() {
    assert_eq!(binary_pair_key("reference|name.exe", "test|name.exe"), "reference|name.exe|test|name.exe");
    assert_eq!(binary_pair_key("", ""), "|");
}
