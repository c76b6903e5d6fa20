use rust_jaccard::BinaryFeatures;
use std::collections::HashSet;

// First eight bytes of SHA-256("abc") = ba 78 16 bf 8f 01 cf ea, read little-endian.
const ABC_HASH: u64 = 0xeacf018fbf1678ba;
// First eight bytes of SHA-256("abcd") = 88 d4 26 6f d4 e6 33 8d, read little-endian.
const ABCD_HASH: u64 = 0x8d33e6d46f26d488;

#[test]
fn extract_hashes_short_input_as_one_chunk() {
    let f = BinaryFeatures::extract_from_bytes(b"abc", "n".to_string(), "/p".to_string());
    assert_eq!(f.name, "n");
    assert_eq!(f.path, "/p");
    let expected: HashSet<u64> = [ABC_HASH].iter().cloned().collect();
    assert_eq!(f.chunk_4_hashes, expected);
    assert_eq!(f.chunk_16_hashes, expected);
    assert_eq!(f.chunk_8_hashes, expected);
}

#[test]
fn extract_empty_input_has_no_chunks() {
    let f = BinaryFeatures::extract_from_bytes(b"", "e".to_string(), "/e".to_string());
    assert!(f.chunk_4_hashes.is_empty());
    assert!(f.chunk_16_hashes.is_empty());
    assert!(f.chunk_8_hashes.is_empty());
}

#[test]
fn extract_chunks_and_deduplicates() {
    // 4-byte chunks: "abcd", "abcd", "abc" -> two distinct hashes
    let f = BinaryFeatures::extract_from_bytes(b"abcdabcdabc", "d".to_string(), "/d".to_string());
    let expected4: HashSet<u64> = [ABCD_HASH, ABC_HASH].iter().cloned().collect();
    assert_eq!(f.chunk_4_hashes, expected4);
    assert_eq!(f.chunk_16_hashes.len(), 1);
    assert_eq!(f.chunk_8_hashes.len(), 2);
    assert!(!f.chunk_16_hashes.contains(&ABC_HASH));
}

#[test]
fn extract_counts_distinct_chunks() {
    let bytes: Vec<u8> = (0u8..=255).collect();
    let f = BinaryFeatures::extract_from_bytes(&bytes, "all".to_string(), "/all".to_string());
    assert_eq!(f.chunk_4_hashes.len(), 64);
    assert_eq!(f.chunk_16_hashes.len(), 16);
    assert_eq!(f.chunk_8_hashes.len(), 32);
}
