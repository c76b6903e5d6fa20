//! Byte-level Jaccard similarity between binary files.

mod digest;
mod features;
mod jaccard;
mod pairwise;
mod limits;
mod filetype;

pub use digest::{
    chunk_hash, lemma_chunk_hash_is_digest_prefix, lemma_le_value_of_eight, le_value, sha256_spec,
};
pub use features::{
    byte_chunks, chunk_hash_set, lemma_byte_chunks_aligned, lemma_chunk_hash_set_members,
    BinaryFeatures,
};
pub use jaccard::{
    calculate_batch_chunk_similarities, calculate_chunk_similarity, chunk_similarity_spec,
    jaccard_coefficient, jaccard_spec, lemma_chunk_similarity_per_size, lemma_chunk_similarity_symmetric, lemma_jaccard_bounded,
    lemma_jaccard_is_intersection_over_union,
    lemma_jaccard_one_iff_equal, lemma_jaccard_symmetric, lemma_jaccard_zero_iff_disjoint,
    lemma_same_content_is_fully_similar, lemma_self_similarity_is_one, ChunkSimilarity, Fraction,
};
pub use pairwise::{
    binary_pair_key, compare_binaries, compare_pairwise, compare_to_reference, compares,
    compares_pairs, lemma_comparison_row, lemma_upper_pairs, pair_key_spec, pair_path_spec, pair_precedes, pair_row,
    pairs_before, upper_pairs, PairComparison,
};
pub use limits::{
    decimal, decimal_string, digit_char, lemma_limits_accept_iff_within,
    lemma_pair_count_is_half_of_product, lemma_seq_sum_concat, limit_message_spec,
    pair_count, pair_count_spec, pairwise_limits_spec, seq_sum, total_input_bytes,
    validate_pairwise_limits, PairwiseLimitError, DEFAULT_MAX_PAIRWISE_FILES,
    DEFAULT_MAX_PAIRWISE_INPUT_BYTES,
};
pub use filetype::{
    ascii_lower_byte, ascii_lowercase, classify_extension, extension_class_spec,
    has_executable_magic, is_binary_file, is_executable_magic, is_known_binary_extension,
    lemma_ascii_lowercase_bytes, lemma_executable_magic_prefixes, lemma_extension_classes,
    ExtensionClass,
};
