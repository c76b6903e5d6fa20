use rust_jaccard::{
    decimal_string, pair_count, total_input_bytes, validate_pairwise_limits, PairwiseLimitError,
    DEFAULT_MAX_PAIRWISE_FILES, DEFAULT_MAX_PAIRWISE_INPUT_BYTES,
};

#[test]
fn accepts_limits_at_the_boundary() {
    assert!(validate_pairwise_limits(256, 512, 256, 512).is_ok());
}

#[test]
fn rejects_excessive_pair_count_before_loading_files() {
    let error = validate_pairwise_limits(257, 1, 256, 512).unwrap_err();
    assert!(error.message().contains("32896 comparisons"));
}

#[test]
fn rejects_excessive_total_input_size() {
    let error = validate_pairwise_limits(2, 513, 256, 512).unwrap_err();
    assert!(error.message().contains("totals 513 bytes"));
}

#[test]
fn rejects_invalid_configured_limits() {
    assert!(validate_pairwise_limits(0, 0, 1, 512).is_err());
    assert!(validate_pairwise_limits(0, 0, 2, 0).is_err());
}

#[test]
fn limit_errors_carry_their_values() {
    assert_eq!(
        validate_pairwise_limits(0, 0, 1, 512),
        Err(PairwiseLimitError::MaxFilesTooSmall)
    );
    assert_eq!(
        validate_pairwise_limits(0, 0, 2, 0),
        Err(PairwiseLimitError::MaxBytesZero)
    );
    assert_eq!(
        validate_pairwise_limits(257, 1, 256, 512),
        Err(PairwiseLimitError::TooManyFiles { file_count: 257, pair_count: 32896, max_files: 256 })
    );
    assert_eq!(
        validate_pairwise_limits(2, 513, 256, 512),
        Err(PairwiseLimitError::TooManyBytes { total_bytes: 513, max_total_bytes: 512 })
    );
    // the configuration is checked before the input
    assert_eq!(
        validate_pairwise_limits(1000, 1000, 1, 0),
        Err(PairwiseLimitError::MaxFilesTooSmall)
    );
    // the file count is checked before the byte total
    assert!(matches!(
        validate_pairwise_limits(3, 1000, 2, 10),
        Err(PairwiseLimitError::TooManyFiles { .. })
    ));
}

#[test]
fn default_limits() {
    assert_eq!(DEFAULT_MAX_PAIRWISE_FILES, 256);
    assert_eq!(DEFAULT_MAX_PAIRWISE_INPUT_BYTES, 536870912);
    assert!(validate_pairwise_limits(
        256,
        DEFAULT_MAX_PAIRWISE_INPUT_BYTES,
        DEFAULT_MAX_PAIRWISE_FILES,
        DEFAULT_MAX_PAIRWISE_INPUT_BYTES
    )
    .is_ok());
}

#[test]
fn limit_messages_in_full() {
    assert_eq!(
        PairwiseLimitError::MaxFilesTooSmall.message(),
        "max pairwise files must be at least 2"
    );
    assert_eq!(
        PairwiseLimitError::MaxBytesZero.message(),
        "max pairwise input bytes must be greater than zero"
    );
    assert_eq!(
        validate_pairwise_limits(257, 1, 256, 512).unwrap_err().message(),
        "pairwise input contains 257 binaries (32896 comparisons); the configured limit is 256. \
         Narrow the folder or raise --max-pairwise-files explicitly"
    );
    assert_eq!(
        validate_pairwise_limits(2, 513, 256, 512).unwrap_err().message(),
        "pairwise input totals 513 bytes; the configured limit is 512 bytes. Narrow the folder \
         or raise --max-pairwise-input-mib explicitly"
    );
}

#[test]
fn pair_count_values() {
    assert_eq!(pair_count(0), 0);
    assert_eq!(pair_count(1), 0);
    assert_eq!(pair_count(2), 1);
    assert_eq!(pair_count(257), 32896);
    assert_eq!(pair_count(usize::MAX), usize::MAX / 2);
}

#[test]
fn decimal_values() {
    assert_eq!(decimal_string(0), "0");
    assert_eq!(decimal_string(7), "7");
    assert_eq!(decimal_string(10), "10");
    assert_eq!(decimal_string(32896), "32896");
    assert_eq!(decimal_string(u64::MAX), "18446744073709551615");
}

#[test]
fn total_input_bytes_sums_and_saturates() {
    assert_eq!(total_input_bytes(&[]), 0);
    assert_eq!(total_input_bytes(&[1, 2, 3]), 6);
    assert_eq!(total_input_bytes(&[u64::MAX - 1, 1]), u64::MAX);
    assert_eq!(total_input_bytes(&[u64::MAX - 1, 5, 7]), u64::MAX);
}
