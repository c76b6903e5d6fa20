//! The limits that pairwise analysis enforces before loading any file, and the
//! messages that report a violated limit.

use vstd::prelude::*;

verus! {

/// The most binaries that pairwise analysis accepts by default.
pub const DEFAULT_MAX_PAIRWISE_FILES: usize = 256;

/// The most input bytes (512 MiB) that pairwise analysis accepts by default.
pub const DEFAULT_MAX_PAIRWISE_INPUT_BYTES: u64 = 512 * 1024 * 1024;

/// A limit of pairwise analysis that the input or the configuration violates.
#[derive(Debug, Clone, Copy, PartialEq, Eq, Structural)]
pub enum PairwiseLimitError {
    /// The configured maximum number of files is below two.
    MaxFilesTooSmall,
    /// The configured maximum number of input bytes is zero.
    MaxBytesZero,
    /// More binaries than the configured maximum; `pair_count` is the number of
    /// comparisons they would need.
    TooManyFiles { file_count: usize, pair_count: usize, max_files: usize },
    /// More input bytes than the configured maximum.
    TooManyBytes { total_bytes: u64, max_total_bytes: u64 },
}

/// The number of comparisons among `n` binaries, `n(n-1)/2`, where the product
/// `n(n-1)` saturates at `usize::MAX` before it is halved.
pub open spec fn pair_count_spec(n: usize) -> usize {
    let m: int = if n >= 1 { n - 1 } else { 0 };
    let p: int = if n * m > usize::MAX { usize::MAX as int } else { n * m };
    (p / 2) as usize
}

/// Without saturation the comparison count is n(n-1)/2; with it, half of `usize::MAX`.
pub proof fn lemma_pair_count_is_half_of_product(n: usize)
    ensures
        n == 0 ==> pair_count_spec(n) == 0,
        n >= 1 && n * (n - 1) <= usize::MAX ==> pair_count_spec(n) == n * (n - 1) / 2,
        n >= 1 && n * (n - 1) > usize::MAX ==> pair_count_spec(n) == usize::MAX / 2,
{
}

/// Counts the comparisons among `file_count` binaries, saturating as `pair_count_spec` says.
pub fn pair_count(file_count: usize) -> (count: usize)
    ensures
        count == pair_count_spec(file_count),
{
    let others = file_count.saturating_sub(1);
    let product = match file_count.checked_mul(others) {
        Some(p) => p,
        None => usize::MAX,
    };
    product / 2
}

/// What `validate_pairwise_limits` answers: the first violated limit, in the order
/// maximum files, maximum bytes, file count, total bytes; `Ok` when none is violated.
pub open spec fn pairwise_limits_spec(
    file_count: usize,
    total_bytes: u64,
    max_files: usize,
    max_total_bytes: u64,
) -> Result<(), PairwiseLimitError> {
    if max_files < 2 {
        Err(PairwiseLimitError::MaxFilesTooSmall)
    } else if max_total_bytes == 0 {
        Err(PairwiseLimitError::MaxBytesZero)
    } else if file_count > max_files {
        Err(
            PairwiseLimitError::TooManyFiles {
                file_count,
                pair_count: pair_count_spec(file_count),
                max_files,
            },
        )
    } else if total_bytes > max_total_bytes {
        Err(PairwiseLimitError::TooManyBytes { total_bytes, max_total_bytes })
    } else {
        Ok(())
    }
}

/// Checks the configured limits, and the input against them, before any file is loaded.
pub fn validate_pairwise_limits(
    file_count: usize,
    total_bytes: u64,
    max_files: usize,
    max_total_bytes: u64,
) -> (r: Result<(), PairwiseLimitError>)
    ensures
        r == pairwise_limits_spec(file_count, total_bytes, max_files, max_total_bytes),
{
    if max_files < 2 {
        return Err(PairwiseLimitError::MaxFilesTooSmall);
    }
    if max_total_bytes == 0 {
        return Err(PairwiseLimitError::MaxBytesZero);
    }
    if file_count > max_files {
        let pair_count = pair_count(file_count);
        return Err(PairwiseLimitError::TooManyFiles { file_count, pair_count, max_files });
    }
    if total_bytes > max_total_bytes {
        return Err(PairwiseLimitError::TooManyBytes { total_bytes, max_total_bytes });
    }
    Ok(())
}

/// Pairwise limits accept an input exactly when the configuration is sane (at least two
/// files, a positive byte budget) and the input stays within both limits.
pub proof fn lemma_limits_accept_iff_within(
    file_count: usize,
    total_bytes: u64,
    max_files: usize,
    max_total_bytes: u64,
)
    ensures
        pairwise_limits_spec(file_count, total_bytes, max_files, max_total_bytes) is Ok <==> {
            &&& 2 <= max_files
            &&& 0 < max_total_bytes
            &&& file_count <= max_files
            &&& total_bytes <= max_total_bytes
        },
{
}

/// The sum of `lengths`.
pub open spec fn seq_sum(lengths: Seq<u64>) -> int
    decreases lengths.len(),
{
    if lengths.len() == 0 {
        0
    } else {
        seq_sum(lengths.drop_last()) + lengths.last()
    }
}

/// The sum of a concatenation is the sum of the sums.
pub proof fn lemma_seq_sum_concat(a: Seq<u64>, b: Seq<u64>)
    ensures
        seq_sum(a + b) == seq_sum(a) + seq_sum(b),
    decreases b.len(),
{
    if b.len() > 0 {
        lemma_seq_sum_concat(a, b.drop_last());
        assert((a + b).drop_last() =~= a + b.drop_last());
    } else {
        assert(a + b =~= a);
    }
}

/// Adds up file lengths, saturating at `u64::MAX`.
pub fn total_input_bytes(lengths: &[u64]) -> (total: u64)
    ensures
        total == if seq_sum(lengths@) > u64::MAX { u64::MAX as int } else { seq_sum(lengths@) },
{
    let mut total: u64 = 0;
    let n = lengths.len();
    for i in 0..n
        invariant
            n == lengths@.len(),
            total == if seq_sum(lengths@.take(i as int)) > u64::MAX {
                u64::MAX as int
            } else {
                seq_sum(lengths@.take(i as int))
            },
            seq_sum(lengths@.take(i as int)) >= 0,
    {
        assert(lengths@.take(i + 1).drop_last() =~= lengths@.take(i as int));
        total = total.saturating_add(lengths[i]);
    }
    assert(lengths@.take(n as int) =~= lengths@);
    total
}

/// The decimal digit character for `d < 10`.
pub open spec fn digit_char(d: nat) -> char {
    (d + 48) as char
}

/// The decimal representation of `n`, without leading zeros.
pub open spec fn decimal(n: nat) -> Seq<char>
    decreases n,
{
    if n < 10 {
        seq![digit_char(n)]
    } else {
        decimal(n / 10) + seq![digit_char(n % 10)]
    }
}

fn digit_str(d: u64) -> (s: &'static str)
    requires
        d < 10,
    ensures
        s@ == seq![digit_char(d as nat)],
{
    proof {
        reveal_strlit("0");
        reveal_strlit("1");
        reveal_strlit("2");
        reveal_strlit("3");
        reveal_strlit("4");
        reveal_strlit("5");
        reveal_strlit("6");
        reveal_strlit("7");
        reveal_strlit("8");
        reveal_strlit("9");
    }
    match d {
        0 => "0",
        1 => "1",
        2 => "2",
        3 => "3",
        4 => "4",
        5 => "5",
        6 => "6",
        7 => "7",
        8 => "8",
        _ => "9",
    }
}

/// Writes `n` in decimal.
pub fn decimal_string(n: u64) -> (s: String)
    ensures
        s@ == decimal(n as nat),
{
    let mut s = String::from_str(digit_str(n % 10));
    let mut rest: u64 = n / 10;
    while rest > 0
        invariant
            decimal(n as nat) == (if rest == 0 { Seq::empty() } else { decimal(rest as nat) }) + s@,
        decreases rest,
    {
        let digit = String::from_str(digit_str(rest % 10));
        s = digit.concat(s.as_str());
        let ghost old_rest = rest;
        rest = rest / 10;
        proof {
            if rest == 0 {
                assert(decimal(old_rest as nat) == seq![digit_char((old_rest % 10) as nat)]);
            }
        }
    }
    s
}

/// The message that reports a violated limit.
pub open spec fn limit_message_spec(e: PairwiseLimitError) -> Seq<char> {
    match e {
        PairwiseLimitError::MaxFilesTooSmall => "max pairwise files must be at least 2"@,
        PairwiseLimitError::MaxBytesZero => "max pairwise input bytes must be greater than zero"@,
        PairwiseLimitError::TooManyFiles { file_count, pair_count, max_files } => "pairwise input contains "@
            + decimal(file_count as nat) + " binaries ("@ + decimal(pair_count as nat)
            + " comparisons); the configured limit is "@ + decimal(max_files as nat)
            + ". Narrow the folder or raise --max-pairwise-files explicitly"@,
        PairwiseLimitError::TooManyBytes { total_bytes, max_total_bytes } => "pairwise input totals "@
            + decimal(total_bytes as nat) + " bytes; the configured limit is "@ + decimal(
            max_total_bytes as nat,
        ) + " bytes. Narrow the folder or raise --max-pairwise-input-mib explicitly"@,
    }
}

impl PairwiseLimitError {
    /// The message that reports this violation.
    pub fn message(&self) -> (m: String)
        ensures
            m@ == limit_message_spec(*self),
    {
        match self {
            PairwiseLimitError::MaxFilesTooSmall => String::from_str(
                "max pairwise files must be at least 2",
            ),
            PairwiseLimitError::MaxBytesZero => String::from_str(
                "max pairwise input bytes must be greater than zero",
            ),
            PairwiseLimitError::TooManyFiles { file_count, pair_count, max_files } => {
                let mut m = String::from_str("pairwise input contains ");
                m.append(decimal_string(*file_count as u64).as_str());
                m.append(" binaries (");
                m.append(decimal_string(*pair_count as u64).as_str());
                m.append(" comparisons); the configured limit is ");
                m.append(decimal_string(*max_files as u64).as_str());
                m.append(". Narrow the folder or raise --max-pairwise-files explicitly");
                m
            },
            PairwiseLimitError::TooManyBytes { total_bytes, max_total_bytes } => {
                let mut m = String::from_str("pairwise input totals ");
                m.append(decimal_string(*total_bytes).as_str());
                m.append(" bytes; the configured limit is ");
                m.append(decimal_string(*max_total_bytes).as_str());
                m.append(" bytes. Narrow the folder or raise --max-pairwise-input-mib explicitly");
                m
            },
        }
    }
}

} // verus!
