//! Comparison of binaries against a reference and against each other.

use vstd::prelude::*;
use crate::features::BinaryFeatures;
use crate::jaccard::{calculate_chunk_similarity, chunk_similarity_spec, jaccard_spec, ChunkSimilarity};

verus! {

/// One row of an analysis: the two binaries compared, the pair's paths, and the
/// coefficients at each chunk size.
#[derive(Debug)]
pub struct PairComparison {
    pub binary1: String,
    pub binary2: String,
    pub pair_path: String,
    pub similarity: ChunkSimilarity,
}

/// The text that names a compared pair by its paths: `path1 <-> path2`.
pub open spec fn pair_path_spec(path1: Seq<char>, path2: Seq<char>) -> Seq<char> {
    path1 + " <-> "@ + path2
}

/// `c` is the comparison of `b1` with `b2`.
pub open spec fn compares(c: PairComparison, b1: BinaryFeatures, b2: BinaryFeatures) -> bool {
    &&& c.binary1@ == b1.name@
    &&& c.binary2@ == b2.name@
    &&& c.pair_path@ == pair_path_spec(b1.path@, b2.path@)
    &&& c.similarity@ == chunk_similarity_spec(b1, b2)
}

/// A row that compares `b1` with `b2` names them in order, joins their paths with
/// ` <-> `, and holds at each chunk size the coefficient of the matching hash sets:
/// intersection size over union size, or 1/1 when both sets are empty.
pub proof fn lemma_comparison_row(c: PairComparison, b1: BinaryFeatures, b2: BinaryFeatures)
    requires
        compares(c, b1, b2),
    ensures
        c.binary1@ == b1.name@,
        c.binary2@ == b2.name@,
        c.pair_path@ == b1.path@ + " <-> "@ + b2.path@,
        !(b1.chunk_4_hashes@.is_empty() && b2.chunk_4_hashes@.is_empty()) ==> c.similarity.chunk_4@
            == (b1.chunk_4_hashes@.intersect(b2.chunk_4_hashes@).len(), b1.chunk_4_hashes@.union(
            b2.chunk_4_hashes@,
        ).len()),
        !(b1.chunk_16_hashes@.is_empty() && b2.chunk_16_hashes@.is_empty())
            ==> c.similarity.chunk_16@ == (b1.chunk_16_hashes@.intersect(b2.chunk_16_hashes@).len(),
        b1.chunk_16_hashes@.union(b2.chunk_16_hashes@).len()),
        !(b1.chunk_8_hashes@.is_empty() && b2.chunk_8_hashes@.is_empty()) ==> c.similarity.chunk_8@
            == (b1.chunk_8_hashes@.intersect(b2.chunk_8_hashes@).len(), b1.chunk_8_hashes@.union(
            b2.chunk_8_hashes@,
        ).len()),
        b1.chunk_4_hashes@.is_empty() && b2.chunk_4_hashes@.is_empty() ==> c.similarity.chunk_4@ == (
            1nat,
            1nat,
        ),
        b1.chunk_16_hashes@.is_empty() && b2.chunk_16_hashes@.is_empty() ==> c.similarity.chunk_16@
            == (1nat, 1nat),
        b1.chunk_8_hashes@.is_empty() && b2.chunk_8_hashes@.is_empty() ==> c.similarity.chunk_8@ == (
            1nat,
            1nat,
        ),
{
}

/// Compares `binary1` with `binary2`.
pub fn compare_binaries(binary1: &BinaryFeatures, binary2: &BinaryFeatures) -> (c: PairComparison)
    ensures
        compares(c, *binary1, *binary2),
        c.binary1@ == binary1.name@,
        c.binary2@ == binary2.name@,
        c.pair_path@ == binary1.path@ + " <-> "@ + binary2.path@,
        c.similarity.chunk_4@ == jaccard_spec(binary1.chunk_4_hashes@, binary2.chunk_4_hashes@),
        c.similarity.chunk_16@ == jaccard_spec(binary1.chunk_16_hashes@, binary2.chunk_16_hashes@),
        c.similarity.chunk_8@ == jaccard_spec(binary1.chunk_8_hashes@, binary2.chunk_8_hashes@),
{
    let similarity = calculate_chunk_similarity(binary1, binary2);
    let mut pair_path = binary1.path.clone();
    pair_path.append(" <-> ");
    pair_path.append(binary2.path.as_str());
    PairComparison {
        binary1: binary1.name.clone(),
        binary2: binary2.name.clone(),
        pair_path,
        similarity,
    }
}

/// Compares `reference` with each of `binaries`, in order.
pub fn compare_to_reference(reference: &BinaryFeatures, binaries: &[BinaryFeatures]) -> (r: Vec<
    PairComparison,
>)
    ensures
        r@.len() == binaries@.len(),
        forall|i: int| 0 <= i < binaries@.len() ==> compares(#[trigger] r@[i], *reference, binaries@[i]),
        forall|i: int|
            0 <= i < binaries@.len() ==> {
                &&& (#[trigger] r@[i]).binary1@ == reference.name@
                &&& r@[i].binary2@ == binaries@[i].name@
                &&& r@[i].pair_path@ == reference.path@ + " <-> "@ + binaries@[i].path@
                &&& r@[i].similarity.chunk_4@ == jaccard_spec(
                    reference.chunk_4_hashes@,
                    binaries@[i].chunk_4_hashes@,
                )
                &&& r@[i].similarity.chunk_16@ == jaccard_spec(
                    reference.chunk_16_hashes@,
                    binaries@[i].chunk_16_hashes@,
                )
                &&& r@[i].similarity.chunk_8@ == jaccard_spec(
                    reference.chunk_8_hashes@,
                    binaries@[i].chunk_8_hashes@,
                )
            },
{
    let mut r: Vec<PairComparison> = Vec::new();
    let n = binaries.len();
    for k in 0..n
        invariant
            n == binaries@.len(),
            r@.len() == k,
            forall|i: int| 0 <= i < k ==> compares(#[trigger] r@[i], *reference, binaries@[i]),
    {
        r.push(compare_binaries(reference, &binaries[k]));
    }
    r
}

/// The pairs `(i, j)` with `j` running over `i + 1 .. n`.
pub open spec fn pair_row(i: int, n: int) -> Seq<(int, int)> {
    if i + 1 >= n {
        Seq::empty()
    } else {
        Seq::new((n - i - 1) as nat, |k: int| (i, i + 1 + k))
    }
}

/// The rows `0 .. i` of the pairs of `n` items, row after row.
pub open spec fn pairs_before(i: int, n: int) -> Seq<(int, int)>
    decreases i,
{
    if i <= 0 {
        Seq::empty()
    } else {
        pairs_before(i - 1, n) + pair_row(i - 1, n)
    }
}

/// The pairs `(i, j)` with `0 <= i < j < n`, ordered by `i` and then by `j`.
pub open spec fn upper_pairs(n: int) -> Seq<(int, int)> {
    pairs_before(n, n)
}

/// `r` holds, in order, the comparisons of the pairs `pairs` of `binaries`.
pub open spec fn compares_pairs(
    r: Seq<PairComparison>,
    binaries: Seq<BinaryFeatures>,
    pairs: Seq<(int, int)>,
) -> bool {
    &&& r.len() == pairs.len()
    &&& forall|k: int|
        0 <= k < pairs.len() ==> compares(
            #[trigger] r[k],
            binaries[pairs[k].0],
            binaries[pairs[k].1],
        )
}

/// Compares every binary with every later one: each unordered pair of distinct
/// binaries once, in the order of `upper_pairs`.
pub fn compare_pairwise(binaries: &[BinaryFeatures]) -> (r: Vec<PairComparison>)
    ensures
        compares_pairs(r@, binaries@, upper_pairs(binaries@.len() as int)),
        r@.len() == upper_pairs(binaries@.len() as int).len(),
        forall|k: int|
            0 <= k < r@.len() ==> {
                let p = upper_pairs(binaries@.len() as int)[k];
                let (b1, b2) = (binaries@[p.0], binaries@[p.1]);
                &&& (#[trigger] r@[k]).binary1@ == b1.name@
                &&& r@[k].binary2@ == b2.name@
                &&& r@[k].pair_path@ == b1.path@ + " <-> "@ + b2.path@
                &&& r@[k].similarity.chunk_4@ == jaccard_spec(b1.chunk_4_hashes@, b2.chunk_4_hashes@)
                &&& r@[k].similarity.chunk_16@ == jaccard_spec(
                    b1.chunk_16_hashes@,
                    b2.chunk_16_hashes@,
                )
                &&& r@[k].similarity.chunk_8@ == jaccard_spec(b1.chunk_8_hashes@, b2.chunk_8_hashes@)
            },
{
    let mut r: Vec<PairComparison> = Vec::new();
    let n = binaries.len();
    let mut i: usize = 0;
    while i < n
        invariant
            n == binaries@.len(),
            i <= n,
            compares_pairs(r@, binaries@, pairs_before(i as int, n as int)),
        decreases n - i,
    {
        let mut j: usize = i + 1;
        assert(pair_row(i as int, n as int).take(0) =~= Seq::<(int, int)>::empty());
        assert(pairs_before(i as int, n as int) + pair_row(i as int, n as int).take(0)
            =~= pairs_before(i as int, n as int));
        while j < n
            invariant
                n == binaries@.len(),
                i < n,
                i + 1 <= j <= n,
                compares_pairs(
                    r@,
                    binaries@,
                    pairs_before(i as int, n as int) + pair_row(i as int, n as int).take(
                        j - i - 1,
                    ),
                ),
            decreases n - j,
        {
            let c = compare_binaries(&binaries[i], &binaries[j]);
            let ghost before = pairs_before(i as int, n as int) + pair_row(i as int, n as int).take(
                j - i - 1,
            );
            let ghost after = pairs_before(i as int, n as int) + pair_row(i as int, n as int).take(
                j - i,
            );
            assert(after =~= before.push((i as int, j as int)));
            r.push(c);
            j = j + 1;
        }
        assert(pair_row(i as int, n as int).take(n - i - 1) =~= pair_row(i as int, n as int));
        assert(pairs_before(i + 1, n as int) == pairs_before(i as int, n as int) + pair_row(
            i as int,
            n as int,
        ));
        i = i + 1;
    }
    r
}

/// `p` comes before `q` in the order by first and then by second component.
pub open spec fn pair_precedes(p: (int, int), q: (int, int)) -> bool {
    p.0 < q.0 || (p.0 == q.0 && p.1 < q.1)
}

/// The first `m` rows of the pairs of `n` items: how many there are, which pairs they
/// hold, and that they come in increasing order.
proof fn lemma_pairs_before(m: int, n: int)
    requires
        0 <= m <= n,
    ensures
        2 * pairs_before(m, n).len() == m * (2 * n - m - 1),
        forall|k: int|
            0 <= k < pairs_before(m, n).len() ==> {
                let p = #[trigger] pairs_before(m, n)[k];
                0 <= p.0 < m && p.0 < p.1 < n
            },
        forall|i: int, j: int|
            0 <= i < m && i < j < n ==> #[trigger] pairs_before(m, n).contains((i, j)),
        forall|k1: int, k2: int|
            0 <= k1 < k2 < pairs_before(m, n).len() ==> pair_precedes(
                #[trigger] pairs_before(m, n)[k1],
                #[trigger] pairs_before(m, n)[k2],
            ),
    decreases m,
{
    if m > 0 {
        lemma_pairs_before(m - 1, n);
        let prev = pairs_before(m - 1, n);
        let row = pair_row(m - 1, n);
        let all = pairs_before(m, n);
        assert(all == prev + row);
        assert(row.len() == n - m);
        assert(2 * all.len() == m * (2 * n - m - 1)) by (nonlinear_arith)
            requires
                2 * prev.len() == (m - 1) * (2 * n - (m - 1) - 1),
                all.len() == prev.len() + (n - m),
        ;
        assert forall|k: int| 0 <= k < all.len() implies {
            let p = #[trigger] all[k];
            0 <= p.0 < m && p.0 < p.1 < n
        } by {
            if k >= prev.len() {
                assert(all[k] == row[k - prev.len()]);
            } else {
                assert(all[k] == prev[k]);
            }
        }
        assert forall|i: int, j: int| 0 <= i < m && i < j < n implies #[trigger] all.contains(
            (i, j),
        ) by {
            if i < m - 1 {
                assert(prev.contains((i, j)));
                let k = choose|k: int| 0 <= k < prev.len() && prev[k] == (i, j);
                assert(all[k] == (i, j));
            } else {
                let k = j - i - 1;
                assert(row[k] == (i, j));
                assert(all[prev.len() + k] == (i, j));
            }
        }
        assert forall|k1: int, k2: int| 0 <= k1 < k2 < all.len() implies pair_precedes(
            #[trigger] all[k1],
            #[trigger] all[k2],
        ) by {
            if k2 < prev.len() {
                assert(all[k1] == prev[k1] && all[k2] == prev[k2]);
            } else if k1 < prev.len() {
                assert(all[k1] == prev[k1]);
                assert(all[k2] == row[k2 - prev.len()]);
            } else {
                assert(all[k1] == row[k1 - prev.len()]);
                assert(all[k2] == row[k2 - prev.len()]);
            }
        }
    }
}

/// Pairwise analysis compares each unordered pair of distinct binaries exactly once:
/// `upper_pairs(n)` holds n(n-1)/2 pairs, each `(i, j)` with `0 <= i < j < n`, every
/// such pair, and none twice.
pub proof fn lemma_upper_pairs(n: int)
    requires
        n >= 0,
    ensures
        2 * upper_pairs(n).len() == n * (n - 1),
        forall|k: int|
            0 <= k < upper_pairs(n).len() ==> {
                let p = #[trigger] upper_pairs(n)[k];
                0 <= p.0 < p.1 < n
            },
        forall|i: int, j: int| 0 <= i < j < n ==> #[trigger] upper_pairs(n).contains((i, j)),
        upper_pairs(n).no_duplicates(),
{
    lemma_pairs_before(n, n);
    assert(n * (2 * n - n - 1) == n * (n - 1));
    let s = upper_pairs(n);
    assert forall|k1: int, k2: int| 0 <= k1 < s.len() && 0 <= k2 < s.len() && k1 != k2 implies s[k1]
        != s[k2] by {
        if k1 < k2 {
            assert(pair_precedes(s[k1], s[k2]));
        } else {
            assert(pair_precedes(s[k2], s[k1]));
        }
    }
}

/// The text that keys a compared pair by its names: `binary1|binary2`.
pub open spec fn pair_key_spec(binary1: Seq<char>, binary2: Seq<char>) -> Seq<char> {
    binary1 + "|"@ + binary2
}

/// Keys a compared pair by its names.
pub fn binary_pair_key(binary1: &str, binary2: &str) -> (key: String)
    ensures
        key@ == pair_key_spec(binary1@, binary2@),
{
    let mut key = String::from_str(binary1);
    key.append("|");
    key.append(binary2);
    key
}

} // verus!
