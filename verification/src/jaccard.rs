//! The Jaccard coefficient |A ∩ B| / |A ∪ B| of two hash sets, kept as an exact fraction.

use vstd::prelude::*;
use std::collections::HashSet;
use vstd::std_specs::hash::spec_hash_keys_iter;
use vstd::std_specs::iter::IteratorSpec;
use crate::features::{chunk_hash_set, BinaryFeatures};

verus! {

broadcast use vstd::std_specs::hash::group_hash_axioms;

/// A non-negative rational number `numerator / denominator`.
#[derive(Debug, Clone, Copy, PartialEq, Eq, Structural)]
pub struct Fraction {
    pub numerator: u128,
    pub denominator: u128,
}

impl View for Fraction {
    type V = (nat, nat);

    open spec fn view(&self) -> (nat, nat) {
        (self.numerator as nat, self.denominator as nat)
    }
}

/// The Jaccard coefficient of `a` and `b` as (numerator, denominator):
/// |A ∩ B| / |A ∪ B|, and 1/1 when both sets are empty.
pub open spec fn jaccard_spec(a: Set<u64>, b: Set<u64>) -> (nat, nat) {
    if a.is_empty() && b.is_empty() {
        (1, 1)
    } else {
        (a.intersect(b).len(), a.union(b).len())
    }
}

/// The view of every hash set is finite.
proof fn lemma_hash_set_finite(s: &HashSet<u64>)
    ensures
        s@.finite(),
{
    let keys = spec_hash_keys_iter(s).remaining().unref();
    assert(keys.to_set() == s@);
    vstd::seq_lib::seq_to_set_is_finite(keys);
}

/// Computes the Jaccard coefficient of two sets of chunk hashes.
pub fn jaccard_coefficient(set1: &HashSet<u64>, set2: &HashSet<u64>) -> (r: Fraction)
    ensures
        r@ == jaccard_spec(set1@, set2@),
        set1@.is_empty() && set2@.is_empty() ==> r.numerator == 1 && r.denominator == 1,
        !(set1@.is_empty() && set2@.is_empty()) ==> {
            &&& r.numerator == set1@.intersect(set2@).len()
            &&& r.denominator == set1@.union(set2@).len()
        },
{
    if set1.is_empty() && set2.is_empty() {
        return Fraction { numerator: 1, denominator: 1 };
    }
    proof {
        lemma_hash_set_finite(set1);
        lemma_hash_set_finite(set2);
    }
    let ghost keys: Seq<u64> = spec_hash_keys_iter(set1).remaining().unref();
    let n1: usize = set1.len();
    let mut shared: usize = 0;
    let ghost mut common: Set<u64> = Set::empty();
    for x in it: set1.iter()
        invariant
            it.seq().unref() == keys,
            keys.to_set() == set1@,
            keys.no_duplicates(),
            keys.len() == set1@.len(),
            keys.len() == n1,
            set1@.finite(),
            common == keys.take(it.index()).to_set().intersect(set2@),
            common.finite(),
            shared == common.len(),
            shared <= it.index(),
    {
        proof {
            let i = it.index();
            assert(keys[i] == *x);
            assert(!keys.take(i).contains(*x));
            vstd::seq_lib::seq_to_set_is_finite(keys.take(i));
        }
        if set2.contains(x) {
            proof {
                assert(!common.contains(*x));
                common = common.insert(*x);
            }
            shared = shared + 1;
        }
        proof {
            let i = it.index();
            assert(keys.take(i + 1) =~= keys.take(i).push(*x));
            keys.take(i).lemma_push_to_set_commute(*x);
            assert(keys.take(i + 1).to_set() =~= keys.take(i).to_set().insert(*x));
            assert(common =~= keys.take(i + 1).to_set().intersect(set2@));
        }
    }
    proof {
        assert(keys.take(keys.len() as int) =~= keys);
        vstd::set_lib::lemma_set_intersect_union_lens(set1@, set2@);
    }
    let union = set1.len() as u128 + set2.len() as u128 - shared as u128;
    Fraction { numerator: shared as u128, denominator: union }
}

/// The coefficient of two sets that are not both empty is the size of their
/// intersection over the size of their union; that of two empty sets is 1/1.
pub proof fn lemma_jaccard_is_intersection_over_union(a: Set<u64>, b: Set<u64>)
    ensures
        !(a.is_empty() && b.is_empty()) ==> jaccard_spec(a, b).0 == a.intersect(b).len()
            && jaccard_spec(a, b).1 == a.union(b).len(),
        a.is_empty() && b.is_empty() ==> jaccard_spec(a, b).0 == 1 && jaccard_spec(a, b).1 == 1,
{
}

/// The Jaccard coefficient is symmetric.
pub proof fn lemma_jaccard_symmetric(a: Set<u64>, b: Set<u64>)
    ensures
        jaccard_spec(a, b) == jaccard_spec(b, a),
{
    assert(a.intersect(b) =~= b.intersect(a));
    assert(a.union(b) =~= b.union(a));
}

/// For finite sets the coefficient lies between 0 and 1: the denominator is positive
/// and the numerator does not exceed it.
pub proof fn lemma_jaccard_bounded(a: Set<u64>, b: Set<u64>)
    requires
        a.finite(),
        b.finite(),
    ensures
        jaccard_spec(a, b).1 > 0,
        jaccard_spec(a, b).0 <= jaccard_spec(a, b).1,
{
    if !(a.is_empty() && b.is_empty()) {
        vstd::set_lib::lemma_set_intersect_union_lens(a, b);
        vstd::set_lib::lemma_len_intersect(a, b);
        vstd::set_lib::lemma_len_intersect(b, a);
        assert(a.intersect(b) =~= b.intersect(a));
        if a.is_empty() {
            let x = b.choose();
            assert(b.contains(x));
            assert(a.union(b).contains(x));
        } else {
            let x = a.choose();
            assert(a.contains(x));
            assert(a.union(b).contains(x));
        }
        vstd::set_lib::lemma_set_union_finite_iff(a, b);
    }
}

/// For finite sets the coefficient is 1 exactly when the sets are equal.
pub proof fn lemma_jaccard_one_iff_equal(a: Set<u64>, b: Set<u64>)
    requires
        a.finite(),
        b.finite(),
    ensures
        jaccard_spec(a, b).0 == jaccard_spec(a, b).1 <==> a == b,
{
    if !(a.is_empty() && b.is_empty()) {
        vstd::set_lib::lemma_set_intersect_union_lens(a, b);
        vstd::set_lib::lemma_len_intersect(a, b);
        vstd::set_lib::lemma_len_intersect(b, a);
        assert(a.intersect(b) =~= b.intersect(a));
        if a == b {
            assert(a.intersect(b) =~= a);
            assert(a.union(b) =~= a);
        }
        if jaccard_spec(a, b).0 == jaccard_spec(a, b).1 {
            // |A ∩ B| == |A ∪ B| forces |A ∩ B| == |A| == |B|, so A ∩ B is all of A and of B
            assert(a.intersect(b).len() == a.len());
            assert(a.intersect(b).len() == b.len());
            vstd::set_lib::lemma_subset_equality(a.intersect(b), a);
            vstd::set_lib::lemma_subset_equality(a.intersect(b), b);
        }
    } else {
        assert(a =~= b);
    }
}

/// For finite sets the coefficient is 0 exactly when the sets share no element
/// and are not both empty.
pub proof fn lemma_jaccard_zero_iff_disjoint(a: Set<u64>, b: Set<u64>)
    requires
        a.finite(),
        b.finite(),
    ensures
        jaccard_spec(a, b).0 == 0 <==> (a.disjoint(b) && !(a.is_empty() && b.is_empty())),
{
    if !(a.is_empty() && b.is_empty()) {
        vstd::set_lib::lemma_len_intersect(a, b);
        if a.disjoint(b) {
            assert(a.intersect(b) =~= Set::empty());
        }
        if a.intersect(b).len() == 0 {
            assert forall|x: u64| a.contains(x) implies !b.contains(x) by {
                if b.contains(x) {
                    assert(a.intersect(b).contains(x));
                }
            }
        }
    }
}

/// The coefficients of two binaries' 4-, 16- and 8-byte chunk hash sets.
#[derive(Debug, Clone, Copy, PartialEq, Eq, Structural)]
pub struct ChunkSimilarity {
    pub chunk_4: Fraction,
    pub chunk_16: Fraction,
    pub chunk_8: Fraction,
}

impl View for ChunkSimilarity {
    type V = ((nat, nat), (nat, nat), (nat, nat));

    open spec fn view(&self) -> Self::V {
        (self.chunk_4@, self.chunk_16@, self.chunk_8@)
    }
}

/// The per-chunk-size Jaccard coefficients of two binaries' features.
pub open spec fn chunk_similarity_spec(b1: BinaryFeatures, b2: BinaryFeatures) -> (
    (nat, nat),
    (nat, nat),
    (nat, nat),
) {
    (
        jaccard_spec(b1.chunk_4_hashes@, b2.chunk_4_hashes@),
        jaccard_spec(b1.chunk_16_hashes@, b2.chunk_16_hashes@),
        jaccard_spec(b1.chunk_8_hashes@, b2.chunk_8_hashes@),
    )
}

/// Compares two binaries chunk size by chunk size.
pub fn calculate_chunk_similarity(binary1: &BinaryFeatures, binary2: &BinaryFeatures) -> (r:
    ChunkSimilarity)
    ensures
        r@ == chunk_similarity_spec(*binary1, *binary2),
        r.chunk_4@ == jaccard_spec(binary1.chunk_4_hashes@, binary2.chunk_4_hashes@),
        r.chunk_16@ == jaccard_spec(binary1.chunk_16_hashes@, binary2.chunk_16_hashes@),
        r.chunk_8@ == jaccard_spec(binary1.chunk_8_hashes@, binary2.chunk_8_hashes@),
{
    let chunk_4 = jaccard_coefficient(&binary1.chunk_4_hashes, &binary2.chunk_4_hashes);
    let chunk_16 = jaccard_coefficient(&binary1.chunk_16_hashes, &binary2.chunk_16_hashes);
    let chunk_8 = jaccard_coefficient(&binary1.chunk_8_hashes, &binary2.chunk_8_hashes);
    ChunkSimilarity { chunk_4, chunk_16, chunk_8 }
}

/// Compares `reference` with each of `binaries`, in order, naming each result by the
/// compared binary.
pub fn calculate_batch_chunk_similarities(reference: &BinaryFeatures, binaries: &[BinaryFeatures]) -> (r:
    Vec<(String, ChunkSimilarity)>)
    ensures
        r@.len() == binaries@.len(),
        forall|i: int|
            0 <= i < binaries@.len() ==> {
                &&& (#[trigger] r@[i]).0@ == binaries@[i].name@
                &&& r@[i].1@ == chunk_similarity_spec(*reference, binaries@[i])
            },
{
    let mut r: Vec<(String, ChunkSimilarity)> = Vec::new();
    let n = binaries.len();
    for k in 0..n
        invariant
            n == binaries@.len(),
            r@.len() == k,
            forall|i: int|
                0 <= i < k ==> {
                    &&& (#[trigger] r@[i]).0@ == binaries@[i].name@
                    &&& r@[i].1@ == chunk_similarity_spec(*reference, binaries@[i])
                },
    {
        let similarity = calculate_chunk_similarity(reference, &binaries[k]);
        r.push((binaries[k].name.clone(), similarity));
    }
    r
}

/// Each component of a comparison is the coefficient of the matching chunk-size sets:
/// their intersection's size over their union's size (1/1 for two empty sets).
pub proof fn lemma_chunk_similarity_per_size(b1: BinaryFeatures, b2: BinaryFeatures)
    ensures
        ({
            let s = chunk_similarity_spec(b1, b2);
            let (a4, c4) = (b1.chunk_4_hashes@, b2.chunk_4_hashes@);
            let (a16, c16) = (b1.chunk_16_hashes@, b2.chunk_16_hashes@);
            let (a8, c8) = (b1.chunk_8_hashes@, b2.chunk_8_hashes@);
            &&& !(a4.is_empty() && c4.is_empty()) ==> s.0 == (a4.intersect(c4).len(), a4.union(
                c4,
            ).len())
            &&& !(a16.is_empty() && c16.is_empty()) ==> s.1 == (a16.intersect(c16).len(), a16.union(
                c16,
            ).len())
            &&& !(a8.is_empty() && c8.is_empty()) ==> s.2 == (a8.intersect(c8).len(), a8.union(
                c8,
            ).len())
            &&& (a4.is_empty() && c4.is_empty()) ==> s.0 == (1nat, 1nat)
            &&& (a16.is_empty() && c16.is_empty()) ==> s.1 == (1nat, 1nat)
            &&& (a8.is_empty() && c8.is_empty()) ==> s.2 == (1nat, 1nat)
        }),
{
}

/// Comparing binaries is symmetric, chunk size by chunk size.
pub proof fn lemma_chunk_similarity_symmetric(b1: BinaryFeatures, b2: BinaryFeatures)
    ensures
        chunk_similarity_spec(b1, b2) == chunk_similarity_spec(b2, b1),
{
    lemma_jaccard_symmetric(b1.chunk_4_hashes@, b2.chunk_4_hashes@);
    lemma_jaccard_symmetric(b1.chunk_16_hashes@, b2.chunk_16_hashes@);
    lemma_jaccard_symmetric(b1.chunk_8_hashes@, b2.chunk_8_hashes@);
}

/// A binary compared with itself scores 1 at every chunk size.
pub proof fn lemma_self_similarity_is_one(b: BinaryFeatures)
    ensures
        chunk_similarity_spec(b, b).0.0 == chunk_similarity_spec(b, b).0.1,
        chunk_similarity_spec(b, b).1.0 == chunk_similarity_spec(b, b).1.1,
        chunk_similarity_spec(b, b).2.0 == chunk_similarity_spec(b, b).2.1,
{
    lemma_hash_set_finite(&b.chunk_4_hashes);
    lemma_hash_set_finite(&b.chunk_16_hashes);
    lemma_hash_set_finite(&b.chunk_8_hashes);
    lemma_jaccard_one_iff_equal(b.chunk_4_hashes@, b.chunk_4_hashes@);
    lemma_jaccard_one_iff_equal(b.chunk_16_hashes@, b.chunk_16_hashes@);
    lemma_jaccard_one_iff_equal(b.chunk_8_hashes@, b.chunk_8_hashes@);
}

/// Features depend on the bytes alone, not on a binary's name or path: two binaries
/// with the same bytes have the same chunk hash sets and score 1 at every chunk size.
pub proof fn lemma_same_content_is_fully_similar(bytes: Seq<u8>, size: nat)
    ensures
        jaccard_spec(chunk_hash_set(bytes, size), chunk_hash_set(bytes, size)).0 == jaccard_spec(
            chunk_hash_set(bytes, size),
            chunk_hash_set(bytes, size),
        ).1,
{
    let hashes = crate::features::byte_chunks(bytes, size).map_values(
        |c: Seq<u8>| crate::digest::chunk_hash(c),
    );
    vstd::seq_lib::seq_to_set_is_finite(hashes);
    lemma_jaccard_one_iff_equal(chunk_hash_set(bytes, size), chunk_hash_set(bytes, size));
}

} // verus!
