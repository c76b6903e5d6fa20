//! Raw-byte chunk features of a binary: the sets of chunk hashes at three chunk sizes.

use vstd::prelude::*;
use std::collections::HashSet;
use crate::digest::{chunk_hash, hash_bytes, le_value, sha256_spec};

verus! {

broadcast use vstd::std_specs::hash::group_hash_axioms;

/// The consecutive, non-overlapping chunks of `bytes` of `size` bytes each, starting at
/// the front; the last chunk holds what is left and may be shorter (as `<[u8]>::chunks`).
pub open spec fn byte_chunks(bytes: Seq<u8>, size: nat) -> Seq<Seq<u8>>
    decreases bytes.len(),
{
    if size == 0 || bytes.len() == 0 {
        Seq::empty()
    } else if bytes.len() <= size {
        seq![bytes]
    } else {
        seq![bytes.take(size as int)] + byte_chunks(bytes.skip(size as int), size)
    }
}

/// The set of feature hashes of the `size`-byte chunks of `bytes`.
pub open spec fn chunk_hash_set(bytes: Seq<u8>, size: nat) -> Set<u64> {
    byte_chunks(bytes, size).map_values(|c: Seq<u8>| chunk_hash(c)).to_set()
}

/// The chunks are aligned and cover the bytes: chunk `i` is the slice from `i * size` up
/// to `(i + 1) * size` or the end, every chunk but the last holds `size` bytes, and the
/// chunks end exactly where the bytes do.
pub proof fn lemma_byte_chunks_aligned(bytes: Seq<u8>, size: nat)
    requires
        size > 0,
    ensures
        ({
            let chunks = byte_chunks(bytes, size);
            &&& forall|i: int|
                0 <= i < chunks.len() ==> #[trigger] chunks[i] == bytes.subrange(
                    i * size,
                    if (i + 1) * size <= bytes.len() { (i + 1) * size } else { bytes.len() as int },
                )
            &&& chunks.len() * size >= bytes.len()
            &&& bytes.len() > 0 ==> (chunks.len() - 1) * size < bytes.len()
            &&& bytes.len() == 0 ==> chunks.len() == 0
        }),
    decreases bytes.len(),
{
    let chunks = byte_chunks(bytes, size);
    if bytes.len() == 0 {
    } else if bytes.len() <= size {
        assert(chunks[0] == bytes);
        assert(bytes.subrange(0, bytes.len() as int) =~= bytes);
        assert(1 * size == size);
    } else {
        let rest = bytes.skip(size as int);
        lemma_byte_chunks_aligned(rest, size);
        let tail = byte_chunks(rest, size);
        assert(chunks == seq![bytes.take(size as int)] + tail);
        assert forall|i: int| 0 <= i < chunks.len() implies #[trigger] chunks[i] == bytes.subrange(
            i * size,
            if (i + 1) * size <= bytes.len() { (i + 1) * size } else { bytes.len() as int },
        ) by {
            if i == 0 {
                assert(bytes.take(size as int) =~= bytes.subrange(0, size as int));
                assert((0 + 1) * size == size);
                assert(0 * size == 0);
            } else {
                let j = i - 1;
                assert(chunks[i] == tail[j]);
                assert(i * size == j * size + size) by (nonlinear_arith)
                    requires
                        j == i - 1,
                ;
                assert((i + 1) * size == (j + 1) * size + size) by (nonlinear_arith)
                    requires
                        j == i - 1,
                ;
                let lo = j * size;
                let hi = if (j + 1) * size <= rest.len() { (j + 1) * size } else { rest.len() as int };
                assert(0 <= lo) by (nonlinear_arith)
                    requires
                        j >= 0,
                        size > 0,
                        lo == j * size,
                ;
                assert(lo <= hi) by (nonlinear_arith)
                    requires
                        j >= 0,
                        size > 0,
                        lo == j * size,
                        hi == if (j + 1) * size <= rest.len() { (j + 1) * size } else { rest.len() as int },
                        (tail.len() - 1) * size < rest.len(),
                        j < tail.len(),
                ;
                assert(rest.subrange(lo, hi) =~= bytes.subrange(lo + size, hi + size));
            }
        }
        assert(chunks.len() * size >= bytes.len()) by (nonlinear_arith)
            requires
                chunks.len() == tail.len() + 1,
                tail.len() * size >= rest.len(),
                rest.len() == bytes.len() - size,
        ;
        assert((chunks.len() - 1) * size < bytes.len()) by (nonlinear_arith)
            requires
                chunks.len() == tail.len() + 1,
                rest.len() > 0 ==> (tail.len() - 1) * size < rest.len(),
                rest.len() == bytes.len() - size,
                rest.len() > 0,
        ;
    }
}

/// A hash is among the `size`-byte features of `bytes` exactly when it is the first
/// eight bytes, read little-endian, of the SHA-256 digest of some whole chunk: the bytes
/// from an offset `s` that is a multiple of `size` up to `s + size` or the end.
pub proof fn lemma_chunk_hash_set_members(bytes: Seq<u8>, size: nat, h: u64)
    requires
        size > 0,
    ensures
        chunk_hash_set(bytes, size).contains(h) <==> exists|s: int, e: int|
            #![trigger bytes.subrange(s, e)]
            0 <= s < bytes.len() && s % (size as int) == 0 && e == (if s + size <= bytes.len() {
                s + size
            } else {
                bytes.len() as int
            }) && h == le_value(sha256_spec(bytes.subrange(s, e)).take(8)) as u64,
{
    let chunks = byte_chunks(bytes, size);
    let hashes = chunks.map_values(|c: Seq<u8>| chunk_hash(c));
    lemma_byte_chunks_aligned(bytes, size);
    if chunk_hash_set(bytes, size).contains(h) {
        let k = choose|k: int| 0 <= k < hashes.len() && hashes[k] == h;
        let s = k * size;
        let e = if (k + 1) * size <= bytes.len() { (k + 1) * size } else { bytes.len() as int };
        assert(chunks[k] == bytes.subrange(s, e));
        assert(bytes.len() > 0);
        assert(0 <= s < bytes.len()) by (nonlinear_arith)
            requires
                s == k * size,
                0 <= k < chunks.len(),
                (chunks.len() - 1) * size < bytes.len(),
                size > 0,
        ;
        assert(s % (size as int) == 0) by (nonlinear_arith)
            requires
                s == k * size,
                k >= 0,
                size > 0,
        ;
        assert((k + 1) * size == s + size) by (nonlinear_arith)
            requires
                s == k * size,
        ;
        assert(h == le_value(sha256_spec(bytes.subrange(s, e)).take(8)) as u64);
    }
    if exists|s: int, e: int|
        #![trigger bytes.subrange(s, e)]
        0 <= s < bytes.len() && s % (size as int) == 0 && e == (if s + size <= bytes.len() {
            s + size
        } else {
            bytes.len() as int
        }) && h == le_value(sha256_spec(bytes.subrange(s, e)).take(8)) as u64 {
        let (s, e) = choose|s: int, e: int|
            #![trigger bytes.subrange(s, e)]
            0 <= s < bytes.len() && s % (size as int) == 0 && e == (if s + size <= bytes.len() {
                s + size
            } else {
                bytes.len() as int
            }) && h == le_value(sha256_spec(bytes.subrange(s, e)).take(8)) as u64;
        let k = s / (size as int);
        assert(s == k * size && k >= 0) by (nonlinear_arith)
            requires
                s % (size as int) == 0,
                k == s / (size as int),
                s >= 0,
                size > 0,
        ;
        assert(k < chunks.len()) by (nonlinear_arith)
            requires
                s == k * size,
                s < bytes.len(),
                chunks.len() * size >= bytes.len(),
                size > 0,
        ;
        assert((k + 1) * size == s + size) by (nonlinear_arith)
            requires
                s == k * size,
        ;
        assert(chunks[k] == bytes.subrange(s, e));
        assert(hashes[k] == h);
        assert(hashes.contains(h));
    }
}

/// The features of a binary: its name, its path, and the hash sets of its
/// aligned 4-, 16- and 8-byte chunks.
#[derive(Debug)]
pub struct BinaryFeatures {
    pub name: String,
    pub path: String,
    pub chunk_4_hashes: HashSet<u64>,
    pub chunk_16_hashes: HashSet<u64>,
    pub chunk_8_hashes: HashSet<u64>,
}

/// Hashing the first chunk and the chunks of the rest gives the hash set of the whole.
proof fn lemma_chunk_hash_set_unfold(r: Seq<u8>, size: nat)
    requires
        size > 0,
        r.len() > 0,
    ensures
        ({
            let k = if r.len() <= size { r.len() as int } else { size as int };
            chunk_hash_set(r, size) == chunk_hash_set(r.skip(k), size).insert(chunk_hash(r.take(k)))
        }),
{
    let k = if r.len() <= size { r.len() as int } else { size as int };
    let f = |c: Seq<u8>| chunk_hash(c);
    let rest = byte_chunks(r.skip(k), size);
    assert(byte_chunks(r, size) =~= seq![r.take(k)] + rest) by {
        if r.len() <= size {
            assert(r.take(k) =~= r);
            assert(r.skip(k).len() == 0);
        }
    }
    let whole = (seq![r.take(k)] + rest).map_values(f);
    let tail = rest.map_values(f);
    assert(whole =~= seq![f(r.take(k))] + tail);
    assert forall|h: u64| whole.to_set().contains(h) <==> tail.to_set().insert(f(r.take(k))).contains(h)
    by {
        if whole.to_set().contains(h) {
            let i = choose|i: int| 0 <= i < whole.len() && whole[i] == h;
            if i > 0 {
                assert(tail[i - 1] == h);
            }
        }
        if tail.to_set().contains(h) {
            let i = choose|i: int| 0 <= i < tail.len() && tail[i] == h;
            assert(whole[i + 1] == h);
        }
        if h == f(r.take(k)) {
            assert(whole[0] == h);
        }
    }
    assert(whole.to_set() =~= tail.to_set().insert(f(r.take(k))));
}

/// Hashes every `size`-byte chunk of `bytes` into a set.
fn hash_chunks(bytes: &[u8], size: usize) -> (set: HashSet<u64>)
    requires
        size > 0,
    ensures
        set@ == chunk_hash_set(bytes@, size as nat),
{
    let mut set: HashSet<u64> = HashSet::new();
    let len: usize = bytes.len();
    let mut start: usize = 0;
    assert(bytes@.skip(0) =~= bytes@);
    while start < len
        invariant
            size > 0,
            start <= len,
            len == bytes@.len(),
            chunk_hash_set(bytes@, size as nat) == set@.union(
                chunk_hash_set(bytes@.skip(start as int), size as nat),
            ),
        decreases len - start,
    {
        let end: usize = if len - start <= size { len } else { start + size };
        let chunk = &bytes[start..end];
        let hash: u64 = hash_bytes(chunk);
        proof {
            let r = bytes@.skip(start as int);
            lemma_chunk_hash_set_unfold(r, size as nat);
            assert(r.take(end - start) =~= chunk@);
            assert(r.skip(end - start) =~= bytes@.skip(end as int));
        }
        let ghost before = set@;
        set.insert(hash);
        proof {
            assert(set@.union(chunk_hash_set(bytes@.skip(end as int), size as nat)) =~= before.union(
                chunk_hash_set(bytes@.skip(end as int), size as nat).insert(hash),
            ));
        }
        start = end;
    }
    proof {
        assert(bytes@.skip(len as int).len() == 0);
        assert(chunk_hash_set(bytes@.skip(len as int), size as nat) =~= Set::empty());
        assert(set@.union(Set::empty()) =~= set@);
    }
    set
}

impl BinaryFeatures {
    /// Extracts the chunk-hash features of `bytes`. Both sides of every comparison go
    /// through this one featurization, so the features depend on the content alone.
    pub fn extract_from_bytes(bytes: &[u8], name: String, path: String) -> (f: BinaryFeatures)
        ensures
            f.name@ == name@,
            f.path@ == path@,
            f.chunk_4_hashes@ == chunk_hash_set(bytes@, 4),
            f.chunk_16_hashes@ == chunk_hash_set(bytes@, 16),
            f.chunk_8_hashes@ == chunk_hash_set(bytes@, 8),
            forall|h: u64|
                #[trigger] f.chunk_4_hashes@.contains(h) <==> exists|s: int, e: int|
                    #![trigger bytes@.subrange(s, e)]
                    0 <= s < bytes@.len() && s % 4 == 0 && e == (if s + 4 <= bytes@.len() {
                        s + 4
                    } else {
                        bytes@.len() as int
                    }) && h == le_value(sha256_spec(bytes@.subrange(s, e)).take(8)) as u64,
            forall|h: u64|
                #[trigger] f.chunk_16_hashes@.contains(h) <==> exists|s: int, e: int|
                    #![trigger bytes@.subrange(s, e)]
                    0 <= s < bytes@.len() && s % 16 == 0 && e == (if s + 16 <= bytes@.len() {
                        s + 16
                    } else {
                        bytes@.len() as int
                    }) && h == le_value(sha256_spec(bytes@.subrange(s, e)).take(8)) as u64,
            forall|h: u64|
                #[trigger] f.chunk_8_hashes@.contains(h) <==> exists|s: int, e: int|
                    #![trigger bytes@.subrange(s, e)]
                    0 <= s < bytes@.len() && s % 8 == 0 && e == (if s + 8 <= bytes@.len() {
                        s + 8
                    } else {
                        bytes@.len() as int
                    }) && h == le_value(sha256_spec(bytes@.subrange(s, e)).take(8)) as u64,
    {
        let chunk_4_hashes = hash_chunks(bytes, 4);
        let chunk_16_hashes = hash_chunks(bytes, 16);
        let chunk_8_hashes = hash_chunks(bytes, 8);
        proof {
            assert forall|h: u64| #[trigger] chunk_4_hashes@.contains(h) <==> exists|s: int, e: int|
                #![trigger bytes@.subrange(s, e)]
                0 <= s < bytes@.len() && s % 4 == 0 && e == (if s + 4 <= bytes@.len() {
                    s + 4
                } else {
                    bytes@.len() as int
                }) && h == le_value(sha256_spec(bytes@.subrange(s, e)).take(8)) as u64 by {
                lemma_chunk_hash_set_members(bytes@, 4, h);
            }
            assert forall|h: u64| #[trigger] chunk_16_hashes@.contains(h) <==> exists|s: int, e: int|
                #![trigger bytes@.subrange(s, e)]
                0 <= s < bytes@.len() && s % 16 == 0 && e == (if s + 16 <= bytes@.len() {
                    s + 16
                } else {
                    bytes@.len() as int
                }) && h == le_value(sha256_spec(bytes@.subrange(s, e)).take(8)) as u64 by {
                lemma_chunk_hash_set_members(bytes@, 16, h);
            }
            assert forall|h: u64| #[trigger] chunk_8_hashes@.contains(h) <==> exists|s: int, e: int|
                #![trigger bytes@.subrange(s, e)]
                0 <= s < bytes@.len() && s % 8 == 0 && e == (if s + 8 <= bytes@.len() {
                    s + 8
                } else {
                    bytes@.len() as int
                }) && h == le_value(sha256_spec(bytes@.subrange(s, e)).take(8)) as u64 by {
                lemma_chunk_hash_set_members(bytes@, 8, h);
            }
        }
        BinaryFeatures { name, path, chunk_4_hashes, chunk_16_hashes, chunk_8_hashes }
    }
}

} // verus!
