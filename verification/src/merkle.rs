//! The Merkle root of an ordered list of byte strings: a binary tree of
//! SHA-256 digests whose left subtree always holds a power of two of the
//! leaves.

use crate::hash::{sha256, sha256_digest};
use vstd::prelude::*;

verus! {

/// Whether a number is a power of two.
pub open spec fn is_power_of_two(n: nat) -> bool
    decreases n,
{
    n == 1 || (n >= 2 && n % 2 == 0 && is_power_of_two(n / 2))
}

/// Where a list of `length` leaves, at least two, is split: the number of
/// leaves that go to the left subtree. It is the power of two that is less
/// than `length` and at least half of it.
pub open spec fn split_point(length: nat) -> nat
    decreases length,
{
    if length <= 2 {
        1
    } else {
        2 * split_point((length + 1) / 2)
    }
}

/// The Merkle root of a list of leaves. The root of no leaves is the digest
/// of the empty byte string, the root of one leaf is the digest of that leaf,
/// and the root of more is the digest of the roots of the left and the right
/// part, the left root first.
pub open spec fn merkle_root(leaves: Seq<Seq<u8>>) -> [u8; 32]
    decreases leaves.len(),
    via merkle_root_decreases
{
    if leaves.len() == 0 {
        sha256(Seq::empty())
    } else if leaves.len() == 1 {
        sha256(leaves[0])
    } else {
        let k = split_point(leaves.len()) as int;
        sha256(merkle_root(leaves.take(k))@ + merkle_root(leaves.skip(k))@)
    }
}

#[via_fn]
proof fn merkle_root_decreases(leaves: Seq<Seq<u8>>) {
    if leaves.len() >= 2 {
        lemma_split_point(leaves.len());
    }
}

/// The byte strings that a list of byte vectors holds.
pub open spec fn byte_strings(slices: Seq<Vec<u8>>) -> Seq<Seq<u8>> {
    Seq::new(slices.len(), |i: int| slices[i]@)
}

/// The split point of every length from two on is a power of two, less than
/// the length and at least half of it.
pub proof fn lemma_split_point(length: nat)
    requires
        length >= 2,
    ensures
        is_power_of_two(split_point(length)),
        split_point(length) < length <= 2 * split_point(length),
    decreases length,
{
    if length > 2 {
        lemma_split_point((length + 1) / 2);
        let half = split_point((length + 1) / 2);
        assert((2 * half) / 2 == half);
    }
}

/// Of two powers of two the greater is at least twice the lesser.
proof fn lemma_powers_of_two_apart(p: nat, q: nat)
    requires
        is_power_of_two(p),
        is_power_of_two(q),
        p < q,
    ensures
        2 * p <= q,
    decreases q,
{
    if p > 1 {
        lemma_powers_of_two_apart(p / 2, q / 2);
    }
}

/// Only one power of two is less than a length and at least half of it.
pub proof fn lemma_split_point_unique(length: nat, k: nat)
    requires
        length >= 2,
        is_power_of_two(k),
        k < length <= 2 * k,
    ensures
        k == split_point(length),
{
    lemma_split_point(length);
    let s = split_point(length);
    if k < s {
        lemma_powers_of_two_apart(k, s);
    } else if s < k {
        lemma_powers_of_two_apart(s, k);
    }
}

/// Computes where a list of `length` leaves is split.
pub fn get_split_point(length: usize) -> (k: usize)
    requires
        length >= 2,
    ensures
        k == split_point(length as nat),
        is_power_of_two(k as nat),
        k < length <= 2 * k,
{
    let mut k: usize = 1;
    while k < length - k
        invariant
            is_power_of_two(k as nat),
            1 <= k < length,
        decreases length - k,
    {
        assert((2 * k) / 2 == k);
        k = 2 * k;
    }
    proof {
        lemma_split_point_unique(length as nat, k as nat);
    }
    k
}

/// What is hashed at an inner node of the tree: the root of the left subtree,
/// then the root of the right subtree.
pub fn inner_preimage(left: &[u8; 32], right: &[u8; 32]) -> (bytes: Vec<u8>)
    ensures
        bytes@ == left@ + right@,
{
    let mut bytes: Vec<u8> = Vec::with_capacity(64);
    bytes.extend_from_slice(left.as_slice());
    bytes.extend_from_slice(right.as_slice());
    bytes
}

/// The Merkle root of the leaves from `lo` up to `hi`.
fn root_of_range(byte_slices: &Vec<Vec<u8>>, lo: usize, hi: usize) -> (root: [u8; 32])
    requires
        lo <= hi <= byte_slices.len(),
    ensures
        root == merkle_root(byte_strings(byte_slices@).subrange(lo as int, hi as int)),
    decreases hi - lo,
{
    let ghost leaves = byte_strings(byte_slices@).subrange(lo as int, hi as int);
    let length = hi - lo;
    if length == 0 {
        let empty: [u8; 0] = [];
        assert(empty@ =~= Seq::<u8>::empty());
        sha256_digest(empty.as_slice())
    } else if length == 1 {
        sha256_digest(byte_slices[lo].as_slice())
    } else {
        let k = get_split_point(length);
        let left = root_of_range(byte_slices, lo, lo + k);
        let right = root_of_range(byte_slices, lo + k, hi);
        proof {
            assert(leaves.take(k as int) =~= byte_strings(byte_slices@).subrange(
                lo as int,
                lo + k,
            ));
            assert(leaves.skip(k as int) =~= byte_strings(byte_slices@).subrange(
                lo + k,
                hi as int,
            ));
        }
        let both = inner_preimage(&left, &right);
        sha256_digest(both.as_slice())
    }
}

/// Computes the Merkle root of a list of byte strings, in the order given.
pub fn simple_hash_from_byte_slices(byte_slices: Vec<Vec<u8>>) -> (root: [u8; 32])
    ensures
        root == merkle_root(byte_strings(byte_slices@)),
{
    assert(byte_strings(byte_slices@).subrange(0, byte_slices.len() as int) =~= byte_strings(
        byte_slices@,
    ));
    root_of_range(&byte_slices, 0, byte_slices.len())
}

/// The byte strings that are hashed on the way to the root of a list of
/// leaves: the leaves themselves, and at each inner node the two roots below
/// it, put together.
pub open spec fn hashed_inputs(leaves: Seq<Seq<u8>>) -> Set<Seq<u8>>
    decreases leaves.len(),
    via hashed_inputs_decreases
{
    if leaves.len() == 0 {
        set![Seq::empty()]
    } else if leaves.len() == 1 {
        set![leaves[0]]
    } else {
        let k = split_point(leaves.len()) as int;
        hashed_inputs(leaves.take(k)).union(hashed_inputs(leaves.skip(k))).insert(
            merkle_root(leaves.take(k))@ + merkle_root(leaves.skip(k))@,
        )
    }
}

#[via_fn]
proof fn hashed_inputs_decreases(leaves: Seq<Seq<u8>>) {
    if leaves.len() >= 2 {
        lemma_split_point(leaves.len());
    }
}

/// Whether no two different byte strings of a set have the same SHA-256
/// digest.
pub open spec fn collision_free(inputs: Set<Seq<u8>>) -> bool {
    forall|a: Seq<u8>, b: Seq<u8>|
        #![trigger sha256(a), sha256(b)]
        inputs.contains(a) && inputs.contains(b) && sha256(a) == sha256(b) ==> a == b
}

/// Two lists of equally many leaves that have the same root are the same
/// list, unless two different byte strings that were hashed on the way have
/// the same digest.
pub proof fn lemma_merkle_root_injective(a: Seq<Seq<u8>>, b: Seq<Seq<u8>>)
    requires
        a.len() == b.len(),
        merkle_root(a) == merkle_root(b),
        collision_free(hashed_inputs(a).union(hashed_inputs(b))),
    ensures
        a == b,
    decreases a.len(),
{
    broadcast use vstd::array::group_array_axioms;

    let inputs = hashed_inputs(a).union(hashed_inputs(b));
    if a.len() == 0 {
        assert(a =~= b);
    } else if a.len() == 1 {
        assert(inputs.contains(a[0]) && inputs.contains(b[0]));
        assert(sha256(a[0]) == sha256(b[0]));
        assert(a =~= b);
    } else {
        lemma_split_point(a.len());
        let k = split_point(a.len()) as int;
        let (la, ra) = (a.take(k), a.skip(k));
        let (lb, rb) = (b.take(k), b.skip(k));
        let pa = merkle_root(la)@ + merkle_root(ra)@;
        let pb = merkle_root(lb)@ + merkle_root(rb)@;
        assert(hashed_inputs(a).contains(pa));
        assert(hashed_inputs(b).contains(pb));
        assert(inputs.contains(pa) && inputs.contains(pb));
        assert(sha256(pa) == sha256(pb));
        assert(pa == pb);
        assert(merkle_root(la)@ =~= pa.take(32));
        assert(merkle_root(lb)@ =~= pb.take(32));
        assert(merkle_root(ra)@ =~= pa.skip(32));
        assert(merkle_root(rb)@ =~= pb.skip(32));
        assert(merkle_root(la) =~= merkle_root(lb));
        assert(merkle_root(ra) =~= merkle_root(rb));
        assert(collision_free(hashed_inputs(la).union(hashed_inputs(lb)))) by {
            assert forall|x: Seq<u8>|
                hashed_inputs(la).union(hashed_inputs(lb)).contains(x) implies inputs.contains(
                x,
            ) by {
                if hashed_inputs(la).contains(x) {
                    assert(hashed_inputs(a).contains(x));
                } else {
                    assert(hashed_inputs(b).contains(x));
                }
            }
        }
        assert(collision_free(hashed_inputs(ra).union(hashed_inputs(rb)))) by {
            assert forall|x: Seq<u8>|
                hashed_inputs(ra).union(hashed_inputs(rb)).contains(x) implies inputs.contains(
                x,
            ) by {
                if hashed_inputs(ra).contains(x) {
                    assert(hashed_inputs(a).contains(x));
                } else {
                    assert(hashed_inputs(b).contains(x));
                }
            }
        }
        lemma_merkle_root_injective(la, lb);
        lemma_merkle_root_injective(ra, rb);
        assert(a =~= la + ra);
        assert(b =~= lb + rb);
    }
}

/// The roots of the smallest trees: the root of no leaves is the digest of
/// the empty byte string, the root of one leaf is the digest of the leaf, and
/// the root of two leaves is the digest of their two digests, in order.
pub proof fn lemma_merkle_base_cases(l0: Seq<u8>, l1: Seq<u8>)
    ensures
        merkle_root(Seq::empty()) == sha256(Seq::empty()),
        merkle_root(seq![l0]) == sha256(l0),
        merkle_root(seq![l0, l1]) == sha256(sha256(l0)@ + sha256(l1)@),
{
    let two = seq![l0, l1];
    assert(two.take(1) =~= seq![l0]);
    assert(two.skip(1) =~= seq![l1]);
    assert(split_point(2) == 1);
    assert(merkle_root(seq![l0]) == sha256(l0));
    assert(merkle_root(seq![l1]) == sha256(l1));
}

} // verus!
