//! Merkle trees over envelope hashes: root computation, per-index inclusion
//! proofs, and the proof verifier, with soundness proved: a proof produced for
//! index `i` always folds back to the root.
//!
//! Levels pair consecutive nodes; an odd node at the end of a level is paired
//! with itself.
use vstd::prelude::*;

use crate::hashes::{merkle_node, spec_merkle_node};

verus! {

/// The views of a vector of 32-byte hashes.
pub open spec fn hashes_of(s: Seq<[u8; 32]>) -> Seq<Seq<u8>> {
    s.map_values(|x: [u8; 32]| x@)
}

/// One level up the tree: consecutive pairs hashed, a trailing odd node
/// paired with itself.
pub open spec fn level_up(level: Seq<Seq<u8>>) -> Seq<Seq<u8>> {
    Seq::new(
        ((level.len() + 1) / 2) as nat,
        |j: int|
            spec_merkle_node(
                level[2 * j],
                if 2 * j + 1 < level.len() {
                    level[2 * j + 1]
                } else {
                    level[2 * j]
                },
            ),
    )
}

/// The Merkle root of a non-empty sequence of leaf hashes.
pub open spec fn merkle_root_of(leaves: Seq<Seq<u8>>) -> Seq<u8>
    decreases leaves.len(),
{
    if leaves.len() <= 1 {
        if leaves.len() == 1 {
            leaves[0]
        } else {
            Seq::empty()
        }
    } else {
        merkle_root_of(level_up(leaves))
    }
}

/// The sibling hash paired with index `i` at one level.
pub open spec fn sibling_of(level: Seq<Seq<u8>>, i: int) -> Seq<u8> {
    if i % 2 == 0 {
        if i + 1 < level.len() {
            level[i + 1]
        } else {
            level[i]
        }
    } else {
        level[i - 1]
    }
}

/// The inclusion proof for index `i`: the sibling at each level, leaf to root.
pub open spec fn proof_for(leaves: Seq<Seq<u8>>, i: int) -> Seq<Seq<u8>>
    decreases leaves.len(),
{
    if leaves.len() <= 1 {
        Seq::empty()
    } else {
        seq![sibling_of(leaves, i)] + proof_for(level_up(leaves), i / 2)
    }
}

/// Fold a proof into a leaf: at step `k`, hash with the sibling on the side
/// that bit `k` of the index selects.
pub open spec fn fold_proof(leaf: Seq<u8>, proof: Seq<Seq<u8>>, index: int) -> Seq<u8>
    decreases proof.len(),
{
    if proof.len() == 0 {
        leaf
    } else {
        fold_proof(
            if index % 2 == 0 {
                spec_merkle_node(leaf, proof[0])
            } else {
                spec_merkle_node(proof[0], leaf)
            },
            proof.drop_first(),
            index / 2,
        )
    }
}

/// Soundness of inclusion proofs: for every index of a non-empty leaf
/// sequence, folding the proof produced for that index over the leaf yields
/// the Merkle root.
pub proof fn lemma_proof_folds_to_root(leaves: Seq<Seq<u8>>, i: int)
    requires
        0 <= i < leaves.len(),
    ensures
        fold_proof(leaves[i], proof_for(leaves, i), i) == merkle_root_of(leaves),
    decreases leaves.len(),
{
    if leaves.len() <= 1 {
    } else {
        let up = level_up(leaves);
        let sib = sibling_of(leaves, i);
        let stepped = if i % 2 == 0 {
            spec_merkle_node(leaves[i], sib)
        } else {
            spec_merkle_node(sib, leaves[i])
        };
        assert(proof_for(leaves, i).drop_first() =~= proof_for(up, i / 2));
        assert(stepped == up[i / 2]);
        lemma_proof_folds_to_root(up, i / 2);
    }
}

/// Compute the Merkle root of the given leaf hashes; `None` exactly when
/// there are no leaves.
#[verifier::loop_isolation(false)]
pub fn compute_merkle_root(leaves: &Vec<[u8; 32]>) -> (r: Option<[u8; 32]>)
    ensures
        match r {
            Some(h) => leaves@.len() > 0 && h@ == merkle_root_of(hashes_of(leaves@)),
            None => leaves@.len() == 0,
        },
{
    if leaves.len() == 0 {
        return None;
    }
    let mut cur: Vec<[u8; 32]> = Vec::new();
    let mut i: usize = 0;
    while i < leaves.len()
        invariant
            i <= leaves@.len(),
            cur@ =~= leaves@.take(i as int),
        decreases leaves@.len() - i,
    {
        cur.push(leaves[i]);
        i += 1;
    }
    proof {
        assert(leaves@.take(leaves@.len() as int) =~= leaves@);
        assert(hashes_of(cur@) =~= hashes_of(leaves@));
    }
    while cur.len() > 1
        invariant
            cur@.len() >= 1,
            merkle_root_of(hashes_of(cur@)) == merkle_root_of(hashes_of(leaves@)),
        decreases cur@.len(),
    {
        let next = one_level_up(&cur);
        proof {
            assert(hashes_of(next@) == level_up(hashes_of(cur@)));
        }
        cur = next;
    }
    let root = cur[0];
    proof {
        assert(hashes_of(cur@)[0] == root@);
    }
    Some(root)
}

/// Compute one level of the tree.
#[verifier::loop_isolation(false)]
fn one_level_up(cur: &Vec<[u8; 32]>) -> (next: Vec<[u8; 32]>)
    requires
        cur@.len() >= 2,
    ensures
        hashes_of(next@) == level_up(hashes_of(cur@)),
        next@.len() < cur@.len(),
{
    let ghost cv = hashes_of(cur@);
    let mut next: Vec<[u8; 32]> = Vec::new();
    let mut i: usize = 0;
    while i < cur.len()
        invariant
            i <= cur@.len(),
            i % 2 == 0,
            next@.len() == i / 2,
            forall|j: int| 0 <= j < next@.len() ==> #[trigger] next@[j]@ == level_up(cv)[j],
        decreases cur@.len() - i,
    {
        if i + 1 < cur.len() {
            let node = merkle_node(&cur[i], &cur[i + 1]);
            next.push(node);
            i += 2;
        } else {
            let node = merkle_node(&cur[i], &cur[i]);
            next.push(node);
            proof {
                assert(next@[next@.len() - 1]@ == level_up(cv)[next@.len() - 1]);
            }
            i += 1;
            proof {
                assert(next@.len() == (cv.len() + 1) / 2);
            }
            break ;
        }
    }
    proof {
        assert(next@.len() == (cv.len() + 1) / 2);
        assert(hashes_of(next@) =~= level_up(cv));
    }
    next
}

/// The inclusion proof for the leaf at `index`: sibling hashes from the leaf
/// level up to just below the root.
#[verifier::loop_isolation(false)]
pub fn inclusion_proof_for(leaves: &Vec<[u8; 32]>, index: usize) -> (r: Vec<[u8; 32]>)
    requires
        index < leaves@.len(),
    ensures
        hashes_of(r@) == proof_for(hashes_of(leaves@), index as int),
{
    let mut cur: Vec<[u8; 32]> = Vec::new();
    let mut i: usize = 0;
    while i < leaves.len()
        invariant
            i <= leaves@.len(),
            cur@ =~= leaves@.take(i as int),
        decreases leaves@.len() - i,
    {
        cur.push(leaves[i]);
        i += 1;
    }
    proof {
        assert(leaves@.take(leaves@.len() as int) =~= leaves@);
        assert(hashes_of(cur@) =~= hashes_of(leaves@));
    }
    let mut idx = index;
    let mut acc: Vec<[u8; 32]> = Vec::new();
    while cur.len() > 1
        invariant
            idx < cur@.len(),
            hashes_of(acc@) + proof_for(hashes_of(cur@), idx as int) =~= proof_for(
                hashes_of(leaves@),
                index as int,
            ),
        decreases cur@.len(),
    {
        let sib: [u8; 32] = if idx % 2 == 0 {
            if idx + 1 < cur.len() {
                cur[idx + 1]
            } else {
                cur[idx]
            }
        } else {
            cur[idx - 1]
        };
        proof {
            assert(sib@ == sibling_of(hashes_of(cur@), idx as int));
        }
        acc.push(sib);
        let next = one_level_up(&cur);
        proof {
            assert(hashes_of(next@) == level_up(hashes_of(cur@)));
            assert(hashes_of(acc@) + proof_for(hashes_of(next@), (idx / 2) as int) =~= proof_for(
                hashes_of(leaves@),
                index as int,
            ));
        }
        cur = next;
        idx = idx / 2;
    }
    proof {
        assert(hashes_of(acc@) =~= proof_for(hashes_of(leaves@), index as int));
    }
    acc
}

/// Check an inclusion proof: fold the siblings into the leaf and compare the
/// result with the root. Returns true exactly when the fold reproduces the
/// root.
#[verifier::loop_isolation(false)]
pub fn verify_inclusion(
    leaf: &[u8; 32],
    proof: &Vec<[u8; 32]>,
    index: usize,
    root: &[u8; 32],
) -> (r: bool)
    ensures
        r == (fold_proof(leaf@, hashes_of(proof@), index as int) == root@),
{
    let mut acc: [u8; 32] = *leaf;
    let mut idx = index;
    let mut i: usize = 0;
    proof {
        assert(hashes_of(proof@).skip(0) =~= hashes_of(proof@));
    }
    while i < proof.len()
        invariant
            i <= proof@.len(),
            fold_proof(leaf@, hashes_of(proof@), index as int) == fold_proof(
                acc@,
                hashes_of(proof@).skip(i as int),
                idx as int,
            ),
        decreases proof@.len() - i,
    {
        let sib = &proof[i];
        let next_acc = if idx % 2 == 0 {
            merkle_node(&acc, sib)
        } else {
            merkle_node(sib, &acc)
        };
        proof {
            assert(hashes_of(proof@).skip(i as int).drop_first() =~= hashes_of(proof@).skip(
                i + 1 as int,
            ));
            assert(hashes_of(proof@).skip(i as int)[0] == sib@);
        }
        acc = next_acc;
        idx = idx / 2;
        i += 1;
    }
    proof {
        assert(hashes_of(proof@).skip(proof@.len() as int) =~= Seq::<Seq<u8>>::empty());
    }
    crate::bytes::hash_eq(&acc, root)
}

} // verus!
