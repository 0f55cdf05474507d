//! Merkle membership proofs over (address, amount) leaves, and the one-time
//! commitment of the tree's root.
use vstd::prelude::*;
use crate::hashing::{le_bytes, push_block, push_le_bytes, sha256, sha256_of};

verus! {

/// The committed root of the reward tree.
#[derive(Debug, Clone, Copy)]
pub struct MerkleTree {
    pub merkle_root: [u8; 32],
}

#[derive(Debug, Clone, Copy, PartialEq, Eq, Structural)]
pub enum ErrorCode {
    /// The proof does not lead to the committed root.
    InvalidProof,
    /// A root has already been committed.
    AlreadyInitialized,
    /// No root has been committed yet.
    NotInitialized,
}

/// Hash of a leaf: the address bytes followed by the little-endian amount.
pub open spec fn leaf_hash(address: Seq<u8>, amount: u64) -> Seq<u8> {
    sha256_of(address + le_bytes(amount))
}

/// Hash of an inner node from its two children.
pub open spec fn node_hash(left: Seq<u8>, right: Seq<u8>) -> Seq<u8> {
    sha256_of(left + right)
}

/// One fold step: at an even position the running hash is the left input,
/// at an odd position the proof element is.
pub open spec fn fold_step(hash: Seq<u8>, sibling: Seq<u8>, index: int) -> Seq<u8> {
    if index % 2 == 0 {
        node_hash(hash, sibling)
    } else {
        node_hash(sibling, hash)
    }
}

/// The root reached by folding `proof` into `leaf`, element by element.
pub open spec fn fold_path(leaf: Seq<u8>, proof: Seq<[u8; 32]>) -> Seq<u8>
    decreases proof.len(),
{
    if proof.len() == 0 {
        leaf
    } else {
        fold_step(fold_path(leaf, proof.drop_last()), proof.last()@, proof.len() - 1)
    }
}

/// The proof authenticates the leaf (address, amount) against `root`.
pub open spec fn proof_valid(address: Seq<u8>, amount: u64, proof: Seq<[u8; 32]>, root: Seq<u8>) -> bool {
    fold_path(leaf_hash(address, amount), proof) == root
}

/// Hashes a leaf from its address and amount.
pub fn hash_leaf(address: &[u8; 32], amount: u64) -> (r: [u8; 32])
    ensures
        r@ == leaf_hash(address@, amount),
{
    let mut buf: Vec<u8> = Vec::new();
    push_block(&mut buf, address);
    push_le_bytes(&mut buf, amount);
    sha256(buf.as_slice())
}

/// Hashes an inner node from its left and right children.
pub fn hash_nodes(left: &[u8; 32], right: &[u8; 32]) -> (r: [u8; 32])
    ensures
        r@ == node_hash(left@, right@),
{
    let mut buf: Vec<u8> = Vec::new();
    push_block(&mut buf, left);
    push_block(&mut buf, right);
    sha256(buf.as_slice())
}

/// Folds `proof` into the leaf hash of (address, amount) and returns the root
/// it leads to.
pub fn compute_root(address: &[u8; 32], amount: u64, proof: &Vec<[u8; 32]>) -> (r: [u8; 32])
    ensures
        r@ == fold_path(leaf_hash(address@, amount), proof@),
{
    let ghost leaf = leaf_hash(address@, amount);
    let mut hash = hash_leaf(address, amount);
    let mut i: usize = 0;
    while i < proof.len()
        invariant
            i <= proof@.len(),
            hash@ == fold_path(leaf, proof@.take(i as int)),
        decreases proof@.len() - i,
    {
        let p = proof[i];
        if i % 2 == 0 {
            hash = hash_nodes(&hash, &p);
        } else {
            hash = hash_nodes(&p, &hash);
        }
        assert(proof@.take(i as int + 1).drop_last() =~= proof@.take(i as int));
        i = i + 1;
    }
    assert(proof@.take(proof@.len() as int) =~= proof@);
    hash
}

/// Compares two 32-byte hashes byte for byte.
pub fn hashes_equal(a: &[u8; 32], b: &[u8; 32]) -> (r: bool)
    ensures
        r == (a@ == b@),
{
    let mut i: usize = 0;
    while i < 32
        invariant
            i <= 32,
            a@.len() == 32,
            b@.len() == 32,
            a@.take(i as int) == b@.take(i as int),
        decreases 32 - i,
    {
        if a[i] != b[i] {
            assert(a@[i as int] != b@[i as int]);
            return false;
        }
        assert(a@.take(i as int + 1) =~= a@.take(i as int).push(a@[i as int]));
        assert(b@.take(i as int + 1) =~= b@.take(i as int).push(b@[i as int]));
        i = i + 1;
    }
    assert(a@.take(32) =~= a@);
    assert(b@.take(32) =~= b@);
    true
}

/// Checks that `proof` authenticates the leaf (address, amount) against `root`.
pub fn verify_proof(address: &[u8; 32], amount: u64, proof: &Vec<[u8; 32]>, root: &[u8; 32]) -> (r: bool)
    ensures
        r == proof_valid(address@, amount, proof@, root@),
{
    let computed = compute_root(address, amount, proof);
    hashes_equal(&computed, root)
}

/// Holds the root of the current reward epoch, committed at most once.
pub struct CommitmentStore {
    tree: Option<MerkleTree>,
}

impl CommitmentStore {
    /// The committed root, if any.
    pub closed spec fn root_view(&self) -> Option<Seq<u8>> {
        match self.tree {
            Some(t) => Some(t.merkle_root@),
            None => None,
        }
    }

    /// A store with no root committed yet.
    pub fn new() -> (r: CommitmentStore)
        ensures
            r.root_view() == None::<Seq<u8>>,
    {
        CommitmentStore { tree: None }
    }

    /// Commits `merkle_root`; a second commitment is refused.
    pub fn initialize(&mut self, merkle_root: [u8; 32]) -> (r: Result<(), ErrorCode>)
        ensures
            old(self).root_view() is None ==> r is Ok && final(self).root_view() == Some(merkle_root@),
            old(self).root_view() is Some ==> r == Err::<(), ErrorCode>(ErrorCode::AlreadyInitialized)
                && final(self).root_view() == old(self).root_view(),
    {
        if self.tree.is_some() {
            return Err(ErrorCode::AlreadyInitialized);
        }
        self.tree = Some(MerkleTree { merkle_root });
        Ok(())
    }

    /// The committed root.
    pub fn get_root(&self) -> (r: Option<[u8; 32]>)
        ensures
            match r {
                Some(root) => self.root_view() == Some(root@),
                None => self.root_view() is None,
            },
    {
        match &self.tree {
            Some(t) => Some(t.merkle_root),
            None => None,
        }
    }

    /// Checks a claim of `amount` by `user_address` against the committed root.
    pub fn claim(&self, user_address: &[u8; 32], amount: u64, proof: &Vec<[u8; 32]>) -> (r: Result<(), ErrorCode>)
        ensures
            match self.root_view() {
                None => r == Err::<(), ErrorCode>(ErrorCode::NotInitialized),
                Some(root) => if proof_valid(user_address@, amount, proof@, root) {
                    r is Ok
                } else {
                    r == Err::<(), ErrorCode>(ErrorCode::InvalidProof)
                },
            },
    {
        match &self.tree {
            None => Err(ErrorCode::NotInitialized),
            Some(t) => claim(t, user_address, amount, proof),
        }
    }
}

/// Commits `merkle_root` as the root of a new reward tree.
pub fn initialize(merkle_root: [u8; 32]) -> (r: MerkleTree)
    ensures
        r.merkle_root == merkle_root,
{
    MerkleTree { merkle_root }
}

/// Accepts the claim of `amount` by `user_address` exactly when `proof`
/// leads from its leaf to the tree's root.
pub fn claim(tree: &MerkleTree, user_address: &[u8; 32], amount: u64, proof: &Vec<[u8; 32]>) -> (r: Result<(), ErrorCode>)
    ensures
        r is Ok <==> proof_valid(user_address@, amount, proof@, tree.merkle_root@),
        r is Err ==> r == Err::<(), ErrorCode>(ErrorCode::InvalidProof),
{
    if verify_proof(user_address, amount, proof, &tree.merkle_root) {
        Ok(())
    } else {
        Err(ErrorCode::InvalidProof)
    }
}

/// An honestly generated proof is accepted: whatever (address, amount) and
/// proof elements, the root obtained by folding the proof authenticates them.
pub proof fn lemma_honest_proof_accepted(address: Seq<u8>, amount: u64, proof: Seq<[u8; 32]>)
    ensures
        proof_valid(address, amount, proof, fold_path(leaf_hash(address, amount), proof)),
{
}

} // verus!
