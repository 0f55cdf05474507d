use reward_ledger::merkle_rewards::{
    claim, compute_root, hash_leaf, hash_nodes, initialize, verify_proof, CommitmentStore, ErrorCode,
};
use sha2::{Digest, Sha256};

fn digest(parts: &[&[u8]]) -> [u8; 32] {
    let mut h = Sha256::new();
    for p in parts {
        h.update(p);
    }
    h.finalize().into()
}

fn address(seed: u8) -> [u8; 32] {
    let mut a = [0u8; 32];
    for (i, b) in a.iter_mut().enumerate() {
        *b = seed.wrapping_add(i as u8);
    }
    a
}

#[test]
fn leaf_hash_is_sha256_of_address_and_le_amount() {
    let a = address(7);
    let amount: u64 = 0x0102_0304_0506_0708;
    assert_eq!(hash_leaf(&a, amount), digest(&[&a, &amount.to_le_bytes()]));
    assert_ne!(hash_leaf(&a, amount), a);
}

#[test]
fn node_hash_is_sha256_of_left_then_right() {
    let l = address(1);
    let r = address(2);
    assert_eq!(hash_nodes(&l, &r), digest(&[&l, &r]));
    assert_ne!(hash_nodes(&l, &r), hash_nodes(&r, &l));
}

#[test]
fn known_sha256_vector() {
    // SHA-256 of 64 zero bytes.
    let z = [0u8; 32];
    let expected: [u8; 32] = [
        0xf5, 0xa5, 0xfd, 0x42, 0xd1, 0x6a, 0x20, 0x30, 0x27, 0x98, 0xef, 0x6e, 0xd3, 0x09, 0x97, 0x9b,
        0x43, 0x00, 0x3d, 0x23, 0x20, 0xd9, 0xf0, 0xe8, 0xea, 0x98, 0x31, 0xa9, 0x27, 0x59, 0xfb, 0x4b,
    ];
    assert_eq!(hash_nodes(&z, &z), expected);
}

#[test]
fn honest_proof_is_accepted() {
    let a = address(3);
    let amount = 500u64;
    let s0 = address(40);
    let s1 = address(80);
    let s2 = address(120);
    let leaf = digest(&[&a, &amount.to_le_bytes()]);
    let h0 = digest(&[&leaf, &s0]);
    let h1 = digest(&[&s1, &h0]);
    let root = digest(&[&h1, &s2]);
    let proof = vec![s0, s1, s2];
    assert_eq!(compute_root(&a, amount, &proof), root);
    assert!(verify_proof(&a, amount, &proof, &root));
    let tree = initialize(root);
    assert_eq!(claim(&tree, &a, amount, &proof), Ok(()));
}

#[test]
fn empty_proof_accepted_only_when_leaf_is_root() {
    let a = address(9);
    let leaf = hash_leaf(&a, 42);
    assert!(verify_proof(&a, 42, &vec![], &leaf));
    assert!(!verify_proof(&a, 43, &vec![], &leaf));
}

#[test]
fn flipped_bit_is_rejected() {
    let a = address(3);
    let amount = 500u64;
    let proof = vec![address(40), address(80), address(120)];
    let root = compute_root(&a, amount, &proof);
    for i in 0..proof.len() {
        for bit in [0u8, 3, 7] {
            let mut bad = proof.clone();
            bad[i][5] ^= 1 << bit;
            assert!(!verify_proof(&a, amount, &bad, &root));
        }
    }
    for bit in 0..64 {
        assert!(!verify_proof(&a, amount ^ (1u64 << bit), &proof, &root));
    }
    let tree = initialize(root);
    assert_eq!(claim(&tree, &a, amount + 1, &proof), Err(ErrorCode::InvalidProof));
}

#[test]
fn proof_order_follows_index_parity() {
    let a = address(11);
    let amount = 9u64;
    let s0 = address(50);
    let leaf = hash_leaf(&a, amount);
    // At an even position the sibling is on the right.
    assert!(verify_proof(&a, amount, &vec![s0], &hash_nodes(&leaf, &s0)));
    assert!(!verify_proof(&a, amount, &vec![s0], &hash_nodes(&s0, &leaf)));
}

#[test]
fn commitment_is_written_once() {
    let mut store = CommitmentStore::new();
    assert_eq!(store.get_root(), None);
    let a = address(1);
    assert_eq!(store.claim(&a, 1, &vec![]), Err(ErrorCode::NotInitialized));
    let root = hash_leaf(&a, 1);
    assert_eq!(store.initialize(root), Ok(()));
    assert_eq!(store.get_root(), Some(root));
    assert_eq!(store.initialize([0u8; 32]), Err(ErrorCode::AlreadyInitialized));
    assert_eq!(store.get_root(), Some(root));
    assert_eq!(store.claim(&a, 1, &vec![]), Ok(()));
    assert_eq!(store.claim(&a, 2, &vec![]), Err(ErrorCode::InvalidProof));
}
