//! The Merkle accumulator, the nullifier guard, and the transaction
//! validator on concrete values.

use num_bigint::BigUint;
use txnsfr::error::ErrorCode;
use txnsfr::merkle_tree::{MerkleTree, MerkleTreeAccount};
use txnsfr::nullifier::NullifierSet;
use txnsfr::utils::{calculate_complete_ext_data_hash, verifying_key, SOL_ADDRESS};
use txnsfr::{initialize, transact, ExtData, Proof};

const FIELD_MODULUS_HEX: &str = "30644e72e131a029b85045b68181585d2833e84879b9709143e1f593f0000001";

fn modulus() -> BigUint {
    BigUint::parse_bytes(FIELD_MODULUS_HEX.as_bytes(), 16).unwrap()
}

fn to_be32(n: &BigUint) -> [u8; 32] {
    let bytes = n.to_bytes_be();
    assert!(bytes.len() <= 32);
    let mut out = [0u8; 32];
    out[32 - bytes.len()..].copy_from_slice(&bytes);
    out
}

fn leaf(tag: u8) -> [u8; 32] {
    let mut l = [0u8; 32];
    l[31] = tag;
    l
}

fn small_tree(height: u8, history: u8) -> MerkleTreeAccount {
    MerkleTree::initialize([0u8; 32], height, history, u64::MAX)
}

#[test]
fn empty_tree_root_is_the_zero_ladder_top() {
    // With height 1 the initial root is the Poseidon hash of two zero
    // leaves; the library's ladder must match the hasher itself.
    let tree = small_tree(1, 4);
    let zero = [0u8; 32];
    let expected = <light_hasher::Poseidon as light_hasher::Hasher>::hashv(&[&zero, &zero]).unwrap();
    assert_eq!(tree.root, expected);
}

#[test]
fn append_returns_consecutive_indices() {
    let mut tree = small_tree(3, 10);
    for k in 0..8u64 {
        let idx = MerkleTree::append(leaf(k as u8 + 1), &mut tree).unwrap();
        assert_eq!(idx, k);
    }
}

#[test]
fn tree_exhaustion_fails_exactly_at_capacity() {
    // A tree of height 2 holds 4 leaves: the fifth append, and only the
    // fifth, fails.
    let mut tree = small_tree(2, 10);
    for k in 0..4u64 {
        assert_eq!(MerkleTree::append(leaf(k as u8 + 1), &mut tree), Ok(k));
    }
    assert_eq!(
        MerkleTree::append(leaf(9), &mut tree),
        Err(ErrorCode::MerkleTreeFull)
    );
    assert_eq!(tree.next_index, 4);
}

#[test]
fn append_rejects_non_field_leaf() {
    let mut tree = small_tree(2, 10);
    let too_big = to_be32(&modulus());
    assert_eq!(
        MerkleTree::append(too_big, &mut tree),
        Err(ErrorCode::HashFailed)
    );
    assert_eq!(tree.next_index, 0);
}

#[test]
fn root_window_slides() {
    // History of 4: after k appends the last min(k + 1, 4) roots are
    // known, and any root before the window is forgotten.
    let mut tree = small_tree(3, 4);
    let mut roots = vec![tree.root];
    for k in 0..6u64 {
        MerkleTree::append(leaf(k as u8 + 1), &mut tree).unwrap();
        roots.push(tree.root);
    }
    // roots[0..=6]; the window holds roots 3..=6.
    for r in roots[3..].iter() {
        assert!(MerkleTree::is_known_root(&tree, *r));
    }
    for r in roots[..3].iter() {
        assert!(!MerkleTree::is_known_root(&tree, *r));
    }
    // A root the tree never had is unknown, and so is the zero string.
    assert!(!MerkleTree::is_known_root(&tree, leaf(0xEE)));
    assert!(!MerkleTree::is_known_root(&tree, [0u8; 32]));
}

#[test]
fn fresh_tree_knows_only_its_initial_root() {
    let tree = small_tree(3, 4);
    assert!(MerkleTree::is_known_root(&tree, tree.root));
    assert!(!MerkleTree::is_known_root(&tree, leaf(1)));
}

#[test]
fn nullifier_consumed_once() {
    let mut ns = NullifierSet::new();
    let n = leaf(1);
    assert_eq!(ns.consume(0, &n), Ok(()));
    assert_eq!(ns.consume(0, &n), Err(ErrorCode::NullifierAlreadyUsed));
    // The failing attempt changed nothing: the other namespace stays free.
    assert!(!ns.is_spent(1, &n));
    assert_eq!(ns.consume(1, &n), Ok(()));
}

#[test]
fn nullifier_pair_is_atomic() {
    let mut ns = NullifierSet::new();
    let n0 = leaf(1);
    let n1 = leaf(2);
    assert_eq!(ns.consume(0, &n0), Ok(()));
    // The pair fails because slot 0 is taken; slot 1 must stay untouched.
    assert_eq!(
        ns.consume_pair(&n0, &n1),
        Err(ErrorCode::NullifierAlreadyUsed)
    );
    assert!(!ns.is_spent(1, &n1));
    // A fresh pair goes through whole.
    let m0 = leaf(3);
    assert_eq!(ns.consume_pair(&m0, &n1), Ok(()));
    assert!(ns.is_spent(0, &m0));
    assert!(ns.is_spent(1, &n1));
}

#[test]
fn initialize_sets_the_deployed_policy() {
    let auth = [5u8; 32];
    let (tree, token, config) = initialize(None, auth).unwrap();
    assert_eq!(tree.height, 26);
    assert_eq!(tree.root_history_size, 100);
    assert_eq!(tree.next_index, 0);
    assert_eq!(tree.max_deposit_amount, 1_000_000_000_000);
    // The tree starts all-empty: each cache is its level's empty subtree,
    // the root tops the ladder, and slot 0 holds it under cursor 0.
    assert_eq!(tree.root_index, 0);
    assert_eq!(tree.root_history[0], tree.root);
    assert_eq!(tree.root, tree.zeros[26]);
    for l in 0..26 {
        assert_eq!(tree.subtrees[l], tree.zeros[l]);
    }
    assert_eq!(token.authority, auth);
    assert_eq!(config.deposit_fee_rate, 0);
    assert_eq!(config.withdrawal_fee_rate, 25);
    assert_eq!(config.fee_error_margin, 500);
}

#[test]
fn initialize_enforces_the_admin_key() {
    let auth = [5u8; 32];
    assert!(initialize(Some(auth), auth).is_ok());
    assert_eq!(
        initialize(Some([6u8; 32]), auth).err(),
        Some(ErrorCode::Unauthorized)
    );
}

fn dummy_proof(root: [u8; 32]) -> Proof {
    Proof {
        proof_a: [0xAB; 64],
        proof_b: [0u8; 128],
        proof_c: [0u8; 64],
        root,
        public_amount: [0u8; 32],
        ext_data_hash: [0u8; 32],
        input_nullifiers: [leaf(21), leaf(22)],
        output_commitments: [leaf(31), leaf(32)],
    }
}

#[test]
fn transact_walks_the_checks_in_order() {
    let auth = [5u8; 32];
    let (mut tree, _token, config) = initialize(None, auth).unwrap();
    let mut ns = NullifierSet::new();
    let recipient = [1u8; 32];
    let fee_recipient = [2u8; 32];
    let e1 = vec![10u8, 11];
    let e2 = vec![12u8];
    let ext = ExtData {
        recipient,
        ext_amount: 1000,
        fee: 10,
        fee_recipient,
        mint_address: SOL_ADDRESS,
    };

    // An unknown root stops the walk first.
    let bad = dummy_proof(leaf(0xCC));
    let r = transact(
        &mut tree, &mut ns, &config, verifying_key(), &bad, &ext,
        e1.clone(), e2.clone(), 10_000, 0, 0, 100,
    );
    assert_eq!(r.err(), Some(ErrorCode::UnknownRoot));

    // A known root with an unbound hash stops at the binding.
    let p = dummy_proof(tree.root);
    let r = transact(
        &mut tree, &mut ns, &config, verifying_key(), &p, &ext,
        e1.clone(), e2.clone(), 10_000, 0, 0, 100,
    );
    assert_eq!(r.err(), Some(ErrorCode::ExtDataHashMismatch));

    // Bind the hash; the public amount is still wrong.
    let calc = calculate_complete_ext_data_hash(
        recipient, ext.ext_amount, &e1, &e2, ext.fee, fee_recipient, SOL_ADDRESS,
    )
    .unwrap();
    let bound = BigUint::from_bytes_le(&calc) % modulus();
    let mut p = dummy_proof(tree.root);
    p.ext_data_hash = to_be32(&bound);
    let r = transact(
        &mut tree, &mut ns, &config, verifying_key(), &p, &ext,
        e1.clone(), e2.clone(), 10_000, 0, 0, 100,
    );
    assert_eq!(r.err(), Some(ErrorCode::InvalidPublicAmountData));

    // With the equation satisfied, the garbage proof itself is what fails.
    let mut amount = [0u8; 32];
    amount[24..].copy_from_slice(&990u64.to_be_bytes());
    p.public_amount = amount;
    let r = transact(
        &mut tree, &mut ns, &config, verifying_key(), &p, &ext,
        e1.clone(), e2.clone(), 10_000, 0, 0, 100,
    );
    assert_eq!(r.err(), Some(ErrorCode::InvalidProof));

    // A fee below the withdrawal floor is caught before the proof.
    let wext = ExtData {
        recipient,
        ext_amount: -1_000_000,
        fee: 2374,
        fee_recipient,
        mint_address: SOL_ADDRESS,
    };
    let wp = dummy_proof(tree.root);
    let calc = calculate_complete_ext_data_hash(
        recipient, wext.ext_amount, &e1, &e2, wext.fee, fee_recipient, SOL_ADDRESS,
    )
    .unwrap();
    let bound = BigUint::from_bytes_le(&calc) % modulus();
    let mut wp = Proof { ext_data_hash: to_be32(&bound), ..wp };
    let expected = (&modulus() - BigUint::from(1_000_000u64 + 2374u64)) % modulus();
    wp.public_amount = to_be32(&expected);
    let r = transact(
        &mut tree, &mut ns, &config, verifying_key(), &wp, &wext,
        e1.clone(), e2.clone(), 10_000_000, 0, 0, 100,
    );
    assert_eq!(r.err(), Some(ErrorCode::InvalidFeeAmount));

    // Nothing along the way touched the tree or the guard.
    assert_eq!(tree.next_index, 0);
    assert!(!ns.is_spent(0, &leaf(21)));
}
