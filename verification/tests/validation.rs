//! The public-amount equation, the fee policy, the external-data hash, and
//! the Groth16 verifier on concrete values.

use num_bigint::BigUint;
use txnsfr::error::ErrorCode;
use txnsfr::errors::Groth16Error;
use txnsfr::groth16::{is_less_than_bn254_field_size_be, Groth16Verifier};
use txnsfr::utils::{
    calculate_complete_ext_data_hash, change_endianness, check_public_amount, ext_hash_matches,
    validate_fee, verify_proof, verifying_key, SOL_ADDRESS,
};
use txnsfr::{ExtData, ExtDataMinified, Proof};

const FIELD_MODULUS_HEX: &str = "30644e72e131a029b85045b68181585d2833e84879b9709143e1f593f0000001";

fn modulus() -> BigUint {
    BigUint::parse_bytes(FIELD_MODULUS_HEX.as_bytes(), 16).unwrap()
}

fn to_be32(n: &BigUint) -> [u8; 32] {
    let bytes = n.to_bytes_be();
    assert!(bytes.len() <= 32);
    let mut out = [0u8; 32];
    out[32 - bytes.len()..].copy_from_slice(&bytes);
    out
}

fn be32_from_u64(v: u64) -> [u8; 32] {
    let mut out = [0u8; 32];
    out[24..].copy_from_slice(&v.to_be_bytes());
    out
}

#[test]
fn field_bound_check_brackets_the_modulus() {
    let p = modulus();
    assert!(!is_less_than_bn254_field_size_be(&to_be32(&p)));
    let below = &p - 1u32;
    assert!(is_less_than_bn254_field_size_be(&to_be32(&below)));
    assert!(is_less_than_bn254_field_size_be(&[0u8; 32]));
    assert!(!is_less_than_bn254_field_size_be(&[0xff; 32]));
}

#[test]
fn deposit_public_amount_round_trip() {
    // A deposit of 1000 with fee 10 is worth 990.
    let good = be32_from_u64(990);
    assert!(check_public_amount(1000, 10, good));
    // Perturbing the amount, the fee, or the bound bytes breaks it.
    assert!(!check_public_amount(1001, 10, good));
    assert!(!check_public_amount(1000, 11, good));
    assert!(!check_public_amount(1000, 10, be32_from_u64(991)));
}

#[test]
fn deposit_must_exceed_its_fee() {
    assert!(!check_public_amount(10, 10, be32_from_u64(0)));
    assert!(!check_public_amount(9, 10, be32_from_u64(0)));
    assert!(!check_public_amount(0, 0, be32_from_u64(0)));
}

#[test]
fn i64_min_is_rejected() {
    assert!(!check_public_amount(i64::MIN, 0, [0u8; 32]));
}

#[test]
fn deposit_public_amount_accepts_unreduced_bytes() {
    // Bytes worth p + 990 reduce to 990: the comparison is in the field.
    let v = modulus() + BigUint::from(990u32);
    assert!(check_public_amount(1000, 10, to_be32(&v)));
}

#[test]
fn withdrawal_public_amount_sign() {
    // For ext_amount = -A the accepted value is p - (A + F), computed here
    // by two independent reductions.
    let a: u64 = 5_000;
    let fee: u64 = 40;
    let p = modulus();
    let first = (&p - BigUint::from(a + fee)) % &p;
    assert!(check_public_amount(-(a as i64), fee, to_be32(&first)));
    let second = (&p * 2u32 - BigUint::from(a + fee)) % &p + &p;
    // `second` is the same residue, written above the modulus.
    assert!(check_public_amount(-(a as i64), fee, to_be32(&second)));
    let off = (&p - BigUint::from(a + fee + 1)) % &p;
    assert!(!check_public_amount(-(a as i64), fee, to_be32(&off)));
}

#[test]
fn fee_floor_scenario() {
    // withdrawal_fee_rate = 25 bp on 1_000_000 expects 2500; a 500 bp
    // margin lowers the floor to 2375.
    assert_eq!(validate_fee(-1_000_000, 2375, 0, 25, 500), Ok(()));
    assert_eq!(
        validate_fee(-1_000_000, 2374, 0, 25, 500),
        Err(ErrorCode::InvalidFeeAmount)
    );
}

#[test]
fn zero_deposit_rate_accepts_any_fee() {
    assert_eq!(validate_fee(1_000_000, 0, 0, 25, 500), Ok(()));
    assert_eq!(validate_fee(1_000_000, 12345, 0, 25, 500), Ok(()));
    assert_eq!(validate_fee(1, 0, 0, 25, 500), Ok(()));
}

#[test]
fn zero_movement_owes_no_fee() {
    assert_eq!(validate_fee(0, 0, 9999, 9999, 0), Ok(()));
}

#[test]
fn oversized_margin_is_an_arithmetic_error() {
    assert_eq!(
        validate_fee(1_000_000, 2500, 25, 0, 10001),
        Err(ErrorCode::ArithmeticOverflow)
    );
}

#[test]
fn change_endianness_reverses_each_chunk() {
    let mut input = Vec::new();
    for i in 0..64u8 {
        input.push(i);
    }
    let out = change_endianness(&input);
    assert_eq!(out.len(), 64);
    for i in 0..32usize {
        assert_eq!(out[i], (31 - i) as u8);
        assert_eq!(out[32 + i], (63 - i) as u8);
    }
    // A trailing short chunk is reversed in place.
    let out = change_endianness(&[1, 2, 3]);
    assert_eq!(out, vec![3, 2, 1]);
}

#[test]
fn ext_data_hash_matches_manual_serialization() {
    let recipient = [7u8; 32];
    let fee_recipient = [9u8; 32];
    let e1 = vec![1u8, 2, 3];
    let e2 = vec![4u8, 5];
    let h = calculate_complete_ext_data_hash(recipient, -42, &e1, &e2, 11, fee_recipient, SOL_ADDRESS)
        .unwrap();
    // The same borsh-style layout, written by hand.
    let mut bytes = Vec::new();
    bytes.extend_from_slice(&recipient);
    bytes.extend_from_slice(&(-42i64).to_le_bytes());
    bytes.extend_from_slice(&(e1.len() as u32).to_le_bytes());
    bytes.extend_from_slice(&e1);
    bytes.extend_from_slice(&(e2.len() as u32).to_le_bytes());
    bytes.extend_from_slice(&e2);
    bytes.extend_from_slice(&11u64.to_le_bytes());
    bytes.extend_from_slice(&fee_recipient);
    bytes.extend_from_slice(&SOL_ADDRESS);
    let expected = solana_program::hash::hash(&bytes).to_bytes();
    assert_eq!(h, expected);
    assert_ne!(h, [0u8; 32]);
}

#[test]
fn ext_hash_binding_compares_in_the_field() {
    let calc = [3u8; 32];
    // The bound element is the little-endian value of `calc`, reduced.
    let le_value = BigUint::from_bytes_le(&calc) % modulus();
    assert!(ext_hash_matches(&calc, &to_be32(&le_value)));
    let other = (&le_value + 1u32) % modulus();
    assert!(!ext_hash_matches(&calc, &to_be32(&other)));
}

#[test]
fn from_minified_carries_the_native_asset() {
    let ext = ExtData::from_minified([1u8; 32], [2u8; 32], ExtDataMinified {
        ext_amount: -5,
        fee: 3,
    });
    assert_eq!(ext.recipient, [1u8; 32]);
    assert_eq!(ext.fee_recipient, [2u8; 32]);
    assert_eq!(ext.ext_amount, -5);
    assert_eq!(ext.fee, 3);
    assert_eq!(ext.mint_address, SOL_ADDRESS);
}

fn generator_be() -> [u8; 64] {
    // The BN254 G1 generator (1, 2), big-endian coordinates.
    let mut g = [0u8; 64];
    g[31] = 1;
    g[63] = 2;
    g
}

#[test]
fn checked_verification_rejects_input_at_the_modulus() {
    let p_bytes = to_be32(&modulus());
    let mut inputs = [[0u8; 32]; 7];
    inputs[0] = p_bytes;
    let vk = verifying_key();
    let mut verifier =
        Groth16Verifier::new(&generator_be(), &[0u8; 128], &[0u8; 64], &inputs, vk).unwrap();
    assert_eq!(
        verifier.verify(),
        Err(Groth16Error::PublicInputGreaterThanFieldSize)
    );
    // The unchecked path walks past the bound check and fails later,
    // without escaping as a panic.
    let vk = verifying_key();
    let mut verifier =
        Groth16Verifier::new(&generator_be(), &[0u8; 128], &[0u8; 64], &inputs, vk).unwrap();
    assert!(verifier.verify_unchecked().is_err());
}

#[test]
fn prepare_inputs_accumulates_known_answer() {
    // A verifying key whose basis is eight copies of the generator, and a
    // single scalar 1: the accumulated point must be exactly 2G.
    let g = generator_be();
    let vk = txnsfr::groth16::Groth16Verifyingkey {
        nr_pubinputs: 7,
        vk_alpha_g1: [0u8; 64],
        vk_beta_g2: [0u8; 128],
        vk_gamme_g2: [0u8; 128],
        vk_delta_g2: [0u8; 128],
        vk_ic: vec![g, g, g, g, g, g, g, g],
    };
    let mut inputs = [[0u8; 32]; 7];
    inputs[0] = be32_from_u64(1);
    let mut verifier = Groth16Verifier::new(&g, &[0u8; 128], &[0u8; 64], &inputs, vk).unwrap();
    verifier.prepare_inputs(true).unwrap();
    let two_g_x =
        BigUint::parse_bytes(b"030644e72e131a029b85045b68181585d97816a916871ca8d3c208c16d87cfd3", 16)
            .unwrap();
    let two_g_y =
        BigUint::parse_bytes(b"15ed738c0e0a7c92e7845f96b2ae9c0a68a6a449e3538fc7ff3ebf7a5a18a2c4", 16)
            .unwrap();
    let mut expected = [0u8; 64];
    expected[..32].copy_from_slice(&to_be32(&two_g_x));
    expected[32..].copy_from_slice(&to_be32(&two_g_y));
    assert_eq!(verifier.prepared_public_inputs, expected);
}

#[test]
fn verifier_demands_matching_basis_length() {
    let vk = txnsfr::groth16::Groth16Verifyingkey {
        nr_pubinputs: 7,
        vk_alpha_g1: [0u8; 64],
        vk_beta_g2: [0u8; 128],
        vk_gamme_g2: [0u8; 128],
        vk_delta_g2: [0u8; 128],
        vk_ic: vec![[0u8; 64]; 3],
    };
    let inputs = [[0u8; 32]; 7];
    assert_eq!(
        Groth16Verifier::new(&[0u8; 64], &[0u8; 128], &[0u8; 64], &inputs, vk).err(),
        Some(Groth16Error::InvalidPublicInputsLength)
    );
}

#[test]
fn malformed_curve_point_fails_without_panicking() {
    // A garbage first proof point cannot be deserialized: the proof is
    // simply invalid.
    let proof = Proof {
        proof_a: [0xAB; 64],
        proof_b: [0u8; 128],
        proof_c: [0u8; 64],
        root: [0u8; 32],
        public_amount: [0u8; 32],
        ext_data_hash: [0u8; 32],
        input_nullifiers: [[0u8; 32]; 2],
        output_commitments: [[0u8; 32]; 2],
    };
    assert!(!verify_proof(proof, verifying_key()));
    // A well-formed first point with a garbage second one reaches the
    // pairing, which rejects it.
    let proof = Proof {
        proof_a: generator_be(),
        proof_b: [0x11; 128],
        proof_c: [0u8; 64],
        root: be32_from_u64(1),
        public_amount: be32_from_u64(2),
        ext_data_hash: be32_from_u64(3),
        input_nullifiers: [be32_from_u64(4), be32_from_u64(5)],
        output_commitments: [be32_from_u64(6), be32_from_u64(7)],
    };
    assert!(!verify_proof(proof, verifying_key()));
}
