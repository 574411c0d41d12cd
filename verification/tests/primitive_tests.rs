use rollup_circuit::circuit::AuditPath;
use rollup_circuit::circuit::SynthesisError;
use rollup_circuit::circuit::TransactionsBlockCircuit;
use rollup_circuit::curve::point_add;
use rollup_circuit::curve::point_mul;
use rollup_circuit::curve::point_on_curve;
use rollup_circuit::curve::Point;
use rollup_circuit::curve::BASE_X;
use rollup_circuit::curve::BASE_Y;
use rollup_circuit::curve::SUBGROUP_ORDER;
use rollup_circuit::field::add_mod;
use rollup_circuit::field::inv_mod;
use rollup_circuit::field::mul_mod;
use rollup_circuit::field::pow_mod;
use rollup_circuit::field::sub_mod;
use rollup_circuit::field::FIELD_MODULUS;
use rollup_circuit::hash::digest_to_fr;
use rollup_circuit::hash::sha256_digest;
use rollup_circuit::merkle::compute_merkle_root;
use rollup_circuit::merkle::hash_nodes;
use rollup_circuit::sig::compute_challenge;
use rollup_circuit::sig::verify_signature;
use rollup_circuit::encode::push_be32;

fn empty_circuit() -> TransactionsBlockCircuit {
    TransactionsBlockCircuit {
        commitment: None,
        old_storage_root: None,
        fee_address: None,
        block_timestamp: None,
        transactions: Vec::new(),
        storage_audit_paths: Vec::new(),
    }
}

#[test]
fn field_arithmetic_known_values() {
    assert_eq!(add_mod(FIELD_MODULUS - 1, 1), 0);
    assert_eq!(add_mod(3, 4), 7);
    assert_eq!(sub_mod(0, 1), FIELD_MODULUS - 1);
    assert_eq!(mul_mod(1048588, 1048588), 1); // (-1) * (-1)
    assert_eq!(pow_mod(3, 4), 81);
    let x = 123456;
    assert_eq!(mul_mod(x, inv_mod(x)), 1);
    // Fermat: x^(p-1) = 1
    assert_eq!(pow_mod(x, FIELD_MODULUS - 1), 1);
}

#[test]
fn base_point_lies_on_curve_and_has_the_stated_order() {
    let base = Point { x: BASE_X, y: BASE_Y };
    assert!(point_on_curve(&base));
    let id = point_mul(SUBGROUP_ORDER, &base);
    assert_eq!(id, Point { x: 0, y: 1 });
    assert!(point_mul(1, &base) == base);
}

#[test]
fn adding_the_identity_changes_nothing() {
    let base = Point { x: BASE_X, y: BASE_Y };
    let id = Point { x: 0, y: 1 };
    assert_eq!(point_add(&base, &id), base);
    let p = point_mul(12345, &base);
    assert!(point_on_curve(&p));
    assert_eq!(point_add(&p, &id), p);
}

#[test]
fn signature_roundtrip_verifies_and_rejects_other_messages() {
    let base = Point { x: BASE_X, y: BASE_Y };
    let signer: u64 = 42;
    let msg: Vec<u8> = vec![1, 2, 3, 4, 5];
    let k: u64 = 9999;
    let a = point_mul(signer, &base);
    let r = point_mul(k, &base);
    let c = compute_challenge(&r, &a, &msg);
    let s = (k + c * signer) % SUBGROUP_ORDER;
    assert!(verify_signature(&msg, r.x, r.y, s, signer));
    let other: Vec<u8> = vec![1, 2, 3, 4, 6];
    assert!(!verify_signature(&other, r.x, r.y, s, signer));
    assert!(!verify_signature(&msg, r.x, r.y, s, signer + 1));
    assert!(!verify_signature(&msg, r.x, r.y, (s + 1) % SUBGROUP_ORDER, signer));
}

#[test]
fn node_hash_matches_sha256_and_depends_on_order() {
    let h = hash_nodes(1, 2);
    let mut data = vec![0u8; 24];
    data.extend_from_slice(&1u64.to_be_bytes());
    data.extend_from_slice(&[0u8; 24]);
    data.extend_from_slice(&2u64.to_be_bytes());
    let digest = <sha2::Sha256 as sha2::Digest>::digest(&data).to_vec();
    let expected = (((digest[29] & 0x0F) as u64) << 16) | ((digest[30] as u64) << 8)
        | (digest[31] as u64);
    assert_eq!(h, expected);
    assert_ne!(hash_nodes(1, 2), hash_nodes(2, 1));
}

#[test]
fn digest_to_fr_reads_the_low_capacity_bits() {
    let data: Vec<u8> = vec![7, 7, 7];
    let digest = sha256_digest(&data);
    assert_eq!(digest.len(), 32);
    let expected = (((digest[29] & 0x0F) as u64) << 16) | ((digest[30] as u64) << 8)
        | (digest[31] as u64);
    assert_eq!(digest_to_fr(&digest), expected);
    assert!(digest_to_fr(&digest) < FIELD_MODULUS);
}

#[test]
fn push_be32_writes_the_padded_big_endian_encoding() {
    let mut out = Vec::new();
    push_be32(&mut out, 0x0102030405060708);
    let mut expected = vec![0u8; 24];
    expected.extend_from_slice(&[1, 2, 3, 4, 5, 6, 7, 8]);
    assert_eq!(out, expected);
}

#[test]
fn merkle_root_depth_one_places_leaf_by_index_bit() {
    let sibs = vec![5u64];
    assert_eq!(compute_merkle_root(9, &sibs, 0), hash_nodes(9, 5));
    assert_eq!(compute_merkle_root(9, &sibs, 1), hash_nodes(5, 9));
}

#[test]
fn audit_gadget_rejects_wrong_path_length_before_content() {
    let circuit = empty_circuit();
    let path = AuditPath { old_leaf: Some(3), siblings: vec![Some(1), Some(2)] };
    assert_eq!(
        circuit.prove_storage_filling_slot(0, &path, 1, 4),
        Err(SynthesisError::AuditPathLength)
    );
    let garbage = AuditPath { old_leaf: None, siblings: vec![None; 7] };
    assert_eq!(
        circuit.prove_storage_filling_slot(0, &garbage, 1, 4),
        Err(SynthesisError::AuditPathLength)
    );
}

#[test]
fn timing_validator_enforces_strict_bounds() {
    let circuit = empty_circuit();
    assert_eq!(circuit.validate_tx_timestamp(100, 150, 200), Ok(()));
    assert_eq!(
        circuit.validate_tx_timestamp(150, 150, 200),
        Err(SynthesisError::Unsatisfiable)
    );
    assert_eq!(
        circuit.validate_tx_timestamp(100, 200, 200),
        Err(SynthesisError::Unsatisfiable)
    );
    assert_eq!(
        circuit.validate_tx_timestamp(160, 150, 200),
        Err(SynthesisError::Unsatisfiable)
    );
}
