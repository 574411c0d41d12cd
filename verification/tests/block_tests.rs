use rollup_circuit::circuit::AuditPath;
use rollup_circuit::circuit::BlockSummary;
use rollup_circuit::circuit::CircuitTransaction;
use rollup_circuit::circuit::SynthesisError;
use rollup_circuit::circuit::TransactionsBlockCircuit;
use rollup_circuit::commit::compute_commitment;
use rollup_circuit::curve::point_mul;
use rollup_circuit::curve::Point;
use rollup_circuit::curve::BASE_X;
use rollup_circuit::curve::BASE_Y;
use rollup_circuit::curve::SUBGROUP_ORDER;
use rollup_circuit::merkle::hash_nodes;
use rollup_circuit::sig::compute_challenge;
use rollup_circuit::sig::CircuitSignature;

type TxSpec = (u64, u64, u64, u64, u64, u64, u64);

fn be32_bytes(x: u64) -> Vec<u8> {
    let mut v = vec![0u8; 24];
    v.extend_from_slice(&x.to_be_bytes());
    v
}

fn sha(data: &[u8]) -> Vec<u8> {
    <sha2::Sha256 as sha2::Digest>::digest(data).to_vec()
}

fn low_capacity_bits(d: &[u8]) -> u64 {
    (((d[29] & 0x0F) as u64) << 16) | ((d[30] as u64) << 8) | (d[31] as u64)
}

fn tree_root_of(leaves: &[u64]) -> u64 {
    let mut level: Vec<u64> = leaves.to_vec();
    while level.len() > 1 {
        let mut next = Vec::new();
        for pair in level.chunks(2) {
            next.push(hash_nodes(pair[0], pair[1]));
        }
        level = next;
    }
    level[0]
}

fn audit_path_of(leaves: &[u64], index: usize) -> Vec<u64> {
    let mut level: Vec<u64> = leaves.to_vec();
    let mut idx = index;
    let mut sibs = Vec::new();
    while level.len() > 1 {
        sibs.push(level[idx ^ 1]);
        let mut next = Vec::new();
        for pair in level.chunks(2) {
            next.push(hash_nodes(pair[0], pair[1]));
        }
        level = next;
        idx /= 2;
    }
    sibs
}

fn tx_message_bytes(spec: TxSpec) -> Vec<u8> {
    let (from, to, amount, fee, nonce, valid_from, valid_until) = spec;
    let mut msg = Vec::new();
    for v in [from, to, amount, fee, nonce, valid_from, valid_until] {
        msg.extend_from_slice(&be32_bytes(v));
    }
    msg
}

fn tx_public(spec: TxSpec) -> Vec<u8> {
    let (from, to, amount, fee, nonce, _, _) = spec;
    let mut out = Vec::new();
    for v in [from, to, amount, fee, nonce] {
        out.extend_from_slice(&be32_bytes(v));
    }
    out
}

fn new_leaf(old_leaf: u64, spec: TxSpec) -> u64 {
    let mut data = be32_bytes(old_leaf);
    data.extend_from_slice(&tx_public(spec));
    low_capacity_bits(&sha(&data))
}

fn sign(msg: &Vec<u8>, from: u64, k: u64) -> (u64, u64, u64) {
    let base = Point { x: BASE_X, y: BASE_Y };
    let k = k % SUBGROUP_ORDER;
    let a = point_mul(from, &base);
    let r = point_mul(k, &base);
    let c = compute_challenge(&r, &a, msg);
    let s = (k + c * (from % SUBGROUP_ORDER)) % SUBGROUP_ORDER;
    (r.x, r.y, s)
}

fn make_tx(spec: TxSpec, k: u64) -> CircuitTransaction {
    let (from, to, amount, fee, nonce, valid_from, valid_until) = spec;
    let msg = tx_message_bytes(spec);
    let (r_x, r_y, s) = sign(&msg, from, k);
    CircuitTransaction {
        from: Some(from),
        to: Some(to),
        amount: Some(amount),
        fee: Some(fee),
        nonce: Some(nonce),
        valid_from: Some(valid_from),
        valid_until: Some(valid_until),
        signature: CircuitSignature { r_x: Some(r_x), r_y: Some(r_y), s: Some(s) },
    }
}

/// Derive a fully consistent block witness over a fresh depth-4 tree and
/// report the expected final root alongside.
fn build_block(specs: &[TxSpec], block_timestamp: u64, fee_address: u64) -> (TransactionsBlockCircuit, u64) {
    let mut leaves: Vec<u64> = (0..16u64).map(|i| i * 7 + 3).collect();
    let old_root = tree_root_of(&leaves);
    let mut txs = Vec::new();
    let mut paths = Vec::new();
    let mut onchain = Vec::new();
    for (n, &spec) in specs.iter().enumerate() {
        let from = spec.0 as usize;
        let old_leaf = leaves[from];
        let sibs = audit_path_of(&leaves, from);
        txs.push(make_tx(spec, 31337 + 17 * n as u64));
        paths.push(AuditPath {
            old_leaf: Some(old_leaf),
            siblings: sibs.iter().map(|&v| Some(v)).collect(),
        });
        onchain.extend_from_slice(&tx_public(spec));
        leaves[from] = new_leaf(old_leaf, spec);
    }
    let final_root = tree_root_of(&leaves);
    let commitment = compute_commitment(old_root, final_root, fee_address, block_timestamp, &onchain);
    (
        TransactionsBlockCircuit {
            commitment: Some(commitment),
            old_storage_root: Some(old_root),
            fee_address: Some(fee_address),
            block_timestamp: Some(block_timestamp),
            transactions: txs,
            storage_audit_paths: paths,
        },
        final_root,
    )
}

const SCENARIO_TX: TxSpec = (1, 2, 10, 1, 0, 100, 200);

#[test]
fn consistent_single_transaction_block_is_satisfiable() {
    let (circuit, final_root) = build_block(&[SCENARIO_TX], 150, 777);
    let expected_commitment = circuit.commitment.unwrap();
    let summary = circuit.synthesize().unwrap();
    assert_eq!(summary, BlockSummary { final_root, commitment: expected_commitment });
}

#[test]
fn commitment_matches_independent_hash_chain() {
    let (circuit, final_root) = build_block(&[SCENARIO_TX], 150, 777);
    let old_root = circuit.old_storage_root.unwrap();
    let summary = circuit.synthesize().unwrap();
    let mut d1 = be32_bytes(old_root);
    d1.extend_from_slice(&be32_bytes(final_root));
    let h1 = sha(&d1);
    let mut d2 = h1;
    d2.extend_from_slice(&be32_bytes(777));
    let h2 = sha(&d2);
    let mut d3 = h2;
    d3.extend_from_slice(&be32_bytes(150));
    let h3 = sha(&d3);
    let mut d4 = h3;
    d4.extend_from_slice(&tx_public(SCENARIO_TX));
    let h4 = sha(&d4);
    assert_eq!(summary.commitment, low_capacity_bits(&h4));
}

#[test]
fn mutated_amount_without_resigning_is_unsatisfiable() {
    let (mut circuit, _) = build_block(&[SCENARIO_TX], 150, 777);
    circuit.transactions[0].amount = Some(11);
    assert_eq!(circuit.synthesize(), Err(SynthesisError::Unsatisfiable));
}

#[test]
fn mutated_recipient_without_resigning_is_unsatisfiable() {
    let (mut circuit, _) = build_block(&[SCENARIO_TX], 150, 777);
    circuit.transactions[0].to = Some(3);
    assert_eq!(circuit.synthesize(), Err(SynthesisError::Unsatisfiable));
}

#[test]
fn forged_signature_scalar_is_unsatisfiable() {
    let (mut circuit, _) = build_block(&[SCENARIO_TX], 150, 777);
    let s = circuit.transactions[0].signature.s.unwrap();
    circuit.transactions[0].signature.s = Some((s + 1) % SUBGROUP_ORDER);
    assert_eq!(circuit.synthesize(), Err(SynthesisError::Unsatisfiable));
}

#[test]
fn wrong_declared_commitment_is_unsatisfiable() {
    let (mut circuit, _) = build_block(&[SCENARIO_TX], 150, 777);
    let c = circuit.commitment.unwrap();
    circuit.commitment = Some((c + 1) % 1048589);
    assert_eq!(circuit.synthesize(), Err(SynthesisError::Unsatisfiable));
}

#[test]
fn commitment_computation_is_deterministic() {
    let (circuit_a, _) = build_block(&[SCENARIO_TX], 150, 777);
    let (circuit_b, _) = build_block(&[SCENARIO_TX], 150, 777);
    let a = circuit_a.synthesize().unwrap();
    let b = circuit_b.synthesize().unwrap();
    assert_eq!(a.commitment, b.commitment);
    let bytes = tx_public(SCENARIO_TX);
    assert_eq!(
        compute_commitment(5, 6, 7, 8, &bytes),
        compute_commitment(5, 6, 7, 8, &bytes),
    );
}

#[test]
fn swapping_transactions_on_disjoint_accounts_keeps_final_root() {
    let tx_a: TxSpec = (1, 2, 10, 1, 0, 100, 200);
    let tx_b: TxSpec = (4, 5, 20, 1, 0, 100, 200);
    let (c1, root_ab) = build_block(&[tx_a, tx_b], 150, 777);
    let (c2, root_ba) = build_block(&[tx_b, tx_a], 150, 777);
    assert_eq!(root_ab, root_ba);
    let s1 = c1.synthesize().unwrap();
    let s2 = c2.synthesize().unwrap();
    assert_eq!(s1.final_root, s2.final_root);
}

#[test]
fn swapping_transactions_on_the_same_account_changes_final_root() {
    let tx_a: TxSpec = (1, 2, 10, 1, 0, 100, 200);
    let tx_b: TxSpec = (1, 3, 20, 1, 1, 100, 200);
    let (c1, root_ab) = build_block(&[tx_a, tx_b], 150, 777);
    let (c2, root_ba) = build_block(&[tx_b, tx_a], 150, 777);
    assert_ne!(root_ab, root_ba);
    let s1 = c1.synthesize().unwrap();
    let s2 = c2.synthesize().unwrap();
    assert_ne!(s1.final_root, s2.final_root);
}

#[test]
fn window_start_equal_to_timestamp_is_rejected() {
    let tx: TxSpec = (1, 2, 10, 1, 0, 150, 200);
    let (circuit, _) = build_block(&[tx], 150, 777);
    assert_eq!(circuit.synthesize(), Err(SynthesisError::Unsatisfiable));
}

#[test]
fn timestamp_equal_to_window_end_is_rejected() {
    let tx: TxSpec = (1, 2, 10, 1, 0, 100, 150);
    let (circuit, _) = build_block(&[tx], 150, 777);
    assert_eq!(circuit.synthesize(), Err(SynthesisError::Unsatisfiable));
}

#[test]
fn timestamp_strictly_inside_window_is_accepted() {
    let tx: TxSpec = (1, 2, 10, 1, 0, 149, 151);
    let (circuit, _) = build_block(&[tx], 150, 777);
    assert!(circuit.synthesize().is_ok());
}

#[test]
fn short_audit_path_fails_before_constraint_evaluation() {
    let (mut circuit, _) = build_block(&[SCENARIO_TX], 150, 777);
    circuit.storage_audit_paths[0].siblings.truncate(3);
    assert_eq!(circuit.synthesize(), Err(SynthesisError::AuditPathLength));
}

#[test]
fn long_audit_path_fails_whatever_it_holds() {
    let (mut circuit, _) = build_block(&[SCENARIO_TX], 150, 777);
    // garbage content and a forged signature besides: the length alone decides
    circuit.storage_audit_paths[0].siblings = vec![None; 5];
    circuit.transactions[0].signature.s = Some(0);
    assert_eq!(circuit.synthesize(), Err(SynthesisError::AuditPathLength));
}

#[test]
fn transaction_and_path_counts_must_match() {
    let (mut circuit, _) = build_block(&[SCENARIO_TX], 150, 777);
    circuit.storage_audit_paths.pop();
    assert_eq!(circuit.synthesize(), Err(SynthesisError::TransactionCountMismatch));
}

#[test]
fn missing_transaction_field_is_a_shape_error() {
    let (mut circuit, _) = build_block(&[SCENARIO_TX], 150, 777);
    circuit.transactions[0].amount = None;
    assert_eq!(circuit.synthesize(), Err(SynthesisError::AssignmentMissing));
}

#[test]
fn missing_global_witness_is_a_shape_error() {
    let (mut circuit, _) = build_block(&[SCENARIO_TX], 150, 777);
    circuit.block_timestamp = None;
    assert_eq!(circuit.synthesize(), Err(SynthesisError::AssignmentMissing));
}

#[test]
fn wrong_audit_path_content_is_unsatisfiable() {
    let (mut circuit, _) = build_block(&[SCENARIO_TX], 150, 777);
    let sib = circuit.storage_audit_paths[0].siblings[0].unwrap();
    circuit.storage_audit_paths[0].siblings[0] = Some((sib + 1) % 1048589);
    assert_eq!(circuit.synthesize(), Err(SynthesisError::Unsatisfiable));
}

#[test]
fn empty_block_commits_to_unchanged_root() {
    let leaves: Vec<u64> = (0..16u64).map(|i| i * 7 + 3).collect();
    let root = tree_root_of(&leaves);
    let commitment = compute_commitment(root, root, 777, 150, &Vec::new());
    let circuit = TransactionsBlockCircuit {
        commitment: Some(commitment),
        old_storage_root: Some(root),
        fee_address: Some(777),
        block_timestamp: Some(150),
        transactions: Vec::new(),
        storage_audit_paths: Vec::new(),
    };
    let summary = circuit.synthesize().unwrap();
    assert_eq!(summary.final_root, root);
}
