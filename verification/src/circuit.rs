//! The state-transition circuit: per-transaction gadgets threaded over a
//! rolling root and a growing public byte stream, closed by the commitment
//! constraint.

use vstd::prelude::*;
use crate::commit::compute_commitment;
use crate::commit::spec_commitment;
use crate::encode::be32;
use crate::encode::push_be32;
use crate::encode::tx_message;
use crate::encode::tx_public_bytes;
use crate::field::is_fr;
use crate::field::FIELD_MODULUS;
use crate::hash::digest_to_fr;
use crate::hash::fr_of_digest;
use crate::hash::sha256_digest;
use crate::hash::sha256_of;
use crate::merkle::compute_merkle_root;
use crate::merkle::merkle_root;
use crate::merkle::TREE_DEPTH;
use crate::sig::sig_assigned;
use crate::sig::sig_valid;
use crate::sig::verify_signature;
use crate::sig::CircuitSignature;

verus! {

/// How synthesis fails. The first three are witness-shape errors, fatal
/// before any constraint is built; `Unsatisfiable` is the designed rejection
/// of an invalid block, after every constraint has been evaluated.
#[derive(Clone, Copy, PartialEq, Eq, Structural, Debug)]
pub enum SynthesisError {
    TransactionCountMismatch,
    AuditPathLength,
    AssignmentMissing,
    Unsatisfiable,
}

/// A transaction witness: seven field elements and a signature, assigned
/// together or malformed.
pub struct CircuitTransaction {
    pub from: Option<u64>,
    pub to: Option<u64>,
    pub amount: Option<u64>,
    pub fee: Option<u64>,
    pub nonce: Option<u64>,
    pub valid_from: Option<u64>,
    pub valid_until: Option<u64>,
    pub signature: CircuitSignature,
}

/// An audit path for one transaction: the sender's leaf value before the
/// transaction and the sibling digests up to the root, exactly one per tree
/// level.
pub struct AuditPath {
    pub old_leaf: Option<u64>,
    pub siblings: Vec<Option<u64>>,
}

/// What a satisfiable synthesis reports: the last rolling root and the
/// declared commitment it certifies.
#[derive(Clone, Copy, PartialEq, Eq, Structural, Debug)]
pub struct BlockSummary {
    pub final_root: u64,
    pub commitment: u64,
}

/// The block circuit's witnesses: one public commitment, three private
/// block-level fields, and the parallel transaction and audit-path lists.
pub struct TransactionsBlockCircuit {
    pub commitment: Option<u64>,
    pub old_storage_root: Option<u64>,
    pub fee_address: Option<u64>,
    pub block_timestamp: Option<u64>,
    pub transactions: Vec<CircuitTransaction>,
    pub storage_audit_paths: Vec<AuditPath>,
}

pub open spec fn tx_assigned(tx: CircuitTransaction) -> bool {
    &&& tx.from is Some
    &&& tx.to is Some
    &&& tx.amount is Some
    &&& tx.fee is Some
    &&& tx.nonce is Some
    &&& tx.valid_from is Some
    &&& tx.valid_until is Some
    &&& sig_assigned(tx.signature)
}

pub open spec fn path_assigned(path: AuditPath) -> bool {
    &&& path.old_leaf is Some
    &&& forall|k: int| 0 <= k < path.siblings@.len() ==> path.siblings@[k] is Some
}

/// All seven transaction fields are canonical field elements (the range
/// checks of the transaction gadget).
pub open spec fn tx_in_field(tx: CircuitTransaction) -> bool {
    &&& is_fr(tx.from->Some_0)
    &&& is_fr(tx.to->Some_0)
    &&& is_fr(tx.amount->Some_0)
    &&& is_fr(tx.fee->Some_0)
    &&& is_fr(tx.nonce->Some_0)
    &&& is_fr(tx.valid_from->Some_0)
    &&& is_fr(tx.valid_until->Some_0)
}

/// The leaf value and every sibling are canonical field elements.
pub open spec fn path_in_field(path: AuditPath) -> bool {
    &&& is_fr(path.old_leaf->Some_0)
    &&& forall|k: int| 0 <= k < path.siblings@.len() ==> is_fr(path.siblings@[k]->Some_0)
}

pub open spec fn path_siblings(path: AuditPath) -> Seq<u64> {
    path.siblings@.map_values(|o: Option<u64>| o->Some_0)
}

/// The signing message of an assigned transaction.
pub open spec fn tx_msg_of(tx: CircuitTransaction) -> Seq<u8> {
    tx_message(
        tx.from->Some_0,
        tx.to->Some_0,
        tx.amount->Some_0,
        tx.fee->Some_0,
        tx.nonce->Some_0,
        tx.valid_from->Some_0,
        tx.valid_until->Some_0,
    )
}

/// The public byte contribution of an assigned transaction.
pub open spec fn tx_public_of(tx: CircuitTransaction) -> Seq<u8> {
    tx_public_bytes(
        tx.from->Some_0,
        tx.to->Some_0,
        tx.amount->Some_0,
        tx.fee->Some_0,
        tx.nonce->Some_0,
    )
}

/// The sender's leaf after the transaction: the hash of the prior leaf and
/// the transaction's published fields, so the leaf transition is bound to
/// exactly this transaction. The account store derives the same value when
/// it produces the witness.
pub open spec fn new_leaf_of(old_leaf: u64, tx: CircuitTransaction) -> u64 {
    fr_of_digest(sha256_of(be32(old_leaf) + tx_public_of(tx)))
}

/// The audit gadget's meaning: if every path value is a field element and
/// the path proves `old_leaf` under the current root, the result is the
/// root recomputed from `new_leaf` along the same path; otherwise the
/// constraints are unsatisfiable.
pub open spec fn spec_audit(root: u64, path: AuditPath, index: u64, new_leaf: u64) -> Option<
    u64,
> {
    if path_in_field(path) && merkle_root(path.old_leaf->Some_0, path_siblings(path), index as nat)
        == root {
        Some(merkle_root(new_leaf, path_siblings(path), index as nat))
    } else {
        None
    }
}

/// The transaction gadget's meaning over an assigned witness: all range
/// checks, the signature equation, the strict timing bounds, and the audit
/// path must hold; then the gadget yields the new rolling root and the
/// transaction's public bytes.
pub open spec fn spec_process_tx(
    root: u64,
    tx: CircuitTransaction,
    path: AuditPath,
    block_timestamp: u64,
) -> Option<(u64, Seq<u8>)> {
    let audit = spec_audit(root, path, tx.from->Some_0, new_leaf_of(path.old_leaf->Some_0, tx));
    if tx_in_field(tx) && sig_valid(
        tx_msg_of(tx),
        tx.signature.r_x->Some_0,
        tx.signature.r_y->Some_0,
        tx.signature.s->Some_0,
        tx.from->Some_0,
    ) && tx.valid_from->Some_0 < block_timestamp && block_timestamp < tx.valid_until->Some_0
        && audit is Some {
        Some((audit->Some_0, tx_public_of(tx)))
    } else {
        None
    }
}

/// The left-to-right fold of the transaction gadgets: the rolling root is
/// threaded through, the public bytes accumulate in order, and any failing
/// gadget makes the whole block unsatisfiable.
pub open spec fn spec_fold(
    root: u64,
    txs: Seq<CircuitTransaction>,
    paths: Seq<AuditPath>,
    block_timestamp: u64,
) -> Option<(u64, Seq<u8>)>
    decreases txs.len(),
{
    if txs.len() == 0 {
        Some((root, Seq::<u8>::empty()))
    } else {
        match spec_process_tx(root, txs[0], paths[0], block_timestamp) {
            None => None,
            Some((next_root, bytes)) => match spec_fold(
                next_root,
                txs.skip(1),
                paths.skip(1),
                block_timestamp,
            ) {
                None => None,
                Some((final_root, rest)) => Some((final_root, bytes + rest)),
            },
        }
    }
}

impl TransactionsBlockCircuit {
    pub open spec fn counts_ok(self) -> bool {
        self.transactions@.len() == self.storage_audit_paths@.len()
    }

    pub open spec fn globals_assigned(self) -> bool {
        &&& self.commitment is Some
        &&& self.old_storage_root is Some
        &&& self.fee_address is Some
        &&& self.block_timestamp is Some
    }

    pub open spec fn paths_len_ok(self) -> bool {
        forall|k: int|
            0 <= k < self.storage_audit_paths@.len()
                ==> self.storage_audit_paths@[k].siblings@.len() == TREE_DEPTH
    }

    pub open spec fn witnesses_assigned(self) -> bool {
        &&& forall|k: int|
            0 <= k < self.transactions@.len() ==> tx_assigned(self.transactions@[k])
        &&& forall|k: int|
            0 <= k < self.storage_audit_paths@.len() ==> path_assigned(
                self.storage_audit_paths@[k],
            )
    }

    /// No witness-shape error: counts match, everything is assigned, every
    /// path has exactly the configured depth.
    pub open spec fn shape_ok(self) -> bool {
        self.counts_ok() && self.globals_assigned() && self.paths_len_ok()
            && self.witnesses_assigned()
    }

    /// The block-level range checks.
    pub open spec fn globals_in_field(self) -> bool {
        is_fr(self.old_storage_root->Some_0) && is_fr(self.fee_address->Some_0) && is_fr(
            self.block_timestamp->Some_0,
        )
    }

    /// Whether the constraint system over this witness is satisfiable: the
    /// fold of all transaction gadgets succeeds and the declared commitment
    /// equals the hash chain over the public data.
    pub open spec fn spec_satisfiable(self) -> bool {
        self.globals_in_field() && match spec_fold(
            self.old_storage_root->Some_0,
            self.transactions@,
            self.storage_audit_paths@,
            self.block_timestamp->Some_0,
        ) {
            None => false,
            Some((final_root, bytes)) => self.commitment->Some_0 == spec_commitment(
                self.old_storage_root->Some_0,
                final_root,
                self.fee_address->Some_0,
                self.block_timestamp->Some_0,
                bytes,
            ),
        }
    }

    /// The last rolling root of a satisfiable block (zero when the fold
    /// fails; only meaningful under `spec_satisfiable`).
    pub open spec fn spec_final_root(self) -> u64 {
        match spec_fold(
            self.old_storage_root->Some_0,
            self.transactions@,
            self.storage_audit_paths@,
            self.block_timestamp->Some_0,
        ) {
            None => 0u64,
            Some((final_root, bytes)) => final_root,
        }
    }

    /// The timing validator: both validity-window bounds must hold strictly
    /// against the block timestamp; equality on either bound is a violation.
    pub fn validate_tx_timestamp(
        &self,
        valid_from: u64,
        block_timestamp: u64,
        valid_until: u64,
    ) -> (r: Result<(), SynthesisError>)
        ensures
            r == if valid_from < block_timestamp && block_timestamp < valid_until {
                Result::<(), SynthesisError>::Ok(())
            } else {
                Result::<(), SynthesisError>::Err(SynthesisError::Unsatisfiable)
            },
    {
        if valid_from < block_timestamp && block_timestamp < valid_until {
            Ok(())
        } else {
            Err(SynthesisError::Unsatisfiable)
        }
    }

    /// The signature gadget: an unassigned signature is a witness-shape
    /// error; an assigned one satisfies the gadget exactly when the
    /// verification equation holds for the sender's authorized key.
    pub fn check_user_signature(
        &self,
        message: &Vec<u8>,
        signature: &CircuitSignature,
        signer: u64,
    ) -> (r: Result<(), SynthesisError>)
        ensures
            !sig_assigned(*signature) ==> r == Result::<(), SynthesisError>::Err(
                SynthesisError::AssignmentMissing,
            ),
            sig_assigned(*signature) ==> r == if sig_valid(
                message@,
                signature.r_x->Some_0,
                signature.r_y->Some_0,
                signature.s->Some_0,
                signer,
            ) {
                Result::<(), SynthesisError>::Ok(())
            } else {
                Result::<(), SynthesisError>::Err(SynthesisError::Unsatisfiable)
            },
    {
        let (r_x, r_y, s) = match (signature.r_x, signature.r_y, signature.s) {
            (Some(r_x), Some(r_y), Some(s)) => (r_x, r_y, s),
            _ => {
                return Err(SynthesisError::AssignmentMissing);
            },
        };
        if verify_signature(message, r_x, r_y, s, signer) {
            Ok(())
        } else {
            Err(SynthesisError::Unsatisfiable)
        }
    }

    /// The Merkle audit gadget: verifies the sender's old leaf under the
    /// rolling root and recomputes the root with the new leaf along the same
    /// sibling path. A path of the wrong length fails before any constraint
    /// is evaluated, whatever it holds.
    #[verifier::loop_isolation(false)]
    pub fn prove_storage_filling_slot(
        &self,
        root_hash: u64,
        storage_audit_path: &AuditPath,
        leaf_index: u64,
        new_leaf: u64,
    ) -> (r: Result<u64, SynthesisError>)
        requires
            is_fr(new_leaf),
        ensures
            storage_audit_path.siblings@.len() != TREE_DEPTH ==> r == Result::<
                u64,
                SynthesisError,
            >::Err(SynthesisError::AuditPathLength),
            storage_audit_path.siblings@.len() == TREE_DEPTH && !path_assigned(
                *storage_audit_path,
            ) ==> r == Result::<u64, SynthesisError>::Err(SynthesisError::AssignmentMissing),
            storage_audit_path.siblings@.len() == TREE_DEPTH && path_assigned(*storage_audit_path)
                ==> r == match spec_audit(root_hash, *storage_audit_path, leaf_index, new_leaf) {
                Some(new_root) => Result::<u64, SynthesisError>::Ok(new_root),
                None => Result::<u64, SynthesisError>::Err(SynthesisError::Unsatisfiable),
            },
            r is Ok ==> is_fr(r->Ok_0),
    {
        if storage_audit_path.siblings.len() != TREE_DEPTH {
            return Err(SynthesisError::AuditPathLength);
        }
        let old_leaf = match storage_audit_path.old_leaf {
            Some(v) => v,
            None => {
                return Err(SynthesisError::AssignmentMissing);
            },
        };
        let mut sibs: Vec<u64> = Vec::new();
        let mut i: usize = 0;
        while i < storage_audit_path.siblings.len()
            invariant
                i <= storage_audit_path.siblings@.len(),
                sibs@ == path_siblings(*storage_audit_path).take(i as int),
                forall|k: int| 0 <= k < i ==> storage_audit_path.siblings@[k] is Some,
            decreases storage_audit_path.siblings@.len() - i,
        {
            let sib = match storage_audit_path.siblings[i] {
                Some(v) => v,
                None => {
                    return Err(SynthesisError::AssignmentMissing);
                },
            };
            proof {
                assert(path_siblings(*storage_audit_path).take(i + 1) =~= path_siblings(
                    *storage_audit_path,
                ).take(i as int).push(sib));
            }
            sibs.push(sib);
            i = i + 1;
        }
        proof {
            assert(sibs@ =~= path_siblings(*storage_audit_path));
        }
        if old_leaf >= FIELD_MODULUS {
            return Err(SynthesisError::Unsatisfiable);
        }
        let mut j: usize = 0;
        while j < sibs.len()
            invariant
                j <= sibs@.len(),
                sibs@ == path_siblings(*storage_audit_path),
                forall|k: int| 0 <= k < j ==> is_fr(sibs@[k]),
            decreases sibs@.len() - j,
        {
            if sibs[j] >= FIELD_MODULUS {
                return Err(SynthesisError::Unsatisfiable);
            }
            j = j + 1;
        }
        proof {
            assert forall|k: int|
                0 <= k < storage_audit_path.siblings@.len() implies is_fr(
                storage_audit_path.siblings@[k]->Some_0,
            ) by {
                assert(path_siblings(*storage_audit_path)[k] == storage_audit_path.siblings@[
                    k
                ]->Some_0);
                assert(is_fr(sibs@[k]));
            }
            assert(path_in_field(*storage_audit_path));
        }
        let recomputed = compute_merkle_root(old_leaf, &sibs, leaf_index);
        if recomputed != root_hash {
            return Err(SynthesisError::Unsatisfiable);
        }
        Ok(compute_merkle_root(new_leaf, &sibs, leaf_index))
    }

    /// The transaction gadget: decodes the seven fields, checks the
    /// signature over their canonical encoding, audits and updates the
    /// rolling root, enforces the validity window, and appends the five
    /// published fields to the public byte stream.
    #[verifier::loop_isolation(false)]
    pub fn process_transaction(
        &self,
        onchain_data: &mut Vec<u8>,
        root_hash: u64,
        tx: &CircuitTransaction,
        block_timestamp: u64,
        storage_audit_path: &AuditPath,
    ) -> (r: Result<u64, SynthesisError>)
        ensures
            storage_audit_path.siblings@.len() != TREE_DEPTH ==> r == Result::<
                u64,
                SynthesisError,
            >::Err(SynthesisError::AuditPathLength) && final(onchain_data)@ == old(onchain_data)@,
            storage_audit_path.siblings@.len() == TREE_DEPTH && !(tx_assigned(*tx)
                && path_assigned(*storage_audit_path)) ==> r == Result::<u64, SynthesisError>::Err(
                SynthesisError::AssignmentMissing,
            ) && final(onchain_data)@ == old(onchain_data)@,
            storage_audit_path.siblings@.len() == TREE_DEPTH && tx_assigned(*tx) && path_assigned(
                *storage_audit_path,
            ) ==> match spec_process_tx(root_hash, *tx, *storage_audit_path, block_timestamp) {
                Some((new_root, bytes)) => r == Result::<u64, SynthesisError>::Ok(new_root)
                    && final(onchain_data)@ == old(onchain_data)@ + bytes && is_fr(new_root),
                None => r == Result::<u64, SynthesisError>::Err(SynthesisError::Unsatisfiable)
                    && final(onchain_data)@ == old(onchain_data)@,
            },
    {
        let ghost base = onchain_data@;
        if storage_audit_path.siblings.len() != TREE_DEPTH {
            return Err(SynthesisError::AuditPathLength);
        }
        let (from, to, amount, fee, nonce) = match (tx.from, tx.to, tx.amount, tx.fee, tx.nonce) {
            (Some(a), Some(b), Some(c), Some(d), Some(e)) => (a, b, c, d, e),
            _ => {
                return Err(SynthesisError::AssignmentMissing);
            },
        };
        let (valid_from, valid_until) = match (tx.valid_from, tx.valid_until) {
            (Some(a), Some(b)) => (a, b),
            _ => {
                return Err(SynthesisError::AssignmentMissing);
            },
        };
        if !(tx.signature.r_x.is_some() && tx.signature.r_y.is_some() && tx.signature.s.is_some())
        {
            return Err(SynthesisError::AssignmentMissing);
        }
        if storage_audit_path.old_leaf.is_none() {
            return Err(SynthesisError::AssignmentMissing);
        }
        let mut i: usize = 0;
        while i < storage_audit_path.siblings.len()
            invariant
                i <= storage_audit_path.siblings@.len(),
                forall|k: int| 0 <= k < i ==> storage_audit_path.siblings@[k] is Some,
            decreases storage_audit_path.siblings@.len() - i,
        {
            if storage_audit_path.siblings[i].is_none() {
                return Err(SynthesisError::AssignmentMissing);
            }
            i = i + 1;
        }
        if from >= FIELD_MODULUS || to >= FIELD_MODULUS || amount >= FIELD_MODULUS || fee
            >= FIELD_MODULUS || nonce >= FIELD_MODULUS || valid_from >= FIELD_MODULUS
            || valid_until >= FIELD_MODULUS {
            return Err(SynthesisError::Unsatisfiable);
        }
        let mut message: Vec<u8> = Vec::new();
        push_be32(&mut message, from);
        push_be32(&mut message, to);
        push_be32(&mut message, amount);
        push_be32(&mut message, fee);
        push_be32(&mut message, nonce);
        push_be32(&mut message, valid_from);
        push_be32(&mut message, valid_until);
        proof {
            assert(message@ =~= tx_msg_of(*tx));
        }
        if let Err(_) = self.check_user_signature(&message, &tx.signature, from) {
            return Err(SynthesisError::Unsatisfiable);
        }
        if let Err(_) = self.validate_tx_timestamp(valid_from, block_timestamp, valid_until) {
            return Err(SynthesisError::Unsatisfiable);
        }
        let old_leaf = match storage_audit_path.old_leaf {
            Some(v) => v,
            None => {
                return Err(SynthesisError::AssignmentMissing);
            },
        };
        let mut leaf_data: Vec<u8> = Vec::new();
        push_be32(&mut leaf_data, old_leaf);
        push_be32(&mut leaf_data, from);
        push_be32(&mut leaf_data, to);
        push_be32(&mut leaf_data, amount);
        push_be32(&mut leaf_data, fee);
        push_be32(&mut leaf_data, nonce);
        proof {
            assert(leaf_data@ =~= be32(old_leaf) + tx_public_of(*tx));
        }
        let leaf_digest = sha256_digest(&leaf_data);
        let new_leaf = digest_to_fr(&leaf_digest);
        proof {
            assert(new_leaf == new_leaf_of(old_leaf, *tx));
        }
        let new_root = match self.prove_storage_filling_slot(
            root_hash,
            storage_audit_path,
            from,
            new_leaf,
        ) {
            Ok(v) => v,
            Err(_) => {
                return Err(SynthesisError::Unsatisfiable);
            },
        };
        push_be32(onchain_data, from);
        push_be32(onchain_data, to);
        push_be32(onchain_data, amount);
        push_be32(onchain_data, fee);
        push_be32(onchain_data, nonce);
        proof {
            assert(onchain_data@ =~= base + tx_public_of(*tx));
        }
        Ok(new_root)
    }

    /// The state-transition circuit: the commitment is the sole public
    /// input; the transaction gadgets are folded left-to-right over the
    /// rolling root and the public byte stream; the hash chain over the
    /// accumulated public data is constrained equal to the declared
    /// commitment. Witness-shape errors are fatal before any constraint is
    /// evaluated; an invalid block is reported unsatisfiable.
    #[verifier::loop_isolation(false)]
    pub fn synthesize(&self) -> (r: Result<BlockSummary, SynthesisError>)
        ensures
            !self.counts_ok() ==> r == Result::<BlockSummary, SynthesisError>::Err(
                SynthesisError::TransactionCountMismatch,
            ),
            self.counts_ok() && !self.globals_assigned() ==> r == Result::<
                BlockSummary,
                SynthesisError,
            >::Err(SynthesisError::AssignmentMissing),
            self.counts_ok() && self.globals_assigned() && !self.paths_len_ok() ==> r == Result::<
                BlockSummary,
                SynthesisError,
            >::Err(SynthesisError::AuditPathLength),
            self.counts_ok() && self.globals_assigned() && self.paths_len_ok()
                && !self.witnesses_assigned() ==> r == Result::<BlockSummary, SynthesisError>::Err(
                SynthesisError::AssignmentMissing,
            ),
            self.shape_ok() ==> (r is Ok <==> self.spec_satisfiable()),
            self.shape_ok() && self.spec_satisfiable() ==> r == Result::<
                BlockSummary,
                SynthesisError,
            >::Ok(
                BlockSummary {
                    final_root: self.spec_final_root(),
                    commitment: self.commitment->Some_0,
                },
            ),
            self.shape_ok() && !self.spec_satisfiable() ==> r == Result::<
                BlockSummary,
                SynthesisError,
            >::Err(SynthesisError::Unsatisfiable),
    {
        if self.transactions.len() != self.storage_audit_paths.len() {
            return Err(SynthesisError::TransactionCountMismatch);
        }
        let commitment = match self.commitment {
            Some(v) => v,
            None => {
                return Err(SynthesisError::AssignmentMissing);
            },
        };
        let old_root = match self.old_storage_root {
            Some(v) => v,
            None => {
                return Err(SynthesisError::AssignmentMissing);
            },
        };
        let fee_address = match self.fee_address {
            Some(v) => v,
            None => {
                return Err(SynthesisError::AssignmentMissing);
            },
        };
        let block_timestamp = match self.block_timestamp {
            Some(v) => v,
            None => {
                return Err(SynthesisError::AssignmentMissing);
            },
        };
        let mut k: usize = 0;
        while k < self.storage_audit_paths.len()
            invariant
                k <= self.storage_audit_paths@.len(),
                forall|m: int|
                    0 <= m < k ==> self.storage_audit_paths@[m].siblings@.len() == TREE_DEPTH,
            decreases self.storage_audit_paths@.len() - k,
        {
            if self.storage_audit_paths[k].siblings.len() != TREE_DEPTH {
                return Err(SynthesisError::AuditPathLength);
            }
            k = k + 1;
        }
        let mut k: usize = 0;
        while k < self.transactions.len()
            invariant
                k <= self.transactions@.len(),
                forall|m: int|
                    0 <= m < k ==> tx_assigned(self.transactions@[m]) && path_assigned(
                        self.storage_audit_paths@[m],
                    ),
            decreases self.transactions@.len() - k,
        {
            let tx = &self.transactions[k];
            if !(tx.from.is_some() && tx.to.is_some() && tx.amount.is_some() && tx.fee.is_some()
                && tx.nonce.is_some() && tx.valid_from.is_some() && tx.valid_until.is_some()
                && tx.signature.r_x.is_some() && tx.signature.r_y.is_some()
                && tx.signature.s.is_some()) {
                return Err(SynthesisError::AssignmentMissing);
            }
            let path = &self.storage_audit_paths[k];
            if path.old_leaf.is_none() {
                return Err(SynthesisError::AssignmentMissing);
            }
            let mut j: usize = 0;
            while j < path.siblings.len()
                invariant
                    j <= path.siblings@.len(),
                    forall|q: int| 0 <= q < j ==> path.siblings@[q] is Some,
                decreases path.siblings@.len() - j,
            {
                if path.siblings[j].is_none() {
                    return Err(SynthesisError::AssignmentMissing);
                }
                j = j + 1;
            }
            k = k + 1;
        }
        if old_root >= FIELD_MODULUS || fee_address >= FIELD_MODULUS || block_timestamp
            >= FIELD_MODULUS {
            return Err(SynthesisError::Unsatisfiable);
        }
        let ghost txs = self.transactions@;
        let ghost paths = self.storage_audit_paths@;
        let ghost full = spec_fold(old_root, txs, paths, block_timestamp);
        let mut onchain_data: Vec<u8> = Vec::new();
        let mut cur_root = old_root;
        let mut i: usize = 0;
        proof {
            assert(txs.skip(0) =~= txs);
            assert(paths.skip(0) =~= paths);
        }
        while i < self.transactions.len()
            invariant
                i <= txs.len(),
                full == match spec_fold(
                    cur_root,
                    txs.skip(i as int),
                    paths.skip(i as int),
                    block_timestamp,
                ) {
                    None => None::<(u64, Seq<u8>)>,
                    Some((final_root, rest)) => Some((final_root, onchain_data@ + rest)),
                },
            decreases txs.len() - i,
        {
            let tx = &self.transactions[i];
            let path = &self.storage_audit_paths[i];
            proof {
                assert(txs.skip(i as int)[0] == txs[i as int]);
                assert(paths.skip(i as int)[0] == paths[i as int]);
                assert(txs.skip(i as int).skip(1) =~= txs.skip(i as int + 1));
                assert(paths.skip(i as int).skip(1) =~= paths.skip(i as int + 1));
            }
            let ghost pre_bytes = onchain_data@;
            let ghost root_in = cur_root;
            match self.process_transaction(
                &mut onchain_data,
                cur_root,
                tx,
                block_timestamp,
                path,
            ) {
                Ok(next_root) => {
                    proof {
                        let step = spec_process_tx(
                            root_in,
                            txs[i as int],
                            paths[i as int],
                            block_timestamp,
                        );
                        let tail = spec_fold(
                            next_root,
                            txs.skip(i as int + 1),
                            paths.skip(i as int + 1),
                            block_timestamp,
                        );
                        if tail is Some {
                            assert(pre_bytes + (step->Some_0.1 + tail->Some_0.1) =~= onchain_data@
                                + tail->Some_0.1);
                        }
                    }
                    cur_root = next_root;
                },
                Err(_) => {
                    return Err(SynthesisError::Unsatisfiable);
                },
            }
            i = i + 1;
        }
        proof {
            assert(txs.skip(txs.len() as int) =~= Seq::<CircuitTransaction>::empty());
            assert(onchain_data@ + Seq::<u8>::empty() =~= onchain_data@);
            assert(full == Some((cur_root, onchain_data@)));
        }
        let computed = compute_commitment(
            old_root,
            cur_root,
            fee_address,
            block_timestamp,
            &onchain_data,
        );
        if computed == commitment {
            Ok(BlockSummary { final_root: cur_root, commitment })
        } else {
            Err(SynthesisError::Unsatisfiable)
        }
    }
}

} // verus!
