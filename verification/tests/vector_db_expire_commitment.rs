//! Commitment registry: expire_commitment.

#![allow(unused_imports, dead_code)]

use arthneura_core::agent_registry::{AgentProfile, AgentRegistry, AgentStatus, QuantumScheme, RegistryConfig};
use arthneura_core::ledger::{Chain, Ledger};
use arthneura_core::merkle::Blake2bHasher;
use arthneura_core::runtime::AgentRegistryAdapter;
use arthneura_core::types::{Did, DispatchError, Origin};
use arthneura_core::vector_db::{
    ChunkIndex, CommitmentId, CommitmentStatus, DisputeRecord, DisputeVerdict, MerkleRoot, Penalty,
    StreamReceipt, VectorCommitment, VectorDb, VectorDbConfig, VectorDbError, VectorDbEvent,
    MAX_CHUNK_LEN, MAX_METADATA_LEN, MAX_PROOF_DEPTH,
};
use parity_scale_codec::Encode;
use rs_merkle::{Hasher, MerkleTree};

// ── Test chain: block clock, identities and the commitment registry ────────

#[derive(Clone, Debug, PartialEq, Eq)]
struct Env {
    chain: Chain,
    ledger: Ledger,
    reg: AgentRegistry,
    db: VectorDb,
    /// Reputation penalties handed out, in order: (DID, "provider" or
    /// "false_disputer").
    penalties: Vec<([u8; 32], &'static str)>,
}

/// Block 1; dispute window 10 blocks, longest lifetime 1,000 blocks,
/// slashes of 5 (guilty provider) and 2 (refuted consumer).
fn new_test_ext() -> Env {
    let mut chain = Chain::new([69u8; 32]);
    chain.set_block_number(1);
    let mut ledger = Ledger::new();
    for acc in 1u64..=3u64 {
        ledger.set_free_balance(acc, 1_000_000u64);
    }
    let reg = AgentRegistry::new(RegistryConfig {
        star_cooldown: 10,
        registration_deposit: 100,
        strike_threshold: 3,
        deposit_slash_per_strike: 20,
    });
    let db = VectorDb::new(VectorDbConfig {
        dispute_window: 10,
        max_commitment_lifetime: 1_000,
        provider_guilty_slash: 5,
        false_dispute_slash: 2,
    });
    Env { chain, ledger, reg, db, penalties: Vec::new() }
}

fn vdb_error(e: VectorDbError) -> DispatchError {
    DispatchError::VectorDb(e)
}

impl Env {
    fn block_number(&self) -> u64 {
        self.chain.block_number()
    }

    fn set_block_number(&mut self, n: u64) {
        self.chain.set_block_number(n)
    }

    fn events(&self) -> Vec<VectorDbEvent> {
        self.db.events().clone()
    }

    fn last_event(&self) -> Option<VectorDbEvent> {
        self.db.last_event()
    }

    fn reset_events(&mut self) {
        self.db.reset_events()
    }

    /// An identity with the given controller; `active_verified == false`
    /// stands for a suspended, revoked or unverified agent.
    fn register_test_agent(&mut self, did: [u8; 32], controller: u64, active_verified: bool) {
        let registered_at = self.chain.block_number();
        self.reg.insert_profile(AgentProfile {
            did,
            controller,
            capabilities: 0,
            reputation_score: 0,
            status: AgentStatus::Active,
            registered_at,
            is_verified: active_verified,
            quantum_scheme: QuantumScheme::MlDsa65,
            metadata: Vec::new(),
            label: Vec::new(),
        });
    }

    fn record(&mut self, r: Result<Penalty, DispatchError>) -> Result<(), DispatchError> {
        match r {
            Ok(Penalty::PenalizeProvider(did)) => {
                self.penalties.push((did, "provider"));
                Ok(())
            }
            Ok(Penalty::PenalizeFalseDisputer(did)) => {
                self.penalties.push((did, "false_disputer"));
                Ok(())
            }
            Err(e) => Err(e),
        }
    }

    fn reputation_calls(&self) -> Vec<([u8; 32], &'static str)> {
        self.penalties.clone()
    }

    fn register_commitment(
        &mut self,
        origin: Origin,
        provider_did: Did,
        consumer_did: Did,
        merkle_root: MerkleRoot,
        total_chunks: u64,
        metadata: Vec<u8>,
        expires_in_blocks: u64,
    ) -> Result<(), DispatchError> {
        let lookup = AgentRegistryAdapter { registry: &self.reg };
        self.db.register_commitment(
            &self.chain,
            &lookup,
            origin,
            provider_did,
            consumer_did,
            merkle_root,
            total_chunks,
            metadata,
            expires_in_blocks,
        )
    }

    fn acknowledge_commitment(&mut self, origin: Origin, id: CommitmentId, consumer_did: Did) -> Result<(), DispatchError> {
        let lookup = AgentRegistryAdapter { registry: &self.reg };
        self.db.acknowledge_commitment(&self.chain, &lookup, origin, id, consumer_did)
    }

    fn close_commitment(
        &mut self,
        origin: Origin,
        id: CommitmentId,
        consumer_did: Did,
        final_stream_hash: MerkleRoot,
        chunk_count: u64,
    ) -> Result<(), DispatchError> {
        let lookup = AgentRegistryAdapter { registry: &self.reg };
        self.db.close_commitment(&self.chain, &lookup, origin, id, consumer_did, final_stream_hash, chunk_count)
    }

    fn raise_dispute(
        &mut self,
        origin: Origin,
        id: CommitmentId,
        consumer_did: Did,
        disputed_chunk_index: u64,
        received_chunk_hash: [u8; 32],
        chunk_count: u64,
    ) -> Result<(), DispatchError> {
        let lookup = AgentRegistryAdapter { registry: &self.reg };
        self.db.raise_dispute(
            &self.chain,
            &lookup,
            origin,
            id,
            consumer_did,
            disputed_chunk_index,
            received_chunk_hash,
            chunk_count,
        )
    }

    fn counter_dispute(
        &mut self,
        origin: Origin,
        id: CommitmentId,
        provider_did: Did,
        chunk_data: Vec<u8>,
        merkle_proof: Vec<[u8; 32]>,
    ) -> Result<(), DispatchError> {
        let lookup = AgentRegistryAdapter { registry: &self.reg };
        let r = self.db.counter_dispute(&self.chain, &lookup, origin, id, provider_did, chunk_data, merkle_proof);
        self.record(r)
    }

    fn finalize_dispute(&mut self, origin: Origin, id: CommitmentId) -> Result<(), DispatchError> {
        let r = self.db.finalize_dispute(&self.chain, origin, id);
        self.record(r)
    }

    fn expire_commitment(&mut self, origin: Origin, id: CommitmentId) -> Result<(), DispatchError> {
        self.db.expire_commitment(&self.chain, origin, id)
    }

    fn vector_commitment(&self, id: CommitmentId) -> Option<VectorCommitment> {
        self.db.vector_commitment(&id).cloned()
    }

    fn dispute_record(&self, id: CommitmentId) -> Option<DisputeRecord> {
        self.db.dispute_record(&id)
    }

    fn stream_receipt(&self, id: CommitmentId) -> Option<StreamReceipt> {
        self.db.stream_receipt(&id)
    }

    fn active_commitment_count(&self) -> u32 {
        self.db.active_commitment_count()
    }

    /// The call fails with `e` and leaves every piece of state untouched.
    fn assert_noop<F: FnOnce(&mut Env) -> Result<(), DispatchError>>(&mut self, f: F, e: DispatchError) {
        let before = self.clone();
        let r = f(self);
        assert_eq!(r, Err(e));
        assert_eq!(*self, before);
    }
}

/// A DID whose first byte is `n`, the rest zero.
fn test_did(n: u8) -> [u8; 32] {
    let mut did = [0u8; 32];
    did[0] = n;
    did
}

/// A Merkle root for index `n`: `blake2_256([n; 64])`.
fn test_vector_hash(n: u8) -> MerkleRoot {
    sp_crypto_hashing::blake2_256(&[n; 64])
}

fn metadata() -> Vec<u8> {
    b"test-schema-v1".to_vec()
}

/// `blake2_256("ArthNeura-Vector-v1" ++ provider ++ consumer ++ root ++
/// SCALE(block))`, computed independently of the library.
fn derive_commitment_id(provider: [u8; 32], consumer: [u8; 32], vector_hash: MerkleRoot, created_at_block: u64) -> CommitmentId {
    let mut preimage = b"ArthNeura-Vector-v1".to_vec();
    preimage.extend_from_slice(&provider);
    preimage.extend_from_slice(&consumer);
    preimage.extend_from_slice(&vector_hash);
    preimage.extend_from_slice(&created_at_block.encode());
    sp_crypto_hashing::blake2_256(&preimage)
}

// Standard test suite verifying invariants of the `expire_commitment` extrinsic.


// --- Shared Fixture Helpers ---

/// Provisions a valid, active, and verified provider-consumer agent pair.
/// Provider controller is account 1, Consumer controller is account 2.
fn setup_valid_pair(t: &mut Env) -> ([u8; 32], [u8; 32]) {
    let p = test_did(1);
    let c = test_did(2);
    t.register_test_agent(p, 1, true);
    t.register_test_agent(c, 2, true);
    (p, c)
}

/// Registers a commitment and leaves it in `Pending` state.
fn setup_pending_commitment(t: &mut Env, expires_in_blocks: u64) -> [u8; 32] {
    let (p, c) = setup_valid_pair(t);
    let root = test_vector_hash(1);
    let block = t.block_number();

    assert_eq!(t.register_commitment(
        Origin::Signed(1),
        p,
        c,
        root,
        10u64,
        metadata(),
        expires_in_blocks,
    ), Ok(()));
    derive_commitment_id(p, c, root, block)
}

/// Registers and acknowledges a commitment, leaving it in `Active` state.
fn setup_active_commitment(t: &mut Env, expires_in_blocks: u64) -> [u8; 32] {
    let (p, c) = setup_valid_pair(t);
    let root = test_vector_hash(1);
    let block = t.block_number();

    assert_eq!(t.register_commitment(
        Origin::Signed(1),
        p,
        c,
        root,
        10u64,
        metadata(),
        expires_in_blocks,
    ), Ok(()));
    let cid = derive_commitment_id(p, c, root, block);
    assert_eq!(t.acknowledge_commitment(
        Origin::Signed(2),
        cid,
        c,
    ), Ok(()));
    cid
}

// --- 1. Happy-Path: Pending Expiry ---

#[test]
fn expire_commitment_happy_path_pending_succeeds() {
    let t = &mut new_test_ext();
        let cid = setup_pending_commitment(t, 10u64);

        t.set_block_number(11);
        assert_eq!(t.expire_commitment(Origin::Signed(1), cid), Ok(()));

}

// --- 2. Happy-Path: Active Expiry ---

#[test]
fn expire_commitment_happy_path_active_succeeds() {
    let t = &mut new_test_ext();
        let cid = setup_active_commitment(t, 10u64);

        t.set_block_number(11);
        assert_eq!(t.expire_commitment(Origin::Signed(1), cid), Ok(()));

}

// --- 3. Complete Storage Removal Verification ---

#[test]
fn expire_commitment_fully_removes_storage_entry() {
    let t = &mut new_test_ext();
        let cid = setup_pending_commitment(t, 10u64);

        t.set_block_number(11);
        assert_eq!(t.expire_commitment(Origin::Signed(1), cid), Ok(()));

        assert!(
            t.vector_commitment(cid).is_none(),
            "expire_commitment must fully purge the VectorCommitments entry"
        );

}

// --- 4. Event Emission Verification ---

#[test]
fn expire_commitment_emits_correct_event() {
    let t = &mut new_test_ext();
        let cid = setup_pending_commitment(t, 10u64);

        t.set_block_number(11);
        assert_eq!(t.expire_commitment(Origin::Signed(1), cid), Ok(()));

        assert_eq!(t.last_event(), Some((VectorDbEvent::CommitmentExpired {
            commitment_id: cid,
        })));

}

// --- 5. Event Uniqueness Verification ---

#[test]
fn expire_commitment_only_one_event_on_success() {
    let t = &mut new_test_ext();
        let cid = setup_pending_commitment(t, 10u64);
        t.set_block_number(11);
        t.reset_events();

        assert_eq!(t.expire_commitment(Origin::Signed(1), cid), Ok(()));

        assert_eq!(t.events().len(), 1);

}

// --- 6. Active Commitment Counter Decrement ---

#[test]
fn expire_commitment_decrements_active_commitment_count() {
    let t = &mut new_test_ext();
        let cid = setup_pending_commitment(t, 10u64);
        assert_eq!(t.active_commitment_count(), 1);

        t.set_block_number(11);
        assert_eq!(t.expire_commitment(Origin::Signed(1), cid), Ok(()));

        assert_eq!(t.active_commitment_count(), 0);

}

// --- 7. Unsigned Origin Rejection ---

#[test]
fn expire_commitment_rejects_unsigned_origin() {
    let t = &mut new_test_ext();
        let cid = setup_pending_commitment(t, 10u64);
        t.set_block_number(11);

        t.assert_noop(|t| t.expire_commitment(Origin::Unsigned, cid), DispatchError::BadOrigin);

}

// --- 8. Sudo Origin Rejection ---

#[test]
fn expire_commitment_rejects_root_origin() {
    let t = &mut new_test_ext();
        let cid = setup_pending_commitment(t, 10u64);
        t.set_block_number(11);

        t.assert_noop(|t| t.expire_commitment(Origin::Root, cid), DispatchError::BadOrigin);

}

// --- 9. Nonexistent Commitment Rejection ---

#[test]
fn expire_commitment_rejects_nonexistent_commitment() {
    let t = &mut new_test_ext();
        let bogus_cid = [0x3Du8; 32];

        t.assert_noop(|t| t.expire_commitment(Origin::Signed(1), bogus_cid), vdb_error(VectorDbError::CommitmentNotFound));

}

// --- 10. Temporal Boundary: Pre-Expiry Rejection ---

#[test]
fn expire_commitment_rejects_before_expiry() {
    let t = &mut new_test_ext();
        let cid = setup_pending_commitment(t, 10u64);

        t.set_block_number(5);
        t.assert_noop(|t| t.expire_commitment(Origin::Signed(1), cid), vdb_error(VectorDbError::NotYetExpired));

}

// --- 11. Temporal Boundary: Exact Expiry Acceptance ---

#[test]
fn expire_commitment_accepts_at_exact_expiry_block_inclusive() {
    let t = &mut new_test_ext();
        let cid = setup_pending_commitment(t, 10u64);

        t.set_block_number(11);
        assert_eq!(t.expire_commitment(Origin::Signed(1), cid), Ok(()));

}

// --- 12. Temporal Boundary: Immediate Pre-Expiry Rejection ---

#[test]
fn expire_commitment_rejects_one_block_before_expiry() {
    let t = &mut new_test_ext();
        let cid = setup_pending_commitment(t, 10u64);

        t.set_block_number(10);
        t.assert_noop(|t| t.expire_commitment(Origin::Signed(1), cid), vdb_error(VectorDbError::NotYetExpired));

}

// --- 13. Temporal Boundary: Post-Expiry Acceptance ---

#[test]
fn expire_commitment_accepts_long_after_expiry() {
    let t = &mut new_test_ext();
        let cid = setup_pending_commitment(t, 10u64);

        t.set_block_number(999);
        assert_eq!(t.expire_commitment(Origin::Signed(1), cid), Ok(()));

}

// --- 14. Precondition Check: Settled State Rejection ---

#[test]
fn expire_commitment_rejects_settled_commitment() {
    let t = &mut new_test_ext();
        let (p, c) = setup_valid_pair(t);
        let root = test_vector_hash(1);
        let block = t.block_number();

        assert_eq!(t.register_commitment(
            Origin::Signed(1),
            p,
            c,
            root,
            10u64,
            metadata(),
            10u64,
        ), Ok(()));
        let cid = derive_commitment_id(p, c, root, block);
        assert_eq!(t.acknowledge_commitment(
            Origin::Signed(2),
            cid,
            c,
        ), Ok(()));
        assert_eq!(t.close_commitment(
            Origin::Signed(2),
            cid,
            c,
            root,
            10u64,
        ), Ok(()));

        t.set_block_number(999);
        t.assert_noop(|t| t.expire_commitment(Origin::Signed(1), cid), vdb_error(VectorDbError::AlreadyFinalized));

}

// --- 15. Precondition Check: Disputed State Rejection ---

#[test]
fn expire_commitment_rejects_disputed_commitment() {
    let t = &mut new_test_ext();
        let (p, c) = setup_valid_pair(t);
        let root = test_vector_hash(1);
        let block = t.block_number();

        assert_eq!(t.register_commitment(
            Origin::Signed(1),
            p,
            c,
            root,
            10u64,
            metadata(),
            10u64,
        ), Ok(()));
        let cid = derive_commitment_id(p, c, root, block);
        assert_eq!(t.acknowledge_commitment(
            Origin::Signed(2),
            cid,
            c,
        ), Ok(()));
        assert_eq!(t.raise_dispute(
            Origin::Signed(2),
            cid,
            c,
            0u64,
            [0xEEu8; 32],
            10u64,
        ), Ok(()));

        t.set_block_number(999);
        t.assert_noop(|t| t.expire_commitment(Origin::Signed(1), cid), vdb_error(VectorDbError::AlreadyFinalized));

}

// --- 16. Precondition Check: Resolved State Rejection ---

#[test]
fn expire_commitment_rejects_dispute_resolved_commitment() {
    let t = &mut new_test_ext();
        let (p, c) = setup_valid_pair(t);
        let root = test_vector_hash(1);
        let block = t.block_number();

        assert_eq!(t.register_commitment(
            Origin::Signed(1),
            p,
            c,
            root,
            10u64,
            metadata(),
            10u64,
        ), Ok(()));
        let cid = derive_commitment_id(p, c, root, block);
        assert_eq!(t.acknowledge_commitment(
            Origin::Signed(2),
            cid,
            c,
        ), Ok(()));
        assert_eq!(t.raise_dispute(
            Origin::Signed(2),
            cid,
            c,
            0u64,
            [0xEEu8; 32],
            10u64,
        ), Ok(()));

        t.set_block_number(12);
        assert_eq!(t.finalize_dispute(Origin::Signed(1), cid), Ok(()));

        t.set_block_number(999);
        t.assert_noop(|t| t.expire_commitment(Origin::Signed(1), cid), vdb_error(VectorDbError::AlreadyFinalized));

}

// --- 17. Idempotency Check: Double Expire Rejection ---

#[test]
fn expire_commitment_double_expire_fails_with_commitment_not_found() {
    let t = &mut new_test_ext();
        let cid = setup_pending_commitment(t, 10u64);

        t.set_block_number(11);
        assert_eq!(t.expire_commitment(Origin::Signed(1), cid), Ok(()));

        t.assert_noop(|t| t.expire_commitment(Origin::Signed(1), cid), vdb_error(VectorDbError::CommitmentNotFound));

}

// --- 18. Permissionless Call: Third-Party Access ---

#[test]
fn expire_commitment_any_signed_account_can_call_it() {
    let t = &mut new_test_ext();
        let cid = setup_pending_commitment(t, 10u64);
        t.set_block_number(11);

        assert_eq!(t.expire_commitment(
            Origin::Signed(7777),
            cid
        ), Ok(()));

}

// --- 19. Resiliency Check: Suspended Identity Processing ---

#[test]
fn expire_commitment_succeeds_even_if_both_parties_are_suspended() {
    let t = &mut new_test_ext();
        let (p, c) = setup_valid_pair(t);
        let root = test_vector_hash(1);
        let block = t.block_number();

        assert_eq!(t.register_commitment(
            Origin::Signed(1),
            p,
            c,
            root,
            10u64,
            metadata(),
            10u64,
        ), Ok(()));
        let cid = derive_commitment_id(p, c, root, block);

        t.register_test_agent(p, 1, false);
        t.register_test_agent(c, 2, false);

        t.set_block_number(11);
        assert_eq!(t.expire_commitment(Origin::Signed(1), cid), Ok(()));

}

// --- 20. Invariant Check: Storage Leak Prevention ---

#[test]
fn expire_commitment_leaves_no_orphaned_receipt_or_dispute_record() {
    let t = &mut new_test_ext();
        let cid = setup_active_commitment(t, 10u64);

        t.set_block_number(11);
        assert_eq!(t.expire_commitment(Origin::Signed(1), cid), Ok(()));

        assert!(t.stream_receipt(cid).is_none());
        assert!(t.dispute_record(cid).is_none());

}

// --- 21. State Mutability Safety on Rejection ---

#[test]
fn expire_commitment_failed_call_does_not_mutate_storage() {
    let t = &mut new_test_ext();
        let cid = setup_pending_commitment(t, 10u64);

        t.set_block_number(5);
        let _ = t.expire_commitment(Origin::Signed(1), cid);

        let commitment = t.vector_commitment(cid);
        assert!(
            commitment.is_some(),
            "a failed expire_commitment call must NOT remove the commitment"
        );
        assert_eq!(
            commitment.unwrap().status,
            CommitmentStatus::Pending,
            "status must remain untouched after a failed expire_commitment"
        );
        assert_eq!(
            t.active_commitment_count(),
            1,
            "active count must remain unchanged after a failed expire_commitment"
        );

}

// --- 22. Multi-Commitment Independence Verification ---

#[test]
fn expire_commitment_multiple_commitments_are_independent() {
    let t = &mut new_test_ext();
        let p = test_did(1);
        let c1 = test_did(2);
        let c2 = test_did(3);
        t.register_test_agent(p, 1, true);
        t.register_test_agent(c1, 2, true);
        t.register_test_agent(c2, 3, true);

        let block = t.block_number();
        let root1 = test_vector_hash(1);
        let root2 = test_vector_hash(2);

        assert_eq!(t.register_commitment(
            Origin::Signed(1),
            p,
            c1,
            root1,
            10u64,
            metadata(),
            5u64,
        ), Ok(()));
        let cid1 = derive_commitment_id(p, c1, root1, block);

        assert_eq!(t.register_commitment(
            Origin::Signed(1),
            p,
            c2,
            root2,
            10u64,
            metadata(),
            500u64,
        ), Ok(()));
        let cid2 = derive_commitment_id(p, c2, root2, block);

        t.set_block_number(6);
        assert_eq!(t.expire_commitment(Origin::Signed(1), cid1), Ok(()));

        assert!(t.vector_commitment(cid1).is_none());
        assert!(
            t.vector_commitment(cid2).is_some(),
            "cid2 must remain untouched by cid1's expiry"
        );
        assert_eq!(t.active_commitment_count(), 1);

}

// --- 23. Guard Priority: AlreadyFinalized precedes NotYetExpired ---

#[test]
fn expire_commitment_already_finalized_check_precedes_not_yet_expired_check() {
    let t = &mut new_test_ext();
        let (p, c) = setup_valid_pair(t);
        let root = test_vector_hash(1);
        let block = t.block_number();

        assert_eq!(t.register_commitment(
            Origin::Signed(1),
            p,
            c,
            root,
            10u64,
            metadata(),
            1000u64,
        ), Ok(()));
        let cid = derive_commitment_id(p, c, root, block);
        assert_eq!(t.acknowledge_commitment(
            Origin::Signed(2),
            cid,
            c,
        ), Ok(()));
        assert_eq!(t.close_commitment(
            Origin::Signed(2),
            cid,
            c,
            root,
            10u64,
        ), Ok(()));

        t.assert_noop(|t| t.expire_commitment(Origin::Signed(1), cid), vdb_error(VectorDbError::AlreadyFinalized));

}
