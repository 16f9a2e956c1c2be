//! Commitment registry: finalize_dispute.

#![allow(unused_imports, dead_code)]

use arthneura_core::agent_registry::{AgentProfile, AgentRegistry, AgentStatus, QuantumScheme, RegistryConfig};
use arthneura_core::ledger::{Chain, Ledger};
use arthneura_core::merkle::Blake2bHasher;
use arthneura_core::runtime::AgentRegistryAdapter;
use arthneura_core::types::{Did, DispatchError, Origin};
use arthneura_core::vector_db::{
    ChunkIndex, CommitmentId, CommitmentStatus, DisputeRecord, DisputeVerdict, MerkleRoot, Penalty,
    StreamReceipt, VectorCommitment, VectorDb, VectorDbConfig, VectorDbError, VectorDbEvent,
    MAX_CHUNK_LEN, MAX_METADATA_LEN, MAX_PROOF_DEPTH,
};
use parity_scale_codec::Encode;
use rs_merkle::{Hasher, MerkleTree};

// ── Test chain: block clock, identities and the commitment registry ────────

#[derive(Clone, Debug, PartialEq, Eq)]
struct Env {
    chain: Chain,
    ledger: Ledger,
    reg: AgentRegistry,
    db: VectorDb,
    /// Reputation penalties handed out, in order: (DID, "provider" or
    /// "false_disputer").
    penalties: Vec<([u8; 32], &'static str)>,
}

/// Block 1; dispute window 10 blocks, longest lifetime 1,000 blocks,
/// slashes of 5 (guilty provider) and 2 (refuted consumer).
fn new_test_ext() -> Env {
    let mut chain = Chain::new([69u8; 32]);
    chain.set_block_number(1);
    let mut ledger = Ledger::new();
    for acc in 1u64..=3u64 {
        ledger.set_free_balance(acc, 1_000_000u64);
    }
    let reg = AgentRegistry::new(RegistryConfig {
        star_cooldown: 10,
        registration_deposit: 100,
        strike_threshold: 3,
        deposit_slash_per_strike: 20,
    });
    let db = VectorDb::new(VectorDbConfig {
        dispute_window: 10,
        max_commitment_lifetime: 1_000,
        provider_guilty_slash: 5,
        false_dispute_slash: 2,
    });
    Env { chain, ledger, reg, db, penalties: Vec::new() }
}

fn vdb_error(e: VectorDbError) -> DispatchError {
    DispatchError::VectorDb(e)
}

impl Env {
    fn block_number(&self) -> u64 {
        self.chain.block_number()
    }

    fn set_block_number(&mut self, n: u64) {
        self.chain.set_block_number(n)
    }

    fn events(&self) -> Vec<VectorDbEvent> {
        self.db.events().clone()
    }

    fn last_event(&self) -> Option<VectorDbEvent> {
        self.db.last_event()
    }

    fn reset_events(&mut self) {
        self.db.reset_events()
    }

    /// An identity with the given controller; `active_verified == false`
    /// stands for a suspended, revoked or unverified agent.
    fn register_test_agent(&mut self, did: [u8; 32], controller: u64, active_verified: bool) {
        let registered_at = self.chain.block_number();
        self.reg.insert_profile(AgentProfile {
            did,
            controller,
            capabilities: 0,
            reputation_score: 0,
            status: AgentStatus::Active,
            registered_at,
            is_verified: active_verified,
            quantum_scheme: QuantumScheme::MlDsa65,
            metadata: Vec::new(),
            label: Vec::new(),
        });
    }

    fn record(&mut self, r: Result<Penalty, DispatchError>) -> Result<(), DispatchError> {
        match r {
            Ok(Penalty::PenalizeProvider(did)) => {
                self.penalties.push((did, "provider"));
                Ok(())
            }
            Ok(Penalty::PenalizeFalseDisputer(did)) => {
                self.penalties.push((did, "false_disputer"));
                Ok(())
            }
            Err(e) => Err(e),
        }
    }

    fn reputation_calls(&self) -> Vec<([u8; 32], &'static str)> {
        self.penalties.clone()
    }

    fn register_commitment(
        &mut self,
        origin: Origin,
        provider_did: Did,
        consumer_did: Did,
        merkle_root: MerkleRoot,
        total_chunks: u64,
        metadata: Vec<u8>,
        expires_in_blocks: u64,
    ) -> Result<(), DispatchError> {
        let lookup = AgentRegistryAdapter { registry: &self.reg };
        self.db.register_commitment(
            &self.chain,
            &lookup,
            origin,
            provider_did,
            consumer_did,
            merkle_root,
            total_chunks,
            metadata,
            expires_in_blocks,
        )
    }

    fn acknowledge_commitment(&mut self, origin: Origin, id: CommitmentId, consumer_did: Did) -> Result<(), DispatchError> {
        let lookup = AgentRegistryAdapter { registry: &self.reg };
        self.db.acknowledge_commitment(&self.chain, &lookup, origin, id, consumer_did)
    }

    fn close_commitment(
        &mut self,
        origin: Origin,
        id: CommitmentId,
        consumer_did: Did,
        final_stream_hash: MerkleRoot,
        chunk_count: u64,
    ) -> Result<(), DispatchError> {
        let lookup = AgentRegistryAdapter { registry: &self.reg };
        self.db.close_commitment(&self.chain, &lookup, origin, id, consumer_did, final_stream_hash, chunk_count)
    }

    fn raise_dispute(
        &mut self,
        origin: Origin,
        id: CommitmentId,
        consumer_did: Did,
        disputed_chunk_index: u64,
        received_chunk_hash: [u8; 32],
        chunk_count: u64,
    ) -> Result<(), DispatchError> {
        let lookup = AgentRegistryAdapter { registry: &self.reg };
        self.db.raise_dispute(
            &self.chain,
            &lookup,
            origin,
            id,
            consumer_did,
            disputed_chunk_index,
            received_chunk_hash,
            chunk_count,
        )
    }

    fn counter_dispute(
        &mut self,
        origin: Origin,
        id: CommitmentId,
        provider_did: Did,
        chunk_data: Vec<u8>,
        merkle_proof: Vec<[u8; 32]>,
    ) -> Result<(), DispatchError> {
        let lookup = AgentRegistryAdapter { registry: &self.reg };
        let r = self.db.counter_dispute(&self.chain, &lookup, origin, id, provider_did, chunk_data, merkle_proof);
        self.record(r)
    }

    fn finalize_dispute(&mut self, origin: Origin, id: CommitmentId) -> Result<(), DispatchError> {
        let r = self.db.finalize_dispute(&self.chain, origin, id);
        self.record(r)
    }

    fn expire_commitment(&mut self, origin: Origin, id: CommitmentId) -> Result<(), DispatchError> {
        self.db.expire_commitment(&self.chain, origin, id)
    }

    fn vector_commitment(&self, id: CommitmentId) -> Option<VectorCommitment> {
        self.db.vector_commitment(&id).cloned()
    }

    fn dispute_record(&self, id: CommitmentId) -> Option<DisputeRecord> {
        self.db.dispute_record(&id)
    }

    fn stream_receipt(&self, id: CommitmentId) -> Option<StreamReceipt> {
        self.db.stream_receipt(&id)
    }

    fn active_commitment_count(&self) -> u32 {
        self.db.active_commitment_count()
    }

    /// The call fails with `e` and leaves every piece of state untouched.
    fn assert_noop<F: FnOnce(&mut Env) -> Result<(), DispatchError>>(&mut self, f: F, e: DispatchError) {
        let before = self.clone();
        let r = f(self);
        assert_eq!(r, Err(e));
        assert_eq!(*self, before);
    }
}

/// A DID whose first byte is `n`, the rest zero.
fn test_did(n: u8) -> [u8; 32] {
    let mut did = [0u8; 32];
    did[0] = n;
    did
}

/// A Merkle root for index `n`: `blake2_256([n; 64])`.
fn test_vector_hash(n: u8) -> MerkleRoot {
    sp_crypto_hashing::blake2_256(&[n; 64])
}

fn metadata() -> Vec<u8> {
    b"test-schema-v1".to_vec()
}

/// `blake2_256("ArthNeura-Vector-v1" ++ provider ++ consumer ++ root ++
/// SCALE(block))`, computed independently of the library.
fn derive_commitment_id(provider: [u8; 32], consumer: [u8; 32], vector_hash: MerkleRoot, created_at_block: u64) -> CommitmentId {
    let mut preimage = b"ArthNeura-Vector-v1".to_vec();
    preimage.extend_from_slice(&provider);
    preimage.extend_from_slice(&consumer);
    preimage.extend_from_slice(&vector_hash);
    preimage.extend_from_slice(&created_at_block.encode());
    sp_crypto_hashing::blake2_256(&preimage)
}

// Standard test suite verifying invariants of the `finalize_dispute` extrinsic.


// --- Shared Fixture Helpers ---

/// Provisions a valid, active, and verified provider-consumer agent pair.
/// Provider controller is account 1, Consumer controller is account 2.
fn setup_valid_pair(t: &mut Env) -> ([u8; 32], [u8; 32]) {
    let p = test_did(1);
    let c = test_did(2);
    t.register_test_agent(p, 1, true);
    t.register_test_agent(c, 2, true);
    (p, c)
}

/// Sets up a complete disputed commitment state with standard counter deadline.
fn setup_disputed_commitment(t: &mut Env, expires_in_blocks: u64) -> ([u8; 32], [u8; 32], [u8; 32]) {
    let (p, c) = setup_valid_pair(t);
    let root = test_vector_hash(1);
    let block = t.block_number();

    assert_eq!(t.register_commitment(
        Origin::Signed(1),
        p,
        c,
        root,
        10u64,
        metadata(),
        expires_in_blocks,
    ), Ok(()));
    let cid = derive_commitment_id(p, c, root, block);

    assert_eq!(t.acknowledge_commitment(
        Origin::Signed(2),
        cid,
        c,
    ), Ok(()));

    assert_eq!(t.raise_dispute(
        Origin::Signed(2),
        cid,
        c,
        0u64,
        [0xEEu8; 32],
        10u64,
    ), Ok(()));

    (cid, p, c)
}

// --- 1. Happy-Path Integration ---

#[test]
fn finalize_dispute_happy_path_succeeds() {
    let t = &mut new_test_ext();
        let (cid, _p, _c) = setup_disputed_commitment(t, 1000u64);

        t.set_block_number(12);
        assert_eq!(t.finalize_dispute(Origin::Signed(1), cid), Ok(()));

}

// --- 2. Storage & Verdict Fields Integrity Check ---

#[test]
fn finalize_dispute_stores_correct_fields() {
    let t = &mut new_test_ext();
        let (cid, _p, _c) = setup_disputed_commitment(t, 1000u64);

        t.set_block_number(20);
        assert_eq!(t.finalize_dispute(Origin::Signed(1), cid), Ok(()));

        let commitment = t.vector_commitment(cid).expect("commitment must exist");
        assert_eq!(
            commitment.status,
            CommitmentStatus::DisputeResolved,
            "status must transition to DisputeResolved"
        );

        let dispute = t.dispute_record(cid).expect("DisputeRecord must persist");
        assert_eq!(
            dispute.verdict,
            Some(DisputeVerdict::ProviderGuilty),
            "an uncontested dispute must resolve with ProviderGuilty"
        );
        assert_eq!(dispute.counter_deadline, 11u64);

}

// --- 3. Event Emission Verification ---

#[test]
fn finalize_dispute_emits_correct_event() {
    let t = &mut new_test_ext();
        let (cid, p, c) = setup_disputed_commitment(t, 1000u64);

        t.set_block_number(50);
        assert_eq!(t.finalize_dispute(Origin::Signed(1), cid), Ok(()));

        assert_eq!(t.last_event(), Some((VectorDbEvent::DisputeFinalized {
            commitment_id: cid,
            verdict: DisputeVerdict::ProviderGuilty,
            provider: p,
            consumer: c,
        })));

}

// --- 4. Event Uniqueness Verification ---

#[test]
fn finalize_dispute_only_one_event_on_success() {
    let t = &mut new_test_ext();
        let (cid, _p, _c) = setup_disputed_commitment(t, 1000u64);
        t.set_block_number(12);
        t.reset_events();

        assert_eq!(t.finalize_dispute(Origin::Signed(1), cid), Ok(()));

        assert_eq!(t.events().len(), 1);

}

// --- 5. Active Commitment Counter Decrement ---

#[test]
fn finalize_dispute_decrements_active_commitment_count() {
    let t = &mut new_test_ext();
        let (cid, _p, _c) = setup_disputed_commitment(t, 1000u64);
        assert_eq!(t.active_commitment_count(), 1);

        t.set_block_number(12);
        assert_eq!(t.finalize_dispute(Origin::Signed(1), cid), Ok(()));

        assert_eq!(t.active_commitment_count(), 0);

}

// --- 6. Unsigned Origin Rejection ---

#[test]
fn finalize_dispute_rejects_unsigned_origin() {
    let t = &mut new_test_ext();
        let (cid, _p, _c) = setup_disputed_commitment(t, 1000u64);
        t.set_block_number(12);

        t.assert_noop(|t| t.finalize_dispute(Origin::Unsigned, cid), DispatchError::BadOrigin);

}

// --- 7. Sudo Origin Rejection ---

#[test]
fn finalize_dispute_rejects_root_origin() {
    let t = &mut new_test_ext();
        let (cid, _p, _c) = setup_disputed_commitment(t, 1000u64);
        t.set_block_number(12);

        t.assert_noop(|t| t.finalize_dispute(Origin::Root, cid), DispatchError::BadOrigin);

}

// --- 8. Nonexistent Commitment Rejection ---

#[test]
fn finalize_dispute_rejects_nonexistent_commitment() {
    let t = &mut new_test_ext();
        let bogus_cid = [0x5Cu8; 32];

        t.assert_noop(|t| t.finalize_dispute(Origin::Signed(1), bogus_cid), vdb_error(VectorDbError::CommitmentNotFound));

}

// --- 9. Precondition Check: Awaiting Dispute Rejection ---

#[test]
fn finalize_dispute_rejects_still_active() {
    let t = &mut new_test_ext();
        let (p, c) = setup_valid_pair(t);
        let root = test_vector_hash(1);
        let block = t.block_number();

        assert_eq!(t.register_commitment(
            Origin::Signed(1),
            p,
            c,
            root,
            10u64,
            metadata(),
            1000u64,
        ), Ok(()));
        let cid = derive_commitment_id(p, c, root, block);
        assert_eq!(t.acknowledge_commitment(
            Origin::Signed(2),
            cid,
            c,
        ), Ok(()));

        t.assert_noop(|t| t.finalize_dispute(Origin::Signed(1), cid), vdb_error(VectorDbError::NotDisputed));

}

// --- 10. Precondition Check: Pending State Rejection ---

#[test]
fn finalize_dispute_rejects_still_pending() {
    let t = &mut new_test_ext();
        let (p, c) = setup_valid_pair(t);
        let root = test_vector_hash(1);
        let block = t.block_number();

        assert_eq!(t.register_commitment(
            Origin::Signed(1),
            p,
            c,
            root,
            10u64,
            metadata(),
            1000u64,
        ), Ok(()));
        let cid = derive_commitment_id(p, c, root, block);

        t.assert_noop(|t| t.finalize_dispute(Origin::Signed(1), cid), vdb_error(VectorDbError::NotDisputed));

}

// --- 11. Precondition Check: Settled State Rejection ---

#[test]
fn finalize_dispute_rejects_settled_commitment() {
    let t = &mut new_test_ext();
        let (p, c) = setup_valid_pair(t);
        let root = test_vector_hash(1);
        let block = t.block_number();

        assert_eq!(t.register_commitment(
            Origin::Signed(1),
            p,
            c,
            root,
            10u64,
            metadata(),
            1000u64,
        ), Ok(()));
        let cid = derive_commitment_id(p, c, root, block);
        assert_eq!(t.acknowledge_commitment(
            Origin::Signed(2),
            cid,
            c,
        ), Ok(()));
        assert_eq!(t.close_commitment(
            Origin::Signed(2),
            cid,
            c,
            root,
            10u64,
        ), Ok(()));

        t.assert_noop(|t| t.finalize_dispute(Origin::Signed(1), cid), vdb_error(VectorDbError::NotDisputed));

}

// --- 12. Precondition Check: Post-Counter Rejection ---

#[test]
fn finalize_dispute_rejects_after_successful_counter() {
    let t = &mut new_test_ext();
        let (p, c) = setup_valid_pair(t);
        let chunks: Vec<Vec<u8>> = (0u8..4).map(|i| vec![i; 64]).collect();
        let leaves: Vec<[u8; 32]> = chunks.iter().map(|ch| Blake2bHasher::hash(ch)).collect();
        let tree = MerkleTree::<Blake2bHasher>::from_leaves(&leaves);
        let root = tree.root().unwrap();
        let block = t.block_number();

        assert_eq!(t.register_commitment(
            Origin::Signed(1),
            p,
            c,
            root,
            4u64,
            metadata(),
            1000u64,
        ), Ok(()));
        let cid = derive_commitment_id(p, c, root, block);
        assert_eq!(t.acknowledge_commitment(
            Origin::Signed(2),
            cid,
            c,
        ), Ok(()));
        assert_eq!(t.raise_dispute(
            Origin::Signed(2),
            cid,
            c,
            0u64,
            [0xEEu8; 32],
            4u64,
        ), Ok(()));

        let proof = tree.proof(&[0]);
        let bounded_proof: Vec<[u8; 32]> =
            proof.proof_hashes().to_vec();
        let bounded_chunk: Vec<u8> =
            chunks[0].clone();

        assert_eq!(t.counter_dispute(
            Origin::Signed(1),
            cid,
            p,
            bounded_chunk,
            bounded_proof,
        ), Ok(()));

        t.set_block_number(1000);
        t.assert_noop(|t| t.finalize_dispute(Origin::Signed(1), cid), vdb_error(VectorDbError::NotDisputed));

}

// --- 13. Idempotency Check: Double Finalize Rejection ---

#[test]
fn finalize_dispute_double_finalize_fails_with_not_disputed() {
    let t = &mut new_test_ext();
        let (cid, _p, _c) = setup_disputed_commitment(t, 1000u64);

        t.set_block_number(12);
        assert_eq!(t.finalize_dispute(Origin::Signed(1), cid), Ok(()));

        t.assert_noop(|t| t.finalize_dispute(Origin::Signed(1), cid), vdb_error(VectorDbError::NotDisputed));

}

// --- 14. Temporal Deadline: Boundary Rejection ---

#[test]
fn finalize_dispute_rejects_at_exact_deadline_block() {
    let t = &mut new_test_ext();
        let (cid, _p, _c) = setup_disputed_commitment(t, 1000u64);

        t.set_block_number(11);
        t.assert_noop(|t| t.finalize_dispute(Origin::Signed(1), cid), vdb_error(VectorDbError::DisputeWindowStillOpen));

}

// --- 15. Temporal Deadline: Over-Boundary Acceptance ---

#[test]
fn finalize_dispute_accepts_one_block_past_deadline() {
    let t = &mut new_test_ext();
        let (cid, _p, _c) = setup_disputed_commitment(t, 1000u64);

        t.set_block_number(12);
        assert_eq!(t.finalize_dispute(Origin::Signed(1), cid), Ok(()));

}

// --- 16. Temporal Deadline: Under-Boundary Rejection ---

#[test]
fn finalize_dispute_rejects_well_before_deadline() {
    let t = &mut new_test_ext();
        let (cid, _p, _c) = setup_disputed_commitment(t, 1000u64);

        t.set_block_number(3);
        t.assert_noop(|t| t.finalize_dispute(Origin::Signed(1), cid), vdb_error(VectorDbError::DisputeWindowStillOpen));

}

// --- 17. Temporal Deadline: Long-After-Deadline Acceptance ---

#[test]
fn finalize_dispute_accepts_long_after_deadline() {
    let t = &mut new_test_ext();
        let (cid, _p, _c) = setup_disputed_commitment(t, 1000u64);

        t.set_block_number(999);
        assert_eq!(t.finalize_dispute(Origin::Signed(1), cid), Ok(()));

}

// --- 18. Permissionless Call: Third-Party Access ---

#[test]
fn finalize_dispute_any_signed_account_can_call_it() {
    let t = &mut new_test_ext();
        let (cid, _p, _c) = setup_disputed_commitment(t, 1000u64);
        t.set_block_number(12);

        assert_eq!(t.finalize_dispute(Origin::Signed(9999), cid), Ok(()));

}

// --- 19. Resiliency Check: Suspended Identity Processing ---

#[test]
fn finalize_dispute_succeeds_even_if_both_parties_are_suspended() {
    let t = &mut new_test_ext();
        let (cid, p, c) = setup_disputed_commitment(t, 1000u64);

        t.register_test_agent(p, 1, false);
        t.register_test_agent(c, 2, false);

        t.set_block_number(12);
        assert_eq!(t.finalize_dispute(Origin::Signed(1), cid), Ok(()));

}

// --- 20. State Mutability Safety on Rejection ---

#[test]
fn finalize_dispute_failed_call_does_not_mutate_storage() {
    let t = &mut new_test_ext();
        let (cid, _p, _c) = setup_disputed_commitment(t, 1000u64);

        t.set_block_number(5);
        let _ = t.finalize_dispute(Origin::Signed(1), cid);

        let commitment = t.vector_commitment(cid).expect("commitment must still exist");
        assert_eq!(
            commitment.status,
            CommitmentStatus::Disputed,
            "status must remain Disputed after a failed finalize_dispute"
        );

        let dispute = t.dispute_record(cid).expect("DisputeRecord must still exist");
        assert_eq!(
            dispute.verdict, None,
            "verdict must remain unset after a failed finalize_dispute"
        );

        assert_eq!(
            t.active_commitment_count(),
            1,
            "active count must remain unchanged after a failed finalize_dispute"
        );

}

// --- 21. Event Identity Integrity ---

#[test]
fn finalize_dispute_event_identities_are_immune_to_caller_identity() {
    let t = &mut new_test_ext();
        let (cid, p, c) = setup_disputed_commitment(t, 1000u64);
        t.set_block_number(12);

        assert_eq!(t.finalize_dispute(
            Origin::Signed(424242),
            cid
        ), Ok(()));

        assert_eq!(t.last_event(), Some((VectorDbEvent::DisputeFinalized {
            commitment_id: cid,
            verdict: DisputeVerdict::ProviderGuilty,
            provider: p,
            consumer: c,
        })));

}

// --- 22. Multi-Dispute Independence Verification ---

#[test]
fn finalize_dispute_multiple_commitments_are_independent() {
    let t = &mut new_test_ext();
        let p = test_did(1);
        let c1 = test_did(2);
        let c2 = test_did(3);
        t.register_test_agent(p, 1, true);
        t.register_test_agent(c1, 2, true);
        t.register_test_agent(c2, 3, true);

        let block = t.block_number();
        let root1 = test_vector_hash(1);
        let root2 = test_vector_hash(2);

        assert_eq!(t.register_commitment(
            Origin::Signed(1),
            p,
            c1,
            root1,
            10u64,
            metadata(),
            1000u64,
        ), Ok(()));
        let cid1 = derive_commitment_id(p, c1, root1, block);
        assert_eq!(t.acknowledge_commitment(
            Origin::Signed(2),
            cid1,
            c1
        ), Ok(()));
        assert_eq!(t.raise_dispute(
            Origin::Signed(2),
            cid1,
            c1,
            0u64,
            [0xEEu8; 32],
            10u64,
        ), Ok(()));

        assert_eq!(t.register_commitment(
            Origin::Signed(1),
            p,
            c2,
            root2,
            10u64,
            metadata(),
            1000u64,
        ), Ok(()));
        let cid2 = derive_commitment_id(p, c2, root2, block);
        assert_eq!(t.acknowledge_commitment(
            Origin::Signed(3),
            cid2,
            c2
        ), Ok(()));
        assert_eq!(t.raise_dispute(
            Origin::Signed(3),
            cid2,
            c2,
            0u64,
            [0xEEu8; 32],
            10u64,
        ), Ok(()));

        t.set_block_number(12);
        assert_eq!(t.finalize_dispute(Origin::Signed(1), cid1), Ok(()));

        let stored2 = t.vector_commitment(cid2).unwrap();
        assert_eq!(stored2.status, CommitmentStatus::Disputed);
        assert_eq!(t.dispute_record(cid2).unwrap().verdict, None);

        let stored1 = t.vector_commitment(cid1).unwrap();
        assert_eq!(stored1.status, CommitmentStatus::DisputeResolved);
        assert_eq!(
            t.dispute_record(cid1).unwrap().verdict,
            Some(DisputeVerdict::ProviderGuilty)
        );

}
