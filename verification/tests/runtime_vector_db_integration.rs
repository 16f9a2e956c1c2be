//! Runtime: the commitment registry asking the agent registry about identities.

#![allow(unused_imports, dead_code)]

use arthneura_core::agent_registry::{AgentProfile, AgentStatus, QuantumScheme, RegistryConfig};
use arthneura_core::runtime::{AgentRegistryAdapter, Runtime};
use arthneura_core::types::{AccountId, Did, DispatchError, Origin};
use arthneura_core::vector_db::{VectorDbConfig, VectorDbError, VectorDbEvent, MAX_METADATA_LEN};

// ── The runtime with its production constants ───────────────────────────────

/// Dispute window 14,400 blocks (about a day), longest commitment
/// lifetime 100,800 blocks (about a week), slashes of 5 and 2; star
/// cooldown 1,200 blocks and a 100,000,000,000 deposit.
fn new_test_ext() -> Runtime {
    let mut rt = Runtime::new(
        [69u8; 32],
        RegistryConfig {
            star_cooldown: 1_200,
            registration_deposit: 100_000_000_000,
            strike_threshold: 3,
            deposit_slash_per_strike: 20,
        },
        VectorDbConfig {
            dispute_window: 14_400,
            max_commitment_lifetime: 100_800,
            provider_guilty_slash: 5,
            false_dispute_slash: 2,
        },
    );
    rt.chain.set_block_number(1);
    rt
}

fn vdb_error(e: VectorDbError) -> DispatchError {
    DispatchError::VectorDb(e)
}

const ALICE: AccountId = 1;
const BOB: AccountId = 2;

/// `VectorDb::register_commitment` with identities from the runtime's
/// agent registry.
fn register_commitment(
    rt: &mut Runtime,
    origin: Origin,
    provider_did: Did,
    consumer_did: Did,
    merkle_root: [u8; 32],
    total_chunks: u64,
    metadata: Vec<u8>,
    expires_in_blocks: u64,
) -> Result<(), DispatchError> {
    let lookup = AgentRegistryAdapter { registry: &rt.agent_registry };
    rt.vector_db.register_commitment(
        &rt.chain,
        &lookup,
        origin,
        provider_did,
        consumer_did,
        merkle_root,
        total_chunks,
        metadata,
        expires_in_blocks,
    )
}

fn test_did(n: u8) -> [u8; 32] {
    let mut did = [0u8; 32];
    did[0] = n;
    did
}

/// A non-zero Merkle root for index `n`: `blake2_256([n; 64])`.
fn test_merkle_root(n: u8) -> [u8; 32] {
    sp_crypto_hashing::blake2_256(&[n; 64])
}

fn test_metadata() -> Vec<u8> {
    b"test-schema-v1".to_vec()
}

fn seed_agent(rt: &Runtime, did: [u8; 32], controller: AccountId, status: AgentStatus, is_verified: bool) -> AgentProfile {
    AgentProfile {
        did,
        controller,
        capabilities: 0,
        reputation_score: 0,
        status,
        registered_at: rt.chain.block_number(),
        is_verified,
        quantum_scheme: QuantumScheme::MlDsa65,
        metadata: Vec::new(),
        label: Vec::new(),
    }
}

/// An active, verified provider (controlled by ALICE) and consumer
/// (controlled by BOB), written straight into the registry.
fn seed_eligible_pair(rt: &mut Runtime, provider_idx: u8, consumer_idx: u8) -> ([u8; 32], AccountId, [u8; 32]) {
    let provider_did = test_did(provider_idx);
    let consumer_did = test_did(consumer_idx);
    let p = seed_agent(rt, provider_did, ALICE, AgentStatus::Active, true);
    rt.agent_registry.insert_profile(p);
    let c = seed_agent(rt, consumer_did, BOB, AgentStatus::Active, true);
    rt.agent_registry.insert_profile(c);
    (provider_did, ALICE, consumer_did)
}

// --- Happy Path ---



#[test]
fn succeeds_and_emits_event() {
    let rt = &mut new_test_ext();
        let (provider_did, provider_account, consumer_did) = seed_eligible_pair(rt, 1, 2);
        let merkle_root = test_merkle_root(1);

        assert_eq!(register_commitment(rt, 
            Origin::Signed(provider_account),
            provider_did,
            consumer_did,
            merkle_root,
            10,
            test_metadata(),
            100,
        ), Ok(()));

        let emitted = rt.vector_db.events().iter().any(|event| {
            matches!(
                *event,
                VectorDbEvent::CommitmentRegistered {
                    provider,
                    consumer,
                    merkle_root: emitted_root,
                    total_chunks: 10,
                    ..
                } if provider == provider_did
                    && consumer == consumer_did
                    && emitted_root == merkle_root
            )
        });
        assert!(emitted, "expected a CommitmentRegistered event matching the call");

}


// --- Input Validation ---



#[test]
fn fails_on_self_trade() {
    let rt = &mut new_test_ext();
        let did = test_did(1);
        let caller = ALICE;

        assert_eq!(register_commitment(rt, 
                Origin::Signed(caller),
                did,
                did,
                test_merkle_root(1),
                10,
                test_metadata(),
                100,
            ), Err(vdb_error(VectorDbError::SelfTrade)));

}

#[test]
fn fails_on_zero_total_chunks() {
    let rt = &mut new_test_ext();
        let (provider_did, provider_account, consumer_did) = seed_eligible_pair(rt, 1, 2);

        assert_eq!(register_commitment(rt, 
                Origin::Signed(provider_account),
                provider_did,
                consumer_did,
                test_merkle_root(1),
                0,
                test_metadata(),
                100,
            ), Err(vdb_error(VectorDbError::TotalChunksMustBePositive)));

}

#[test]
fn fails_on_zero_merkle_root() {
    let rt = &mut new_test_ext();
        let (provider_did, provider_account, consumer_did) = seed_eligible_pair(rt, 1, 2);

        assert_eq!(register_commitment(rt, 
                Origin::Signed(provider_account),
                provider_did,
                consumer_did,
                [0u8; 32],
                10,
                test_metadata(),
                100,
            ), Err(vdb_error(VectorDbError::InvalidMerkleRoot)));

}


// --- Provider Eligibility ---



#[test]
fn fails_when_provider_unregistered() {
    let rt = &mut new_test_ext();
        let unregistered_provider_did = test_did(99); 
        let consumer_did = test_did(2);
        let consumer_account = BOB;

        let profile = seed_agent(rt, consumer_did, consumer_account, AgentStatus::Active, true);
            rt.agent_registry.insert_profile(profile);

        let caller = ALICE;

        assert_eq!(register_commitment(rt, 
                Origin::Signed(caller),
                unregistered_provider_did,
                consumer_did,
                test_merkle_root(2),
                10,
                test_metadata(),
                100,
            ), Err(vdb_error(VectorDbError::ProviderNotEligible)));

}

#[test]
fn fails_when_caller_is_not_provider_controller() {
    let rt = &mut new_test_ext();
        let (provider_did, _provider_account, consumer_did) = seed_eligible_pair(rt, 1, 2);
        let impostor = 3;

        assert_eq!(register_commitment(rt, 
                Origin::Signed(impostor),
                provider_did,
                consumer_did,
                test_merkle_root(1),
                10,
                test_metadata(),
                100,
            ), Err(vdb_error(VectorDbError::NotProvider)));

}

#[test]
fn fails_when_provider_suspended() {
    let rt = &mut new_test_ext();
        let provider_did = test_did(3);
        let consumer_did = test_did(4);
        let provider_account = ALICE;
        let consumer_account = BOB;

        let profile = seed_agent(rt, provider_did, provider_account.clone(), AgentStatus::Suspended, true);
            rt.agent_registry.insert_profile(profile);
        let profile = seed_agent(rt, consumer_did, consumer_account, AgentStatus::Active, true);
            rt.agent_registry.insert_profile(profile);

        assert_eq!(register_commitment(rt, 
                Origin::Signed(provider_account),
                provider_did,
                consumer_did,
                test_merkle_root(3),
                10,
                test_metadata(),
                100,
            ), Err(vdb_error(VectorDbError::ProviderNotEligible)));

}

#[test]
fn fails_when_provider_revoked() {
    let rt = &mut new_test_ext();
        let provider_did = test_did(5);
        let consumer_did = test_did(6);
        let provider_account = ALICE;
        let consumer_account = BOB;

        let profile = seed_agent(rt, provider_did, provider_account.clone(), AgentStatus::Revoked, true);
            rt.agent_registry.insert_profile(profile);
        let profile = seed_agent(rt, consumer_did, consumer_account, AgentStatus::Active, true);
            rt.agent_registry.insert_profile(profile);

        assert_eq!(register_commitment(rt, 
                Origin::Signed(provider_account),
                provider_did,
                consumer_did,
                test_merkle_root(4),
                10,
                test_metadata(),
                100,
            ), Err(vdb_error(VectorDbError::ProviderNotEligible)));

}

#[test]
fn fails_when_provider_unverified() {
    let rt = &mut new_test_ext();
        let provider_did = test_did(7);
        let consumer_did = test_did(8);
        let provider_account = ALICE;
        let consumer_account = BOB;

        let profile = seed_agent(rt, provider_did, provider_account.clone(), AgentStatus::Active, false);
            rt.agent_registry.insert_profile(profile);
        let profile = seed_agent(rt, consumer_did, consumer_account, AgentStatus::Active, true);
            rt.agent_registry.insert_profile(profile);

        assert_eq!(register_commitment(rt, 
                Origin::Signed(provider_account),
                provider_did,
                consumer_did,
                test_merkle_root(5),
                10,
                test_metadata(),
                100,
            ), Err(vdb_error(VectorDbError::ProviderNotEligible)));

}


// --- Consumer Eligibility ---



#[test]
fn fails_when_consumer_unregistered() {
    let rt = &mut new_test_ext();
        let provider_did = test_did(1);
        let unregistered_consumer_did = test_did(98); 
        let provider_account = ALICE;

        let profile = seed_agent(rt, provider_did, provider_account.clone(), AgentStatus::Active, true);
            rt.agent_registry.insert_profile(profile);

        assert_eq!(register_commitment(rt, 
                Origin::Signed(provider_account),
                provider_did,
                unregistered_consumer_did,
                test_merkle_root(6),
                10,
                test_metadata(),
                100,
            ), Err(vdb_error(VectorDbError::ConsumerNotEligible)));

}

#[test]
fn fails_when_consumer_suspended() {
    let rt = &mut new_test_ext();
        let provider_did = test_did(9);
        let consumer_did = test_did(10);
        let provider_account = ALICE;
        let consumer_account = BOB;

        let profile = seed_agent(rt, provider_did, provider_account.clone(), AgentStatus::Active, true);
            rt.agent_registry.insert_profile(profile);
        let profile = seed_agent(rt, consumer_did, consumer_account, AgentStatus::Suspended, true);
            rt.agent_registry.insert_profile(profile);

        assert_eq!(register_commitment(rt, 
                Origin::Signed(provider_account),
                provider_did,
                consumer_did,
                test_merkle_root(7),
                10,
                test_metadata(),
                100,
            ), Err(vdb_error(VectorDbError::ConsumerNotEligible)));

}

#[test]
fn fails_when_consumer_revoked() {
    let rt = &mut new_test_ext();
        let provider_did = test_did(11);
        let consumer_did = test_did(12);
        let provider_account = ALICE;
        let consumer_account = BOB;

        let profile = seed_agent(rt, provider_did, provider_account.clone(), AgentStatus::Active, true);
            rt.agent_registry.insert_profile(profile);
        let profile = seed_agent(rt, consumer_did, consumer_account, AgentStatus::Revoked, true);
            rt.agent_registry.insert_profile(profile);

        assert_eq!(register_commitment(rt, 
                Origin::Signed(provider_account),
                provider_did,
                consumer_did,
                test_merkle_root(8),
                10,
                test_metadata(),
                100,
            ), Err(vdb_error(VectorDbError::ConsumerNotEligible)));

}

#[test]
fn fails_when_consumer_unverified() {
    let rt = &mut new_test_ext();
        let provider_did = test_did(13);
        let consumer_did = test_did(14);
        let provider_account = ALICE;
        let consumer_account = BOB;

        let profile = seed_agent(rt, provider_did, provider_account.clone(), AgentStatus::Active, true);
            rt.agent_registry.insert_profile(profile);
        let profile = seed_agent(rt, consumer_did, consumer_account, AgentStatus::Active, false);
            rt.agent_registry.insert_profile(profile);

        assert_eq!(register_commitment(rt, 
                Origin::Signed(provider_account),
                provider_did,
                consumer_did,
                test_merkle_root(9),
                10,
                test_metadata(),
                100,
            ), Err(vdb_error(VectorDbError::ConsumerNotEligible)));

}


// --- Expiry Bounds ---



#[test]
fn fails_when_expiry_is_zero() {
    let rt = &mut new_test_ext();
        let (provider_did, provider_account, consumer_did) = seed_eligible_pair(rt, 1, 2);

        assert_eq!(register_commitment(rt, 
                Origin::Signed(provider_account),
                provider_did,
                consumer_did,
                test_merkle_root(1),
                10,
                test_metadata(),
                0,
            ), Err(vdb_error(VectorDbError::ExpiryMustBePositive)));

}

#[test]
fn fails_when_expiry_exceeds_max_lifetime() {
    let rt = &mut new_test_ext();
        let (provider_did, provider_account, consumer_did) = seed_eligible_pair(rt, 1, 2);
        let max_lifetime: u64 =
            rt.vector_db.config_values().max_commitment_lifetime;

        assert_eq!(register_commitment(rt, 
                Origin::Signed(provider_account),
                provider_did,
                consumer_did,
                test_merkle_root(1),
                10,
                test_metadata(),
                max_lifetime + 1,
            ), Err(vdb_error(VectorDbError::ExpiryTooFar)));

}

#[test]
fn succeeds_when_expiry_equals_max_lifetime() {
    let rt = &mut new_test_ext();
        let (provider_did, provider_account, consumer_did) = seed_eligible_pair(rt, 1, 2);
        let max_lifetime: u64 =
            rt.vector_db.config_values().max_commitment_lifetime;

        assert_eq!(register_commitment(rt, 
            Origin::Signed(provider_account),
            provider_did,
            consumer_did,
            test_merkle_root(1),
            10,
            test_metadata(),
            max_lifetime,
        ), Ok(()));

}


// --- Idempotency / Duplicate Detection ---



#[test]
fn fails_on_duplicate_commitment_in_same_block() {
    let rt = &mut new_test_ext();
        let (provider_did, provider_account, consumer_did) = seed_eligible_pair(rt, 1, 2);
        let merkle_root = test_merkle_root(1);

        assert_eq!(register_commitment(rt, 
            Origin::Signed(provider_account.clone()),
            provider_did,
            consumer_did,
            merkle_root,
            10,
            test_metadata(),
            100,
        ), Ok(()));

        assert_eq!(register_commitment(rt, 
                Origin::Signed(provider_account),
                provider_did,
                consumer_did,
                merkle_root,
                10,
                test_metadata(),
                100,
            ), Err(vdb_error(VectorDbError::CommitmentAlreadyExists)));

}
