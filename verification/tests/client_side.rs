//! Client-side logic: chunking, commitment plans, counter-proofs, chunk
//! paths, keystore labels and key files.

use arthneura_core::chunk_store::{
    build_merkle_tree, check_counter_index, chunk_leaves, generate_inclusion_proof,
    prepare_commitment, prepare_counter_proof, split_into_chunks, CounterDisputeError,
    FsChunkStore, RegisterCommitmentError,
};
use arthneura_core::keystore::{
    identity_exists, key_file_path, open_identity, seal_identity, seal_new_identity,
    validate_label, KeyFile, KeyStoreError,
};
use arthneura_core::merkle::Blake2bHasher;
use rs_merkle::{Hasher, MerkleProof, MerkleTree};

// ── Chunking ────────────────────────────────────────────────────────────────

#[test]
fn split_into_chunks_reassembles_payload() {
    let payload: Vec<u8> = (0..2500u32).map(|i| (i % 251) as u8).collect();
    let chunks = split_into_chunks(&payload, 1024);
    assert_eq!(chunks.len(), 3);
    assert_eq!(chunks[0].len(), 1024);
    assert_eq!(chunks[1].len(), 1024);
    assert_eq!(chunks[2].len(), 452);
    let joined: Vec<u8> = chunks.concat();
    assert_eq!(joined, payload);
}

#[test]
fn split_into_chunks_exact_multiple_and_empty() {
    let payload = vec![7u8; 2048];
    let chunks = split_into_chunks(&payload, 1024);
    assert_eq!(chunks, vec![vec![7u8; 1024], vec![7u8; 1024]]);
    assert!(split_into_chunks(&[], 1024).is_empty());
    assert_eq!(split_into_chunks(b"abc", 1), vec![b"a".to_vec(), b"b".to_vec(), b"c".to_vec()]);
}

#[test]
fn chunk_leaves_are_blake2_hashes() {
    let chunks = vec![b"x".to_vec(), b"yz".to_vec()];
    let leaves = chunk_leaves(&chunks);
    assert_eq!(leaves, vec![sp_crypto_hashing::blake2_256(b"x"), sp_crypto_hashing::blake2_256(b"yz")]);
}

// ── Commitment plans ────────────────────────────────────────────────────────

#[test]
fn prepare_commitment_rejects_oversized_metadata() {
    assert_eq!(
        prepare_commitment(b"payload", 257).err(),
        Some(RegisterCommitmentError::MetadataTooLarge(257, 256))
    );
}

#[test]
fn prepare_commitment_rejects_empty_payload() {
    assert_eq!(prepare_commitment(b"", 10).err(), Some(RegisterCommitmentError::EmptyPayload));
}

#[test]
fn prepare_commitment_plans_chunks_root_and_staging_id() {
    let payload = vec![3u8; 1500];
    let plan = prepare_commitment(&payload, 256).expect("valid input");
    assert_eq!(plan.total_chunks, 2);
    assert_eq!(plan.chunks, vec![vec![3u8; 1024], vec![3u8; 476]]);
    assert_eq!(plan.staging_id, sp_crypto_hashing::blake2_256(&payload));
    let leaves: Vec<[u8; 32]> = plan.chunks.iter().map(|c| sp_crypto_hashing::blake2_256(c)).collect();
    let tree = MerkleTree::<Blake2bHasher>::from_leaves(&leaves);
    assert_eq!(Some(plan.merkle_root), tree.root());
    // A single leaf is its own root.
    let one = prepare_commitment(b"tiny", 0).expect("valid input");
    assert_eq!(one.merkle_root, sp_crypto_hashing::blake2_256(b"tiny"));
}

// ── Counter-proofs ──────────────────────────────────────────────────────────

#[test]
fn check_counter_index_bounds() {
    assert_eq!(check_counter_index(3, 3), Err(CounterDisputeError::ChunkIndexOutOfBounds(3, 3)));
    assert_eq!(check_counter_index(u64::MAX, 3), Err(CounterDisputeError::ChunkIndexOutOfBounds(u64::MAX, 3)));
    assert_eq!(check_counter_index(2, 3), Ok(()));
}

#[test]
fn prepare_counter_proof_verifies_against_committed_root() {
    let chunks: Vec<Vec<u8>> = (0..7u8).map(|i| vec![i; 100]).collect();
    let (root, _tree) = build_merkle_tree(&chunks);
    for i in 0..7u64 {
        let (chunk, proof) = prepare_counter_proof(&chunks, i).expect("bounded chunk and proof");
        assert_eq!(chunk, chunks[i as usize]);
        let leaf = sp_crypto_hashing::blake2_256(&chunk);
        assert!(MerkleProof::<Blake2bHasher>::new(proof).verify(root, &[i as usize], &[leaf], 7));
    }
}

#[test]
fn prepare_counter_proof_rejects_oversized_chunk() {
    let chunks = vec![vec![1u8; 10], vec![2u8; 1025]];
    assert_eq!(prepare_counter_proof(&chunks, 1).err(), Some(CounterDisputeError::ChunkTooLarge(1025, 1024)));
    assert!(prepare_counter_proof(&chunks, 0).is_ok());
}

#[test]
fn inclusion_proof_changes_with_index() {
    let chunks: Vec<Vec<u8>> = (0..4u8).map(|i| vec![i; 8]).collect();
    let (_root, tree) = build_merkle_tree(&chunks);
    assert_eq!(tree.leaf_count(), 4);
    let p0 = generate_inclusion_proof(&tree, 0);
    let p3 = generate_inclusion_proof(&tree, 3);
    assert_eq!(p0.len(), 2);
    assert_ne!(p0, p3);
    assert_eq!(p0[0], sp_crypto_hashing::blake2_256(&chunks[1]));
}

// ── Chunk paths ─────────────────────────────────────────────────────────────

#[test]
fn fs_chunk_store_paths() {
    let store = FsChunkStore::new("/tmp/arthneura-offchain-store");
    let id = [0xABu8; 32];
    let hex = "ab".repeat(32);
    assert_eq!(store.commitment_dir(id), format!("/tmp/arthneura-offchain-store/{hex}"));
    assert_eq!(store.chunk_path(id, 0), format!("/tmp/arthneura-offchain-store/{hex}/0.bin"));
    assert_eq!(store.chunk_path(id, 1234567), format!("/tmp/arthneura-offchain-store/{hex}/1234567.bin"));
    assert_eq!(
        store.chunk_path(id, u64::MAX),
        format!("/tmp/arthneura-offchain-store/{hex}/18446744073709551615.bin")
    );
    let slash = FsChunkStore::new("/data/");
    let mut id2 = [0u8; 32];
    id2[0] = 0x0F;
    id2[31] = 0xF0;
    let expect = format!("/data/0f{}f0", "00".repeat(30));
    assert_eq!(slash.commitment_dir(id2), expect);
    let empty = FsChunkStore::new("");
    assert_eq!(empty.commitment_dir([0u8; 32]), "00".repeat(32));
}

// ── Keystore labels and paths ───────────────────────────────────────────────

#[test]
fn validate_label_accepts_ascii_names() {
    assert_eq!(validate_label("alice-agent_01"), Ok(()));
    assert_eq!(validate_label("Z"), Ok(()));
}

#[test]
fn validate_label_rejects_bad_labels() {
    assert_eq!(validate_label(""), Err(KeyStoreError::InvalidLabel(String::new())));
    assert_eq!(validate_label("../etc"), Err(KeyStoreError::InvalidLabel("../etc".to_string())));
    assert_eq!(validate_label("a b"), Err(KeyStoreError::InvalidLabel("a b".to_string())));
    assert_eq!(validate_label("café"), Err(KeyStoreError::InvalidLabel("café".to_string())));
}

#[test]
fn key_file_path_joins_dir_and_label() {
    assert_eq!(key_file_path("/home/a/.arthneura/keys", "bob"), Ok("/home/a/.arthneura/keys/bob.json".to_string()));
    assert_eq!(key_file_path("keys/", "bob"), Ok("keys/bob.json".to_string()));
    assert_eq!(key_file_path("", "bob"), Ok("bob.json".to_string()));
    assert_eq!(key_file_path("/k", "x/y"), Err(KeyStoreError::InvalidLabel("x/y".to_string())));
}

#[test]
fn identity_exists_is_false_for_invalid_label_or_missing_file() {
    assert!(!identity_exists("/", "no such label"));
    assert!(!identity_exists("/nonexistent-arthneura-keystore-dir", "alice"));
}

// ── Key files ───────────────────────────────────────────────────────────────

#[test]
fn sealed_identity_opens_with_the_same_passphrase() {
    let did = [0x5Au8; 32];
    let key = b"signing key seed bytes".to_vec();
    let kf = seal_identity(did, &key, "correct horse", [7u8; 16], [9u8; 12]).expect("seal");
    assert_eq!(kf.version, 1);
    assert_eq!(kf.did_hex, "5a".repeat(32));
    assert_eq!(kf.salt_b64, "BwcHBwcHBwcHBwcHBwcHBw==");
    assert_eq!(kf.nonce_b64, "CQkJCQkJCQkJCQkJ");
    assert_ne!(kf.ciphertext_b64, "");
    let opened = open_identity(&kf, "correct horse").expect("open");
    assert_eq!(opened.did, did);
    assert_eq!(opened.signing_key_bytes, key);
}

#[test]
fn wrong_passphrase_or_tampering_fails_to_open() {
    let did = [1u8; 32];
    let kf = seal_identity(did, b"secret", "pass", [3u8; 16], [4u8; 12]).expect("seal");
    assert_eq!(open_identity(&kf, "other").err(), Some(KeyStoreError::DecryptionFailed));
    let mut bad_did = kf.clone();
    bad_did.did_hex = "zz".repeat(32);
    assert_eq!(open_identity(&bad_did, "pass").err(), Some(KeyStoreError::DecryptionFailed));
    let mut short_did = kf.clone();
    short_did.did_hex = "01".repeat(31);
    assert_eq!(open_identity(&short_did, "pass").err(), Some(KeyStoreError::DecryptionFailed));
    let mut bad_nonce = kf.clone();
    bad_nonce.nonce_b64 = "AAAA".to_string();
    assert_eq!(open_identity(&bad_nonce, "pass").err(), Some(KeyStoreError::DecryptionFailed));
    let mut bad_b64 = kf.clone();
    bad_b64.ciphertext_b64 = "not base64!".to_string();
    assert_eq!(open_identity(&bad_b64, "pass").err(), Some(KeyStoreError::DecryptionFailed));
}

#[test]
fn short_salt_is_a_key_derivation_error() {
    let kf = KeyFile {
        version: 1,
        did_hex: "00".repeat(32),
        salt_b64: "AAAA".to_string(),
        nonce_b64: "CQkJCQkJCQkJCQkJ".to_string(),
        ciphertext_b64: "AAAA".to_string(),
    };
    assert!(matches!(open_identity(&kf, "pass"), Err(KeyStoreError::Kdf(_))));
}

#[test]
fn fresh_seals_differ_but_both_open() {
    let did = [2u8; 32];
    let a = seal_new_identity(did, b"k", "pw").expect("seal");
    let b = seal_new_identity(did, b"k", "pw").expect("seal");
    assert_ne!(a.salt_b64, b.salt_b64);
    assert_eq!(open_identity(&a, "pw").expect("open").signing_key_bytes, b"k".to_vec());
    assert_eq!(open_identity(&b, "pw").expect("open").did, did);
}

// ── Agent registration client ───────────────────────────────────────────────

use arthneura_core::agent_client::{
    decode_fixed_bytes, decode_hex32, new_registration, prepare_registration, register_or_load_next,
    RegisterOrLoadAction, RegisterOrLoadEvent, RegisterOrLoadState,
};
use arthneura_core::agent_registry::AgentStatus;
use ml_dsa::{EncodedSignature, KeyInit, MlDsa65, Signature, Verifier, VerifyingKey};
use parity_scale_codec::Encode;

#[test]
fn registration_proof_verifies_over_the_node_challenge() {
    let genesis = [1u8; 32];
    let controller = [2u8; 32];
    let hash = [3u8; 32];
    let reg = prepare_registration([9u8; 32], genesis, controller, 77, hash);
    assert_eq!(reg.pubkey.len(), 1952);
    assert_eq!(reg.signature.len(), 3309);
    assert_eq!(reg.signing_key_bytes, vec![9u8; 32]);
    let mut pre = b"ArthNeura-DID-v1".to_vec();
    pre.extend_from_slice(&reg.pubkey);
    assert_eq!(reg.did, sp_crypto_hashing::blake2_256(&pre));
    let challenge = (genesis, reg.did, controller, 77u32, hash).encode();
    assert_eq!(challenge.len(), 32 * 4 + 4);
    let vk = <VerifyingKey<MlDsa65> as KeyInit>::new_from_slice(&reg.pubkey).expect("key");
    let sig = Signature::<MlDsa65>::try_from(reg.signature.as_slice()).expect("signature");
    assert!(vk.verify(&challenge, &sig).is_ok());
    // Deterministic signing: same seed and challenge give the same bytes.
    let again = prepare_registration([9u8; 32], genesis, controller, 77, hash);
    assert_eq!(again.signature, reg.signature);
    // Another block number is another challenge.
    let other = (genesis, reg.did, controller, 78u32, hash).encode();
    assert!(vk.verify(&other, &sig).is_err());
}

#[test]
fn fresh_registrations_have_distinct_keys() {
    let a = new_registration([0u8; 32], [0u8; 32], 1, [0u8; 32]).expect("random source");
    let b = new_registration([0u8; 32], [0u8; 32], 1, [0u8; 32]).expect("random source");
    assert_ne!(a.did, b.did);
    assert_ne!(a.signing_key_bytes, b.signing_key_bytes);
}

#[test]
fn status_variant_names() {
    assert_eq!(AgentStatus::Active.variant_name(), "Active");
    assert_eq!(AgentStatus::Suspended.variant_name(), "Suspended");
    assert_eq!(AgentStatus::Revoked.variant_name(), "Revoked");
}

#[test]
fn decode_fixed_bytes_cases() {
    let ok: Vec<Option<u128>> = (0..32u128).map(|i| Some(i + 250)).collect();
    let bytes = decode_fixed_bytes(&ok).expect("32 numbers");
    assert_eq!(bytes[0], 250);
    assert_eq!(bytes[6], 0);
    assert_eq!(bytes[31], 25);
    let mut one_bad = ok.clone();
    one_bad[5] = None;
    assert_eq!(decode_fixed_bytes(&one_bad), None);
    assert_eq!(decode_fixed_bytes(&ok[..31].to_vec()), None);
}

#[test]
fn decode_hex32_cases() {
    let s = "00ff".repeat(16);
    let b = decode_hex32(&s).expect("64 digits");
    assert_eq!(b[0], 0);
    assert_eq!(b[1], 0xff);
    assert_eq!(decode_hex32(&"AbCd".repeat(16)).unwrap()[1], 0xcd);
    assert_eq!(decode_hex32("abcd"), None);
    assert_eq!(decode_hex32(&"zz".repeat(32)), None);
    assert_eq!(decode_hex32(&"0".repeat(63)), None);
}

#[test]
fn register_or_load_loads_a_stored_identity() {
    let (s, a) = register_or_load_next(RegisterOrLoadState::Idle, RegisterOrLoadEvent::Start { identity_exists: true });
    assert_eq!((s.clone(), a), (RegisterOrLoadState::Loading, RegisterOrLoadAction::LoadIdentity));
    let (s, a) = register_or_load_next(s, RegisterOrLoadEvent::Loaded { did: [4u8; 32], key: vec![1, 2, 3] });
    assert_eq!(s, RegisterOrLoadState::Done);
    assert_eq!(a, RegisterOrLoadAction::Return { did: [4u8; 32], key: vec![1, 2, 3] });
}

#[test]
fn register_or_load_registers_then_saves_then_returns() {
    let (s, a) = register_or_load_next(RegisterOrLoadState::Idle, RegisterOrLoadEvent::Start { identity_exists: false });
    assert_eq!((s.clone(), a), (RegisterOrLoadState::Registering, RegisterOrLoadAction::RegisterAgent));
    let (s, a) = register_or_load_next(s, RegisterOrLoadEvent::Registered { did: [5u8; 32], key: vec![9; 32] });
    assert_eq!(a, RegisterOrLoadAction::SaveIdentity { did: [5u8; 32], key: vec![9; 32] });
    // Returning before the save is out of order.
    let (s, a) = register_or_load_next(s, RegisterOrLoadEvent::Loaded { did: [6u8; 32], key: vec![] });
    assert_eq!(a, RegisterOrLoadAction::OutOfOrder);
    let (s, a) = register_or_load_next(s, RegisterOrLoadEvent::Saved);
    assert_eq!(s, RegisterOrLoadState::Done);
    assert_eq!(a, RegisterOrLoadAction::Return { did: [5u8; 32], key: vec![9; 32] });
}
