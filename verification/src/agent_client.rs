//! Client side of agent registration: a fresh ML-DSA-65 identity, its
//! DID, and the proof of key possession over the challenge that a node
//! checks, plus small decoders for what a node sends back.
//!
//! A node's challenge is the SCALE encoding of `(genesis_hash, did,
//! controller, signed_at_block, signed_at_hash)` with a 32-byte account
//! id and a 32-bit block number.
use vstd::prelude::*;

use ml_dsa::{Generate, KeyExport, Keypair, Signer};

use crate::agent_registry::{derive_did, did_of, AgentStatus};
use crate::crypto::{mldsa65_outcome, ProofCheck, MLDSA65_PUBKEY_LEN, MLDSA65_SIG_LEN};
use crate::paths::{hex_decode, hex_decoded};
use crate::types::Did;

verus! {

/// Name for the encoded ML-DSA-65 verifying key of the signing key with
/// this seed.
pub uninterp spec fn mldsa65_public_key_of(seed: [u8; 32]) -> Seq<u8>;

/// Name for the encoded deterministic ML-DSA-65 signature of `msg` under
/// the signing key with this seed.
pub uninterp spec fn mldsa65_signature_of(seed: [u8; 32], msg: Seq<u8>) -> Seq<u8>;

/// `SigningKey::<MlDsa65>::try_generate()` then `KeyExport::to_bytes`:
/// the 32-byte seed of a fresh key from the operating system's random
/// source, or the random source's error message. Nothing is claimed of
/// the bytes, nor that the random source succeeds.
#[verifier::external_body]
fn mldsa65_generate_seed() -> Result<[u8; 32], String> {
    match <ml_dsa::SigningKey<ml_dsa::MlDsa65> as Generate>::try_generate() {
        Ok(sk) => Ok(sk.to_bytes().into()),
        Err(e) => Err(e.to_string()),
    }
}

/// `SigningKey::<MlDsa65>::from_seed(seed).verifying_key().encode()`:
/// the 1,952-byte encoded verifying key.
#[verifier::external_body]
fn mldsa65_public_key(seed: &[u8; 32]) -> (r: Vec<u8>)
    ensures
        r@ == mldsa65_public_key_of(*seed),
        r@.len() == MLDSA65_PUBKEY_LEN,
{
    let sk = ml_dsa::SigningKey::<ml_dsa::MlDsa65>::from_seed(&ml_dsa::B32::from(*seed));
    sk.verifying_key().encode().to_vec()
}

/// `SigningKey::<MlDsa65>::from_seed(seed).sign(msg).encode()`: the crate
/// signs deterministically with an empty context, and, as its
/// documentation shows, the key's verifying key accepts the signature.
/// The encoding is 3,309 bytes and decodes again.
#[verifier::external_body]
fn mldsa65_sign(seed: &[u8; 32], msg: &[u8]) -> (r: Vec<u8>)
    ensures
        r@ == mldsa65_signature_of(*seed, msg@),
        mldsa65_outcome(mldsa65_public_key_of(*seed), msg@, r@) == ProofCheck::Accepted,
{
    let sk = ml_dsa::SigningKey::<ml_dsa::MlDsa65>::from_seed(&ml_dsa::B32::from(*seed));
    sk.sign(msg).encode().to_vec()
}

/// Little-endian bytes of a `u32`, its SCALE encoding.
pub open spec fn le_bytes_u32(x: u32) -> Seq<u8> {
    seq![
        (x % 0x100) as u8,
        ((x / 0x100) % 0x100) as u8,
        ((x / 0x1_0000) % 0x100) as u8,
        ((x / 0x100_0000) % 0x100) as u8,
    ]
}

/// The challenge a node asks to be signed: SCALE of `(genesis_hash, did,
/// controller, signed_at_block, signed_at_hash)`, fields in order.
pub open spec fn node_challenge_of(
    genesis_hash: [u8; 32],
    did: Did,
    controller: [u8; 32],
    signed_at_block: u32,
    signed_at_hash: [u8; 32],
) -> Seq<u8> {
    genesis_hash@ + did@ + controller@ + le_bytes_u32(signed_at_block) + signed_at_hash@
}

/// `parity_scale_codec::Encode::encode` of the challenge tuple: arrays as
/// their bytes, the `u32` little-endian, fields in order.
#[verifier::external_body]
fn scale_encode_node_challenge(
    genesis_hash: [u8; 32],
    did: Did,
    controller: [u8; 32],
    signed_at_block: u32,
    signed_at_hash: [u8; 32],
) -> (r: Vec<u8>)
    ensures
        r@ == node_challenge_of(genesis_hash, did, controller, signed_at_block, signed_at_hash),
{
    parity_scale_codec::Encode::encode(&(genesis_hash, did, controller, signed_at_block, signed_at_hash))
}

/// What a client submits to register an agent, and keeps.
pub struct RegistrationProof {
    /// Encoded verifying key.
    pub pubkey: Vec<u8>,
    /// Signature over the node's challenge.
    pub signature: Vec<u8>,
    /// The DID the node will derive from `pubkey`.
    pub did: Did,
    /// Seed of the signing key, to be kept in the keystore.
    pub signing_key_bytes: Vec<u8>,
}

/// A registered identity: its DID and the seed of its signing key.
pub struct RegisteredAgent {
    pub did: Did,
    pub signing_key_bytes: Vec<u8>,
}

/// Builds the registration of the key with `seed`: its encoded verifying
/// key, the DID derived from it, and a signature over the node's
/// challenge that the key's own verifying key accepts.
pub fn prepare_registration(
    seed: [u8; 32],
    genesis_hash: [u8; 32],
    controller: [u8; 32],
    signed_at_block: u32,
    signed_at_hash: [u8; 32],
) -> (r: RegistrationProof)
    ensures
        r.pubkey@ == mldsa65_public_key_of(seed),
        r.did == did_of(r.pubkey@),
        r.signing_key_bytes@ == seed@,
        r.signature@ == mldsa65_signature_of(
            seed,
            node_challenge_of(genesis_hash, r.did, controller, signed_at_block, signed_at_hash),
        ),
        mldsa65_outcome(
            r.pubkey@,
            node_challenge_of(genesis_hash, r.did, controller, signed_at_block, signed_at_hash),
            r.signature@,
        ) == ProofCheck::Accepted,
{
    let pubkey = mldsa65_public_key(&seed);
    let did = derive_did(pubkey.as_slice());
    let challenge = scale_encode_node_challenge(
        genesis_hash,
        did,
        controller,
        signed_at_block,
        signed_at_hash,
    );
    let signature = mldsa65_sign(&seed, challenge.as_slice());
    let mut signing_key_bytes: Vec<u8> = Vec::new();
    let mut i: usize = 0;
    while i < 32
        invariant
            0 <= i <= 32,
            signing_key_bytes@ == seed@.take(i as int),
        decreases 32 - i,
    {
        signing_key_bytes.push(seed[i]);
        i = i + 1;
        assert(seed@.take(i as int) =~= seed@.take(i - 1).push(seed@[i - 1]));
    }
    assert(seed@.take(32) =~= seed@);
    RegistrationProof { pubkey, signature, did, signing_key_bytes }
}

/// A registration for a freshly generated key, or the random source's
/// error message where no key could be generated.
pub fn new_registration(
    genesis_hash: [u8; 32],
    controller: [u8; 32],
    signed_at_block: u32,
    signed_at_hash: [u8; 32],
) -> (r: Result<RegistrationProof, String>)
    ensures
        r matches Ok(p) ==> {
            &&& exists|seed: [u8; 32]|
                {
                    &&& p.pubkey@ == mldsa65_public_key_of(seed)
                    &&& p.signing_key_bytes@ == seed@
                }
            &&& p.did == did_of(p.pubkey@)
            &&& mldsa65_outcome(
                p.pubkey@,
                node_challenge_of(genesis_hash, p.did, controller, signed_at_block, signed_at_hash),
                p.signature@,
            ) == ProofCheck::Accepted
        },
{
    let seed = mldsa65_generate_seed()?;
    Ok(prepare_registration(seed, genesis_hash, controller, signed_at_block, signed_at_hash))
}

/// The name a node uses for a status in a call.
pub open spec fn status_name(s: AgentStatus) -> Seq<char> {
    match s {
        AgentStatus::Active => seq!['A', 'c', 't', 'i', 'v', 'e'],
        AgentStatus::Suspended => seq!['S', 'u', 's', 'p', 'e', 'n', 'd', 'e', 'd'],
        AgentStatus::Revoked => seq!['R', 'e', 'v', 'o', 'k', 'e', 'd'],
    }
}

impl AgentStatus {
    /// The variant's name, as a node expects it.
    pub fn variant_name(self) -> (r: &'static str)
        ensures
            r@ == status_name(self),
    {
        match self {
            AgentStatus::Active => {
                proof {
                    reveal_strlit("Active");
                }
                "Active"
            },
            AgentStatus::Suspended => {
                proof {
                    reveal_strlit("Suspended");
                }
                "Suspended"
            },
            AgentStatus::Revoked => {
                proof {
                    reveal_strlit("Revoked");
                }
                "Revoked"
            },
        }
    }
}

/// The 32 bytes a node reports as a sequence of numbers, each cut to its
/// low byte; `None` where there are not exactly 32 or one is not a number.
pub open spec fn fixed_bytes_of(values: Seq<Option<u128>>) -> Option<Seq<u8>> {
    if values.len() != 32 || exists|i: int| 0 <= i < 32 && #[trigger] values[i] is None {
        None
    } else {
        Some(Seq::new(32, |i: int| values[i]->Some_0 as u8))
    }
}

/// Reads a 32-byte value from the numbers a node reports for it: exactly
/// 32, each a number, each cut to its low byte.
pub fn decode_fixed_bytes(values: &Vec<Option<u128>>) -> (r: Option<[u8; 32]>)
    ensures
        match r {
            Some(b) => fixed_bytes_of(values@) == Some(b@),
            None => fixed_bytes_of(values@) is None,
        },
{
    if values.len() != 32 {
        return None;
    }
    let mut out = [0u8; 32];
    let mut i: usize = 0;
    while i < 32
        invariant
            values@.len() == 32,
            0 <= i <= 32,
            forall|j: int| #![trigger values@[j]] 0 <= j < i ==> values@[j] is Some,
            forall|j: int| #![trigger out[j]] 0 <= j < i ==> out[j] == values@[j]->Some_0 as u8,
        decreases 32 - i,
    {
        let ghost before = out;
        let x = values[i];
        match x {
            Some(v) => {
                let b: u8 = #[verifier::truncate] (v as u8);
                assert(b == values@[i as int]->Some_0 as u8);
                out[i] = b;
                assert forall|j: int| 0 <= j < i implies out[j] == before[j] by {}
            },
            None => {
                assert(values@[i as int] is None);
                return None;
            },
        }
        i = i + 1;
    }
    assert forall|j: int| 0 <= j < 32 implies !(#[trigger] values@[j] is None) by {}
    assert(out@ =~= Seq::new(32, |j: int| values@[j]->Some_0 as u8));
    Some(out)
}

/// A DID written as 64 hex digits (either case).
pub fn decode_hex32(s: &str) -> (r: Option<[u8; 32]>)
    ensures
        match r {
            Some(b) => hex_decoded(s@) == Some(b@),
            None => !(hex_decoded(s@) is Some && hex_decoded(s@)->Some_0.len() == 32),
        },
{
    let v = match hex_decode(s) {
        Some(v) => v,
        None => {
            return None;
        },
    };
    if v.len() != 32 {
        return None;
    }
    let mut out = [0u8; 32];
    let mut i: usize = 0;
    while i < 32
        invariant
            v@.len() == 32,
            0 <= i <= 32,
            forall|j: int| 0 <= j < i ==> out[j] == v@[j],
        decreases 32 - i,
    {
        out[i] = v[i];
        i = i + 1;
    }
    assert(out@ =~= v@);
    Some(out)
}

/// Where loading or registering an agent's identity stands.
#[derive(Clone, Debug, PartialEq, Eq)]
pub enum RegisterOrLoadState {
    /// Nothing done yet.
    Idle,
    /// Reading the stored identity.
    Loading,
    /// Registering a fresh identity on chain.
    Registering,
    /// Saving the freshly registered identity before returning it.
    Saving { did: Did, key: Vec<u8> },
    /// The identity has been returned.
    Done,
}

/// What the caller reports back after the last action.
#[derive(Clone, Debug, PartialEq, Eq)]
pub enum RegisterOrLoadEvent {
    /// The call begins; whether an identity is stored under the label.
    Start { identity_exists: bool },
    /// The stored identity was read and decrypted.
    Loaded { did: Did, key: Vec<u8> },
    /// A fresh identity was registered on chain.
    Registered { did: Did, key: Vec<u8> },
    /// The fresh identity was written to the keystore.
    Saved,
}

/// What the caller does next.
#[derive(Clone, Debug, PartialEq, Eq)]
pub enum RegisterOrLoadAction {
    /// Read and decrypt the stored identity.
    LoadIdentity,
    /// Register a fresh identity on chain.
    RegisterAgent,
    /// Write this identity to the keystore.
    SaveIdentity { did: Did, key: Vec<u8> },
    /// Hand this identity to the caller; the call is over.
    Return { did: Did, key: Vec<u8> },
    /// The event does not belong to the current state; nothing changes.
    OutOfOrder,
}

/// The step from `state` on `event` to `next` with `action`: a stored
/// identity is loaded and returned as it is, and never replaced by a
/// registration; without one a fresh identity is registered, saved, and
/// only then returned. Any other pairing is out of order and changes
/// nothing.
pub open spec fn register_or_load_step(
    state: RegisterOrLoadState,
    event: RegisterOrLoadEvent,
    next: RegisterOrLoadState,
    action: RegisterOrLoadAction,
) -> bool {
    match (state, event) {
        (RegisterOrLoadState::Idle, RegisterOrLoadEvent::Start { identity_exists }) => if identity_exists {
            next == RegisterOrLoadState::Loading && action == RegisterOrLoadAction::LoadIdentity
        } else {
            next == RegisterOrLoadState::Registering && action == RegisterOrLoadAction::RegisterAgent
        },
        (RegisterOrLoadState::Loading, RegisterOrLoadEvent::Loaded { did, key }) => {
            &&& next == RegisterOrLoadState::Done
            &&& action matches RegisterOrLoadAction::Return { did: d, key: k } && d == did && k@
                == key@
        },
        (RegisterOrLoadState::Registering, RegisterOrLoadEvent::Registered { did, key }) => {
            &&& next matches RegisterOrLoadState::Saving { did: d, key: k } && d == did && k@
                == key@
            &&& action matches RegisterOrLoadAction::SaveIdentity { did: d, key: k } && d == did
                && k@ == key@
        },
        (RegisterOrLoadState::Saving { did, key }, RegisterOrLoadEvent::Saved) => {
            &&& next == RegisterOrLoadState::Done
            &&& action matches RegisterOrLoadAction::Return { did: d, key: k } && d == did && k@
                == key@
        },
        _ => next == state && action == RegisterOrLoadAction::OutOfOrder,
    }
}

/// One step of loading the stored identity under a label, or else
/// registering a fresh one and saving it before it is returned, so that a
/// restart finds the same DID again.
pub fn register_or_load_next(state: RegisterOrLoadState, event: RegisterOrLoadEvent) -> (r: (
    RegisterOrLoadState,
    RegisterOrLoadAction,
))
    ensures
        register_or_load_step(state, event, r.0, r.1),
{
    match (state, event) {
        (RegisterOrLoadState::Idle, RegisterOrLoadEvent::Start { identity_exists }) => {
            if identity_exists {
                (RegisterOrLoadState::Loading, RegisterOrLoadAction::LoadIdentity)
            } else {
                (RegisterOrLoadState::Registering, RegisterOrLoadAction::RegisterAgent)
            }
        },
        (RegisterOrLoadState::Loading, RegisterOrLoadEvent::Loaded { did, key }) => {
            (RegisterOrLoadState::Done, RegisterOrLoadAction::Return { did, key })
        },
        (RegisterOrLoadState::Registering, RegisterOrLoadEvent::Registered { did, key }) => {
            let saved = key.clone();
            (RegisterOrLoadState::Saving { did, key: saved }, RegisterOrLoadAction::SaveIdentity {
                did,
                key,
            })
        },
        (RegisterOrLoadState::Saving { did, key }, RegisterOrLoadEvent::Saved) => {
            (RegisterOrLoadState::Done, RegisterOrLoadAction::Return { did, key })
        },
        (state, _) => (state, RegisterOrLoadAction::OutOfOrder),
    }
}

} // verus!
