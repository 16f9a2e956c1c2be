//! On-chain DID registry for autonomous agents.
//!
//! Each agent gets an [`AgentProfile`] keyed by a 32-byte [`Did`] derived
//! from its ML-DSA-65 public key, a capability bitmap, a lifecycle status
//! and a peer-reputation score. The registry stores and serves identity;
//! it does not route trades or enforce decisions between agents.
//!
//! Storage: profiles by DID; a reverse index from controller to its DIDs
//! (at most 64); the count of non-revoked agents; the star ledger
//! `(giver, receiver) -> block of last star` (zero: never starred); and
//! the dispute-strike counter of each DID.
use vstd::prelude::*;

use crate::crypto::{
    blake2_256, blake2_256_of, mldsa65_check, mldsa65_outcome, scale_encode_tuple,
    scale_tuple_spec, ProofCheck,
};
use crate::ledger::{min_balance, AccountData, Chain, Ledger};
use crate::table::{bytes32_eq, Table};
use crate::types::{
    ensure_signed, AccountId, Balance, BlockNumber, Did, DispatchError, Origin, Weight,
};

verus! {

/// Max bytes of the `metadata` field.
pub const MAX_METADATA_LEN: u32 = 256;

/// Max bytes of the display `label` field.
pub const MAX_LABEL_LEN: u32 = 64;

/// ML-DSA-65 public key length in bytes (FIPS 204).
pub const MAX_PUBKEY_LEN: u32 = 1952;

/// ML-DSA-65 signature length in bytes (FIPS 204).
pub const MAX_SIG_LEN: u32 = 3309;

/// Registration challenge replay window, in blocks.
pub const REPLAY_WINDOW: u64 = 64;

/// Most DIDs one controller may hold.
pub const MAX_AGENTS_PER_CONTROLLER: usize = 64;

/// 64-bit permission mask; undefined bits are accepted without validation.
pub type CapabilityBitmap = u64;

pub const CAP_DATA_PROVIDER: CapabilityBitmap = 1;

pub const CAP_INFERENCE_ENGINE: CapabilityBitmap = 2;

pub const CAP_ORCHESTRATOR: CapabilityBitmap = 4;

pub const CAP_VERIFIER: CapabilityBitmap = 8;

pub const CAP_MARKETPLACE_SELLER: CapabilityBitmap = 16;

pub const CAP_MARKETPLACE_BUYER: CapabilityBitmap = 32;

/// Lifecycle state of a registered agent: `Active` and `Suspended` are
/// interchangeable by the controller; `Revoked` is terminal.
#[derive(Clone, Copy, Debug, PartialEq, Eq, Structural)]
pub enum AgentStatus {
    /// Profile is live and queryable.
    Active,
    /// Temporarily blocked: reads allowed, profile writes blocked.
    Suspended,
    /// Permanently revoked; kept on-chain as an audit record.
    Revoked,
}

/// Post-quantum signature scheme of an agent's identity proof.
#[derive(Clone, Copy, Debug, PartialEq, Eq, Structural)]
pub enum QuantumScheme {
    /// FIPS 204 ML-DSA, parameter set 65.
    MlDsa65,
}

/// On-chain identity record of an agent.
#[derive(Clone, Debug, PartialEq, Eq)]
pub struct AgentProfile {
    /// Identity hash; immutable after registration.
    pub did: Did,
    /// Account that owns and controls this profile.
    pub controller: AccountId,
    /// Permission bitmap, see the `CAP_*` constants.
    pub capabilities: CapabilityBitmap,
    /// Peer-star reputation score, starting at 0.
    pub reputation_score: u32,
    /// Current lifecycle state.
    pub status: AgentStatus,
    /// Block of registration.
    pub registered_at: BlockNumber,
    /// Always true: a failed proof reverts registration.
    pub is_verified: bool,
    /// Scheme of the identity proof.
    pub quantum_scheme: QuantumScheme,
    /// Optional structured metadata, at most 256 bytes.
    pub metadata: Vec<u8>,
    /// Optional display name, at most 64 bytes.
    pub label: Vec<u8>,
}

/// Runtime constants of the registry.
#[derive(Clone, Copy, Debug, PartialEq, Eq, Structural)]
pub struct RegistryConfig {
    /// Blocks that must pass between two stars of one giver to one receiver.
    pub star_cooldown: BlockNumber,
    /// Deposit reserved from the controller on registration.
    pub registration_deposit: Balance,
    /// Guilty deliveries after which part of the deposit is slashed.
    pub strike_threshold: u32,
    /// Deposit burned each time the strike threshold is reached.
    pub deposit_slash_per_strike: Balance,
}

#[derive(Clone, Copy, Debug, PartialEq, Eq)]
pub enum RegistryEvent {
    /// New agent registered.
    AgentRegistered { did: Did, controller: AccountId },
    /// Mutable profile fields updated.
    AgentProfileUpdated { did: Did },
    /// Lifecycle status changed.
    AgentStatusChanged { did: Did, new_status: AgentStatus },
    /// A star was given.
    StarGiven { giver: Did, receiver: Did },
    /// A star was removed.
    StarRemoved { giver: Did, receiver: Did },
    /// Agent left voluntarily; deposit returned.
    AgentDeregistered { did: Did, controller: AccountId },
    /// Protocol penalty on the reputation score (`amount` as requested).
    ReputationSlashed { did: Did, amount: u32, new_score: u32 },
    /// Part of the controller's deposit burned after repeated guilty
    /// deliveries (`amount` as actually burned).
    DepositSlashed { did: Did, controller: AccountId, amount: Balance, strikes_at_slash: u32 },
}

#[derive(Clone, Copy, Debug, PartialEq, Eq, Structural)]
pub enum RegistryError {
    /// A profile already exists for the derived DID.
    DidAlreadyRegistered,
    /// No profile for the DID.
    DidNotFound,
    /// Caller does not control the DID.
    NotController,
    /// The agent is revoked; writes are blocked.
    AgentRevoked,
    /// The controller already holds 64 DIDs.
    TooManyAgentsForController,
    /// The star cooldown for this pair has not elapsed.
    CooldownNotExpired,
    /// No star recorded for this pair.
    NotStarred,
    /// Giver and receiver are the same DID.
    CannotStarSelf,
    /// Giver and receiver share a controller.
    CannotStarSameController,
    /// The public key is not 1,952 bytes.
    InvalidPubkeyLength,
    /// The signature is not a well-formed 3,309-byte encoding.
    InvalidSignatureLength,
    /// `signed_at_block` lies ahead of the current block.
    InvalidChallengeBlock,
    /// `signed_at_block` lies outside the replay window.
    ChallengeExpired,
    /// The ML-DSA-65 signature does not verify.
    InvalidQuantumProof,
    /// Free balance below the registration deposit.
    InsufficientBalanceForDeposit,
    /// Deregistration of a revoked agent.
    AgentAlreadyRevoked,
}

pub open spec fn reg_err<T>(e: RegistryError) -> Result<T, DispatchError> {
    Err(DispatchError::AgentRegistry(e))
}

/// The bytes of "ArthNeura-DID-v1", the DID domain tag.
pub open spec fn did_domain_tag() -> Seq<u8> {
    seq![65u8, 114, 116, 104, 78, 101, 117, 114, 97, 45, 68, 73, 68, 45, 118, 49]
}

/// DID of a public key: `blake2_256("ArthNeura-DID-v1" ++ pubkey)`.
pub open spec fn did_of(pubkey: Seq<u8>) -> Did {
    blake2_256_of(did_domain_tag() + pubkey)
}

/// Registration challenge: the SCALE encoding of
/// `(genesis_hash, did, controller, signed_at_block, signed_at_hash)`.
pub open spec fn challenge_of(
    genesis_hash: [u8; 32],
    did: Did,
    controller: AccountId,
    signed_at_block: BlockNumber,
    signed_at_hash: [u8; 32],
) -> Seq<u8> {
    scale_tuple_spec(genesis_hash, did, controller, signed_at_block, signed_at_hash)
}

/// Appends the bytes of `s` to `v`.
pub fn append_bytes(v: &mut Vec<u8>, s: &[u8])
    ensures
        final(v)@ == old(v)@ + s@,
{
    let mut i: usize = 0;
    let ghost v0 = v@;
    while i < s.len()
        invariant
            0 <= i <= s@.len(),
            v@ == v0 + s@.take(i as int),
        decreases s@.len() - i,
    {
        v.push(s[i]);
        i = i + 1;
        assert(s@.take(i as int) =~= s@.take(i - 1).push(s@[i - 1]));
    }
    assert(s@.take(s@.len() as int) =~= s@);
}

/// Derives a DID exactly as registration does.
pub fn derive_did(pubkey: &[u8]) -> (did: Did)
    ensures
        did == did_of(pubkey@),
{
    let mut preimage: Vec<u8> = vec![65u8, 114, 116, 104, 78, 101, 117, 114, 97, 45, 68, 73, 68, 45, 118, 49];
    assert(preimage@ =~= did_domain_tag());
    append_bytes(&mut preimage, pubkey);
    blake2_256(preimage.as_slice())
}

/// Builds the exact challenge bytes that registration verifies against.
pub fn build_challenge(
    genesis_hash: [u8; 32],
    did: Did,
    controller: AccountId,
    signed_at_block: BlockNumber,
    signed_at_hash: [u8; 32],
) -> (r: Vec<u8>)
    ensures
        r@ == challenge_of(genesis_hash, did, controller, signed_at_block, signed_at_hash),
{
    scale_encode_tuple(genesis_hash, did, controller, signed_at_block, signed_at_hash)
}

/// Whether `v` holds `d`.
pub fn contains_did(v: &Vec<Did>, d: &Did) -> (r: bool)
    ensures
        r == v@.contains(*d),
{
    let mut i: usize = 0;
    while i < v.len()
        invariant
            0 <= i <= v@.len(),
            forall|j: int| 0 <= j < i ==> v@[j] != *d,
        decreases v@.len() - i,
    {
        if bytes32_eq(&v[i], d) {
            assert(v@[i as int] == *d);
            return true;
        }
        i = i + 1;
    }
    false
}

pub open spec fn not_did(d: Did) -> spec_fn(Did) -> bool {
    |x: Did| x != d
}

/// `v` without every occurrence of `d`, order kept.
pub fn without_did(v: &Vec<Did>, d: &Did) -> (r: Vec<Did>)
    ensures
        r@ == v@.filter(not_did(*d)),
{
    let mut r: Vec<Did> = Vec::new();
    let mut i: usize = 0;
    while i < v.len()
        invariant
            0 <= i <= v@.len(),
            r@ == v@.take(i as int).filter(not_did(*d)),
        decreases v@.len() - i,
    {
        let x = v[i];
        proof {
            reveal_with_fuel(Seq::filter, 1);
            assert(v@.take(i + 1).drop_last() =~= v@.take(i as int));
        }
        if !bytes32_eq(&x, d) {
            r.push(x);
        }
        i = i + 1;
    }
    assert(v@.take(v@.len() as int) =~= v@);
    r
}

/// DIDs of the profiles that are not revoked.
pub open spec fn live_dids(profiles: Map<Did, AgentProfile>) -> Set<Did> {
    profiles.dom().filter(|d: Did| profiles[d].status != AgentStatus::Revoked)
}

proof fn lemma_live_insert(m: Map<Did, AgentProfile>, d: Did, p: AgentProfile)
    requires
        m.dom().finite(),
    ensures
        live_dids(m).finite(),
        live_dids(m.insert(d, p)).finite(),
        p.status != AgentStatus::Revoked ==> live_dids(m.insert(d, p)) == live_dids(m).insert(d),
        p.status == AgentStatus::Revoked ==> live_dids(m.insert(d, p)) == live_dids(m).remove(d),
{
    let m2 = m.insert(d, p);
    assert(live_dids(m).subset_of(m.dom()));
    vstd::set_lib::lemma_len_subset(live_dids(m), m.dom());
    assert(m2.dom() =~= m.dom().insert(d));
    assert(live_dids(m2).subset_of(m2.dom()));
    vstd::set_lib::lemma_len_subset(live_dids(m2), m2.dom());
    if p.status != AgentStatus::Revoked {
        assert(live_dids(m2) =~= live_dids(m).insert(d));
    } else {
        assert(live_dids(m2) =~= live_dids(m).remove(d));
    }
}

proof fn lemma_live_remove(m: Map<Did, AgentProfile>, d: Did)
    requires
        m.dom().finite(),
    ensures
        live_dids(m).finite(),
        live_dids(m.remove(d)) == live_dids(m).remove(d),
{
    assert(live_dids(m).subset_of(m.dom()));
    vstd::set_lib::lemma_len_subset(live_dids(m), m.dom());
    assert(live_dids(m.remove(d)) =~= live_dids(m).remove(d));
}

proof fn lemma_filter_keeps_all(s: Seq<Did>, d: Did)
    requires
        !s.contains(d),
    ensures
        s.filter(not_did(d)) == s,
    decreases s.len(),
{
    reveal_with_fuel(Seq::filter, 1);
    if s.len() == 0 {
        assert(s.filter(not_did(d)) =~= s);
    } else {
        let t = s.drop_last();
        assert(!t.contains(d)) by {
            if t.contains(d) {
                let i = choose|i: int| 0 <= i < t.len() && t[i] == d;
                assert(s[i] == d);
            }
        }
        lemma_filter_keeps_all(t, d);
        assert(s.last() != d) by {
            assert(s[s.len() - 1] == s.last());
        }
        assert(t.push(s.last()) =~= s);
    }
}

proof fn lemma_filter_push_absent(s: Seq<Did>, d: Did)
    requires
        !s.contains(d),
    ensures
        s.push(d).filter(not_did(d)) == s,
{
    reveal_with_fuel(Seq::filter, 1);
    assert(s.push(d).drop_last() =~= s);
    lemma_filter_keeps_all(s, d);
}

proof fn lemma_filter_not_did(s: Seq<Did>, d: Did)
    ensures
        forall|x: Did| #[trigger] s.filter(not_did(d)).contains(x) <==> (s.contains(x) && x != d),
        s.no_duplicates() ==> s.filter(not_did(d)).no_duplicates(),
        s.filter(not_did(d)).len() <= s.len(),
    decreases s.len(),
{
    reveal_with_fuel(Seq::filter, 1);
    let f = s.filter(not_did(d));
    if s.len() == 0 {
        assert(f =~= s);
    } else {
        let t = s.drop_last();
        lemma_filter_not_did(t, d);
        let ft = t.filter(not_did(d));
        assert forall|x: Did| #[trigger] f.contains(x) <==> (s.contains(x) && x != d) by {
            if s.contains(x) && x != d {
                let i = choose|i: int| 0 <= i < s.len() && s[i] == x;
                if i < s.len() - 1 {
                    assert(t[i] == x);
                    assert(t.contains(x));
                    assert(ft.contains(x));
                    if s.last() != d {
                        assert(f == ft.push(s.last()));
                        let k = choose|k: int| 0 <= k < ft.len() && ft[k] == x;
                        assert(f[k] == x);
                    }
                } else {
                    assert(f == ft.push(s.last()));
                    assert(f[f.len() - 1] == x);
                }
            }
            if f.contains(x) {
                let k = choose|k: int| 0 <= k < f.len() && f[k] == x;
                if s.last() != d {
                    assert(f == ft.push(s.last()));
                    if k < ft.len() {
                        assert(ft[k] == x);
                        assert(ft.contains(x));
                        let i = choose|i: int| 0 <= i < t.len() && t[i] == x;
                        assert(s[i] == x);
                    } else {
                        assert(s[s.len() - 1] == x);
                    }
                } else {
                    assert(f == ft);
                    assert(ft[k] == x);
                    assert(ft.contains(x));
                    let i = choose|i: int| 0 <= i < t.len() && t[i] == x;
                    assert(s[i] == x);
                }
            }
        }
        if s.no_duplicates() {
            assert(t.no_duplicates());
            if s.last() != d {
                assert(f == ft.push(s.last()));
                assert(!t.contains(s.last()));
                assert(!ft.contains(s.last()));
                assert forall|i: int, j: int| 0 <= i < f.len() && 0 <= j < f.len() && i != j implies f[i] != f[j] by {
                    if i < ft.len() && j < ft.len() {
                    } else if i == ft.len() {
                        assert(ft[j] != s.last()) by {
                            if ft[j] == s.last() {
                                assert(ft.contains(s.last()));
                            }
                        }
                    } else {
                        assert(ft[i] != s.last()) by {
                            if ft[i] == s.last() {
                                assert(ft.contains(s.last()));
                            }
                        }
                    }
                }
            } else {
                assert(f == ft);
            }
        }
    }
}

/// Registry storage and the events emitted so far.
#[derive(Clone, Debug, PartialEq, Eq)]
pub struct AgentRegistry {
    config: RegistryConfig,
    profiles: Table<Did, AgentProfile>,
    controller_agents: Table<AccountId, Vec<Did>>,
    active_agent_count: u32,
    star_givers: Table<(Did, Did), BlockNumber>,
    dispute_strikes: Table<Did, u32>,
    events: Vec<RegistryEvent>,
}

pub open spec fn sat_add_u32(a: u32, b: u32) -> u32 {
    if a + b <= u32::MAX {
        (a + b) as u32
    } else {
        u32::MAX
    }
}

pub open spec fn sat_sub_u32(a: u32, b: u32) -> u32 {
    if a >= b {
        (a - b) as u32
    } else {
        0
    }
}

pub open spec fn sat_add_u64(a: u64, b: u64) -> u64 {
    if a + b <= u64::MAX {
        (a + b) as u64
    } else {
        u64::MAX
    }
}

impl AgentRegistry {
    pub closed spec fn wf(&self) -> bool {
        &&& self.profiles.wf()
        &&& self.controller_agents.wf()
        &&& self.star_givers.wf()
        &&& self.dispute_strikes.wf()
    }

    /// Profiles by DID.
    pub closed spec fn profiles(&self) -> Map<Did, AgentProfile> {
        self.profiles@
    }

    /// DIDs of the controller's reverse index (empty where none).
    pub closed spec fn controller_dids(&self, c: AccountId) -> Seq<Did> {
        if self.controller_agents@.contains_key(c) {
            self.controller_agents@[c]@
        } else {
            Seq::empty()
        }
    }

    pub closed spec fn active_count(&self) -> u32 {
        self.active_agent_count
    }

    /// Block of the last star from `giver` to `receiver`; 0 if none.
    pub closed spec fn star_at(&self, giver: Did, receiver: Did) -> BlockNumber {
        if self.star_givers@.contains_key((giver, receiver)) {
            self.star_givers@[(giver, receiver)]
        } else {
            0
        }
    }

    /// Dispute strikes of `did`; 0 if none.
    pub closed spec fn strikes(&self, did: Did) -> u32 {
        if self.dispute_strikes@.contains_key(did) {
            self.dispute_strikes@[did]
        } else {
            0
        }
    }

    pub closed spec fn event_log(&self) -> Seq<RegistryEvent> {
        self.events@
    }

    pub closed spec fn config(&self) -> RegistryConfig {
        self.config
    }

    pub open spec fn same_index(&self, other: &AgentRegistry) -> bool {
        forall|c: AccountId| #[trigger] self.controller_dids(c) == other.controller_dids(c)
    }

    pub open spec fn same_stars(&self, other: &AgentRegistry) -> bool {
        forall|g: Did, r: Did| #[trigger] self.star_at(g, r) == other.star_at(g, r)
    }

    pub open spec fn same_strikes(&self, other: &AgentRegistry) -> bool {
        forall|d: Did| #[trigger] self.strikes(d) == other.strikes(d)
    }

    /// Nothing in `self` differs from `other`.
    pub open spec fn unchanged_from(&self, other: &AgentRegistry) -> bool {
        &&& self.profiles() == other.profiles()
        &&& self.same_index(other)
        &&& self.active_count() == other.active_count()
        &&& self.same_stars(other)
        &&& self.same_strikes(other)
        &&& self.event_log() == other.event_log()
        &&& self.config() == other.config()
    }


    /// The reverse index and the profiles agree: each profile is stored
    /// under its own DID and listed once under its controller, each listed
    /// DID has a profile with that controller, and no controller lists more
    /// than 64 DIDs.
    pub open spec fn index_consistent(&self) -> bool {
        &&& forall|d: Did| #[trigger]
            self.profiles().contains_key(d) ==> self.profiles()[d].did == d
                && self.controller_dids(self.profiles()[d].controller).contains(d)
        &&& forall|c: AccountId, i: int|
            0 <= i < self.controller_dids(c).len() ==> self.profiles().contains_key(
                #[trigger] self.controller_dids(c)[i],
            ) && self.profiles()[self.controller_dids(c)[i]].controller == c
        &&& forall|c: AccountId| #[trigger]
            self.controller_dids(c).no_duplicates() && self.controller_dids(c).len()
                <= MAX_AGENTS_PER_CONTROLLER
    }

    /// The active count is the number of profiles that are not revoked.
    pub open spec fn count_consistent(&self) -> bool {
        self.active_count() == live_dids(self.profiles()).len()
    }

    /// The registry invariant that every call preserves.
    pub open spec fn inv(&self) -> bool {
        &&& self.wf()
        &&& self.index_consistent()
        &&& self.count_consistent()
    }

    proof fn lemma_profiles_finite(&self)
        ensures
            self.profiles().dom().finite(),
            live_dids(self.profiles()).finite(),
    {
        self.profiles.lemma_dom_finite();
        assert(live_dids(self.profiles()).subset_of(self.profiles().dom()));
        vstd::set_lib::lemma_len_subset(live_dids(self.profiles()), self.profiles().dom());
    }

    /// Replacing a profile by one with the same DID, controller and status
    /// keeps the invariant.
    proof fn lemma_same_identity_keeps_inv(old: AgentRegistry, new: AgentRegistry, did: Did, p: AgentProfile)
        requires
            old.inv(),
            new.wf(),
            old.profiles().contains_key(did),
            p.did == did,
            p.controller == old.profiles()[did].controller,
            p.status == old.profiles()[did].status,
            new.profiles() == old.profiles().insert(did, p),
            new.same_index(&old),
            new.active_count() == old.active_count(),
        ensures
            new.inv(),
    {
        old.lemma_profiles_finite();
        lemma_live_insert(old.profiles(), did, p);
        if p.status != AgentStatus::Revoked {
            assert(live_dids(new.profiles()) =~= live_dids(old.profiles()));
        } else {
            assert(live_dids(new.profiles()) =~= live_dids(old.profiles()));
        }
        assert forall|d: Did| #[trigger] new.profiles().contains_key(d) implies new.profiles()[d].did == d
            && new.controller_dids(new.profiles()[d].controller).contains(d) by {
            assert(old.profiles().contains_key(d));
            assert(new.controller_dids(new.profiles()[d].controller) == old.controller_dids(
                old.profiles()[d].controller,
            ));
        }
        assert forall|c: AccountId, i: int| 0 <= i < new.controller_dids(c).len() implies new.profiles().contains_key(
            #[trigger] new.controller_dids(c)[i],
        ) && new.profiles()[new.controller_dids(c)[i]].controller == c by {
            assert(new.controller_dids(c) == old.controller_dids(c));
            assert(old.profiles().contains_key(old.controller_dids(c)[i]));
        }
        assert forall|c: AccountId| #[trigger] new.controller_dids(c).no_duplicates() && new.controller_dids(c).len()
                <= MAX_AGENTS_PER_CONTROLLER by {
            assert(new.controller_dids(c) == old.controller_dids(c));
        }
    }

    /// A state with the same profiles, index and count keeps the invariant.
    proof fn lemma_frame_keeps_inv(old: AgentRegistry, new: AgentRegistry)
        requires
            old.inv(),
            new.wf(),
            new.profiles() == old.profiles(),
            new.same_index(&old),
            new.active_count() == old.active_count(),
        ensures
            new.inv(),
    {
        assert forall|d: Did| #[trigger] new.profiles().contains_key(d) implies new.profiles()[d].did == d
            && new.controller_dids(new.profiles()[d].controller).contains(d) by {
            assert(new.controller_dids(new.profiles()[d].controller) == old.controller_dids(
                old.profiles()[d].controller,
            ));
        }
        assert forall|c: AccountId, i: int| 0 <= i < new.controller_dids(c).len() implies new.profiles().contains_key(
            #[trigger] new.controller_dids(c)[i],
        ) && new.profiles()[new.controller_dids(c)[i]].controller == c by {
            assert(new.controller_dids(c) == old.controller_dids(c));
            assert(old.profiles().contains_key(old.controller_dids(c)[i]));
        }
        assert forall|c: AccountId| #[trigger] new.controller_dids(c).no_duplicates() && new.controller_dids(c).len()
                <= MAX_AGENTS_PER_CONTROLLER by {
            assert(new.controller_dids(c) == old.controller_dids(c));
        }
    }

    /// A status change of a non-revoked agent keeps the invariant when the
    /// count drops by one exactly on revocation.
    proof fn lemma_status_change_keeps_inv(old: AgentRegistry, new: AgentRegistry, did: Did, new_status: AgentStatus)
        requires
            old.inv(),
            new.wf(),
            old.profiles().contains_key(did),
            old.profiles()[did].status != AgentStatus::Revoked,
            new.profiles() == old.profiles().insert(did, AgentProfile { status: new_status, ..old.profiles()[did] }),
            new.same_index(&old),
            new.active_count() == if new_status == AgentStatus::Revoked {
                sat_sub_u32(old.active_count(), 1)
            } else {
                old.active_count()
            },
        ensures
            new.inv(),
    {
        let p = AgentProfile { status: new_status, ..old.profiles()[did] };
        old.lemma_profiles_finite();
        lemma_live_insert(old.profiles(), did, p);
        assert(live_dids(old.profiles()).contains(did));
        if new_status != AgentStatus::Revoked {
            assert(live_dids(new.profiles()) =~= live_dids(old.profiles()));
        } else {
            assert(live_dids(new.profiles()).len() == live_dids(old.profiles()).len() - 1);
        }
        assert forall|d: Did| #[trigger] new.profiles().contains_key(d) implies new.profiles()[d].did == d
            && new.controller_dids(new.profiles()[d].controller).contains(d) by {
            assert(old.profiles().contains_key(d));
            assert(new.controller_dids(new.profiles()[d].controller) == old.controller_dids(
                old.profiles()[d].controller,
            ));
        }
        assert forall|c: AccountId, i: int| 0 <= i < new.controller_dids(c).len() implies new.profiles().contains_key(
            #[trigger] new.controller_dids(c)[i],
        ) && new.profiles()[new.controller_dids(c)[i]].controller == c by {
            assert(new.controller_dids(c) == old.controller_dids(c));
            assert(old.profiles().contains_key(old.controller_dids(c)[i]));
        }
        assert forall|c: AccountId| #[trigger] new.controller_dids(c).no_duplicates() && new.controller_dids(c).len()
                <= MAX_AGENTS_PER_CONTROLLER by {
            assert(new.controller_dids(c) == old.controller_dids(c));
        }
    }

    /// Registering a new DID under `controller` keeps the invariant.
    proof fn lemma_register_keeps_inv(old: AgentRegistry, new: AgentRegistry, did: Did, p: AgentProfile)
        requires
            old.inv(),
            new.wf(),
            !old.profiles().contains_key(did),
            old.controller_dids(p.controller).len() < MAX_AGENTS_PER_CONTROLLER,
            old.active_count() < u32::MAX,
            p.did == did,
            p.status == AgentStatus::Active,
            new.profiles() == old.profiles().insert(did, p),
            new.controller_dids(p.controller) == old.controller_dids(p.controller).push(did),
            forall|c: AccountId| c != p.controller ==> #[trigger] new.controller_dids(c) == old.controller_dids(c),
            new.active_count() == old.active_count() + 1,
        ensures
            new.inv(),
    {
        let ctl = p.controller;
        old.lemma_profiles_finite();
        lemma_live_insert(old.profiles(), did, p);
        assert(!live_dids(old.profiles()).contains(did));
        assert forall|d: Did| #[trigger] new.profiles().contains_key(d) implies new.profiles()[d].did == d
            && new.controller_dids(new.profiles()[d].controller).contains(d) by {
            if d == did {
                assert(new.controller_dids(ctl)[new.controller_dids(ctl).len() - 1] == did);
            } else {
                let c = old.profiles()[d].controller;
                assert(old.controller_dids(c).contains(d));
                if c == ctl {
                    let k = choose|k: int| 0 <= k < old.controller_dids(c).len() && old.controller_dids(c)[k] == d;
                    assert(new.controller_dids(c)[k] == d);
                }
            }
        }
        assert forall|c: AccountId, i: int| 0 <= i < new.controller_dids(c).len() implies new.profiles().contains_key(
            #[trigger] new.controller_dids(c)[i],
        ) && new.profiles()[new.controller_dids(c)[i]].controller == c by {
            if c == ctl {
                if i < old.controller_dids(c).len() {
                    assert(new.controller_dids(c)[i] == old.controller_dids(c)[i]);
                    assert(old.profiles().contains_key(old.controller_dids(c)[i]));
                }
            } else {
                assert(new.controller_dids(c) == old.controller_dids(c));
                assert(old.profiles().contains_key(old.controller_dids(c)[i]));
            }
        }
        assert forall|c: AccountId| #[trigger] new.controller_dids(c).no_duplicates() && new.controller_dids(c).len()
                <= MAX_AGENTS_PER_CONTROLLER by {
            if c == ctl {
                let o = old.controller_dids(c);
                assert(o.no_duplicates());
                assert forall|i: int| 0 <= i < o.len() implies o[i] != did by {
                    assert(old.profiles().contains_key(o[i]));
                }
                assert forall|i: int, j: int| 0 <= i < new.controller_dids(c).len() && 0 <= j < new.controller_dids(c).len() && i != j
                    implies new.controller_dids(c)[i] != new.controller_dids(c)[j] by {
                    if i < o.len() && j < o.len() {
                        assert(new.controller_dids(c)[i] == o[i]);
                        assert(new.controller_dids(c)[j] == o[j]);
                    } else if i < o.len() {
                        assert(new.controller_dids(c)[i] == o[i]);
                    } else {
                        assert(new.controller_dids(c)[j] == o[j]);
                    }
                }
            } else {
                assert(new.controller_dids(c) == old.controller_dids(c));
            }
        }
    }

    /// Deregistering a non-revoked DID keeps the invariant.
    proof fn lemma_deregister_keeps_inv(old: AgentRegistry, new: AgentRegistry, did: Did)
        requires
            old.inv(),
            new.wf(),
            old.profiles().contains_key(did),
            old.profiles()[did].status != AgentStatus::Revoked,
            new.profiles() == old.profiles().remove(did),
            new.controller_dids(old.profiles()[did].controller) == old.controller_dids(
                old.profiles()[did].controller,
            ).filter(not_did(did)),
            forall|c: AccountId| c != old.profiles()[did].controller ==> #[trigger] new.controller_dids(c) == old.controller_dids(c),
            new.active_count() == sat_sub_u32(old.active_count(), 1),
        ensures
            new.inv(),
    {
        let ctl = old.profiles()[did].controller;
        old.lemma_profiles_finite();
        lemma_live_remove(old.profiles(), did);
        assert(live_dids(old.profiles()).contains(did));
        lemma_filter_not_did(old.controller_dids(ctl), did);
        assert forall|d: Did| #[trigger] new.profiles().contains_key(d) implies new.profiles()[d].did == d
            && new.controller_dids(new.profiles()[d].controller).contains(d) by {
            let c = old.profiles()[d].controller;
            assert(old.controller_dids(c).contains(d));
        }
        assert forall|c: AccountId, i: int| 0 <= i < new.controller_dids(c).len() implies new.profiles().contains_key(
            #[trigger] new.controller_dids(c)[i],
        ) && new.profiles()[new.controller_dids(c)[i]].controller == c by {
            let x = new.controller_dids(c)[i];
            if c == ctl {
                assert(new.controller_dids(c).contains(x));
                assert(old.controller_dids(c).contains(x));
                let k = choose|k: int| 0 <= k < old.controller_dids(c).len() && old.controller_dids(c)[k] == x;
                assert(old.profiles().contains_key(old.controller_dids(c)[k]));
            } else {
                assert(new.controller_dids(c) == old.controller_dids(c));
                assert(old.profiles().contains_key(old.controller_dids(c)[i]));
            }
        }
        assert forall|c: AccountId| #[trigger] new.controller_dids(c).no_duplicates() && new.controller_dids(c).len()
                <= MAX_AGENTS_PER_CONTROLLER by {
            if c != ctl {
                assert(new.controller_dids(c) == old.controller_dids(c));
            } else {
                assert(old.controller_dids(c).no_duplicates());
            }
        }
    }

    pub fn new(config: RegistryConfig) -> (r: AgentRegistry)
        ensures
            r.inv(),
            r.wf(),
            r.config() == config,
            r.profiles() == Map::<Did, AgentProfile>::empty(),
            forall|c: AccountId| #[trigger] r.controller_dids(c) == Seq::<Did>::empty(),
            r.active_count() == 0,
            forall|g: Did, x: Did| #[trigger] r.star_at(g, x) == 0,
            forall|d: Did| #[trigger] r.strikes(d) == 0,
            r.event_log() == Seq::<RegistryEvent>::empty(),
    {
        let r = AgentRegistry {
            config,
            profiles: Table::new(),
            controller_agents: Table::new(),
            active_agent_count: 0,
            star_givers: Table::new(),
            dispute_strikes: Table::new(),
            events: Vec::new(),
        };
        assert(live_dids(r.profiles()) =~= Set::<Did>::empty());
        r
    }

    pub fn config_values(&self) -> (r: RegistryConfig)
        ensures
            r == self.config(),
    {
        self.config
    }

    /// The profile stored under `did`.
    pub fn agent_profile(&self, did: &Did) -> (r: Option<&AgentProfile>)
        requires
            self.wf(),
        ensures
            match r {
                Some(p) => self.profiles().contains_key(*did) && *p == self.profiles()[*did],
                None => !self.profiles().contains_key(*did),
            },
    {
        self.profiles.get(did)
    }

    /// The DIDs controlled by `controller`, in registration order.
    pub fn controller_agents(&self, controller: AccountId) -> (r: Vec<Did>)
        requires
            self.wf(),
        ensures
            r@ == self.controller_dids(controller),
    {
        match self.controller_agents.get(&controller) {
            Some(v) => {
                let mut out: Vec<Did> = Vec::new();
                let mut i: usize = 0;
                while i < v.len()
                    invariant
                        0 <= i <= v@.len(),
                        out@ == v@.take(i as int),
                    decreases v@.len() - i,
                {
                    out.push(v[i]);
                    i = i + 1;
                    assert(v@.take(i as int) =~= v@.take(i - 1).push(v@[i - 1]));
                }
                assert(v@.take(v@.len() as int) =~= v@);
                out
            },
            None => Vec::new(),
        }
    }

    pub fn active_agent_count(&self) -> (r: u32)
        ensures
            r == self.active_count(),
    {
        self.active_agent_count
    }

    pub fn star_givers(&self, giver: Did, receiver: Did) -> (r: BlockNumber)
        requires
            self.wf(),
        ensures
            r == self.star_at(giver, receiver),
    {
        match self.star_givers.get(&(giver, receiver)) {
            Some(b) => *b,
            None => 0,
        }
    }

    pub fn dispute_strikes(&self, did: Did) -> (r: u32)
        requires
            self.wf(),
        ensures
            r == self.strikes(did),
    {
        match self.dispute_strikes.get(&did) {
            Some(s) => *s,
            None => 0,
        }
    }

    pub fn events(&self) -> (r: &Vec<RegistryEvent>)
        ensures
            r@ == self.event_log(),
    {
        &self.events
    }

    pub fn last_event(&self) -> (r: Option<RegistryEvent>)
        ensures
            r == (if self.event_log().len() == 0 {
                None
            } else {
                Some(self.event_log().last())
            }),
    {
        if self.events.len() == 0 {
            None
        } else {
            Some(self.events[self.events.len() - 1])
        }
    }

    pub fn reset_events(&mut self)
        requires
            old(self).wf(),
        ensures
            old(self).inv() ==> final(self).inv(),
            final(self).wf(),
            final(self).profiles() == old(self).profiles(),
            final(self).same_index(old(self)),
            final(self).active_count() == old(self).active_count(),
            final(self).same_stars(old(self)),
            final(self).same_strikes(old(self)),
            final(self).config() == old(self).config(),
            final(self).event_log() == Seq::<RegistryEvent>::empty(),
    {
        self.events = Vec::new();
        proof {
            if old(self).inv() {
                Self::lemma_frame_keeps_inv(*old(self), *self);
            }
        }
    }

    /// Writes a profile straight into storage under its own DID, as genesis
    /// configuration and runtime code may; no other storage changes.
    pub fn insert_profile(&mut self, profile: AgentProfile)
        requires
            old(self).wf(),
        ensures
            final(self).wf(),
            final(self).profiles() == old(self).profiles().insert(profile.did, profile),
            final(self).same_index(old(self)),
            final(self).active_count() == old(self).active_count(),
            final(self).same_stars(old(self)),
            final(self).same_strikes(old(self)),
            final(self).config() == old(self).config(),
            final(self).event_log() == old(self).event_log(),
    {
        let did = profile.did;
        self.profiles.insert(did, profile);
    }

    /// What registration answers, in the order its checks run.
    pub open spec fn register_outcome(
        &self,
        chain: &Chain,
        ledger: &Ledger,
        origin: Origin,
        pubkey: Seq<u8>,
        signature: Seq<u8>,
        signed_at_block: BlockNumber,
    ) -> Result<(), DispatchError> {
        match origin {
            Origin::Signed(controller) => {
                let did = did_of(pubkey);
                let now = chain.now();
                let challenge = challenge_of(
                    chain.hash_at(0),
                    did,
                    controller,
                    signed_at_block,
                    chain.hash_at(signed_at_block),
                );
                let deposit = self.config().registration_deposit;
                if self.profiles().contains_key(did) {
                    reg_err(RegistryError::DidAlreadyRegistered)
                } else if self.controller_dids(controller).len() >= MAX_AGENTS_PER_CONTROLLER {
                    reg_err(RegistryError::TooManyAgentsForController)
                } else if signed_at_block > now {
                    reg_err(RegistryError::InvalidChallengeBlock)
                } else if now - signed_at_block > REPLAY_WINDOW {
                    reg_err(RegistryError::ChallengeExpired)
                } else if mldsa65_outcome(pubkey, challenge, signature) is MalformedKey {
                    reg_err(RegistryError::InvalidPubkeyLength)
                } else if mldsa65_outcome(pubkey, challenge, signature) is MalformedSignature {
                    reg_err(RegistryError::InvalidSignatureLength)
                } else if mldsa65_outcome(pubkey, challenge, signature) is Rejected {
                    reg_err(RegistryError::InvalidQuantumProof)
                } else if ledger.account(controller).free < deposit || ledger.account(
                    controller,
                ).reserved + deposit > u64::MAX {
                    reg_err(RegistryError::InsufficientBalanceForDeposit)
                } else {
                    Ok(())
                }
            },
            _ => Err(DispatchError::BadOrigin),
        }
    }

    /// What `register_agent` answers and leaves behind, from the state before
    /// the call.
    pub open spec fn register_post(
        &self,
        post: &AgentRegistry,
        pre_l: &Ledger,
        post_l: &Ledger,
        chain: &Chain,
        origin: Origin,
        pubkey: Vec<u8>,
        signature: Vec<u8>,
        signed_at_block: BlockNumber,
        capabilities: CapabilityBitmap,
        metadata: Vec<u8>,
        label: Vec<u8>,
        r: Result<(), DispatchError>,
    ) -> bool {
        &&& (r == self.register_outcome(
                chain,
                pre_l,
                origin,
                pubkey@,
                signature@,
                signed_at_block,
            ))
        &&& (r is Err ==> post.unchanged_from(self) && forall|w: AccountId| #[trigger]
                post_l.account(w) == pre_l.account(w))
        &&& (r is Ok ==> ({
                let controller = origin->Signed_0;
                let did = did_of(pubkey@);
                let deposit = self.config().registration_deposit;
                &&& post.profiles() == self.profiles().insert(
                    did,
                    AgentProfile {
                        did,
                        controller,
                        capabilities,
                        reputation_score: 0,
                        status: AgentStatus::Active,
                        registered_at: chain.now(),
                        is_verified: true,
                        quantum_scheme: QuantumScheme::MlDsa65,
                        metadata,
                        label,
                    },
                )
                &&& post.controller_dids(controller) == self.controller_dids(
                    controller,
                ).push(did)
                &&& forall|c: AccountId| c != controller ==> #[trigger] post.controller_dids(
                    c,
                ) == self.controller_dids(c)
                &&& post.active_count() == sat_add_u32(self.active_count(), 1)
                &&& post.same_stars(self)
                &&& post.same_strikes(self)
                &&& post.config() == self.config()
                &&& post.event_log() == self.event_log().push(
                    RegistryEvent::AgentRegistered { did, controller },
                )
                &&& post_l.account(controller) == (AccountData {
                    free: (pre_l.account(controller).free - deposit) as u64,
                    reserved: (pre_l.account(controller).reserved + deposit) as u64,
                })
                &&& post_l.same_except(pre_l, controller)
            }))
    }

    /// Derives `did = blake2_256("ArthNeura-DID-v1" ++ pubkey)`, verifies an
    /// ML-DSA-65 proof of key possession over the chain-bound challenge
    /// `(genesis_hash, did, controller, signed_at_block, signed_at_hash)`
    /// signed within the replay window, reserves the deposit (the last
    /// fallible step) and stores an `Active` profile.
    pub fn register_agent(
        &mut self,
        chain: &Chain,
        ledger: &mut Ledger,
        origin: Origin,
        pubkey: Vec<u8>,
        signature: Vec<u8>,
        signed_at_block: BlockNumber,
        capabilities: CapabilityBitmap,
        metadata: Vec<u8>,
        label: Vec<u8>,
    ) -> (r: Result<(), DispatchError>)
        requires
            old(self).wf(),
            old(ledger).wf(),
            chain.wf(),
            pubkey@.len() <= MAX_PUBKEY_LEN,
            signature@.len() <= MAX_SIG_LEN,
            metadata@.len() <= MAX_METADATA_LEN,
            label@.len() <= MAX_LABEL_LEN,
        ensures
            old(self).inv() && old(self).active_count() < u32::MAX ==> final(self).inv(),
            final(self).wf(),
            final(ledger).wf(),
            old(self).register_post(
                final(self),
                old(ledger),
                final(ledger),
                chain,
                origin,
                pubkey,
                signature,
                signed_at_block,
                capabilities,
                metadata,
                label,
                r,
            ),
    {
        let controller = ensure_signed(origin)?;
        let did = derive_did(pubkey.as_slice());
        if self.profiles.contains_key(&did) {
            return Err(DispatchError::AgentRegistry(RegistryError::DidAlreadyRegistered));
        }
        let agent_count = match self.controller_agents.get(&controller) {
            Some(v) => v.len(),
            None => 0,
        };
        if agent_count >= MAX_AGENTS_PER_CONTROLLER {
            return Err(DispatchError::AgentRegistry(RegistryError::TooManyAgentsForController));
        }
        let current_block = chain.block_number();
        if signed_at_block > current_block {
            return Err(DispatchError::AgentRegistry(RegistryError::InvalidChallengeBlock));
        }
        if current_block - signed_at_block > REPLAY_WINDOW {
            return Err(DispatchError::AgentRegistry(RegistryError::ChallengeExpired));
        }
        let genesis_hash = chain.block_hash(0);
        let signed_at_hash = chain.block_hash(signed_at_block);
        let challenge = build_challenge(
            genesis_hash,
            did,
            controller,
            signed_at_block,
            signed_at_hash,
        );
        match mldsa65_check(pubkey.as_slice(), challenge.as_slice(), signature.as_slice()) {
            ProofCheck::MalformedKey => {
                return Err(DispatchError::AgentRegistry(RegistryError::InvalidPubkeyLength));
            },
            ProofCheck::MalformedSignature => {
                return Err(DispatchError::AgentRegistry(RegistryError::InvalidSignatureLength));
            },
            ProofCheck::Rejected => {
                return Err(DispatchError::AgentRegistry(RegistryError::InvalidQuantumProof));
            },
            ProofCheck::Accepted => {},
        }
        match ledger.reserve(controller, self.config.registration_deposit) {
            Ok(()) => {},
            Err(_) => {
                return Err(
                    DispatchError::AgentRegistry(RegistryError::InsufficientBalanceForDeposit),
                );
            },
        }
        let profile = AgentProfile {
            did,
            controller,
            capabilities,
            reputation_score: 0,
            status: AgentStatus::Active,
            registered_at: current_block,
            is_verified: true,
            quantum_scheme: QuantumScheme::MlDsa65,
            metadata,
            label,
        };
        self.profiles.insert(did, profile);
        let mut dids = match self.controller_agents.remove(&controller) {
            Some(v) => v,
            None => Vec::new(),
        };
        dids.push(did);
        self.controller_agents.insert(controller, dids);
        self.active_agent_count = self.active_agent_count.saturating_add(1);
        self.deposit_event(RegistryEvent::AgentRegistered { did, controller });
        proof {
            if old(self).inv() && old(self).active_count() < u32::MAX {
                Self::lemma_register_keeps_inv(*old(self), *self, did, self.profiles()[did]);
            }
        }
        Ok(())
    }

    /// Replaces `capabilities`, `metadata` and `label` of a profile. Only
    /// the controller may call; revoked agents are rejected.
    pub fn update_profile(
        &mut self,
        origin: Origin,
        did: Did,
        capabilities: CapabilityBitmap,
        metadata: Vec<u8>,
        label: Vec<u8>,
    ) -> (r: Result<(), DispatchError>)
        requires
            old(self).wf(),
            metadata@.len() <= MAX_METADATA_LEN,
            label@.len() <= MAX_LABEL_LEN,
        ensures
            old(self).inv() ==> final(self).inv(),
            final(self).wf(),
            r == (match origin {
                Origin::Signed(caller) => if !old(self).profiles().contains_key(did) {
                    reg_err(RegistryError::DidNotFound)
                } else if old(self).profiles()[did].controller != caller {
                    reg_err(RegistryError::NotController)
                } else if old(self).profiles()[did].status == AgentStatus::Revoked {
                    reg_err(RegistryError::AgentRevoked)
                } else {
                    Ok(())
                },
                _ => Err(DispatchError::BadOrigin),
            }),
            r is Err ==> final(self).unchanged_from(old(self)),
            r is Ok ==> {
                &&& final(self).profiles() == old(self).profiles().insert(
                    did,
                    AgentProfile { capabilities, metadata, label, ..old(self).profiles()[did] },
                )
                &&& final(self).same_index(old(self))
                &&& final(self).active_count() == old(self).active_count()
                &&& final(self).same_stars(old(self))
                &&& final(self).same_strikes(old(self))
                &&& final(self).config() == old(self).config()
                &&& final(self).event_log() == old(self).event_log().push(
                    RegistryEvent::AgentProfileUpdated { did },
                )
            },
    {
        let caller = ensure_signed(origin)?;
        match self.profiles.get(&did) {
            None => {
                return Err(DispatchError::AgentRegistry(RegistryError::DidNotFound));
            },
            Some(p) => {
                if p.controller != caller {
                    return Err(DispatchError::AgentRegistry(RegistryError::NotController));
                }
                if let AgentStatus::Revoked = p.status {
                    return Err(DispatchError::AgentRegistry(RegistryError::AgentRevoked));
                }
            },
        }
        let ghost pre = self.profiles@;
        let p = match self.profiles.remove(&did) {
            Some(p) => p,
            None => {
                return Err(DispatchError::AgentRegistry(RegistryError::DidNotFound));
            },
        };
        self.profiles.insert(did, AgentProfile { capabilities, metadata, label, ..p });
        assert(self.profiles@ =~= pre.insert(
            did,
            AgentProfile { capabilities, metadata, label, ..pre[did] },
        ));
        self.deposit_event(RegistryEvent::AgentProfileUpdated { did });
        proof {
            if old(self).inv() {
                Self::lemma_same_identity_keeps_inv(*old(self), *self, did, self.profiles()[did]);
            }
        }
        Ok(())
    }

    /// What `set_agent_status` answers and leaves behind, from the state
    /// before the call.
    pub open spec fn status_post(
        &self,
        post: &AgentRegistry,
        origin: Origin,
        did: Did,
        new_status: AgentStatus,
        r: Result<(), DispatchError>,
    ) -> bool {
        &&& (r == (match origin {
                Origin::Signed(caller) => if !self.profiles().contains_key(did) {
                    reg_err(RegistryError::DidNotFound)
                } else if self.profiles()[did].controller != caller {
                    reg_err(RegistryError::NotController)
                } else if self.profiles()[did].status == AgentStatus::Revoked {
                    reg_err(RegistryError::AgentRevoked)
                } else {
                    Ok(())
                },
                _ => Err(DispatchError::BadOrigin),
            }))
        &&& (r is Err ==> post.unchanged_from(self))
        &&& (r is Ok ==> {
                &&& post.profiles() == self.profiles().insert(
                    did,
                    AgentProfile { status: new_status, ..self.profiles()[did] },
                )
                &&& post.same_index(self)
                &&& post.active_count() == if new_status == AgentStatus::Revoked {
                    sat_sub_u32(self.active_count(), 1)
                } else {
                    self.active_count()
                }
                &&& post.same_stars(self)
                &&& post.same_strikes(self)
                &&& post.config() == self.config()
                &&& post.event_log() == self.event_log().push(
                    RegistryEvent::AgentStatusChanged { did, new_status },
                )
            })
    }

    /// Moves an agent between `Active` and `Suspended`, or into the
    /// terminal `Revoked`. Only the controller may call; revoked agents are
    /// rejected. Revoking decrements the active count; suspending does not.
    pub fn set_agent_status(&mut self, origin: Origin, did: Did, new_status: AgentStatus) -> (r:
        Result<(), DispatchError>)
        requires
            old(self).wf(),
        ensures
            old(self).inv() ==> final(self).inv(),
            final(self).wf(),
            old(self).status_post(final(self), origin, did, new_status, r),
    {
        let caller = ensure_signed(origin)?;
        match self.profiles.get(&did) {
            None => {
                return Err(DispatchError::AgentRegistry(RegistryError::DidNotFound));
            },
            Some(p) => {
                if p.controller != caller {
                    return Err(DispatchError::AgentRegistry(RegistryError::NotController));
                }
                if let AgentStatus::Revoked = p.status {
                    return Err(DispatchError::AgentRegistry(RegistryError::AgentRevoked));
                }
            },
        }
        let ghost pre = self.profiles@;
        let p = match self.profiles.remove(&did) {
            Some(p) => p,
            None => {
                return Err(DispatchError::AgentRegistry(RegistryError::DidNotFound));
            },
        };
        self.profiles.insert(did, AgentProfile { status: new_status, ..p });
        assert(self.profiles@ =~= pre.insert(did, AgentProfile { status: new_status, ..pre[did] }));
        if let AgentStatus::Revoked = new_status {
            self.active_agent_count = self.active_agent_count.saturating_sub(1);
        }
        self.deposit_event(RegistryEvent::AgentStatusChanged { did, new_status });
        proof {
            if old(self).inv() {
                Self::lemma_status_change_keeps_inv(*old(self), *self, did, new_status);
            }
        }
        Ok(())
    }

    fn deposit_event(&mut self, e: RegistryEvent)
        ensures
            final(self).wf() == old(self).wf(),
            final(self).profiles() == old(self).profiles(),
            final(self).same_index(old(self)),
            final(self).active_count() == old(self).active_count(),
            final(self).same_stars(old(self)),
            final(self).same_strikes(old(self)),
            final(self).config() == old(self).config(),
            final(self).event_log() == old(self).event_log().push(e),
    {
        self.events.push(e);
    }

    fn set_strikes(&mut self, did: Did, n: u32)
        requires
            old(self).wf(),
        ensures
            final(self).wf(),
            final(self).strikes(did) == n,
            forall|d: Did| d != did ==> #[trigger] final(self).strikes(d) == old(self).strikes(d),
            final(self).profiles() == old(self).profiles(),
            final(self).same_index(old(self)),
            final(self).active_count() == old(self).active_count(),
            final(self).same_stars(old(self)),
            final(self).config() == old(self).config(),
            final(self).event_log() == old(self).event_log(),
    {
        self.dispute_strikes.insert(did, n);
    }

    /// Adds one (saturating) to the reputation score of `did`, which must
    /// be registered; no other storage changes.
    fn bump_score(&mut self, did: Did, up: bool)
        requires
            old(self).wf(),
            old(self).profiles().contains_key(did),
        ensures
            final(self).wf(),
            final(self).profiles() == old(self).profiles().insert(
                did,
                AgentProfile {
                    reputation_score: if up {
                        sat_add_u32(old(self).profiles()[did].reputation_score, 1)
                    } else {
                        sat_sub_u32(old(self).profiles()[did].reputation_score, 1)
                    },
                    ..old(self).profiles()[did]
                },
            ),
            final(self).same_index(old(self)),
            final(self).active_count() == old(self).active_count(),
            final(self).same_stars(old(self)),
            final(self).same_strikes(old(self)),
            final(self).config() == old(self).config(),
            final(self).event_log() == old(self).event_log(),
    {
        let ghost pre = self.profiles@;
        match self.profiles.remove(&did) {
            Some(p) => {
                let score = if up {
                    p.reputation_score.saturating_add(1)
                } else {
                    p.reputation_score.saturating_sub(1)
                };
                self.profiles.insert(did, AgentProfile { reputation_score: score, ..p });
                assert(self.profiles@ =~= pre.insert(
                    did,
                    AgentProfile { reputation_score: score, ..pre[did] },
                ));
            },
            None => {},
        }
    }

    /// Whether `caller`'s reverse index holds `did`.
    fn controls(&self, caller: AccountId, did: &Did) -> (r: bool)
        requires
            self.wf(),
        ensures
            r == self.controller_dids(caller).contains(*did),
    {
        match self.controller_agents.get(&caller) {
            Some(v) => contains_did(v, did),
            None => false,
        }
    }

    fn controls_any(&self, caller: AccountId) -> (r: bool)
        requires
            self.wf(),
        ensures
            r == (self.controller_dids(caller).len() > 0),
    {
        match self.controller_agents.get(&caller) {
            Some(v) => v.len() > 0,
            None => false,
        }
    }

    fn set_star(&mut self, giver: Did, receiver: Did, block: BlockNumber)
        requires
            old(self).wf(),
        ensures
            final(self).wf(),
            final(self).star_at(giver, receiver) == block,
            forall|g: Did, x: Did|
                (g, x) != (giver, receiver) ==> #[trigger] final(self).star_at(g, x) == old(
                    self,
                ).star_at(g, x),
            final(self).profiles() == old(self).profiles(),
            final(self).same_index(old(self)),
            final(self).active_count() == old(self).active_count(),
            final(self).same_strikes(old(self)),
            final(self).config() == old(self).config(),
            final(self).event_log() == old(self).event_log(),
    {
        self.star_givers.insert((giver, receiver), block);
    }

    /// What `give_star` answers and leaves behind, from the state before the
    /// call.
    pub open spec fn give_star_post(
        &self,
        post: &AgentRegistry,
        chain: &Chain,
        origin: Origin,
        giver_did: Did,
        receiver: Did,
        r: Result<(), DispatchError>,
    ) -> bool {
        &&& (r == (match origin {
                Origin::Signed(caller) => if !self.controller_dids(caller).contains(giver_did) {
                    reg_err(RegistryError::NotController)
                } else if giver_did == receiver {
                    reg_err(RegistryError::CannotStarSelf)
                } else if !self.profiles().contains_key(receiver) {
                    reg_err(RegistryError::DidNotFound)
                } else if self.profiles()[receiver].status == AgentStatus::Revoked {
                    reg_err(RegistryError::AgentRevoked)
                } else if self.profiles()[receiver].controller == caller {
                    reg_err(RegistryError::CannotStarSameController)
                } else if self.star_at(giver_did, receiver) > 0 && chain.now() < sat_add_u64(
                    self.star_at(giver_did, receiver),
                    self.config().star_cooldown,
                ) {
                    reg_err(RegistryError::CooldownNotExpired)
                } else {
                    Ok(())
                },
                _ => Err(DispatchError::BadOrigin),
            }))
        &&& (r is Err ==> post.unchanged_from(self))
        &&& (r is Ok ==> {
                &&& post.profiles() == self.profiles().insert(
                    receiver,
                    AgentProfile {
                        reputation_score: sat_add_u32(
                            self.profiles()[receiver].reputation_score,
                            1,
                        ),
                        ..self.profiles()[receiver]
                    },
                )
                &&& post.star_at(giver_did, receiver) == chain.now()
                &&& forall|g: Did, x: Did|
                    (g, x) != (giver_did, receiver) ==> #[trigger] post.star_at(g, x) == self.star_at(g, x)
                &&& post.same_index(self)
                &&& post.active_count() == self.active_count()
                &&& post.same_strikes(self)
                &&& post.config() == self.config()
                &&& post.event_log() == self.event_log().push(
                    RegistryEvent::StarGiven { giver: giver_did, receiver },
                )
            })
    }

    /// Gives a star from `giver_did` (controlled by the caller) to
    /// `receiver`, adding one (saturating) to the receiver's score.
    /// Self-stars, stars between two agents of one controller and stars to
    /// revoked agents are rejected, and a star to the same receiver must
    /// wait out the cooldown since the last one.
    pub fn give_star(&mut self, chain: &Chain, origin: Origin, giver_did: Did, receiver: Did) -> (r:
        Result<(), DispatchError>)
        requires
            old(self).wf(),
        ensures
            old(self).inv() ==> final(self).inv(),
            final(self).wf(),
            old(self).give_star_post(final(self), chain, origin, giver_did, receiver, r),
    {
        let caller = ensure_signed(origin)?;
        if !self.controls(caller, &giver_did) {
            return Err(DispatchError::AgentRegistry(RegistryError::NotController));
        }
        if bytes32_eq(&giver_did, &receiver) {
            return Err(DispatchError::AgentRegistry(RegistryError::CannotStarSelf));
        }
        match self.profiles.get(&receiver) {
            None => {
                return Err(DispatchError::AgentRegistry(RegistryError::DidNotFound));
            },
            Some(p) => {
                if let AgentStatus::Revoked = p.status {
                    return Err(DispatchError::AgentRegistry(RegistryError::AgentRevoked));
                }
                if p.controller == caller {
                    return Err(DispatchError::AgentRegistry(RegistryError::CannotStarSameController));
                }
            },
        }
        let last_star = self.star_givers(giver_did, receiver);
        let current_block = chain.block_number();
        if last_star > 0 {
            if current_block < last_star.saturating_add(self.config.star_cooldown) {
                return Err(DispatchError::AgentRegistry(RegistryError::CooldownNotExpired));
            }
        }
        self.set_star(giver_did, receiver, current_block);
        self.bump_score(receiver, true);
        self.deposit_event(RegistryEvent::StarGiven { giver: giver_did, receiver });
        proof {
            if old(self).inv() {
                Self::lemma_same_identity_keeps_inv(*old(self), *self, receiver, self.profiles()[receiver]);
            }
        }
        Ok(())
    }

    /// What `remove_star` answers and leaves behind, from the state before
    /// the call.
    pub open spec fn remove_star_post(
        &self,
        post: &AgentRegistry,
        origin: Origin,
        giver_did: Did,
        receiver: Did,
        r: Result<(), DispatchError>,
    ) -> bool {
        &&& (r == (match origin {
                Origin::Signed(caller) => if self.controller_dids(caller).len() == 0 {
                    reg_err(RegistryError::DidNotFound)
                } else if !self.controller_dids(caller).contains(giver_did) {
                    reg_err(RegistryError::NotController)
                } else if self.star_at(giver_did, receiver) == 0 {
                    reg_err(RegistryError::NotStarred)
                } else if !self.profiles().contains_key(receiver) {
                    reg_err(RegistryError::DidNotFound)
                } else {
                    Ok(())
                },
                _ => Err(DispatchError::BadOrigin),
            }))
        &&& (r is Err ==> post.unchanged_from(self))
        &&& (r is Ok ==> {
                &&& post.profiles() == self.profiles().insert(
                    receiver,
                    AgentProfile {
                        reputation_score: sat_sub_u32(
                            self.profiles()[receiver].reputation_score,
                            1,
                        ),
                        ..self.profiles()[receiver]
                    },
                )
                &&& post.star_at(giver_did, receiver) == 0
                &&& forall|g: Did, x: Did|
                    (g, x) != (giver_did, receiver) ==> #[trigger] post.star_at(g, x) == self.star_at(g, x)
                &&& post.same_index(self)
                &&& post.active_count() == self.active_count()
                &&& post.same_strikes(self)
                &&& post.config() == self.config()
                &&& post.event_log() == self.event_log().push(
                    RegistryEvent::StarRemoved { giver: giver_did, receiver },
                )
            })
    }

    /// Removes the star from `giver_did` (controlled by the caller) to
    /// `receiver`: resets the pair's ledger entry to zero, clearing the
    /// cooldown, and subtracts one (saturating) from the receiver's score.
    /// A caller that controls no agent at all is answered `DidNotFound`.
    pub fn remove_star(&mut self, origin: Origin, giver_did: Did, receiver: Did) -> (r: Result<
        (),
        DispatchError,
    >)
        requires
            old(self).wf(),
        ensures
            old(self).inv() ==> final(self).inv(),
            final(self).wf(),
            old(self).remove_star_post(final(self), origin, giver_did, receiver, r),
    {
        let caller = ensure_signed(origin)?;
        if !self.controls_any(caller) {
            return Err(DispatchError::AgentRegistry(RegistryError::DidNotFound));
        }
        if !self.controls(caller, &giver_did) {
            return Err(DispatchError::AgentRegistry(RegistryError::NotController));
        }
        let last_star = self.star_givers(giver_did, receiver);
        if last_star == 0 {
            return Err(DispatchError::AgentRegistry(RegistryError::NotStarred));
        }
        if !self.profiles.contains_key(&receiver) {
            return Err(DispatchError::AgentRegistry(RegistryError::DidNotFound));
        }
        self.set_star(giver_did, receiver, 0);
        self.bump_score(receiver, false);
        self.deposit_event(RegistryEvent::StarRemoved { giver: giver_did, receiver });
        proof {
            if old(self).inv() {
                Self::lemma_same_identity_keeps_inv(*old(self), *self, receiver, self.profiles()[receiver]);
            }
        }
        Ok(())
    }

    /// What `deregister_agent` answers and leaves behind, from the state
    /// before the call.
    pub open spec fn deregister_post(
        &self,
        post: &AgentRegistry,
        pre_l: &Ledger,
        post_l: &Ledger,
        origin: Origin,
        did: Did,
        r: Result<(), DispatchError>,
    ) -> bool {
        &&& (r == (match origin {
                Origin::Signed(caller) => if !self.profiles().contains_key(did) {
                    reg_err(RegistryError::DidNotFound)
                } else if self.profiles()[did].controller != caller {
                    reg_err(RegistryError::NotController)
                } else if self.profiles()[did].status == AgentStatus::Revoked {
                    reg_err(RegistryError::AgentAlreadyRevoked)
                } else {
                    Ok(())
                },
                _ => Err(DispatchError::BadOrigin),
            }))
        &&& (r is Err ==> post.unchanged_from(self) && forall|w: AccountId| #[trigger]
                post_l.account(w) == pre_l.account(w))
        &&& (r is Ok ==> ({
                let controller = origin->Signed_0;
                let deposit = self.config().registration_deposit;
                let d = pre_l.account(controller);
                let moved = min_balance(deposit, d.reserved);
                &&& post.profiles() == self.profiles().remove(did)
                &&& post.controller_dids(controller) == self.controller_dids(
                    controller,
                ).filter(not_did(did))
                &&& forall|c: AccountId| c != controller ==> #[trigger] post.controller_dids(
                    c,
                ) == self.controller_dids(c)
                &&& post.active_count() == sat_sub_u32(self.active_count(), 1)
                &&& post.same_stars(self)
                &&& post.same_strikes(self)
                &&& post.config() == self.config()
                &&& post.event_log() == self.event_log().push(
                    RegistryEvent::AgentDeregistered { did, controller },
                )
                &&& post_l.account(controller) == (AccountData {
                    free: if d.free + moved <= u64::MAX {
                        (d.free + moved) as u64
                    } else {
                        u64::MAX
                    },
                    reserved: (d.reserved - moved) as u64,
                })
                &&& post_l.same_except(pre_l, controller)
            }))
    }

    /// Voluntary exit: returns the deposit, prunes `did` from the
    /// controller's reverse index (sibling DIDs kept), deletes the profile
    /// and decrements the active count. Revoked agents cannot exit.
    pub fn deregister_agent(&mut self, ledger: &mut Ledger, origin: Origin, did: Did) -> (r: Result<
        (),
        DispatchError,
    >)
        requires
            old(self).wf(),
            old(ledger).wf(),
        ensures
            old(self).inv() ==> final(self).inv(),
            final(self).wf(),
            final(ledger).wf(),
            old(self).deregister_post(final(self), old(ledger), final(ledger), origin, did, r),
    {
        let controller = ensure_signed(origin)?;
        match self.profiles.get(&did) {
            None => {
                return Err(DispatchError::AgentRegistry(RegistryError::DidNotFound));
            },
            Some(p) => {
                if p.controller != controller {
                    return Err(DispatchError::AgentRegistry(RegistryError::NotController));
                }
                if let AgentStatus::Revoked = p.status {
                    return Err(DispatchError::AgentRegistry(RegistryError::AgentAlreadyRevoked));
                }
            },
        }
        let _leftover = ledger.unreserve(controller, self.config.registration_deposit);
        let dids = match self.controller_agents.remove(&controller) {
            Some(v) => v,
            None => Vec::new(),
        };
        let kept = without_did(&dids, &did);
        self.controller_agents.insert(controller, kept);
        let _removed = self.profiles.remove(&did);
        self.active_agent_count = self.active_agent_count.saturating_sub(1);
        self.deposit_event(RegistryEvent::AgentDeregistered { did, controller });
        proof {
            if old(self).inv() {
                Self::lemma_deregister_keeps_inv(*old(self), *self, did);
            }
        }
        Ok(())
    }

    /// What `slash_reputation` leaves behind, from the state before the call.
    pub open spec fn slash_post(
        &self,
        post: &AgentRegistry,
        did: Did,
        amount: u32,
    ) -> bool {
        &&& (!self.profiles().contains_key(did) ==> post.unchanged_from(self))
        &&& (self.profiles().contains_key(did) ==> ({
                let new_score = sat_sub_u32(self.profiles()[did].reputation_score, amount);
                &&& post.profiles() == self.profiles().insert(
                    did,
                    AgentProfile { reputation_score: new_score, ..self.profiles()[did] },
                )
                &&& post.same_index(self)
                &&& post.active_count() == self.active_count()
                &&& post.same_stars(self)
                &&& post.same_strikes(self)
                &&& post.config() == self.config()
                &&& post.event_log() == self.event_log().push(
                    RegistryEvent::ReputationSlashed { did, amount, new_score },
                )
            }))
    }

    /// What `slash_reputation_for_guilty_delivery` leaves behind, from the
    /// state before the call.
    pub open spec fn guilty_slash_post(
        &self,
        post: &AgentRegistry,
        pre_l: &Ledger,
        post_l: &Ledger,
        did: Did,
        amount: u32,
    ) -> bool {
        &&& (!self.profiles().contains_key(did) ==> post.unchanged_from(self)
                && forall|w: AccountId| #[trigger] post_l.account(w) == pre_l.account(
                w,
            ))
        &&& (self.profiles().contains_key(did) ==> ({
                let p = self.profiles()[did];
                let new_score = sat_sub_u32(p.reputation_score, amount);
                let strikes = sat_add_u32(self.strikes(did), 1);
                let per = self.config().deposit_slash_per_strike;
                let slashed = min_balance(per, pre_l.account(p.controller).reserved);
                let slash_event = RegistryEvent::ReputationSlashed {
                    did,
                    amount,
                    new_score,
                };
                &&& post.profiles() == self.profiles().insert(
                    did,
                    AgentProfile { reputation_score: new_score, ..p },
                )
                &&& post.same_index(self)
                &&& post.active_count() == self.active_count()
                &&& post.same_stars(self)
                &&& forall|d: Did| d != did ==> #[trigger] post.strikes(d) == self.strikes(d)
                &&& post.config() == self.config()
                &&& strikes < self.config().strike_threshold ==> {
                    &&& post.strikes(did) == strikes
                    &&& post.event_log() == self.event_log().push(slash_event)
                    &&& forall|w: AccountId| #[trigger] post_l.account(w) == pre_l.account(w)
                }
                &&& strikes >= self.config().strike_threshold ==> {
                    &&& post.strikes(did) == 0
                    &&& post.event_log() == self.event_log().push(slash_event).push(
                        RegistryEvent::DepositSlashed {
                            did,
                            controller: p.controller,
                            amount: slashed,
                            strikes_at_slash: strikes,
                        },
                    )
                    &&& post_l.account(p.controller) == (AccountData {
                        free: pre_l.account(p.controller).free,
                        reserved: (pre_l.account(p.controller).reserved - slashed) as u64,
                    })
                    &&& post_l.same_except(pre_l, p.controller)
                }
            }))
    }

    /// Protocol penalty, for trusted runtime code only: subtracts `amount`
    /// (saturating) from the score of `did` and emits `ReputationSlashed`
    /// with the requested amount. A DID that is not registered is silently
    /// ignored, so the penalty can never fail its caller.
    pub fn slash_reputation(&mut self, did: &Did, amount: u32)
        requires
            old(self).wf(),
        ensures
            old(self).inv() ==> final(self).inv(),
            final(self).wf(),
            old(self).slash_post(final(self), *did, amount),
    {
        let ghost pre = self.profiles@;
        match self.profiles.remove(did) {
            Some(p) => {
                let new_score = p.reputation_score.saturating_sub(amount);
                self.profiles.insert(*did, AgentProfile { reputation_score: new_score, ..p });
                assert(self.profiles@ =~= pre.insert(
                    *did,
                    AgentProfile { reputation_score: new_score, ..pre[*did] },
                ));
                self.deposit_event(RegistryEvent::ReputationSlashed { did: *did, amount, new_score });
                proof {
                    if old(self).inv() {
                        Self::lemma_same_identity_keeps_inv(*old(self), *self, *did, self.profiles()[*did]);
                    }
                }
            },
            None => {
                assert(self.profiles@ =~= pre);
                proof {
                    if old(self).inv() {
                        Self::lemma_frame_keeps_inv(*old(self), *self);
                    }
                }
            },
        }
    }

    /// Penalty for a confirmed guilty delivery: `slash_reputation`, then one
    /// more dispute strike for `did`. When the strikes reach the threshold,
    /// burns up to the per-strike amount from the controller's reserved
    /// deposit, emits `DepositSlashed` and resets the strikes to zero.
    /// Strikes outlive deregistration. A DID that is not registered is
    /// silently ignored.
    pub fn slash_reputation_for_guilty_delivery(
        &mut self,
        ledger: &mut Ledger,
        did: &Did,
        amount: u32,
    )
        requires
            old(self).wf(),
            old(ledger).wf(),
        ensures
            old(self).inv() ==> final(self).inv(),
            final(self).wf(),
            final(ledger).wf(),
            old(self).guilty_slash_post(final(self), old(ledger), final(ledger), *did, amount),
    {
        let controller = match self.profiles.get(did) {
            Some(p) => p.controller,
            None => {
                return ;
            },
        };
        self.slash_reputation(did, amount);
        let strikes = self.dispute_strikes(*did).saturating_add(1);
        if strikes >= self.config.strike_threshold {
            let slashed = ledger.slash_reserved(controller, self.config.deposit_slash_per_strike);
            self.deposit_event(RegistryEvent::DepositSlashed {
                    did: *did,
                    controller,
                    amount: slashed,
                    strikes_at_slash: strikes,
                });
            self.set_strikes(*did, 0);
        } else {
            self.set_strikes(*did, strikes);
        }
        proof {
            if old(self).inv() {
                Self::lemma_same_identity_keeps_inv(*old(self), *self, *did, self.profiles()[*did]);
            }
        }
    }
}


/// Registering and then voluntarily deregistering an agent gives the
/// controller its deposit back: every balance is as before, and so are
/// the profiles, the controller's DIDs and the count of live agents; so
/// the same registration, made again, is accepted again.
pub proof fn lemma_register_then_deregister_refunds(
    r0: AgentRegistry,
    r1: AgentRegistry,
    r2: AgentRegistry,
    l0: Ledger,
    l1: Ledger,
    l2: Ledger,
    chain: Chain,
    controller: AccountId,
    pubkey: Vec<u8>,
    signature: Vec<u8>,
    signed_at_block: BlockNumber,
    capabilities: CapabilityBitmap,
    metadata: Vec<u8>,
    label: Vec<u8>,
)
    requires
        r0.inv(),
        r0.active_count() < u32::MAX,
        r0.register_post(
            &r1,
            &l0,
            &l1,
            &chain,
            Origin::Signed(controller),
            pubkey,
            signature,
            signed_at_block,
            capabilities,
            metadata,
            label,
            Ok(()),
        ),
        r1.deregister_post(&r2, &l1, &l2, Origin::Signed(controller), did_of(pubkey@), Ok(())),
    ensures
        forall|w: AccountId| #[trigger] l2.account(w) == l0.account(w),
        r2.profiles() == r0.profiles(),
        r2.active_count() == r0.active_count(),
        r2.same_index(&r0),
        r2.register_outcome(
            &chain,
            &l2,
            Origin::Signed(controller),
            pubkey@,
            signature@,
            signed_at_block,
        ) == Ok::<(), DispatchError>(()),
{
    let did = did_of(pubkey@);
    assert(!r0.profiles().contains_key(did));
    assert(!r0.controller_dids(controller).contains(did)) by {
        if r0.controller_dids(controller).contains(did) {
            let i = choose|i: int|
                0 <= i < r0.controller_dids(controller).len() && r0.controller_dids(controller)[i]
                    == did;
            assert(r0.profiles().contains_key(r0.controller_dids(controller)[i]));
        }
    }
    lemma_filter_push_absent(r0.controller_dids(controller), did);
    assert(r2.controller_dids(controller) == r0.controller_dids(controller));
    assert(r2.profiles() =~= r0.profiles());
    assert forall|w: AccountId| #[trigger] l2.account(w) == l0.account(w) by {
        if w != controller {
            assert(l1.account(w) == l0.account(w));
        }
    }
}

/// On every state the registry can reach, a voluntary exit lowers the
/// count of live agents by exactly one and removes only that DID from the
/// controller's list, sibling DIDs and their profiles untouched.
pub proof fn lemma_deregister_removes_one(
    r0: AgentRegistry,
    r1: AgentRegistry,
    l0: Ledger,
    l1: Ledger,
    caller: AccountId,
    did: Did,
)
    requires
        r0.inv(),
        r0.deregister_post(&r1, &l0, &l1, Origin::Signed(caller), did, Ok(())),
    ensures
        r0.active_count() >= 1,
        r1.active_count() == r0.active_count() - 1,
        forall|d: Did| #[trigger]
            r1.controller_dids(caller).contains(d) <==> (r0.controller_dids(caller).contains(d)
                && d != did),
        forall|d: Did| d != did ==> #[trigger] r1.profiles().contains_key(d) == r0.profiles().contains_key(d)
            && (r0.profiles().contains_key(d) ==> r1.profiles()[d] == r0.profiles()[d]),
{
    r0.lemma_profiles_finite();
    let live = live_dids(r0.profiles());
    assert(live.contains(did));
    assert(live.remove(did).len() + 1 == live.len());
    lemma_filter_not_did(r0.controller_dids(caller), did);
}

/// A star given and then removed leaves the receiver's score as it was
/// (unless it had saturated at the maximum) and clears the pair's
/// cooldown, so the giver may star again at once.
pub proof fn lemma_give_then_remove_star(
    r0: AgentRegistry,
    r1: AgentRegistry,
    r2: AgentRegistry,
    chain: Chain,
    caller: AccountId,
    giver: Did,
    receiver: Did,
)
    requires
        r0.give_star_post(&r1, &chain, Origin::Signed(caller), giver, receiver, Ok(())),
        r1.remove_star_post(&r2, Origin::Signed(caller), giver, receiver, Ok(())),
        r0.profiles()[receiver].reputation_score < u32::MAX,
    ensures
        r2.profiles() == r0.profiles(),
        r2.star_at(giver, receiver) == 0,
        forall|g: Did, x: Did|
            (g, x) != (giver, receiver) ==> #[trigger] r2.star_at(g, x) == r0.star_at(g, x),
{
    assert(r2.profiles()[receiver] == r0.profiles()[receiver]);
    assert(r2.profiles() =~= r0.profiles());
}

/// Revocation is permanent: a revoked agent's status cannot be changed
/// and it cannot deregister; both calls fail and leave the registry as it
/// was.
pub proof fn lemma_revoked_is_terminal(
    r0: AgentRegistry,
    r1: AgentRegistry,
    r2: AgentRegistry,
    l0: Ledger,
    l2: Ledger,
    origin: Origin,
    did: Did,
    new_status: AgentStatus,
    res1: Result<(), DispatchError>,
    res2: Result<(), DispatchError>,
)
    requires
        r0.profiles().contains_key(did),
        r0.profiles()[did].status == AgentStatus::Revoked,
        r0.status_post(&r1, origin, did, new_status, res1),
        r0.deregister_post(&r2, &l0, &l2, origin, did, res2),
    ensures
        res1 is Err,
        res2 is Err,
        r1.profiles() == r0.profiles(),
        r2.profiles() == r0.profiles(),
        forall|w: AccountId| #[trigger] l2.account(w) == l0.account(w),
{
}


/// Costs of the registry's calls.
pub trait WeightInfo {
    fn register_agent() -> Weight;

    fn update_profile() -> Weight;

    fn set_agent_status() -> Weight;

    fn give_star(giver_did: Did, receiver: Did) -> Weight;

    fn remove_star(giver_did: Did, receiver: Did) -> Weight;

    fn deregister_agent(did: Did) -> Weight;
}

/// Costs built from a per-call base, 25,000,000 per storage read and
/// 100,000,000 per storage write (plus 300,000,000 for the ML-DSA check
/// on registration). Each equals the fixed development table of `()`.
pub struct SubstrateWeight;

impl WeightInfo for SubstrateWeight {
    /// 6 reads, 3 writes and the signature check.
    fn register_agent() -> (w: Weight)
        ensures
            w == (Weight { ref_time: 750_010_000, proof_size: 0 }),
    {
        Weight::from_parts(10_000, 0).saturating_add(Weight::from_parts(25_000_000 * 6, 0)).saturating_add(
            Weight::from_parts(100_000_000 * 3, 0),
        ).saturating_add(Weight::from_parts(300_000_000, 0))
    }

    /// 1 read, 1 write.
    fn update_profile() -> (w: Weight)
        ensures
            w == (Weight { ref_time: 125_008_000, proof_size: 0 }),
    {
        Weight::from_parts(8_000, 0).saturating_add(Weight::from_parts(25_000_000, 0)).saturating_add(
            Weight::from_parts(100_000_000, 0),
        )
    }

    /// 2 reads, 2 writes.
    fn set_agent_status() -> (w: Weight)
        ensures
            w == (Weight { ref_time: 250_006_000, proof_size: 0 }),
    {
        Weight::from_parts(6_000, 0).saturating_add(Weight::from_parts(25_000_000 * 2, 0)).saturating_add(
            Weight::from_parts(100_000_000 * 2, 0),
        )
    }

    /// 4 reads, 2 writes; flat per call.
    fn give_star(_giver_did: Did, _receiver: Did) -> (w: Weight)
        ensures
            w == (Weight { ref_time: 300_008_000, proof_size: 0 }),
    {
        Weight::from_parts(8_000, 0).saturating_add(Weight::from_parts(25_000_000 * 4, 0)).saturating_add(
            Weight::from_parts(100_000_000 * 2, 0),
        )
    }

    /// 3 reads, 2 writes.
    fn remove_star(_giver_did: Did, _receiver: Did) -> (w: Weight)
        ensures
            w == (Weight { ref_time: 275_008_000, proof_size: 0 }),
    {
        Weight::from_parts(8_000, 0).saturating_add(Weight::from_parts(25_000_000 * 3, 0)).saturating_add(
            Weight::from_parts(100_000_000 * 2, 0),
        )
    }

    /// 3 reads, 3 writes.
    fn deregister_agent(_did: Did) -> (w: Weight)
        ensures
            w == (Weight { ref_time: 375_006_000, proof_size: 0 }),
    {
        Weight::from_parts(6_000, 0).saturating_add(Weight::from_parts(25_000_000 * 3, 0)).saturating_add(
            Weight::from_parts(100_000_000 * 3, 0),
        )
    }
}

/// The fixed development table, identical to `SubstrateWeight` so that
/// tests see the production cost profile.
impl WeightInfo for () {
    fn register_agent() -> (w: Weight)
        ensures
            w == (Weight { ref_time: 750_010_000, proof_size: 0 }),
    {
        Weight::from_parts(750_010_000, 0)
    }

    fn update_profile() -> (w: Weight)
        ensures
            w == (Weight { ref_time: 125_008_000, proof_size: 0 }),
    {
        Weight::from_parts(125_008_000, 0)
    }

    fn set_agent_status() -> (w: Weight)
        ensures
            w == (Weight { ref_time: 250_006_000, proof_size: 0 }),
    {
        Weight::from_parts(250_006_000, 0)
    }

    fn give_star(_giver_did: Did, _receiver: Did) -> (w: Weight)
        ensures
            w == (Weight { ref_time: 300_008_000, proof_size: 0 }),
    {
        Weight::from_parts(300_008_000, 0)
    }

    fn remove_star(_giver_did: Did, _receiver: Did) -> (w: Weight)
        ensures
            w == (Weight { ref_time: 275_008_000, proof_size: 0 }),
    {
        Weight::from_parts(275_008_000, 0)
    }

    fn deregister_agent(_did: Did) -> (w: Weight)
        ensures
            w == (Weight { ref_time: 375_006_000, proof_size: 0 }),
    {
        Weight::from_parts(375_006_000, 0)
    }
}

} // verus!
