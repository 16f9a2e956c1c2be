//! Merkle-root commitments for off-chain data delivery between agents, and
//! on-chain adjudication of delivery disputes by Merkle inclusion proof.
//!
//! Lifecycle: `register_commitment` (Pending) -> `acknowledge_commitment`
//! (Active) -> `close_commitment` (Settled) or `raise_dispute` (Disputed)
//! -> `counter_dispute` or `finalize_dispute` (DisputeResolved). Pending
//! and Active commitments past expiry are removed by `expire_commitment`.
//!
//! A dispute names one chunk index, stored with the dispute; a counter
//! must prove exactly that index, so a provider cannot refute a dispute by
//! proving some other, intact chunk.
//!
//! Identity checks go through [`AgentLookup`]; a resolved dispute yields
//! the [`Penalty`] that the runtime hands to its reputation handler.
use vstd::prelude::*;

use crate::crypto::{blake2_256, blake2_256_of, le_bytes_u64, scale_encode_u64};
use crate::ledger::Chain;
use crate::merkle::{hash_leaf, leaf_hash_of, merkle_proof_verifies, verify_inclusion};
use crate::agent_registry::append_bytes;
use crate::table::{bytes32_eq, Table};
use crate::types::{
    ensure_signed, zero32, AccountId, BlockNumber, Did, DispatchError, Origin, Weight,
};

verus! {

pub const MAX_METADATA_LEN: u32 = 256;

/// Most bytes in one chunk of a counter-proof.
pub const MAX_CHUNK_LEN: u32 = 1024;

/// Most sibling hashes in one Merkle proof.
pub const MAX_PROOF_DEPTH: u32 = 32;

pub type MerkleRoot = [u8; 32];

pub type ChunkIndex = u64;

pub type CommitmentId = [u8; 32];

#[derive(Clone, Copy, Debug, PartialEq, Eq, Structural)]
pub enum CommitmentStatus {
    Pending,
    Active,
    Settled,
    Disputed,
    DisputeResolved,
    Expired,
}

#[derive(Clone, Debug, PartialEq, Eq)]
pub struct VectorCommitment {
    pub commitment_id: CommitmentId,
    pub provider: Did,
    pub consumer: Did,
    pub merkle_root: MerkleRoot,
    pub total_chunks: u64,
    pub metadata: Vec<u8>,
    pub status: CommitmentStatus,
    pub created_at: BlockNumber,
    pub expires_at: BlockNumber,
    pub acknowledged_at: Option<BlockNumber>,
}

#[derive(Clone, Copy, Debug, PartialEq, Eq)]
pub struct StreamReceipt {
    pub commitment_id: CommitmentId,
    pub final_stream_hash: MerkleRoot,
    pub chunk_count: u64,
    pub submitted_at: BlockNumber,
}

#[derive(Clone, Copy, Debug, PartialEq, Eq, Structural)]
pub enum DisputeVerdict {
    ProviderGuilty,
    ClaimantUnsubstantiated,
}

#[derive(Clone, Copy, Debug, PartialEq, Eq)]
pub struct DisputeRecord {
    pub commitment_id: CommitmentId,
    pub merkle_root: MerkleRoot,
    pub received_chunk_hash: [u8; 32],
    /// The chunk the consumer claims was corrupted; the only index a
    /// counter may prove.
    pub disputed_chunk_index: ChunkIndex,
    pub raised_at: BlockNumber,
    pub counter_deadline: BlockNumber,
    pub verdict: Option<DisputeVerdict>,
}

/// Runtime constants of the commitment registry.
#[derive(Clone, Copy, Debug, PartialEq, Eq, Structural)]
pub struct VectorDbConfig {
    /// Blocks the provider has to counter a dispute.
    pub dispute_window: BlockNumber,
    /// Longest lifetime a commitment may be registered with.
    pub max_commitment_lifetime: BlockNumber,
    /// Reputation points taken from a provider found guilty.
    pub provider_guilty_slash: u32,
    /// Reputation points taken from a consumer whose dispute was baseless.
    pub false_dispute_slash: u32,
}

#[derive(Clone, Copy, Debug, PartialEq, Eq)]
pub enum VectorDbEvent {
    CommitmentRegistered {
        commitment_id: CommitmentId,
        provider: Did,
        consumer: Did,
        merkle_root: MerkleRoot,
        total_chunks: u64,
        expires_at: BlockNumber,
    },
    CommitmentAcknowledged { commitment_id: CommitmentId, acknowledged_at: BlockNumber },
    CommitmentSettled { commitment_id: CommitmentId, final_stream_hash: MerkleRoot, chunk_count: u64 },
    DisputeRaised {
        commitment_id: CommitmentId,
        merkle_root: MerkleRoot,
        disputed_chunk_index: ChunkIndex,
        received_chunk_hash: [u8; 32],
        counter_deadline: BlockNumber,
    },
    DisputeCountered { commitment_id: CommitmentId, verdict: DisputeVerdict },
    DisputeFinalized {
        commitment_id: CommitmentId,
        verdict: DisputeVerdict,
        provider: Did,
        consumer: Did,
    },
    CommitmentExpired { commitment_id: CommitmentId },
}

#[derive(Clone, Copy, Debug, PartialEq, Eq, Structural)]
pub enum VectorDbError {
    CommitmentAlreadyExists,
    CommitmentNotFound,
    NotProvider,
    NotConsumer,
    ProviderNotEligible,
    ConsumerNotEligible,
    SelfTrade,
    ExpiryMustBePositive,
    ExpiryTooFar,
    CommitmentExpiredError,
    NotPending,
    NotActive,
    NotDisputed,
    AlreadyFinalized,
    StreamHashMismatch,
    InvalidMerkleProof,
    DisputeAlreadyRaised,
    DisputeWindowStillOpen,
    DisputeWindowExpired,
    NotYetExpired,
    TotalChunksMustBePositive,
    InvalidMerkleRoot,
    ChunkIndexOutOfBounds,
}

/// The reputation consequence of a resolved dispute, for the runtime's
/// reputation handler.
#[derive(Clone, Copy, Debug, PartialEq, Eq)]
pub enum Penalty {
    /// The provider let the response window lapse.
    PenalizeProvider(Did),
    /// The consumer's dispute was refuted with a valid proof.
    PenalizeFalseDisputer(Did),
}

/// What the commitment registry needs to know about a DID.
pub trait AgentLookup {
    /// The lookup's own state is well formed.
    spec fn lookup_wf(&self) -> bool;

    spec fn controller_view(&self, did: Did) -> Option<AccountId>;

    spec fn active_verified_view(&self, did: Did) -> bool;

    /// Controller account of `did`, if registered.
    fn controller_of(&self, did: &Did) -> (r: Option<AccountId>)
        requires
            self.lookup_wf(),
        ensures
            r == self.controller_view(*did),
    ;

    /// Whether `did` is registered, active and verified.
    fn is_active_verified(&self, did: &Did) -> (r: bool)
        requires
            self.lookup_wf(),
        ensures
            r == self.active_verified_view(*did),
    ;
}

/// No registry at all: no DID has a controller, none is eligible.
impl AgentLookup for () {
    open spec fn lookup_wf(&self) -> bool {
        true
    }

    open spec fn controller_view(&self, did: Did) -> Option<AccountId> {
        None
    }

    open spec fn active_verified_view(&self, did: Did) -> bool {
        false
    }

    fn controller_of(&self, did: &Did) -> (r: Option<AccountId>) {
        None
    }

    fn is_active_verified(&self, did: &Did) -> (r: bool) {
        false
    }
}

pub open spec fn vdb_err<T>(e: VectorDbError) -> Result<T, DispatchError> {
    Err(DispatchError::VectorDb(e))
}

/// The bytes of "ArthNeura-Vector-v1", the commitment-id domain tag.
pub open spec fn commitment_domain_tag() -> Seq<u8> {
    seq![65u8, 114, 116, 104, 78, 101, 117, 114, 97, 45, 86, 101, 99, 116, 111, 114, 45, 118, 49]
}

/// Commitment id: `blake2_256("ArthNeura-Vector-v1" ++ provider ++
/// consumer ++ merkle_root ++ SCALE(block))`.
pub open spec fn commitment_id_of(
    provider: Did,
    consumer: Did,
    merkle_root: MerkleRoot,
    block: BlockNumber,
) -> CommitmentId {
    blake2_256_of(
        commitment_domain_tag() + provider@ + consumer@ + merkle_root@ + le_bytes_u64(block),
    )
}

/// Derives a commitment id exactly as registration does.
pub fn derive_commitment_id(
    provider: Did,
    consumer: Did,
    merkle_root: MerkleRoot,
    block: BlockNumber,
) -> (r: CommitmentId)
    ensures
        r == commitment_id_of(provider, consumer, merkle_root, block),
{
    let mut preimage: Vec<u8> = vec![65u8, 114, 116, 104, 78, 101, 117, 114, 97, 45, 86, 101, 99, 116, 111, 114, 45, 118, 49];
    assert(preimage@ =~= commitment_domain_tag());
    append_bytes(&mut preimage, &provider);
    append_bytes(&mut preimage, &consumer);
    append_bytes(&mut preimage, &merkle_root);
    let enc = scale_encode_u64(block);
    append_bytes(&mut preimage, enc.as_slice());
    blake2_256(preimage.as_slice())
}

pub open spec fn sat_add_block(a: BlockNumber, b: BlockNumber) -> BlockNumber {
    if a + b <= u64::MAX {
        (a + b) as u64
    } else {
        u64::MAX
    }
}

pub open spec fn sat_inc(a: u32) -> u32 {
    if a < u32::MAX {
        (a + 1) as u32
    } else {
        a
    }
}

pub open spec fn sat_dec(a: u32) -> u32 {
    if a > 0 {
        (a - 1) as u32
    } else {
        0
    }
}

/// A commitment that still counts as open: not yet settled, resolved or
/// removed.
pub open spec fn open_status(s: CommitmentStatus) -> bool {
    s == CommitmentStatus::Pending || s == CommitmentStatus::Active || s
        == CommitmentStatus::Disputed
}

/// Ids of the open commitments.
pub open spec fn open_ids(m: Map<CommitmentId, VectorCommitment>) -> Set<CommitmentId> {
    m.dom().filter(|id: CommitmentId| open_status(m[id].status))
}

proof fn lemma_open_insert(m: Map<CommitmentId, VectorCommitment>, id: CommitmentId, c: VectorCommitment)
    requires
        m.dom().finite(),
    ensures
        open_ids(m).finite(),
        open_ids(m.insert(id, c)).finite(),
        open_status(c.status) ==> open_ids(m.insert(id, c)) == open_ids(m).insert(id),
        !open_status(c.status) ==> open_ids(m.insert(id, c)) == open_ids(m).remove(id),
{
    let m2 = m.insert(id, c);
    assert(open_ids(m).subset_of(m.dom()));
    vstd::set_lib::lemma_len_subset(open_ids(m), m.dom());
    assert(m2.dom() =~= m.dom().insert(id));
    assert(open_ids(m2).subset_of(m2.dom()));
    vstd::set_lib::lemma_len_subset(open_ids(m2), m2.dom());
    if open_status(c.status) {
        assert(open_ids(m2) =~= open_ids(m).insert(id));
    } else {
        assert(open_ids(m2) =~= open_ids(m).remove(id));
    }
}

proof fn lemma_open_remove(m: Map<CommitmentId, VectorCommitment>, id: CommitmentId)
    requires
        m.dom().finite(),
    ensures
        open_ids(m).finite(),
        open_ids(m.remove(id)) == open_ids(m).remove(id),
{
    assert(open_ids(m).subset_of(m.dom()));
    vstd::set_lib::lemma_len_subset(open_ids(m), m.dom());
    assert(open_ids(m.remove(id)) =~= open_ids(m).remove(id));
}

/// Commitments, stream receipts of settled deliveries, dispute records,
/// the count of open commitments and the events emitted so far.
#[derive(Clone, Debug, PartialEq, Eq)]
pub struct VectorDb {
    config: VectorDbConfig,
    commitments: Table<CommitmentId, VectorCommitment>,
    active_commitment_count: u32,
    receipts: Table<CommitmentId, StreamReceipt>,
    disputes: Table<CommitmentId, DisputeRecord>,
    events: Vec<VectorDbEvent>,
}

impl VectorDb {
    pub closed spec fn wf(&self) -> bool {
        &&& self.commitments.wf()
        &&& self.receipts.wf()
        &&& self.disputes.wf()
    }

    pub closed spec fn commitments(&self) -> Map<CommitmentId, VectorCommitment> {
        self.commitments@
    }

    pub closed spec fn receipts(&self) -> Map<CommitmentId, StreamReceipt> {
        self.receipts@
    }

    pub closed spec fn disputes(&self) -> Map<CommitmentId, DisputeRecord> {
        self.disputes@
    }

    pub closed spec fn active_count(&self) -> u32 {
        self.active_commitment_count
    }

    pub closed spec fn event_log(&self) -> Seq<VectorDbEvent> {
        self.events@
    }

    pub closed spec fn config(&self) -> VectorDbConfig {
        self.config
    }

    /// Nothing in `self` differs from `other`.
    pub open spec fn unchanged_from(&self, other: &VectorDb) -> bool {
        &&& self.commitments() == other.commitments()
        &&& self.receipts() == other.receipts()
        &&& self.disputes() == other.disputes()
        &&& self.active_count() == other.active_count()
        &&& self.event_log() == other.event_log()
        &&& self.config() == other.config()
    }


    /// Every commitment is stored under its own id, has chunks, and is in
    /// a state the registry can reach.
    pub open spec fn commitments_consistent(&self) -> bool {
        forall|id: CommitmentId| #[trigger]
            self.commitments().contains_key(id) ==> {
                let c = self.commitments()[id];
                &&& c.commitment_id == id
                &&& c.total_chunks > 0
                &&& c.status != CommitmentStatus::Expired
            }
    }

    /// A receipt exists exactly for each settled commitment, under its id.
    pub open spec fn receipts_consistent(&self) -> bool {
        &&& forall|id: CommitmentId| #[trigger]
            self.receipts().contains_key(id) <==> (self.commitments().contains_key(id)
                && self.commitments()[id].status == CommitmentStatus::Settled)
        &&& forall|id: CommitmentId| #[trigger]
            self.receipts().contains_key(id) ==> self.receipts()[id].commitment_id == id
    }

    /// A dispute record exists exactly for each disputed or resolved
    /// commitment; it keeps the committed root and an index inside the
    /// commitment, and has a verdict exactly once resolved.
    pub open spec fn disputes_consistent(&self) -> bool {
        &&& forall|id: CommitmentId| #[trigger]
            self.disputes().contains_key(id) <==> (self.commitments().contains_key(id) && (
            self.commitments()[id].status == CommitmentStatus::Disputed
                || self.commitments()[id].status == CommitmentStatus::DisputeResolved))
        &&& forall|id: CommitmentId| #[trigger]
            self.disputes().contains_key(id) ==> ({
                let c = self.commitments()[id];
                let d = self.disputes()[id];
                &&& d.commitment_id == id
                &&& d.merkle_root == c.merkle_root
                &&& d.disputed_chunk_index < c.total_chunks
                &&& (d.verdict is None <==> c.status == CommitmentStatus::Disputed)
            })
    }

    /// The open count is the number of open commitments.
    pub open spec fn count_consistent(&self) -> bool {
        self.active_count() == open_ids(self.commitments()).len()
    }

    /// The registry invariant that every call preserves.
    pub open spec fn inv(&self) -> bool {
        &&& self.wf()
        &&& self.commitments_consistent()
        &&& self.receipts_consistent()
        &&& self.disputes_consistent()
        &&& self.count_consistent()
    }

    proof fn lemma_finite(&self)
        requires
            self.wf(),
        ensures
            self.commitments().dom().finite(),
            open_ids(self.commitments()).finite(),
    {
        self.commitments.lemma_dom_finite();
        assert(open_ids(self.commitments()).subset_of(self.commitments().dom()));
        vstd::set_lib::lemma_len_subset(open_ids(self.commitments()), self.commitments().dom());
    }

    /// A commitment changes state: either a new open commitment is added
    /// (receipts and disputes untouched), or an existing one moves between
    /// states, with a receipt or dispute record added exactly when the
    /// new state calls for one.
    proof fn lemma_step_keeps_inv(pre: VectorDb, post: VectorDb, id: CommitmentId, c: VectorCommitment)
        requires
            pre.inv(),
            post.wf(),
            post.commitments() == pre.commitments().insert(id, c),
            c.commitment_id == id,
            c.total_chunks > 0,
            c.status != CommitmentStatus::Expired,
            !pre.commitments().contains_key(id) ==> {
                &&& c.status == CommitmentStatus::Pending
                &&& post.receipts() == pre.receipts()
                &&& post.disputes() == pre.disputes()
                &&& pre.active_count() < u32::MAX
                &&& post.active_count() == sat_inc(pre.active_count())
            },
            pre.commitments().contains_key(id) ==> ({
                let old_c = pre.commitments()[id];
                &&& c.merkle_root == old_c.merkle_root
                &&& c.total_chunks == old_c.total_chunks
                &&& open_status(old_c.status)
                &&& c.status == CommitmentStatus::Settled ==> post.receipts()
                    == pre.receipts().insert(id, post.receipts()[id])
                    && post.receipts()[id].commitment_id == id
                &&& c.status != CommitmentStatus::Settled ==> post.receipts() == pre.receipts()
                &&& old_c.status == CommitmentStatus::Active && c.status
                    == CommitmentStatus::Disputed ==> post.disputes() == pre.disputes().insert(
                    id,
                    post.disputes()[id],
                ) && post.disputes()[id].commitment_id == id && post.disputes()[id].merkle_root
                    == c.merkle_root && post.disputes()[id].disputed_chunk_index < c.total_chunks
                    && post.disputes()[id].verdict is None
                &&& old_c.status == CommitmentStatus::Disputed ==> c.status
                    == CommitmentStatus::DisputeResolved && post.disputes() == pre.disputes().insert(
                    id,
                    DisputeRecord { verdict: post.disputes()[id].verdict, ..pre.disputes()[id] },
                ) && post.disputes()[id].verdict is Some
                &&& old_c.status != CommitmentStatus::Disputed && c.status
                    != CommitmentStatus::Disputed ==> post.disputes() == pre.disputes()
                &&& old_c.status == CommitmentStatus::Pending ==> c.status
                    == CommitmentStatus::Active
                &&& old_c.status == CommitmentStatus::Active ==> c.status
                    == CommitmentStatus::Settled || c.status == CommitmentStatus::Disputed
                &&& open_status(c.status) ==> post.active_count() == pre.active_count()
                &&& !open_status(c.status) ==> post.active_count() == sat_dec(pre.active_count())
            }),
        ensures
            post.inv(),
    {
        pre.lemma_finite();
        lemma_open_insert(pre.commitments(), id, c);
        if pre.commitments().contains_key(id) {
            assert(open_ids(pre.commitments()).contains(id));
        } else {
            assert(!open_ids(pre.commitments()).contains(id));
        }
        assert forall|k: CommitmentId| #[trigger] post.receipts().contains_key(k) implies
            post.receipts()[k].commitment_id == k by {
            if k != id {
                assert(pre.receipts().contains_key(k));
            }
        }
        assert forall|k: CommitmentId| #[trigger] post.disputes().contains_key(k) implies ({
            let ck = post.commitments()[k];
            let d = post.disputes()[k];
            &&& d.commitment_id == k
            &&& d.merkle_root == ck.merkle_root
            &&& d.disputed_chunk_index < ck.total_chunks
            &&& (d.verdict is None <==> ck.status == CommitmentStatus::Disputed)
        }) by {
            if k != id {
                assert(pre.disputes().contains_key(k));
                assert(pre.disputes()[k] == post.disputes()[k]);
            } else if pre.commitments().contains_key(id) {
                let old_c = pre.commitments()[id];
                if old_c.status == CommitmentStatus::Disputed {
                    assert(pre.disputes().contains_key(id));
                    assert(post.disputes()[id] == DisputeRecord {
                        verdict: post.disputes()[id].verdict,
                        ..pre.disputes()[id]
                    });
                } else if old_c.status != CommitmentStatus::Active || c.status
                    != CommitmentStatus::Disputed {
                    assert(!pre.disputes().contains_key(id));
                }
            } else {
                assert(!pre.disputes().contains_key(id));
            }
        }
    }

    /// Removing a still-open commitment that has neither receipt nor
    /// dispute keeps the invariant, with the count one lower.
    proof fn lemma_remove_keeps_inv(pre: VectorDb, post: VectorDb, id: CommitmentId)
        requires
            pre.inv(),
            post.wf(),
            pre.commitments().contains_key(id),
            pre.commitments()[id].status == CommitmentStatus::Pending
                || pre.commitments()[id].status == CommitmentStatus::Active,
            post.commitments() == pre.commitments().remove(id),
            post.receipts() == pre.receipts(),
            post.disputes() == pre.disputes(),
            post.active_count() == sat_dec(pre.active_count()),
        ensures
            post.inv(),
    {
        pre.lemma_finite();
        lemma_open_remove(pre.commitments(), id);
        assert(open_ids(pre.commitments()).contains(id));
        assert(!pre.receipts().contains_key(id));
        assert(!pre.disputes().contains_key(id));
        assert forall|k: CommitmentId| #[trigger] post.disputes().contains_key(k) implies
            post.commitments().contains_key(k) by {
            assert(k != id);
        }
    }

    pub fn new(config: VectorDbConfig) -> (r: VectorDb)
        ensures
            r.wf(),
            r.inv(),
            r.config() == config,
            r.commitments() == Map::<CommitmentId, VectorCommitment>::empty(),
            r.receipts() == Map::<CommitmentId, StreamReceipt>::empty(),
            r.disputes() == Map::<CommitmentId, DisputeRecord>::empty(),
            r.active_count() == 0,
            r.event_log() == Seq::<VectorDbEvent>::empty(),
    {
        let r = VectorDb {
            config,
            commitments: Table::new(),
            active_commitment_count: 0,
            receipts: Table::new(),
            disputes: Table::new(),
            events: Vec::new(),
        };
        assert(open_ids(r.commitments()) =~= Set::<CommitmentId>::empty());
        r
    }

    pub fn config_values(&self) -> (r: VectorDbConfig)
        ensures
            r == self.config(),
    {
        self.config
    }

    pub fn vector_commitment(&self, id: &CommitmentId) -> (r: Option<&VectorCommitment>)
        requires
            self.wf(),
        ensures
            match r {
                Some(c) => self.commitments().contains_key(*id) && *c == self.commitments()[*id],
                None => !self.commitments().contains_key(*id),
            },
    {
        self.commitments.get(id)
    }

    pub fn stream_receipt(&self, id: &CommitmentId) -> (r: Option<StreamReceipt>)
        requires
            self.wf(),
        ensures
            r == self.receipts().get(*id),
    {
        match self.receipts.get(id) {
            Some(x) => Some(*x),
            None => None,
        }
    }

    pub fn dispute_record(&self, id: &CommitmentId) -> (r: Option<DisputeRecord>)
        requires
            self.wf(),
        ensures
            r == self.disputes().get(*id),
    {
        match self.disputes.get(id) {
            Some(x) => Some(*x),
            None => None,
        }
    }

    pub fn active_commitment_count(&self) -> (r: u32)
        ensures
            r == self.active_count(),
    {
        self.active_commitment_count
    }

    pub fn events(&self) -> (r: &Vec<VectorDbEvent>)
        ensures
            r@ == self.event_log(),
    {
        &self.events
    }

    pub fn last_event(&self) -> (r: Option<VectorDbEvent>)
        ensures
            r == (if self.event_log().len() == 0 {
                None
            } else {
                Some(self.event_log().last())
            }),
    {
        if self.events.len() == 0 {
            None
        } else {
            Some(self.events[self.events.len() - 1])
        }
    }

    pub fn reset_events(&mut self)
        requires
            old(self).wf(),
        ensures
            final(self).wf(),
            final(self).commitments() == old(self).commitments(),
            final(self).receipts() == old(self).receipts(),
            final(self).disputes() == old(self).disputes(),
            final(self).active_count() == old(self).active_count(),
            final(self).config() == old(self).config(),
            final(self).event_log() == Seq::<VectorDbEvent>::empty(),
    {
        self.events = Vec::new();
    }

    fn deposit_event(&mut self, e: VectorDbEvent)
        ensures
            final(self).wf() == old(self).wf(),
            final(self).commitments() == old(self).commitments(),
            final(self).receipts() == old(self).receipts(),
            final(self).disputes() == old(self).disputes(),
            final(self).active_count() == old(self).active_count(),
            final(self).config() == old(self).config(),
            final(self).event_log() == old(self).event_log().push(e),
    {
        self.events.push(e);
    }

    /// Replaces the status (and, if given, the acknowledgement block) of a
    /// stored commitment; no other storage changes.
    fn set_status(&mut self, id: CommitmentId, status: CommitmentStatus, ack: Option<BlockNumber>)
        requires
            old(self).wf(),
            old(self).commitments().contains_key(id),
        ensures
            final(self).wf(),
            final(self).commitments() == old(self).commitments().insert(
                id,
                VectorCommitment {
                    status,
                    acknowledged_at: match ack {
                        Some(b) => Some(b),
                        None => old(self).commitments()[id].acknowledged_at,
                    },
                    ..old(self).commitments()[id]
                },
            ),
            final(self).receipts() == old(self).receipts(),
            final(self).disputes() == old(self).disputes(),
            final(self).active_count() == old(self).active_count(),
            final(self).config() == old(self).config(),
            final(self).event_log() == old(self).event_log(),
    {
        let ghost pre = self.commitments@;
        match self.commitments.remove(&id) {
            Some(c) => {
                let acknowledged_at = match ack {
                    Some(b) => Some(b),
                    None => c.acknowledged_at,
                };
                self.commitments.insert(id, VectorCommitment { status, acknowledged_at, ..c });
                assert(self.commitments@ =~= pre.insert(
                    id,
                    VectorCommitment { status, acknowledged_at, ..pre[id] },
                ));
            },
            None => {},
        }
    }

    /// What registration answers, in the order its checks run.
    pub open spec fn register_outcome<L: AgentLookup>(
        &self,
        chain: &Chain,
        lookup: &L,
        origin: Origin,
        provider_did: Did,
        consumer_did: Did,
        merkle_root: MerkleRoot,
        total_chunks: u64,
        expires_in_blocks: BlockNumber,
    ) -> Result<(), DispatchError> {
        match origin {
            Origin::Signed(caller) => if provider_did == consumer_did {
                vdb_err(VectorDbError::SelfTrade)
            } else if total_chunks == 0 {
                vdb_err(VectorDbError::TotalChunksMustBePositive)
            } else if merkle_root == zero32() {
                vdb_err(VectorDbError::InvalidMerkleRoot)
            } else if lookup.controller_view(provider_did) is None {
                vdb_err(VectorDbError::ProviderNotEligible)
            } else if lookup.controller_view(provider_did) != Some(caller) {
                vdb_err(VectorDbError::NotProvider)
            } else if !lookup.active_verified_view(provider_did) {
                vdb_err(VectorDbError::ProviderNotEligible)
            } else if !lookup.active_verified_view(consumer_did) {
                vdb_err(VectorDbError::ConsumerNotEligible)
            } else if expires_in_blocks == 0 {
                vdb_err(VectorDbError::ExpiryMustBePositive)
            } else if expires_in_blocks > self.config().max_commitment_lifetime {
                vdb_err(VectorDbError::ExpiryTooFar)
            } else if self.commitments().contains_key(
                commitment_id_of(provider_did, consumer_did, merkle_root, chain.now()),
            ) {
                vdb_err(VectorDbError::CommitmentAlreadyExists)
            } else {
                Ok(())
            },
            _ => Err(DispatchError::BadOrigin),
        }
    }

    /// Provider anchors a Merkle root, chunk count, metadata and expiry for
    /// a delivery to `consumer_did`. Both DIDs must be active and
    /// verified, the caller must control the provider, self-trades are
    /// rejected, and the id is derived from the current block.
    pub fn register_commitment<L: AgentLookup>(
        &mut self,
        chain: &Chain,
        lookup: &L,
        origin: Origin,
        provider_did: Did,
        consumer_did: Did,
        merkle_root: MerkleRoot,
        total_chunks: u64,
        metadata: Vec<u8>,
        expires_in_blocks: BlockNumber,
    ) -> (r: Result<(), DispatchError>)
        requires
            old(self).wf(),
            lookup.lookup_wf(),
            chain.wf(),
            metadata@.len() <= MAX_METADATA_LEN,
        ensures
            final(self).wf(),
            old(self).inv() && old(self).active_count() < u32::MAX ==> final(self).inv(),
            r == old(self).register_outcome(
                chain,
                lookup,
                origin,
                provider_did,
                consumer_did,
                merkle_root,
                total_chunks,
                expires_in_blocks,
            ),
            r is Err ==> final(self).unchanged_from(old(self)),
            r is Ok ==> ({
                let id = commitment_id_of(provider_did, consumer_did, merkle_root, chain.now());
                let expires_at = sat_add_block(chain.now(), expires_in_blocks);
                &&& final(self).commitments() == old(self).commitments().insert(
                    id,
                    VectorCommitment {
                        commitment_id: id,
                        provider: provider_did,
                        consumer: consumer_did,
                        merkle_root,
                        total_chunks,
                        metadata,
                        status: CommitmentStatus::Pending,
                        created_at: chain.now(),
                        expires_at,
                        acknowledged_at: None,
                    },
                )
                &&& final(self).receipts() == old(self).receipts()
                &&& final(self).disputes() == old(self).disputes()
                &&& final(self).active_count() == sat_inc(old(self).active_count())
                &&& final(self).config() == old(self).config()
                &&& final(self).event_log() == old(self).event_log().push(
                    VectorDbEvent::CommitmentRegistered {
                        commitment_id: id,
                        provider: provider_did,
                        consumer: consumer_did,
                        merkle_root,
                        total_chunks,
                        expires_at,
                    },
                )
            }),
    {
        let caller = ensure_signed(origin)?;
        if bytes32_eq(&provider_did, &consumer_did) {
            return Err(DispatchError::VectorDb(VectorDbError::SelfTrade));
        }
        if total_chunks == 0 {
            return Err(DispatchError::VectorDb(VectorDbError::TotalChunksMustBePositive));
        }
        if bytes32_eq(&merkle_root, &[0u8; 32]) {
            return Err(DispatchError::VectorDb(VectorDbError::InvalidMerkleRoot));
        }
        match lookup.controller_of(&provider_did) {
            None => {
                return Err(DispatchError::VectorDb(VectorDbError::ProviderNotEligible));
            },
            Some(c) => {
                if c != caller {
                    return Err(DispatchError::VectorDb(VectorDbError::NotProvider));
                }
            },
        }
        if !lookup.is_active_verified(&provider_did) {
            return Err(DispatchError::VectorDb(VectorDbError::ProviderNotEligible));
        }
        if !lookup.is_active_verified(&consumer_did) {
            return Err(DispatchError::VectorDb(VectorDbError::ConsumerNotEligible));
        }
        let current_block = chain.block_number();
        if expires_in_blocks == 0 {
            return Err(DispatchError::VectorDb(VectorDbError::ExpiryMustBePositive));
        }
        if expires_in_blocks > self.config.max_commitment_lifetime {
            return Err(DispatchError::VectorDb(VectorDbError::ExpiryTooFar));
        }
        let expires_at = current_block.saturating_add(expires_in_blocks);
        let commitment_id = derive_commitment_id(
            provider_did,
            consumer_did,
            merkle_root,
            current_block,
        );
        if self.commitments.contains_key(&commitment_id) {
            return Err(DispatchError::VectorDb(VectorDbError::CommitmentAlreadyExists));
        }
        self.commitments.insert(
            commitment_id,
            VectorCommitment {
                commitment_id,
                provider: provider_did,
                consumer: consumer_did,
                merkle_root,
                total_chunks,
                metadata,
                status: CommitmentStatus::Pending,
                created_at: current_block,
                expires_at,
                acknowledged_at: None,
            },
        );
        self.active_commitment_count = self.active_commitment_count.saturating_add(1);
        self.deposit_event(
            VectorDbEvent::CommitmentRegistered {
                commitment_id,
                provider: provider_did,
                consumer: consumer_did,
                merkle_root,
                total_chunks,
                expires_at,
            },
        );
        proof {
            if old(self).inv() && old(self).active_count() < u32::MAX {
                let c = self.commitments()[commitment_id];
                Self::lemma_step_keeps_inv(*old(self), *self, commitment_id, c);
            }
        }
        Ok(())
    }

    /// The consumer-side checks shared by acknowledge and close: the
    /// caller must control `consumer_did`, which must be the commitment's
    /// consumer and still active and verified.
    pub open spec fn consumer_check<L: AgentLookup>(
        lookup: &L,
        caller: AccountId,
        c: VectorCommitment,
        consumer_did: Did,
    ) -> Result<(), DispatchError> {
        if c.consumer != consumer_did {
            vdb_err(VectorDbError::NotConsumer)
        } else if lookup.controller_view(consumer_did) is None {
            vdb_err(VectorDbError::ConsumerNotEligible)
        } else if lookup.controller_view(consumer_did) != Some(caller) {
            vdb_err(VectorDbError::NotConsumer)
        } else if !lookup.active_verified_view(consumer_did) {
            vdb_err(VectorDbError::ConsumerNotEligible)
        } else {
            Ok(())
        }
    }

    fn check_consumer<L: AgentLookup>(
        lookup: &L,
        caller: AccountId,
        consumer: &Did,
        consumer_did: &Did,
    ) -> (r: Result<(), DispatchError>)
        requires
            lookup.lookup_wf(),
        ensures
            r == (if *consumer != *consumer_did {
                vdb_err(VectorDbError::NotConsumer)
            } else if lookup.controller_view(*consumer_did) is None {
                vdb_err(VectorDbError::ConsumerNotEligible)
            } else if lookup.controller_view(*consumer_did) != Some(caller) {
                vdb_err(VectorDbError::NotConsumer)
            } else if !lookup.active_verified_view(*consumer_did) {
                vdb_err(VectorDbError::ConsumerNotEligible)
            } else {
                Ok::<(), DispatchError>(())
            }),
    {
        if !bytes32_eq(consumer, consumer_did) {
            return Err(DispatchError::VectorDb(VectorDbError::NotConsumer));
        }
        match lookup.controller_of(consumer_did) {
            None => {
                return Err(DispatchError::VectorDb(VectorDbError::ConsumerNotEligible));
            },
            Some(c) => {
                if c != caller {
                    return Err(DispatchError::VectorDb(VectorDbError::NotConsumer));
                }
            },
        }
        if !lookup.is_active_verified(consumer_did) {
            return Err(DispatchError::VectorDb(VectorDbError::ConsumerNotEligible));
        }
        Ok(())
    }

    /// The checks of `acknowledge_commitment`, in the order they run.
    pub open spec fn acknowledge_outcome<L: AgentLookup>(
        &self,
        chain: &Chain,
        lookup: &L,
        origin: Origin,
        commitment_id: CommitmentId,
        consumer_did: Did,
    ) -> Result<(), DispatchError> {
        match origin {
            Origin::Signed(caller) => if !self.commitments().contains_key(commitment_id) {
                vdb_err(VectorDbError::CommitmentNotFound)
            } else if self.commitments()[commitment_id].status != CommitmentStatus::Pending {
                vdb_err(VectorDbError::NotPending)
            } else if chain.now() >= self.commitments()[commitment_id].expires_at {
                vdb_err(VectorDbError::CommitmentExpiredError)
            } else {
                Self::consumer_check(lookup, caller, self.commitments()[commitment_id], consumer_did)
            },
            _ => Err(DispatchError::BadOrigin),
        }
    }

    /// The checks of `close_commitment`, in the order they run.
    pub open spec fn close_outcome<L: AgentLookup>(
        &self,
        chain: &Chain,
        lookup: &L,
        origin: Origin,
        commitment_id: CommitmentId,
        consumer_did: Did,
        final_stream_hash: MerkleRoot,
    ) -> Result<(), DispatchError> {
        match origin {
            Origin::Signed(caller) => if !self.commitments().contains_key(commitment_id) {
                vdb_err(VectorDbError::CommitmentNotFound)
            } else if self.commitments()[commitment_id].status != CommitmentStatus::Active {
                vdb_err(VectorDbError::NotActive)
            } else if chain.now() >= self.commitments()[commitment_id].expires_at {
                vdb_err(VectorDbError::CommitmentExpiredError)
            } else if Self::consumer_check(
                lookup,
                caller,
                self.commitments()[commitment_id],
                consumer_did,
            ) is Err {
                Self::consumer_check(lookup, caller, self.commitments()[commitment_id], consumer_did)
            } else if final_stream_hash != self.commitments()[commitment_id].merkle_root {
                vdb_err(VectorDbError::StreamHashMismatch)
            } else {
                Ok(())
            },
            _ => Err(DispatchError::BadOrigin),
        }
    }

    /// Consumer accepts a `Pending` commitment before expiry, making it
    /// `Active` and recording the block.
    pub fn acknowledge_commitment<L: AgentLookup>(
        &mut self,
        chain: &Chain,
        lookup: &L,
        origin: Origin,
        commitment_id: CommitmentId,
        consumer_did: Did,
    ) -> (r: Result<(), DispatchError>)
        requires
            old(self).wf(),
            lookup.lookup_wf(),
        ensures
            final(self).wf(),
            old(self).inv() ==> final(self).inv(),
            r == old(self).acknowledge_outcome(chain, lookup, origin, commitment_id, consumer_did),
            r is Err ==> final(self).unchanged_from(old(self)),
            r is Ok ==> {
                &&& final(self).commitments() == old(self).commitments().insert(
                    commitment_id,
                    VectorCommitment {
                        status: CommitmentStatus::Active,
                        acknowledged_at: Some(chain.now()),
                        ..old(self).commitments()[commitment_id]
                    },
                )
                &&& final(self).receipts() == old(self).receipts()
                &&& final(self).disputes() == old(self).disputes()
                &&& final(self).active_count() == old(self).active_count()
                &&& final(self).config() == old(self).config()
                &&& final(self).event_log() == old(self).event_log().push(
                    VectorDbEvent::CommitmentAcknowledged {
                        commitment_id,
                        acknowledged_at: chain.now(),
                    },
                )
            },
    {
        let caller = ensure_signed(origin)?;
        let current_block = chain.block_number();
        match self.commitments.get(&commitment_id) {
            None => {
                return Err(DispatchError::VectorDb(VectorDbError::CommitmentNotFound));
            },
            Some(c) => {
                match c.status {
                    CommitmentStatus::Pending => {},
                    _ => {
                        return Err(DispatchError::VectorDb(VectorDbError::NotPending));
                    },
                }
                if current_block >= c.expires_at {
                    return Err(DispatchError::VectorDb(VectorDbError::CommitmentExpiredError));
                }
                Self::check_consumer(lookup, caller, &c.consumer, &consumer_did)?;
            },
        }
        self.set_status(commitment_id, CommitmentStatus::Active, Some(current_block));
        self.deposit_event(
            VectorDbEvent::CommitmentAcknowledged { commitment_id, acknowledged_at: current_block },
        );
        proof {
            if old(self).inv() {
                let c = self.commitments()[commitment_id];
                Self::lemma_step_keeps_inv(*old(self), *self, commitment_id, c);
            }
        }
        Ok(())
    }

    /// Consumer confirms that the delivered stream hash equals the
    /// committed root, settling an `Active` commitment before expiry and
    /// storing a receipt. A mismatch is rejected.
    pub fn close_commitment<L: AgentLookup>(
        &mut self,
        chain: &Chain,
        lookup: &L,
        origin: Origin,
        commitment_id: CommitmentId,
        consumer_did: Did,
        final_stream_hash: MerkleRoot,
        chunk_count: u64,
    ) -> (r: Result<(), DispatchError>)
        requires
            old(self).wf(),
            lookup.lookup_wf(),
        ensures
            final(self).wf(),
            old(self).inv() ==> final(self).inv(),
            r == old(self).close_outcome(
                chain,
                lookup,
                origin,
                commitment_id,
                consumer_did,
                final_stream_hash,
            ),
            r is Err ==> final(self).unchanged_from(old(self)),
            r is Ok ==> {
                &&& final(self).commitments() == old(self).commitments().insert(
                    commitment_id,
                    VectorCommitment {
                        status: CommitmentStatus::Settled,
                        ..old(self).commitments()[commitment_id]
                    },
                )
                &&& final(self).receipts() == old(self).receipts().insert(
                    commitment_id,
                    StreamReceipt {
                        commitment_id,
                        final_stream_hash,
                        chunk_count,
                        submitted_at: chain.now(),
                    },
                )
                &&& final(self).disputes() == old(self).disputes()
                &&& final(self).active_count() == sat_dec(old(self).active_count())
                &&& final(self).config() == old(self).config()
                &&& final(self).event_log() == old(self).event_log().push(
                    VectorDbEvent::CommitmentSettled {
                        commitment_id,
                        final_stream_hash,
                        chunk_count,
                    },
                )
            },
    {
        let caller = ensure_signed(origin)?;
        let current_block = chain.block_number();
        match self.commitments.get(&commitment_id) {
            None => {
                return Err(DispatchError::VectorDb(VectorDbError::CommitmentNotFound));
            },
            Some(c) => {
                match c.status {
                    CommitmentStatus::Active => {},
                    _ => {
                        return Err(DispatchError::VectorDb(VectorDbError::NotActive));
                    },
                }
                if current_block >= c.expires_at {
                    return Err(DispatchError::VectorDb(VectorDbError::CommitmentExpiredError));
                }
                Self::check_consumer(lookup, caller, &c.consumer, &consumer_did)?;
                if !bytes32_eq(&final_stream_hash, &c.merkle_root) {
                    return Err(DispatchError::VectorDb(VectorDbError::StreamHashMismatch));
                }
            },
        }
        self.receipts.insert(
            commitment_id,
            StreamReceipt { commitment_id, final_stream_hash, chunk_count, submitted_at: current_block },
        );
        self.set_status(commitment_id, CommitmentStatus::Settled, None);
        self.active_commitment_count = self.active_commitment_count.saturating_sub(1);
        self.deposit_event(
            VectorDbEvent::CommitmentSettled { commitment_id, final_stream_hash, chunk_count },
        );
        proof {
            if old(self).inv() {
                let c = self.commitments()[commitment_id];
                Self::lemma_step_keeps_inv(*old(self), *self, commitment_id, c);
            }
        }
        Ok(())
    }

    /// The checks of `raise_dispute`, in the order they run.
    pub open spec fn raise_outcome<L: AgentLookup>(
        &self,
        chain: &Chain,
        lookup: &L,
        origin: Origin,
        commitment_id: CommitmentId,
        consumer_did: Did,
        disputed_chunk_index: ChunkIndex,
    ) -> Result<(), DispatchError> {
        match origin {
            Origin::Signed(caller) => if !self.commitments().contains_key(commitment_id) {
                vdb_err(VectorDbError::CommitmentNotFound)
            } else if self.commitments()[commitment_id].status != CommitmentStatus::Active {
                vdb_err(VectorDbError::NotActive)
            } else if self.commitments()[commitment_id].consumer != consumer_did {
                vdb_err(VectorDbError::NotConsumer)
            } else if chain.now() >= self.commitments()[commitment_id].expires_at {
                vdb_err(VectorDbError::CommitmentExpiredError)
            } else if Self::consumer_check(
                lookup,
                caller,
                self.commitments()[commitment_id],
                consumer_did,
            ) is Err {
                Self::consumer_check(lookup, caller, self.commitments()[commitment_id], consumer_did)
            } else if self.disputes().contains_key(commitment_id) {
                vdb_err(VectorDbError::DisputeAlreadyRaised)
            } else if disputed_chunk_index >= self.commitments()[commitment_id].total_chunks {
                vdb_err(VectorDbError::ChunkIndexOutOfBounds)
            } else {
                Ok(())
            },
            _ => Err(DispatchError::BadOrigin),
        }
    }

    /// Consumer disputes chunk `disputed_chunk_index` of an `Active`,
    /// unexpired commitment, reporting the hash it actually received. The
    /// provider gets `dispute_window` blocks to counter; the commitment
    /// becomes `Disputed` and no receipt is written. `_chunk_count` is
    /// accepted for call compatibility and not used.
    pub fn raise_dispute<L: AgentLookup>(
        &mut self,
        chain: &Chain,
        lookup: &L,
        origin: Origin,
        commitment_id: CommitmentId,
        consumer_did: Did,
        disputed_chunk_index: ChunkIndex,
        received_chunk_hash: [u8; 32],
        _chunk_count: u64,
    ) -> (r: Result<(), DispatchError>)
        requires
            old(self).wf(),
            lookup.lookup_wf(),
        ensures
            final(self).wf(),
            old(self).inv() ==> final(self).inv(),
            r == old(self).raise_outcome(
                chain,
                lookup,
                origin,
                commitment_id,
                consumer_did,
                disputed_chunk_index,
            ),
            r is Err ==> final(self).unchanged_from(old(self)),
            r is Ok ==> ({
                let c = old(self).commitments()[commitment_id];
                let deadline = sat_add_block(chain.now(), old(self).config().dispute_window);
                &&& final(self).commitments() == old(self).commitments().insert(
                    commitment_id,
                    VectorCommitment { status: CommitmentStatus::Disputed, ..c },
                )
                &&& final(self).disputes() == old(self).disputes().insert(
                    commitment_id,
                    DisputeRecord {
                        commitment_id,
                        merkle_root: c.merkle_root,
                        received_chunk_hash,
                        disputed_chunk_index,
                        raised_at: chain.now(),
                        counter_deadline: deadline,
                        verdict: None,
                    },
                )
                &&& final(self).receipts() == old(self).receipts()
                &&& final(self).active_count() == old(self).active_count()
                &&& final(self).config() == old(self).config()
                &&& final(self).event_log() == old(self).event_log().push(
                    VectorDbEvent::DisputeRaised {
                        commitment_id,
                        merkle_root: c.merkle_root,
                        disputed_chunk_index,
                        received_chunk_hash,
                        counter_deadline: deadline,
                    },
                )
            }),
    {
        let caller = ensure_signed(origin)?;
        let current_block = chain.block_number();
        let merkle_root: MerkleRoot;
        match self.commitments.get(&commitment_id) {
            None => {
                return Err(DispatchError::VectorDb(VectorDbError::CommitmentNotFound));
            },
            Some(c) => {
                match c.status {
                    CommitmentStatus::Active => {},
                    _ => {
                        return Err(DispatchError::VectorDb(VectorDbError::NotActive));
                    },
                }
                if !bytes32_eq(&c.consumer, &consumer_did) {
                    return Err(DispatchError::VectorDb(VectorDbError::NotConsumer));
                }
                if current_block >= c.expires_at {
                    return Err(DispatchError::VectorDb(VectorDbError::CommitmentExpiredError));
                }
                Self::check_consumer(lookup, caller, &c.consumer, &consumer_did)?;
                if self.disputes.contains_key(&commitment_id) {
                    return Err(DispatchError::VectorDb(VectorDbError::DisputeAlreadyRaised));
                }
                if disputed_chunk_index >= c.total_chunks {
                    return Err(DispatchError::VectorDb(VectorDbError::ChunkIndexOutOfBounds));
                }
                merkle_root = c.merkle_root;
            },
        }
        let counter_deadline = current_block.saturating_add(self.config.dispute_window);
        self.disputes.insert(
            commitment_id,
            DisputeRecord {
                commitment_id,
                merkle_root,
                received_chunk_hash,
                disputed_chunk_index,
                raised_at: current_block,
                counter_deadline,
                verdict: None,
            },
        );
        self.set_status(commitment_id, CommitmentStatus::Disputed, None);
        self.deposit_event(
            VectorDbEvent::DisputeRaised {
                commitment_id,
                merkle_root,
                disputed_chunk_index,
                received_chunk_hash,
                counter_deadline,
            },
        );
        proof {
            if old(self).inv() {
                let c = self.commitments()[commitment_id];
                Self::lemma_step_keeps_inv(*old(self), *self, commitment_id, c);
            }
        }
        Ok(())
    }

    /// `post` is `self` with the dispute on `id` decided by `verdict`: the
    /// verdict recorded, the commitment resolved, the open count
    /// decremented and `event` emitted.
    pub open spec fn resolved_as(
        &self,
        post: &VectorDb,
        id: CommitmentId,
        verdict: DisputeVerdict,
        event: VectorDbEvent,
    ) -> bool {
        &&& post.commitments() == self.commitments().insert(
            id,
            VectorCommitment { status: CommitmentStatus::DisputeResolved, ..self.commitments()[id] },
        )
        &&& post.disputes() == self.disputes().insert(
            id,
            DisputeRecord { verdict: Some(verdict), ..self.disputes()[id] },
        )
        &&& post.receipts() == self.receipts()
        &&& post.active_count() == sat_dec(self.active_count())
        &&& post.config() == self.config()
        &&& post.event_log() == self.event_log().push(event)
    }

    /// Records the verdict on a stored dispute and resolves its commitment,
    /// decrementing the open count; nothing else changes.
    fn resolve(&mut self, id: CommitmentId, verdict: DisputeVerdict)
        requires
            old(self).wf(),
            old(self).commitments().contains_key(id),
            old(self).disputes().contains_key(id),
        ensures
            final(self).wf(),
            final(self).commitments() == old(self).commitments().insert(
                id,
                VectorCommitment {
                    status: CommitmentStatus::DisputeResolved,
                    ..old(self).commitments()[id]
                },
            ),
            final(self).disputes() == old(self).disputes().insert(
                id,
                DisputeRecord { verdict: Some(verdict), ..old(self).disputes()[id] },
            ),
            final(self).receipts() == old(self).receipts(),
            final(self).active_count() == sat_dec(old(self).active_count()),
            final(self).config() == old(self).config(),
            final(self).event_log() == old(self).event_log(),
    {
        let ghost pre = self.disputes@;
        match self.disputes.remove(&id) {
            Some(d) => {
                self.disputes.insert(id, DisputeRecord { verdict: Some(verdict), ..d });
                assert(self.disputes@ =~= pre.insert(
                    id,
                    DisputeRecord { verdict: Some(verdict), ..pre[id] },
                ));
            },
            None => {},
        }
        self.set_status(id, CommitmentStatus::DisputeResolved, None);
        self.active_commitment_count = self.active_commitment_count.saturating_sub(1);
    }

    /// The checks of `counter_dispute`, in the order they run, and the
    /// penalty it hands back on success.
    pub open spec fn counter_outcome<L: AgentLookup>(
        &self,
        chain: &Chain,
        lookup: &L,
        origin: Origin,
        commitment_id: CommitmentId,
        provider_did: Did,
        chunk_data: Seq<u8>,
        merkle_proof: Seq<[u8; 32]>,
    ) -> Result<Penalty, DispatchError> {
        match origin {
            Origin::Signed(caller) => if !self.commitments().contains_key(commitment_id) {
                vdb_err(VectorDbError::CommitmentNotFound)
            } else if self.commitments()[commitment_id].status != CommitmentStatus::Disputed {
                vdb_err(VectorDbError::NotDisputed)
            } else if self.commitments()[commitment_id].provider != provider_did {
                vdb_err(VectorDbError::NotProvider)
            } else if lookup.controller_view(provider_did) is None {
                vdb_err(VectorDbError::ProviderNotEligible)
            } else if lookup.controller_view(provider_did) != Some(caller) {
                vdb_err(VectorDbError::NotProvider)
            } else if !lookup.active_verified_view(provider_did) {
                vdb_err(VectorDbError::ProviderNotEligible)
            } else if !self.disputes().contains_key(commitment_id) {
                vdb_err(VectorDbError::CommitmentNotFound)
            } else if chain.now() > self.disputes()[commitment_id].counter_deadline {
                vdb_err(VectorDbError::DisputeWindowExpired)
            } else if self.disputes()[commitment_id].disputed_chunk_index
                >= self.commitments()[commitment_id].total_chunks {
                vdb_err(VectorDbError::ChunkIndexOutOfBounds)
            } else if self.commitments()[commitment_id].total_chunks > usize::MAX
                || !merkle_proof_verifies(
                self.commitments()[commitment_id].merkle_root,
                self.disputes()[commitment_id].disputed_chunk_index as int,
                leaf_hash_of(chunk_data),
                self.commitments()[commitment_id].total_chunks as int,
                merkle_proof,
            ) {
                vdb_err(VectorDbError::InvalidMerkleProof)
            } else {
                Ok(Penalty::PenalizeFalseDisputer(self.commitments()[commitment_id].consumer))
            },
            _ => Err(DispatchError::BadOrigin),
        }
    }

    /// Provider refutes an open dispute before its deadline by proving
    /// that `chunk_data` is the leaf at exactly the disputed index of the
    /// committed tree. The dispute is resolved against the consumer, whose
    /// penalty is returned for the reputation handler. A tree with more
    /// leaves than `usize` can count is a proof this platform cannot check,
    /// and is rejected as invalid.
    pub fn counter_dispute<L: AgentLookup>(
        &mut self,
        chain: &Chain,
        lookup: &L,
        origin: Origin,
        commitment_id: CommitmentId,
        provider_did: Did,
        chunk_data: Vec<u8>,
        merkle_proof: Vec<[u8; 32]>,
    ) -> (r: Result<Penalty, DispatchError>)
        requires
            old(self).wf(),
            lookup.lookup_wf(),
            chunk_data@.len() <= MAX_CHUNK_LEN,
            merkle_proof@.len() <= MAX_PROOF_DEPTH,
        ensures
            final(self).wf(),
            old(self).inv() ==> final(self).inv(),
            r == old(self).counter_outcome(
                chain,
                lookup,
                origin,
                commitment_id,
                provider_did,
                chunk_data@,
                merkle_proof@,
            ),
            r is Err ==> final(self).unchanged_from(old(self)),
            r is Ok ==> old(self).resolved_as(
                final(self),
                commitment_id,
                DisputeVerdict::ClaimantUnsubstantiated,
                VectorDbEvent::DisputeCountered {
                    commitment_id,
                    verdict: DisputeVerdict::ClaimantUnsubstantiated,
                },
            ),
    {
        let caller = ensure_signed(origin)?;
        let current_block = chain.block_number();
        let consumer: Did;
        let merkle_root: MerkleRoot;
        let total_chunks: u64;
        match self.commitments.get(&commitment_id) {
            None => {
                return Err(DispatchError::VectorDb(VectorDbError::CommitmentNotFound));
            },
            Some(c) => {
                match c.status {
                    CommitmentStatus::Disputed => {},
                    _ => {
                        return Err(DispatchError::VectorDb(VectorDbError::NotDisputed));
                    },
                }
                if !bytes32_eq(&c.provider, &provider_did) {
                    return Err(DispatchError::VectorDb(VectorDbError::NotProvider));
                }
                consumer = c.consumer;
                merkle_root = c.merkle_root;
                total_chunks = c.total_chunks;
            },
        }
        match lookup.controller_of(&provider_did) {
            None => {
                return Err(DispatchError::VectorDb(VectorDbError::ProviderNotEligible));
            },
            Some(p) => {
                if p != caller {
                    return Err(DispatchError::VectorDb(VectorDbError::NotProvider));
                }
            },
        }
        if !lookup.is_active_verified(&provider_did) {
            return Err(DispatchError::VectorDb(VectorDbError::ProviderNotEligible));
        }
        let index: ChunkIndex;
        match self.disputes.get(&commitment_id) {
            None => {
                return Err(DispatchError::VectorDb(VectorDbError::CommitmentNotFound));
            },
            Some(d) => {
                if current_block > d.counter_deadline {
                    return Err(DispatchError::VectorDb(VectorDbError::DisputeWindowExpired));
                }
                index = d.disputed_chunk_index;
            },
        }
        if index >= total_chunks {
            return Err(DispatchError::VectorDb(VectorDbError::ChunkIndexOutOfBounds));
        }
        if total_chunks > usize::MAX as u64 {
            return Err(DispatchError::VectorDb(VectorDbError::InvalidMerkleProof));
        }
        let leaf = hash_leaf(chunk_data.as_slice());
        if !verify_inclusion(merkle_root, index, leaf, total_chunks, merkle_proof) {
            return Err(DispatchError::VectorDb(VectorDbError::InvalidMerkleProof));
        }
        let verdict = DisputeVerdict::ClaimantUnsubstantiated;
        self.resolve(commitment_id, verdict);
        self.deposit_event(VectorDbEvent::DisputeCountered { commitment_id, verdict });
        proof {
            if old(self).inv() {
                let c = self.commitments()[commitment_id];
                Self::lemma_step_keeps_inv(*old(self), *self, commitment_id, c);
            }
        }
        Ok(Penalty::PenalizeFalseDisputer(consumer))
    }

    /// The checks of `finalize_dispute`, in the order they run, and the
    /// penalty it hands back on success.
    pub open spec fn finalize_outcome(
        &self,
        chain: &Chain,
        origin: Origin,
        commitment_id: CommitmentId,
    ) -> Result<Penalty, DispatchError> {
        match origin {
            Origin::Signed(_) => if !self.commitments().contains_key(commitment_id) {
                vdb_err(VectorDbError::CommitmentNotFound)
            } else if self.commitments()[commitment_id].status != CommitmentStatus::Disputed {
                vdb_err(VectorDbError::NotDisputed)
            } else if !self.disputes().contains_key(commitment_id) {
                vdb_err(VectorDbError::CommitmentNotFound)
            } else if chain.now() <= self.disputes()[commitment_id].counter_deadline {
                vdb_err(VectorDbError::DisputeWindowStillOpen)
            } else {
                Ok(Penalty::PenalizeProvider(self.commitments()[commitment_id].provider))
            },
            _ => Err(DispatchError::BadOrigin),
        }
    }

    /// Anyone may finalize a dispute once its counter deadline has passed
    /// uncountered: the provider is found guilty and its penalty returned.
    pub fn finalize_dispute(
        &mut self,
        chain: &Chain,
        origin: Origin,
        commitment_id: CommitmentId,
    ) -> (r: Result<Penalty, DispatchError>)
        requires
            old(self).wf(),
        ensures
            final(self).wf(),
            old(self).inv() ==> final(self).inv(),
            r == old(self).finalize_outcome(chain, origin, commitment_id),
            r is Err ==> final(self).unchanged_from(old(self)),
            r is Ok ==> old(self).resolved_as(
                final(self),
                commitment_id,
                DisputeVerdict::ProviderGuilty,
                VectorDbEvent::DisputeFinalized {
                    commitment_id,
                    verdict: DisputeVerdict::ProviderGuilty,
                    provider: old(self).commitments()[commitment_id].provider,
                    consumer: old(self).commitments()[commitment_id].consumer,
                },
            ),
    {
        ensure_signed(origin)?;
        let current_block = chain.block_number();
        let provider: Did;
        let consumer: Did;
        match self.commitments.get(&commitment_id) {
            None => {
                return Err(DispatchError::VectorDb(VectorDbError::CommitmentNotFound));
            },
            Some(c) => {
                match c.status {
                    CommitmentStatus::Disputed => {},
                    _ => {
                        return Err(DispatchError::VectorDb(VectorDbError::NotDisputed));
                    },
                }
                provider = c.provider;
                consumer = c.consumer;
            },
        }
        match self.disputes.get(&commitment_id) {
            None => {
                return Err(DispatchError::VectorDb(VectorDbError::CommitmentNotFound));
            },
            Some(d) => {
                if current_block <= d.counter_deadline {
                    return Err(DispatchError::VectorDb(VectorDbError::DisputeWindowStillOpen));
                }
            },
        }
        let verdict = DisputeVerdict::ProviderGuilty;
        self.resolve(commitment_id, verdict);
        self.deposit_event(
            VectorDbEvent::DisputeFinalized { commitment_id, verdict, provider, consumer },
        );
        proof {
            if old(self).inv() {
                let c = self.commitments()[commitment_id];
                Self::lemma_step_keeps_inv(*old(self), *self, commitment_id, c);
            }
        }
        Ok(Penalty::PenalizeProvider(provider))
    }

    /// The checks of `expire_commitment`, in the order they run.
    pub open spec fn expire_outcome(
        &self,
        chain: &Chain,
        origin: Origin,
        commitment_id: CommitmentId,
    ) -> Result<(), DispatchError> {
        match origin {
            Origin::Signed(_) => if !self.commitments().contains_key(commitment_id) {
                vdb_err(VectorDbError::CommitmentNotFound)
            } else if !(self.commitments()[commitment_id].status == CommitmentStatus::Pending
                || self.commitments()[commitment_id].status == CommitmentStatus::Active) {
                vdb_err(VectorDbError::AlreadyFinalized)
            } else if chain.now() < self.commitments()[commitment_id].expires_at {
                vdb_err(VectorDbError::NotYetExpired)
            } else {
                Ok(())
            },
            _ => Err(DispatchError::BadOrigin),
        }
    }

    /// Anyone may remove a `Pending` or `Active` commitment once its expiry
    /// block is reached. Settled, disputed and resolved commitments stay.
    pub fn expire_commitment(
        &mut self,
        chain: &Chain,
        origin: Origin,
        commitment_id: CommitmentId,
    ) -> (r: Result<(), DispatchError>)
        requires
            old(self).wf(),
        ensures
            final(self).wf(),
            old(self).inv() ==> final(self).inv(),
            r == old(self).expire_outcome(chain, origin, commitment_id),
            r is Err ==> final(self).unchanged_from(old(self)),
            r is Ok ==> {
                &&& final(self).commitments() == old(self).commitments().remove(commitment_id)
                &&& final(self).disputes() == old(self).disputes()
                &&& final(self).receipts() == old(self).receipts()
                &&& final(self).active_count() == sat_dec(old(self).active_count())
                &&& final(self).config() == old(self).config()
                &&& final(self).event_log() == old(self).event_log().push(
                    VectorDbEvent::CommitmentExpired { commitment_id },
                )
            },
    {
        ensure_signed(origin)?;
        let current_block = chain.block_number();
        match self.commitments.get(&commitment_id) {
            None => {
                return Err(DispatchError::VectorDb(VectorDbError::CommitmentNotFound));
            },
            Some(c) => {
                match c.status {
                    CommitmentStatus::Pending => {},
                    CommitmentStatus::Active => {},
                    _ => {
                        return Err(DispatchError::VectorDb(VectorDbError::AlreadyFinalized));
                    },
                }
                if current_block < c.expires_at {
                    return Err(DispatchError::VectorDb(VectorDbError::NotYetExpired));
                }
            },
        }
        self.commitments.remove(&commitment_id);
        self.active_commitment_count = self.active_commitment_count.saturating_sub(1);
        self.deposit_event(VectorDbEvent::CommitmentExpired { commitment_id });
        proof {
            if old(self).inv() {
                Self::lemma_remove_keeps_inv(*old(self), *self, commitment_id);
            }
        }
        Ok(())
    }
}


/// The order in which a dispute is refused, on every state the store can
/// reach: a commitment that is not `Active` (so also a second dispute) is
/// `NotActive`; then a consumer other than the commitment's is
/// `NotConsumer`, even past expiry; then expiry; then the caller's control
/// of the consumer DID and its eligibility; then an index outside the
/// chunks. An `Active` commitment never already has a dispute record.
pub proof fn lemma_raise_dispute_check_order<L: AgentLookup>(
    db: VectorDb,
    chain: Chain,
    lookup: L,
    caller: AccountId,
    id: CommitmentId,
    consumer_did: Did,
    index: ChunkIndex,
)
    requires
        db.inv(),
        db.commitments().contains_key(id),
    ensures
        db.raise_outcome(&chain, &lookup, Origin::Signed(caller), id, consumer_did, index) == ({
            let c = db.commitments()[id];
            if c.status != CommitmentStatus::Active {
                vdb_err(VectorDbError::NotActive)
            } else if c.consumer != consumer_did {
                vdb_err(VectorDbError::NotConsumer)
            } else if chain.now() >= c.expires_at {
                vdb_err(VectorDbError::CommitmentExpiredError)
            } else if lookup.controller_view(consumer_did) is None {
                vdb_err(VectorDbError::ConsumerNotEligible)
            } else if lookup.controller_view(consumer_did) != Some(caller) {
                vdb_err(VectorDbError::NotConsumer)
            } else if !lookup.active_verified_view(consumer_did) {
                vdb_err(VectorDbError::ConsumerNotEligible)
            } else if index >= c.total_chunks {
                vdb_err(VectorDbError::ChunkIndexOutOfBounds)
            } else {
                Ok::<(), DispatchError>(())
            }
        }),
{
    assert(db.commitments()[id].status == CommitmentStatus::Active ==> !db.disputes().contains_key(
        id,
    ));
}

/// A settled or resolved commitment is final: every operation on it is
/// refused, whoever calls, at any block and with any arguments; by its own
/// contract each refused operation leaves the store unchanged.
pub proof fn lemma_closed_commitment_is_final<L: AgentLookup>(
    db: VectorDb,
    chain: Chain,
    lookup: L,
    origin: Origin,
    id: CommitmentId,
    did: Did,
    root: MerkleRoot,
    index: ChunkIndex,
    chunk_data: Seq<u8>,
    merkle_proof: Seq<[u8; 32]>,
)
    requires
        db.commitments().contains_key(id),
        db.commitments()[id].status == CommitmentStatus::Settled
            || db.commitments()[id].status == CommitmentStatus::DisputeResolved,
    ensures
        db.acknowledge_outcome(&chain, &lookup, origin, id, did) is Err,
        db.close_outcome(&chain, &lookup, origin, id, did, root) is Err,
        db.raise_outcome(&chain, &lookup, origin, id, did, index) is Err,
        db.counter_outcome(&chain, &lookup, origin, id, did, chunk_data, merkle_proof) is Err,
        db.finalize_outcome(&chain, origin, id) is Err,
        db.expire_outcome(&chain, origin, id) is Err,
{
}

/// Costs of the commitment registry's calls.
pub trait WeightInfo {
    fn register_commitment() -> Weight;

    fn acknowledge_commitment() -> Weight;

    fn close_commitment() -> Weight;

    fn raise_dispute() -> Weight;

    fn counter_dispute() -> Weight;

    fn finalize_dispute() -> Weight;

    fn expire_commitment() -> Weight;
}

/// The development table of fixed costs.
impl WeightInfo for () {
    fn register_commitment() -> (w: Weight)
        ensures
            w == (Weight { ref_time: 175_000_000, proof_size: 0 }),
    {
        Weight::from_parts(175_000_000, 0)
    }

    fn acknowledge_commitment() -> (w: Weight)
        ensures
            w == (Weight { ref_time: 150_006_000, proof_size: 0 }),
    {
        Weight::from_parts(150_006_000, 0)
    }

    fn close_commitment() -> (w: Weight)
        ensures
            w == (Weight { ref_time: 250_006_000, proof_size: 0 }),
    {
        Weight::from_parts(250_006_000, 0)
    }

    fn raise_dispute() -> (w: Weight)
        ensures
            w == (Weight { ref_time: 300_008_000, proof_size: 0 }),
    {
        Weight::from_parts(300_008_000, 0)
    }

    fn counter_dispute() -> (w: Weight)
        ensures
            w == (Weight { ref_time: 500_034_000, proof_size: 0 }),
    {
        Weight::from_parts(500_034_000, 0)
    }

    fn finalize_dispute() -> (w: Weight)
        ensures
            w == (Weight { ref_time: 250_006_000, proof_size: 0 }),
    {
        Weight::from_parts(250_006_000, 0)
    }

    fn expire_commitment() -> (w: Weight)
        ensures
            w == (Weight { ref_time: 175_004_000, proof_size: 0 }),
    {
        Weight::from_parts(175_004_000, 0)
    }
}

} // verus!
