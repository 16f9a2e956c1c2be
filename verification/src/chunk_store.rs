//! Client side of data delivery: slicing a payload into chunks, the
//! Merkle tree over the chunks, where chunks are kept on disk, and the
//! checks a client makes before it submits a commitment or a counter-proof.
//!
//! Leaves are the BLAKE2b-256 hashes of the chunks, in order, so the
//! chunk at index `i` is leaf `i` of the committed tree: the index domain
//! that `counter_dispute` verifies against on-chain.
use vstd::prelude::*;

use crate::merkle::{
    hash_leaf, leaf_hash_of, merkle_proof, merkle_proof_of, merkle_proof_verifies, merkle_root,
    merkle_root_of,
};
use crate::paths::{chars_of, decimal, decimal_of, hex_encode, hex_lower, join_path, path_join,
    push_all, string_from_chars};
use crate::ledger::Chain;
use crate::types::{AccountId, Origin};
use crate::vector_db::{
    AgentLookup, CommitmentId, CommitmentStatus, MerkleRoot, Penalty, VectorDb, MAX_CHUNK_LEN,
    MAX_METADATA_LEN, MAX_PROOF_DEPTH,
};

verus! {

/// Chunks of `s` of `size` bytes each, the last one possibly shorter;
/// no chunk is empty.
pub open spec fn chunks_of(s: Seq<u8>, size: nat) -> Seq<Seq<u8>>
    recommends
        size > 0,
    decreases s.len(),
{
    if s.len() == 0 || size == 0 {
        Seq::empty()
    } else if s.len() <= size {
        seq![s]
    } else {
        seq![s.take(size as int)] + chunks_of(s.skip(size as int), size)
    }
}

/// The chunks end to end.
pub open spec fn concat_chunks(cs: Seq<Seq<u8>>) -> Seq<u8>
    decreases cs.len(),
{
    if cs.len() == 0 {
        Seq::empty()
    } else {
        cs[0] + concat_chunks(cs.skip(1))
    }
}

/// The contents of each chunk.
pub open spec fn chunk_views(cs: Seq<Vec<u8>>) -> Seq<Seq<u8>> {
    Seq::new(cs.len(), |i: int| cs[i]@)
}

/// The leaf hashes of the chunks.
pub open spec fn leaves_of(cs: Seq<Seq<u8>>) -> Seq<[u8; 32]> {
    Seq::new(cs.len(), |i: int| leaf_hash_of(cs[i]))
}

/// Slicing loses nothing and reorders nothing: the chunks end to end are
/// the payload, every chunk holds between 1 and `size` bytes, and there
/// are `ceil(len / size)` of them.
pub proof fn lemma_chunks_reassemble(s: Seq<u8>, size: nat)
    requires
        size > 0,
    ensures
        concat_chunks(chunks_of(s, size)) == s,
        forall|i: int|
            0 <= i < chunks_of(s, size).len() ==> 0 < #[trigger] chunks_of(s, size)[i].len()
                <= size,
        chunks_of(s, size).len() * size >= s.len(),
        s.len() > 0 ==> (chunks_of(s, size).len() - 1) * size < s.len(),
    decreases s.len(),
{
    if s.len() == 0 {
        assert(concat_chunks(chunks_of(s, size)) =~= s);
    } else if s.len() <= size {
        let cs = chunks_of(s, size);
        assert(cs.skip(1) =~= Seq::<Seq<u8>>::empty());
        assert(concat_chunks(cs.skip(1)) == Seq::<u8>::empty());
        assert(concat_chunks(cs) =~= s);
        assert(cs.len() * size == size) by (nonlinear_arith)
            requires
                cs.len() == 1,
        ;
    } else {
        let rest = s.skip(size as int);
        lemma_chunks_reassemble(rest, size);
        let cs = chunks_of(s, size);
        assert(cs.skip(1) =~= chunks_of(rest, size));
        assert(cs[0] == s.take(size as int));
        assert(s.take(size as int) + rest =~= s);
        assert forall|i: int| 0 <= i < cs.len() implies 0 < #[trigger] cs[i].len() <= size by {
            if i > 0 {
                assert(cs[i] == chunks_of(rest, size)[i - 1]);
            }
        }
        assert((cs.len() - 1) * size == chunks_of(rest, size).len() * size) by (nonlinear_arith)
            requires
                cs.len() == chunks_of(rest, size).len() + 1,
        ;
        if rest.len() > 0 {
            assert((chunks_of(rest, size).len() - 1) * size + size == chunks_of(rest, size).len()
                * size) by (nonlinear_arith);
        }
        assert(cs.len() * size == (cs.len() - 1) * size + size) by (nonlinear_arith);
    }
}

fn copy_range(s: &[u8], start: usize, end: usize) -> (r: Vec<u8>)
    requires
        start <= end <= s@.len(),
    ensures
        r@ == s@.subrange(start as int, end as int),
{
    let mut out: Vec<u8> = Vec::new();
    let mut i: usize = start;
    while i < end
        invariant
            start <= i <= end <= s@.len(),
            out@ == s@.subrange(start as int, i as int),
        decreases end - i,
    {
        out.push(s[i]);
        i = i + 1;
        assert(s@.subrange(start as int, i as int) =~= s@.subrange(start as int, i - 1).push(
            s@[i - 1],
        ));
    }
    out
}

/// Slices `payload` into chunks of `chunk_size` bytes, the last one
/// possibly shorter, as `slice::chunks` does.
pub fn split_into_chunks(payload: &[u8], chunk_size: usize) -> (r: Vec<Vec<u8>>)
    requires
        chunk_size > 0,
    ensures
        chunk_views(r@) == chunks_of(payload@, chunk_size as nat),
{
    let n = payload.len();
    let mut out: Vec<Vec<u8>> = Vec::new();
    let mut start: usize = 0;
    assert(chunk_views(out@) =~= Seq::<Seq<u8>>::empty());
    assert(payload@.skip(0) =~= payload@);
    assert(Seq::<Seq<u8>>::empty() + chunks_of(payload@, chunk_size as nat) =~= chunks_of(
        payload@,
        chunk_size as nat,
    ));
    while start < n
        invariant
            n == payload@.len(),
            chunk_size > 0,
            start <= n,
            chunk_views(out@) + chunks_of(payload@.skip(start as int), chunk_size as nat)
                == chunks_of(payload@, chunk_size as nat),
        decreases n - start,
    {
        let end = if n - start > chunk_size {
            start + chunk_size
        } else {
            n
        };
        let chunk = copy_range(payload, start, end);
        let ghost rest = payload@.skip(start as int);
        let ghost before = chunk_views(out@);
        out.push(chunk);
        proof {
            assert(chunk_views(out@) =~= before.push(payload@.subrange(start as int, end as int)));
            if n - start > chunk_size {
                assert(rest.take(chunk_size as int) =~= payload@.subrange(
                    start as int,
                    end as int,
                ));
                assert(rest.skip(chunk_size as int) =~= payload@.skip(end as int));
                assert(chunks_of(rest, chunk_size as nat) == seq![rest.take(chunk_size as int)]
                    + chunks_of(rest.skip(chunk_size as int), chunk_size as nat));
                assert(before + chunks_of(rest, chunk_size as nat) =~= before.push(
                    payload@.subrange(start as int, end as int),
                ) + chunks_of(payload@.skip(end as int), chunk_size as nat));
            } else {
                assert(rest =~= payload@.subrange(start as int, end as int));
                assert(payload@.skip(end as int) =~= Seq::<u8>::empty());
                assert(chunks_of(payload@.skip(end as int), chunk_size as nat) =~= Seq::<
                    Seq<u8>,
                >::empty());
                assert(before + chunks_of(rest, chunk_size as nat) =~= before.push(
                    payload@.subrange(start as int, end as int),
                ) + chunks_of(payload@.skip(end as int), chunk_size as nat));
            }
        }
        start = end;
    }
    proof {
        assert(payload@.skip(n as int) =~= Seq::<u8>::empty());
        assert(chunk_views(out@) + Seq::<Seq<u8>>::empty() =~= chunk_views(out@));
    }
    out
}

/// The leaf hash of every chunk, in order.
pub fn chunk_leaves(chunks: &Vec<Vec<u8>>) -> (r: Vec<[u8; 32]>)
    ensures
        r@ == leaves_of(chunk_views(chunks@)),
{
    let mut out: Vec<[u8; 32]> = Vec::new();
    let mut i: usize = 0;
    while i < chunks.len()
        invariant
            0 <= i <= chunks@.len(),
            out@ == leaves_of(chunk_views(chunks@)).take(i as int),
        decreases chunks@.len() - i,
    {
        let h = hash_leaf(chunks[i].as_slice());
        out.push(h);
        i = i + 1;
        assert(leaves_of(chunk_views(chunks@)).take(i as int) =~= leaves_of(
            chunk_views(chunks@),
        ).take(i - 1).push(h));
    }
    assert(leaves_of(chunk_views(chunks@)).take(chunks@.len() as int) =~= leaves_of(
        chunk_views(chunks@),
    ));
    out
}

/// The Merkle tree over a sequence of chunks, kept as its leaves and root.
pub struct ChunkTree {
    leaves: Vec<[u8; 32]>,
    root: MerkleRoot,
}

impl ChunkTree {
    /// Leaf hashes, in chunk order.
    pub closed spec fn leaves(&self) -> Seq<[u8; 32]> {
        self.leaves@
    }

    pub closed spec fn root(&self) -> MerkleRoot {
        self.root
    }

    pub fn merkle_root(&self) -> (r: MerkleRoot)
        ensures
            r == self.root(),
    {
        self.root
    }

    pub fn leaf_count(&self) -> (r: usize)
        ensures
            r == self.leaves().len(),
    {
        self.leaves.len()
    }
}

/// Builds the Merkle tree over `chunks` and returns its root with it.
/// There must be at least one chunk: an empty tree has no root.
pub fn build_merkle_tree(chunks: &Vec<Vec<u8>>) -> (r: (MerkleRoot, ChunkTree))
    requires
        chunks@.len() > 0,
    ensures
        r.1.leaves() == leaves_of(chunk_views(chunks@)),
        merkle_root_of(r.1.leaves()) == Some(r.0),
        r.1.root() == r.0,
{
    let leaves = chunk_leaves(chunks);
    match merkle_root(&leaves) {
        Some(root) => (root, ChunkTree { leaves, root }),
        None => {
            proof {
                assert(leaves@.len() == chunks@.len());
                assert(false);
            }
            ([0u8; 32], ChunkTree { leaves, root: [0u8; 32] })
        },
    }
}

/// The sibling hashes that prove leaf `leaf_index` of `tree`; they
/// verify against the tree's root.
pub fn generate_inclusion_proof(tree: &ChunkTree, leaf_index: usize) -> (r: Vec<[u8; 32]>)
    requires
        leaf_index < tree.leaves().len(),
        merkle_root_of(tree.leaves()) == Some(tree.root()),
    ensures
        r@ == merkle_proof_of(tree.leaves(), leaf_index as int),
        merkle_proof_verifies(
            tree.root(),
            leaf_index as int,
            tree.leaves()[leaf_index as int],
            tree.leaves().len() as int,
            r@,
        ),
{
    merkle_proof(&tree.leaves, leaf_index)
}

/// Where chunks are kept on disk: `<root>/<commitment id in hex>/<i>.bin`.
pub struct FsChunkStore {
    root_dir: String,
}

impl FsChunkStore {
    pub closed spec fn root(&self) -> Seq<char> {
        self.root_dir@
    }

    /// A store rooted at `root_dir`.
    pub fn new(root_dir: &str) -> (r: FsChunkStore)
        ensures
            r.root() == root_dir@,
    {
        FsChunkStore { root_dir: root_dir.to_owned() }
    }

    /// The directory that holds the chunks of `commitment_id`.
    pub fn commitment_dir(&self, commitment_id: CommitmentId) -> (r: String)
        ensures
            r@ == path_join(self.root(), hex_lower(commitment_id@)),
    {
        let h = hex_encode(&commitment_id);
        let name = chars_of(h.as_str());
        let root = chars_of(self.root_dir.as_str());
        string_from_chars(join_path(&root, &name))
    }

    /// The file that holds chunk `index` of `commitment_id`.
    pub fn chunk_path(&self, commitment_id: CommitmentId, index: u64) -> (r: String)
        ensures
            r@ == path_join(
                path_join(self.root(), hex_lower(commitment_id@)),
                decimal_of(index as nat) + seq!['.', 'b', 'i', 'n'],
            ),
    {
        let dir = self.commitment_dir(commitment_id);
        let mut name = decimal(index);
        let ext: Vec<char> = vec!['.', 'b', 'i', 'n'];
        push_all(&mut name, &ext);
        assert(ext@ =~= seq!['.', 'b', 'i', 'n']);
        let d = chars_of(dir.as_str());
        string_from_chars(join_path(&d, &name))
    }
}

/// Why a commitment was not submitted.
#[derive(Clone, Copy, Debug, PartialEq, Eq, Structural)]
pub enum RegisterCommitmentError {
    /// The metadata is longer than the chain accepts (length, limit).
    MetadataTooLarge(usize, usize),
    /// Nothing to commit: the chain needs at least one chunk.
    EmptyPayload,
}

/// What a provider submits and keeps for a new commitment.
pub struct CommitmentPlan {
    /// The payload in chunks of at most 1,024 bytes.
    pub chunks: Vec<Vec<u8>>,
    /// Root of the Merkle tree over the chunks.
    pub merkle_root: MerkleRoot,
    /// Number of chunks.
    pub total_chunks: u64,
    /// Key under which the chunks are staged until the chain assigns the
    /// commitment id: the leaf hash of the whole payload.
    pub staging_id: CommitmentId,
}

/// Checks the metadata length and the payload, slices the payload into
/// chunks of `MAX_CHUNK_LEN` bytes and computes their Merkle root.
pub fn prepare_commitment(payload: &[u8], metadata_len: usize) -> (r: Result<
    CommitmentPlan,
    RegisterCommitmentError,
>)
    ensures
        metadata_len > MAX_METADATA_LEN ==> r == Err::<CommitmentPlan, RegisterCommitmentError>(
            RegisterCommitmentError::MetadataTooLarge(metadata_len, MAX_METADATA_LEN as usize),
        ),
        metadata_len <= MAX_METADATA_LEN && payload@.len() == 0 ==> r == Err::<
            CommitmentPlan,
            RegisterCommitmentError,
        >(RegisterCommitmentError::EmptyPayload),
        r is Ok <==> metadata_len <= MAX_METADATA_LEN && payload@.len() > 0,
        r matches Ok(plan) ==> {
            &&& chunk_views(plan.chunks@) == chunks_of(payload@, MAX_CHUNK_LEN as nat)
            &&& merkle_root_of(leaves_of(chunk_views(plan.chunks@))) == Some(plan.merkle_root)
            &&& plan.total_chunks == plan.chunks@.len()
            &&& plan.staging_id == leaf_hash_of(payload@)
        },
{
    if metadata_len > MAX_METADATA_LEN as usize {
        return Err(RegisterCommitmentError::MetadataTooLarge(metadata_len, MAX_METADATA_LEN as usize));
    }
    if payload.len() == 0 {
        return Err(RegisterCommitmentError::EmptyPayload);
    }
    let chunks = split_into_chunks(payload, MAX_CHUNK_LEN as usize);
    proof {
        lemma_chunks_reassemble(payload@, MAX_CHUNK_LEN as nat);
        assert(chunk_views(chunks@).len() == chunks@.len());
    }
    let (root, _tree) = build_merkle_tree(&chunks);
    let staging_id = hash_leaf(payload);
    let total_chunks = chunks.len() as u64;
    Ok(CommitmentPlan { chunks, merkle_root: root, total_chunks, staging_id })
}

/// Why a counter-proof was not submitted.
#[derive(Clone, Copy, Debug, PartialEq, Eq, Structural)]
pub enum CounterDisputeError {
    /// The disputed chunk is longer than the chain accepts (length, limit).
    ChunkTooLarge(usize, usize),
    /// The proof has more hashes than the chain accepts (length, limit).
    ProofTooDeep(usize, usize),
    /// The index lies outside the commitment (index, total chunks).
    ChunkIndexOutOfBounds(u64, u64),
}

/// The disputed index must lie inside the commitment.
pub fn check_counter_index(disputed_chunk_index: u64, total_chunks: u64) -> (r: Result<
    (),
    CounterDisputeError,
>)
    ensures
        r == if disputed_chunk_index >= total_chunks {
            Err(CounterDisputeError::ChunkIndexOutOfBounds(disputed_chunk_index, total_chunks))
        } else {
            Ok::<(), CounterDisputeError>(())
        },
{
    if disputed_chunk_index >= total_chunks {
        Err(CounterDisputeError::ChunkIndexOutOfBounds(disputed_chunk_index, total_chunks))
    } else {
        Ok(())
    }
}

/// From the stored chunks, the disputed chunk and its inclusion proof,
/// checked against the chain's bounds. The proof verifies the chunk at
/// that index against the root of the chunks' tree.
pub fn prepare_counter_proof(chunks: &Vec<Vec<u8>>, disputed_chunk_index: u64) -> (r: Result<
    (Vec<u8>, Vec<[u8; 32]>),
    CounterDisputeError,
>)
    requires
        disputed_chunk_index < chunks@.len(),
    ensures
        ({
            let cs = chunk_views(chunks@);
            let i = disputed_chunk_index as int;
            let proof = merkle_proof_of(leaves_of(cs), i);
            &&& cs[i].len() > MAX_CHUNK_LEN ==> r == Err::<
                (Vec<u8>, Vec<[u8; 32]>),
                CounterDisputeError,
            >(CounterDisputeError::ChunkTooLarge(cs[i].len() as usize, MAX_CHUNK_LEN as usize))
            &&& cs[i].len() <= MAX_CHUNK_LEN && proof.len() > MAX_PROOF_DEPTH ==> r == Err::<
                (Vec<u8>, Vec<[u8; 32]>),
                CounterDisputeError,
            >(CounterDisputeError::ProofTooDeep(proof.len() as usize, MAX_PROOF_DEPTH as usize))
            &&& r is Ok <==> cs[i].len() <= MAX_CHUNK_LEN && proof.len() <= MAX_PROOF_DEPTH
            &&& r matches Ok((chunk, hashes)) ==> {
                &&& chunk@ == cs[i]
                &&& hashes@ == proof
                &&& merkle_proof_verifies(
                    merkle_root_of(leaves_of(cs))->Some_0,
                    i,
                    leaf_hash_of(chunk@),
                    chunks@.len() as int,
                    hashes@,
                )
            }
        }),
{
    let n = chunks.len();
    assert(disputed_chunk_index < n);
    let i = disputed_chunk_index as usize;
    assert(i as int == disputed_chunk_index as int);
    let target = copy_range(chunks[i].as_slice(), 0, chunks[i].len());
    assert(target@ =~= chunks@[i as int]@);
    assert(chunk_views(chunks@)[i as int] == target@);
    if target.len() > MAX_CHUNK_LEN as usize {
        return Err(CounterDisputeError::ChunkTooLarge(target.len(), MAX_CHUNK_LEN as usize));
    }
    let (root, tree) = build_merkle_tree(chunks);
    let proof = generate_inclusion_proof(&tree, i);
    if proof.len() > MAX_PROOF_DEPTH as usize {
        return Err(CounterDisputeError::ProofTooDeep(proof.len(), MAX_PROOF_DEPTH as usize));
    }
    Ok((target, proof))
}


/// A provider that committed the root of its chunks can refute a dispute
/// on any of them: the disputed chunk, with the proof that
/// `prepare_counter_proof` derives from the stored chunks for the disputed
/// index, submitted before the deadline by the provider's controller
/// while its DID is active and verified, makes `counter_dispute` succeed
/// and penalize the consumer.
pub proof fn lemma_honest_counter_succeeds<L: AgentLookup>(
    db: VectorDb,
    chain: Chain,
    lookup: L,
    caller: AccountId,
    id: CommitmentId,
    chunks: Seq<Seq<u8>>,
    proof: Seq<[u8; 32]>,
)
    requires
        db.inv(),
        db.commitments().contains_key(id),
        db.commitments()[id].status == CommitmentStatus::Disputed,
        merkle_root_of(leaves_of(chunks)) == Some(db.commitments()[id].merkle_root),
        db.commitments()[id].total_chunks == chunks.len(),
        chunks.len() <= usize::MAX,
        lookup.controller_view(db.commitments()[id].provider) == Some(caller),
        lookup.active_verified_view(db.commitments()[id].provider),
        chain.now() <= db.disputes()[id].counter_deadline,
        merkle_proof_verifies(
            merkle_root_of(leaves_of(chunks))->Some_0,
            db.disputes()[id].disputed_chunk_index as int,
            leaf_hash_of(chunks[db.disputes()[id].disputed_chunk_index as int]),
            chunks.len() as int,
            proof,
        ),
    ensures
        db.counter_outcome(
            &chain,
            &lookup,
            Origin::Signed(caller),
            id,
            db.commitments()[id].provider,
            chunks[db.disputes()[id].disputed_chunk_index as int],
            proof,
        ) == Ok::<Penalty, crate::types::DispatchError>(
            Penalty::PenalizeFalseDisputer(db.commitments()[id].consumer),
        ),
{
    assert(db.disputes().contains_key(id));
}

} // verus!
