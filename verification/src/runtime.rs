//! How the runtime wires the pallets together.
//!
//! The commitment registry asks the agent registry who controls a DID and
//! whether it is active and verified (`AgentRegistryAdapter`). A resolved
//! dispute is answered with a reputation penalty, which the runtime
//! applies to the agent registry (`ReputationHandlerAdapter`): a guilty
//! provider loses `provider_guilty_slash` points and gains a dispute
//! strike, a consumer whose dispute was refuted loses
//! `false_dispute_slash` points. Payments go through the escrow
//! (`EscrowAdapter`).
use vstd::prelude::*;

use crate::agent_registry::{AgentRegistry, AgentStatus, RegistryConfig};
use crate::escrow::{Escrow, EscrowId};
use crate::ledger::{Chain, Ledger};
use crate::types::{AccountId, Balance, Did, DispatchError, Origin};
use crate::vector_db::{
    AgentLookup, CommitmentId, DisputeVerdict, Penalty, VectorDb, VectorDbConfig, VectorDbEvent,
};

verus! {

/// Identity lookups of the commitment registry, answered from the agent
/// registry's profiles.
pub struct AgentRegistryAdapter<'a> {
    pub registry: &'a AgentRegistry,
}

impl<'a> AgentLookup for AgentRegistryAdapter<'a> {
    open spec fn lookup_wf(&self) -> bool {
        self.registry.wf()
    }

    /// The controller of the stored profile, if any.
    open spec fn controller_view(&self, did: Did) -> Option<AccountId> {
        if self.registry.profiles().contains_key(did) {
            Some(self.registry.profiles()[did].controller)
        } else {
            None
        }
    }

    /// A stored profile that is `Active` and verified.
    open spec fn active_verified_view(&self, did: Did) -> bool {
        &&& self.registry.profiles().contains_key(did)
        &&& self.registry.profiles()[did].status == AgentStatus::Active
        &&& self.registry.profiles()[did].is_verified
    }

    fn controller_of(&self, did: &Did) -> (r: Option<AccountId>) {
        match self.registry.agent_profile(did) {
            Some(p) => Some(p.controller),
            None => None,
        }
    }

    fn is_active_verified(&self, did: &Did) -> (r: bool) {
        match self.registry.agent_profile(did) {
            Some(p) => match p.status {
                AgentStatus::Active => p.is_verified,
                _ => false,
            },
            None => false,
        }
    }
}

/// Applies dispute penalties to the agent registry. Penalties never fail:
/// a DID that has left the registry is ignored.
#[derive(Clone, Copy, Debug, PartialEq, Eq, Structural)]
pub struct ReputationHandlerAdapter {
    /// Points taken from a provider found guilty.
    pub provider_guilty_slash: u32,
    /// Points taken from a consumer whose dispute was refuted.
    pub false_dispute_slash: u32,
}

impl ReputationHandlerAdapter {
    /// The slash amounts configured for the commitment registry.
    pub fn new(config: &VectorDbConfig) -> (r: ReputationHandlerAdapter)
        ensures
            r.provider_guilty_slash == config.provider_guilty_slash,
            r.false_dispute_slash == config.false_dispute_slash,
    {
        ReputationHandlerAdapter {
            provider_guilty_slash: config.provider_guilty_slash,
            false_dispute_slash: config.false_dispute_slash,
        }
    }

    /// A guilty provider: reputation slash plus a dispute strike, which at
    /// the threshold burns part of the controller's deposit.
    pub fn penalize_provider(&self, registry: &mut AgentRegistry, ledger: &mut Ledger, did: &Did)
        requires
            old(registry).wf(),
            old(ledger).wf(),
        ensures
            old(registry).inv() ==> final(registry).inv(),
            final(registry).wf(),
            final(ledger).wf(),
            old(registry).guilty_slash_post(
                final(registry),
                old(ledger),
                final(ledger),
                *did,
                self.provider_guilty_slash,
            ),
    {
        registry.slash_reputation_for_guilty_delivery(ledger, did, self.provider_guilty_slash);
    }

    /// A consumer whose dispute was refuted: reputation slash only.
    pub fn penalize_false_disputer(&self, registry: &mut AgentRegistry, did: &Did)
        requires
            old(registry).wf(),
        ensures
            old(registry).inv() ==> final(registry).inv(),
            final(registry).wf(),
            old(registry).slash_post(final(registry), *did, self.false_dispute_slash),
    {
        registry.slash_reputation(did, self.false_dispute_slash);
    }

    /// What applying `penalty` leaves behind.
    pub open spec fn applied(
        &self,
        penalty: Penalty,
        pre: &AgentRegistry,
        post: &AgentRegistry,
        pre_l: &Ledger,
        post_l: &Ledger,
    ) -> bool {
        match penalty {
            Penalty::PenalizeProvider(d) => pre.guilty_slash_post(
                post,
                pre_l,
                post_l,
                d,
                self.provider_guilty_slash,
            ),
            Penalty::PenalizeFalseDisputer(d) => {
                &&& pre.slash_post(post, d, self.false_dispute_slash)
                &&& forall|w: AccountId| #[trigger] post_l.account(w) == pre_l.account(w)
            },
        }
    }

    /// Applies one penalty.
    pub fn apply(&self, registry: &mut AgentRegistry, ledger: &mut Ledger, penalty: Penalty)
        requires
            old(registry).wf(),
            old(ledger).wf(),
        ensures
            old(registry).inv() ==> final(registry).inv(),
            final(registry).wf(),
            final(ledger).wf(),
            self.applied(penalty, old(registry), final(registry), old(ledger), final(ledger)),
    {
        match penalty {
            Penalty::PenalizeProvider(d) => self.penalize_provider(registry, ledger, &d),
            Penalty::PenalizeFalseDisputer(d) => self.penalize_false_disputer(registry, &d),
        }
    }
}

/// Payment handling of the runtime, answered by the escrow pallet.
pub struct EscrowAdapter;

impl EscrowAdapter {
    /// Locks `amount` of `payer`'s funds under `escrow_id`.
    pub fn lock(
        escrow: &mut Escrow,
        chain: &Chain,
        ledger: &mut Ledger,
        escrow_id: EscrowId,
        payer: AccountId,
        payee: AccountId,
        amount: Balance,
    ) -> (r: Result<(), DispatchError>)
        requires
            old(escrow).wf(),
            old(ledger).wf(),
        ensures
            final(escrow).wf(),
            final(ledger).wf(),
            old(escrow).lock_post(
                final(escrow),
                old(ledger),
                final(ledger),
                chain,
                escrow_id,
                payer,
                payee,
                amount,
                r,
            ),
    {
        escrow.lock(chain, ledger, escrow_id, payer, payee, amount)
    }

    /// Pays the funds locked under `escrow_id` to the payee.
    pub fn release(escrow: &mut Escrow, ledger: &mut Ledger, escrow_id: EscrowId) -> (r: Result<
        (),
        DispatchError,
    >)
        requires
            old(escrow).wf(),
            old(ledger).wf(),
        ensures
            final(escrow).wf(),
            final(ledger).wf(),
            old(escrow).release_post(final(escrow), old(ledger), final(ledger), escrow_id, r),
    {
        escrow.release(ledger, escrow_id)
    }

    /// Returns the funds locked under `escrow_id` to the payer.
    pub fn refund(escrow: &mut Escrow, ledger: &mut Ledger, escrow_id: EscrowId) -> (r: Result<
        (),
        DispatchError,
    >)
        requires
            old(escrow).wf(),
            old(ledger).wf(),
        ensures
            final(escrow).wf(),
            final(ledger).wf(),
            old(escrow).refund_post(final(escrow), old(ledger), final(ledger), escrow_id, r),
    {
        escrow.refund(ledger, escrow_id)
    }
}

/// The chain state: block clock, balances and the three pallets.
#[derive(Clone, Debug, PartialEq, Eq)]
pub struct Runtime {
    pub chain: Chain,
    pub ledger: Ledger,
    pub agent_registry: AgentRegistry,
    pub vector_db: VectorDb,
    pub escrow: Escrow,
    pub reputation: ReputationHandlerAdapter,
}

impl Runtime {
    pub open spec fn wf(&self) -> bool {
        &&& self.chain.wf()
        &&& self.ledger.wf()
        &&& self.agent_registry.wf()
        &&& self.vector_db.wf()
        &&& self.escrow.wf()
    }

    /// A fresh chain at block 0 with empty pallets.
    pub fn new(
        genesis_hash: [u8; 32],
        registry_config: RegistryConfig,
        vector_db_config: VectorDbConfig,
    ) -> (r: Runtime)
        ensures
            r.wf(),
            r.agent_registry.inv(),
            r.vector_db.inv(),
            r.chain.now() == 0,
            r.agent_registry.config() == registry_config,
            r.vector_db.config() == vector_db_config,
            r.reputation.provider_guilty_slash == vector_db_config.provider_guilty_slash,
            r.reputation.false_dispute_slash == vector_db_config.false_dispute_slash,
    {
        Runtime {
            chain: Chain::new(genesis_hash),
            ledger: Ledger::new(),
            agent_registry: AgentRegistry::new(registry_config),
            vector_db: VectorDb::new(vector_db_config),
            escrow: Escrow::new(),
            reputation: ReputationHandlerAdapter::new(&vector_db_config),
        }
    }

    /// `VectorDb::counter_dispute` with identities from the agent
    /// registry; a refuted consumer is penalized.
    pub fn counter_dispute(
        &mut self,
        origin: Origin,
        commitment_id: CommitmentId,
        provider_did: Did,
        chunk_data: Vec<u8>,
        merkle_proof: Vec<[u8; 32]>,
    ) -> (r: Result<(), DispatchError>)
        requires
            old(self).wf(),
            chunk_data@.len() <= crate::vector_db::MAX_CHUNK_LEN,
            merkle_proof@.len() <= crate::vector_db::MAX_PROOF_DEPTH,
        ensures
            final(self).wf(),
            old(self).agent_registry.inv() ==> final(self).agent_registry.inv(),
            old(self).vector_db.inv() ==> final(self).vector_db.inv(),
            ({
                let outcome = old(self).vector_db.counter_outcome(
                    &old(self).chain,
                    &(AgentRegistryAdapter { registry: &old(self).agent_registry }),
                    origin,
                    commitment_id,
                    provider_did,
                    chunk_data@,
                    merkle_proof@,
                );
                &&& r == match outcome {
                    Ok(_) => Ok(()),
                    Err(e) => Err::<(), DispatchError>(e),
                }
                &&& final(self).chain == old(self).chain
                &&& final(self).escrow == old(self).escrow
                &&& final(self).reputation == old(self).reputation
                &&& outcome is Err ==> {
                    &&& final(self).vector_db.unchanged_from(&old(self).vector_db)
                    &&& final(self).agent_registry.unchanged_from(&old(self).agent_registry)
                    &&& final(self).ledger == old(self).ledger
                }
                &&& outcome is Ok ==> old(self).vector_db.resolved_as(
                    &final(self).vector_db,
                    commitment_id,
                    DisputeVerdict::ClaimantUnsubstantiated,
                    VectorDbEvent::DisputeCountered {
                        commitment_id,
                        verdict: DisputeVerdict::ClaimantUnsubstantiated,
                    },
                )
                &&& outcome matches Ok(p) ==> old(self).reputation.applied(
                    p,
                    &old(self).agent_registry,
                    &final(self).agent_registry,
                    &old(self).ledger,
                    &final(self).ledger,
                )
            }),
    {
        let outcome = self.vector_db.counter_dispute(
            &self.chain,
            &AgentRegistryAdapter { registry: &self.agent_registry },
            origin,
            commitment_id,
            provider_did,
            chunk_data,
            merkle_proof,
        );
        match outcome {
            Ok(penalty) => {
                self.reputation.apply(&mut self.agent_registry, &mut self.ledger, penalty);
                Ok(())
            },
            Err(e) => Err(e),
        }
    }

    /// `VectorDb::finalize_dispute`; the guilty provider is penalized.
    pub fn finalize_dispute(&mut self, origin: Origin, commitment_id: CommitmentId) -> (r: Result<
        (),
        DispatchError,
    >)
        requires
            old(self).wf(),
        ensures
            final(self).wf(),
            old(self).agent_registry.inv() ==> final(self).agent_registry.inv(),
            old(self).vector_db.inv() ==> final(self).vector_db.inv(),
            ({
                let outcome = old(self).vector_db.finalize_outcome(
                    &old(self).chain,
                    origin,
                    commitment_id,
                );
                &&& r == match outcome {
                    Ok(_) => Ok(()),
                    Err(e) => Err::<(), DispatchError>(e),
                }
                &&& final(self).chain == old(self).chain
                &&& final(self).escrow == old(self).escrow
                &&& final(self).reputation == old(self).reputation
                &&& outcome is Err ==> {
                    &&& final(self).vector_db.unchanged_from(&old(self).vector_db)
                    &&& final(self).agent_registry.unchanged_from(&old(self).agent_registry)
                    &&& final(self).ledger == old(self).ledger
                }
                &&& outcome is Ok ==> old(self).vector_db.resolved_as(
                    &final(self).vector_db,
                    commitment_id,
                    DisputeVerdict::ProviderGuilty,
                    VectorDbEvent::DisputeFinalized {
                        commitment_id,
                        verdict: DisputeVerdict::ProviderGuilty,
                        provider: old(self).vector_db.commitments()[commitment_id].provider,
                        consumer: old(self).vector_db.commitments()[commitment_id].consumer,
                    },
                )
                &&& outcome matches Ok(p) ==> old(self).reputation.applied(
                    p,
                    &old(self).agent_registry,
                    &final(self).agent_registry,
                    &old(self).ledger,
                    &final(self).ledger,
                )
            }),
    {
        let outcome = self.vector_db.finalize_dispute(&self.chain, origin, commitment_id);
        match outcome {
            Ok(penalty) => {
                self.reputation.apply(&mut self.agent_registry, &mut self.ledger, penalty);
                Ok(())
            },
            Err(e) => Err(e),
        }
    }
}

} // verus!
