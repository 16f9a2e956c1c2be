//! Generic escrow: holds a payer's funds against an escrow id and later
//! either moves them to the payee or returns them to the payer.
//!
//! Every entry point is a plain internal function for trusted runtime
//! code; none takes an origin. Unlike a reputation penalty, a failed lock,
//! release or refund fails its caller: each returns a `Result`, and a
//! failed call changes nothing.
use vstd::prelude::*;

use crate::ledger::{min_balance, AccountData, Chain, Ledger};
use crate::table::Table;
use crate::types::{AccountId, Balance, BlockNumber, DispatchError};

verus! {

/// Identifies one escrow record; callers reuse the id of their deal.
pub type EscrowId = [u8; 32];

/// Lifecycle of one escrow record. `Released` and `Refunded` are terminal.
#[derive(Clone, Copy, Debug, PartialEq, Eq, Structural)]
pub enum EscrowStatus {
    /// Funds are reserved from the payer, not yet moved.
    Locked,
    /// Funds moved from the payer to the payee.
    Released,
    /// Funds returned to the payer.
    Refunded,
}

#[derive(Clone, Copy, Debug, PartialEq, Eq)]
pub struct EscrowRecord {
    pub payer: AccountId,
    pub payee: AccountId,
    pub amount: Balance,
    pub status: EscrowStatus,
    pub locked_at: BlockNumber,
}

#[derive(Clone, Copy, Debug, PartialEq, Eq)]
pub enum EscrowEvent {
    /// Funds reserved from `payer` against `escrow_id`.
    FundsLocked { escrow_id: EscrowId, payer: AccountId, payee: AccountId, amount: Balance },
    /// Locked funds moved from `payer` to `payee`.
    FundsReleased { escrow_id: EscrowId, payer: AccountId, payee: AccountId, amount: Balance },
    /// Locked funds returned to `payer`.
    FundsRefunded { escrow_id: EscrowId, payer: AccountId, amount: Balance },
}

#[derive(Clone, Copy, Debug, PartialEq, Eq, Structural)]
pub enum EscrowError {
    /// An escrow already exists for this id; each id is one-shot.
    EscrowAlreadyExists,
    /// No escrow record exists for this id.
    EscrowNotFound,
    /// The escrow is not `Locked`: already released or refunded.
    EscrowNotLocked,
    /// The payer's free balance is below the amount at lock time.
    InsufficientBalanceForEscrow,
}

/// Escrow records (never pruned: a terminal record is the audit trail of
/// where the funds went) and the events emitted so far.
#[derive(Clone, Debug, PartialEq, Eq)]
pub struct Escrow {
    escrows: Table<EscrowId, EscrowRecord>,
    events: Vec<EscrowEvent>,
}

pub open spec fn escrow_err<T>(e: EscrowError) -> Result<T, DispatchError> {
    Err(DispatchError::Escrow(e))
}

/// The two ledgers hold the same balances for every account.
pub open spec fn same_balances(a: &Ledger, b: &Ledger) -> bool {
    forall|w: AccountId| #[trigger] a.account(w) == b.account(w)
}

impl Escrow {
    pub closed spec fn wf(&self) -> bool {
        self.escrows.wf()
    }

    /// All escrow records by id.
    pub closed spec fn records(&self) -> Map<EscrowId, EscrowRecord> {
        self.escrows@
    }

    /// Events emitted so far, oldest first.
    pub closed spec fn event_log(&self) -> Seq<EscrowEvent> {
        self.events@
    }

    /// What `lock` answers and leaves behind, from the state before the call.
    pub open spec fn lock_post(
        &self,
        post: &Escrow,
        pre_l: &Ledger,
        post_l: &Ledger,
        chain: &Chain,
        escrow_id: EscrowId,
        payer: AccountId,
        payee: AccountId,
        amount: Balance,
        r: Result<(), DispatchError>,
    ) -> bool {
        &&& (self.records().contains_key(escrow_id) ==> r == escrow_err::<()>(
                EscrowError::EscrowAlreadyExists,
            ))
        &&& (!self.records().contains_key(escrow_id) && (pre_l.account(payer).free
                < amount || pre_l.account(payer).reserved + amount > u64::MAX) ==> r
                == escrow_err::<()>(EscrowError::InsufficientBalanceForEscrow))
        &&& (r is Ok <==> (!self.records().contains_key(escrow_id) && pre_l.account(
                payer,
            ).free >= amount && pre_l.account(payer).reserved + amount <= u64::MAX))
        &&& (r is Err ==> post.records() == self.records() && post.event_log()
                == self.event_log() && same_balances(post_l, pre_l))
        &&& (r is Ok ==> {
                &&& post.records() == self.records().insert(
                    escrow_id,
                    EscrowRecord {
                        payer,
                        payee,
                        amount,
                        status: EscrowStatus::Locked,
                        locked_at: chain.now(),
                    },
                )
                &&& post_l.account(payer) == (AccountData {
                    free: (pre_l.account(payer).free - amount) as u64,
                    reserved: (pre_l.account(payer).reserved + amount) as u64,
                })
                &&& post_l.same_except(pre_l, payer)
                &&& post.event_log() == self.event_log().push(
                    EscrowEvent::FundsLocked { escrow_id, payer, payee, amount },
                )
            })
    }

    /// What `release` answers and leaves behind, from the state before the call.
    pub open spec fn release_post(
        &self,
        post: &Escrow,
        pre_l: &Ledger,
        post_l: &Ledger,
        escrow_id: EscrowId,
        r: Result<(), DispatchError>,
    ) -> bool {
        &&& (!self.records().contains_key(escrow_id) ==> r == escrow_err::<()>(
                EscrowError::EscrowNotFound,
            ))
        &&& (self.records().contains_key(escrow_id) && self.records()[escrow_id].status
                != EscrowStatus::Locked ==> r == escrow_err::<()>(EscrowError::EscrowNotLocked))
        &&& (r is Err ==> post.records() == self.records() && post.event_log()
                == self.event_log() && same_balances(post_l, pre_l))
        &&& (self.records().contains_key(escrow_id) && self.records()[escrow_id].status
                == EscrowStatus::Locked ==> ({
                let rec = self.records()[escrow_id];
                let moved = min_balance(rec.amount, pre_l.account(rec.payer).reserved);
                &&& (rec.payer == rec.payee || pre_l.account(rec.payee).free + moved
                    <= u64::MAX) <==> r is Ok
                &&& r is Ok ==> {
                    &&& post.records() == self.records().insert(
                        escrow_id,
                        EscrowRecord { status: EscrowStatus::Released, ..rec },
                    )
                    &&& post.event_log() == self.event_log().push(
                        EscrowEvent::FundsReleased {
                            escrow_id,
                            payer: rec.payer,
                            payee: rec.payee,
                            amount: rec.amount,
                        },
                    )
                    &&& rec.payer != rec.payee ==> {
                        &&& post_l.account(rec.payer) == (AccountData {
                            free: pre_l.account(rec.payer).free,
                            reserved: (pre_l.account(rec.payer).reserved - moved) as u64,
                        })
                        &&& post_l.account(rec.payee) == (AccountData {
                            free: (pre_l.account(rec.payee).free + moved) as u64,
                            reserved: pre_l.account(rec.payee).reserved,
                        })
                        &&& post_l.same_except2(pre_l, rec.payer, rec.payee)
                    }
                    &&& rec.payer == rec.payee ==> {
                        &&& post_l.account(rec.payer) == (AccountData {
                            free: if pre_l.account(rec.payer).free + moved <= u64::MAX {
                                (pre_l.account(rec.payer).free + moved) as u64
                            } else {
                                u64::MAX
                            },
                            reserved: (pre_l.account(rec.payer).reserved - moved) as u64,
                        })
                        &&& post_l.same_except(pre_l, rec.payer)
                    }
                }
            }))
    }

    /// What `refund` answers and leaves behind, from the state before the call.
    pub open spec fn refund_post(
        &self,
        post: &Escrow,
        pre_l: &Ledger,
        post_l: &Ledger,
        escrow_id: EscrowId,
        r: Result<(), DispatchError>,
    ) -> bool {
        &&& (!self.records().contains_key(escrow_id) ==> r == escrow_err::<()>(
                EscrowError::EscrowNotFound,
            ))
        &&& (self.records().contains_key(escrow_id) && self.records()[escrow_id].status
                != EscrowStatus::Locked ==> r == escrow_err::<()>(EscrowError::EscrowNotLocked))
        &&& (r is Ok <==> (self.records().contains_key(escrow_id)
                && self.records()[escrow_id].status == EscrowStatus::Locked))
        &&& (r is Err ==> post.records() == self.records() && post.event_log()
                == self.event_log() && same_balances(post_l, pre_l))
        &&& (r is Ok ==> ({
                let rec = self.records()[escrow_id];
                let d = pre_l.account(rec.payer);
                let moved = min_balance(rec.amount, d.reserved);
                &&& post.records() == self.records().insert(
                    escrow_id,
                    EscrowRecord { status: EscrowStatus::Refunded, ..rec },
                )
                &&& post_l.account(rec.payer) == (AccountData {
                    free: if d.free + moved <= u64::MAX {
                        (d.free + moved) as u64
                    } else {
                        u64::MAX
                    },
                    reserved: (d.reserved - moved) as u64,
                })
                &&& post_l.same_except(pre_l, rec.payer)
                &&& post.event_log() == self.event_log().push(
                    EscrowEvent::FundsRefunded { escrow_id, payer: rec.payer, amount: rec.amount },
                )
            }))
    }

    pub fn new() -> (e: Escrow)
        ensures
            e.wf(),
            e.records() == Map::<EscrowId, EscrowRecord>::empty(),
            e.event_log() == Seq::<EscrowEvent>::empty(),
    {
        Escrow { escrows: Table::new(), events: Vec::new() }
    }

    /// The record stored under `escrow_id`.
    pub fn escrow(&self, escrow_id: &EscrowId) -> (r: Option<EscrowRecord>)
        requires
            self.wf(),
        ensures
            r == self.records().get(*escrow_id),
    {
        match self.escrows.get(escrow_id) {
            Some(rec) => Some(*rec),
            None => None,
        }
    }

    pub fn events(&self) -> (r: &Vec<EscrowEvent>)
        ensures
            r@ == self.event_log(),
    {
        &self.events
    }

    pub fn last_event(&self) -> (r: Option<EscrowEvent>)
        ensures
            r == (if self.event_log().len() == 0 {
                None
            } else {
                Some(self.event_log().last())
            }),
    {
        if self.events.len() == 0 {
            None
        } else {
            Some(self.events[self.events.len() - 1])
        }
    }

    pub fn reset_events(&mut self)
        requires
            old(self).wf(),
        ensures
            final(self).wf(),
            final(self).records() == old(self).records(),
            final(self).event_log() == Seq::<EscrowEvent>::empty(),
    {
        self.events = Vec::new();
    }

    /// Reserves `amount` from `payer` and records a new `Locked` escrow
    /// under `escrow_id`. Fails if the id is taken or `payer` cannot
    /// cover `amount`.
    pub fn lock(
        &mut self,
        chain: &Chain,
        ledger: &mut Ledger,
        escrow_id: EscrowId,
        payer: AccountId,
        payee: AccountId,
        amount: Balance,
    ) -> (r: Result<(), DispatchError>)
        requires
            old(self).wf(),
            old(ledger).wf(),
        ensures
            final(self).wf(),
            final(ledger).wf(),
            old(self).lock_post(final(self), old(ledger), final(ledger), chain, escrow_id, payer, payee, amount, r),
    {
        if self.escrows.contains_key(&escrow_id) {
            return Err(DispatchError::Escrow(EscrowError::EscrowAlreadyExists));
        }
        match ledger.reserve(payer, amount) {
            Ok(()) => {},
            Err(_) => {
                return Err(DispatchError::Escrow(EscrowError::InsufficientBalanceForEscrow));
            },
        }
        let current_block = chain.block_number();
        self.escrows.insert(
            escrow_id,
            EscrowRecord {
                payer,
                payee,
                amount,
                status: EscrowStatus::Locked,
                locked_at: current_block,
            },
        );
        self.events.push(EscrowEvent::FundsLocked { escrow_id, payer, payee, amount });
        Ok(())
    }

    /// Moves the locked funds from the payer to the payee and marks the
    /// escrow `Released`. The escrow must be `Locked`.
    pub fn release(&mut self, ledger: &mut Ledger, escrow_id: EscrowId) -> (r: Result<
        (),
        DispatchError,
    >)
        requires
            old(self).wf(),
            old(ledger).wf(),
        ensures
            final(self).wf(),
            final(ledger).wf(),
            old(self).release_post(final(self), old(ledger), final(ledger), escrow_id, r),
    {
        let rec = match self.escrows.get(&escrow_id) {
            Some(rec) => *rec,
            None => {
                return Err(DispatchError::Escrow(EscrowError::EscrowNotFound));
            },
        };
        match rec.status {
            EscrowStatus::Locked => {},
            _ => {
                return Err(DispatchError::Escrow(EscrowError::EscrowNotLocked));
            },
        }
        match ledger.repatriate_reserved(rec.payer, rec.payee, rec.amount) {
            Ok(_) => {},
            Err(e) => {
                return Err(DispatchError::Ledger(e));
            },
        }
        self.escrows.insert(escrow_id, EscrowRecord { status: EscrowStatus::Released, ..rec });
        self.events.push(
            EscrowEvent::FundsReleased {
                escrow_id,
                payer: rec.payer,
                payee: rec.payee,
                amount: rec.amount,
            },
        );
        Ok(())
    }

    /// Returns the locked funds to the payer and marks the escrow
    /// `Refunded`. The escrow must be `Locked`.
    pub fn refund(&mut self, ledger: &mut Ledger, escrow_id: EscrowId) -> (r: Result<
        (),
        DispatchError,
    >)
        requires
            old(self).wf(),
            old(ledger).wf(),
        ensures
            final(self).wf(),
            final(ledger).wf(),
            old(self).refund_post(final(self), old(ledger), final(ledger), escrow_id, r),
    {
        let rec = match self.escrows.get(&escrow_id) {
            Some(rec) => *rec,
            None => {
                return Err(DispatchError::Escrow(EscrowError::EscrowNotFound));
            },
        };
        match rec.status {
            EscrowStatus::Locked => {},
            _ => {
                return Err(DispatchError::Escrow(EscrowError::EscrowNotLocked));
            },
        }
        let _leftover = ledger.unreserve(rec.payer, rec.amount);
        self.escrows.insert(escrow_id, EscrowRecord { status: EscrowStatus::Refunded, ..rec });
        self.events.push(
            EscrowEvent::FundsRefunded { escrow_id, payer: rec.payer, amount: rec.amount },
        );
        Ok(())
    }
}


/// Locking funds and then refunding them leaves every balance as it was,
/// and the escrow ends `Refunded`.
pub proof fn lemma_lock_then_refund_restores(
    e0: Escrow,
    e1: Escrow,
    e2: Escrow,
    l0: Ledger,
    l1: Ledger,
    l2: Ledger,
    chain: Chain,
    escrow_id: EscrowId,
    payer: AccountId,
    payee: AccountId,
    amount: Balance,
)
    requires
        e0.lock_post(&e1, &l0, &l1, &chain, escrow_id, payer, payee, amount, Ok(())),
        e1.refund_post(&e2, &l1, &l2, escrow_id, Ok(())),
    ensures
        same_balances(&l2, &l0),
        e2.records()[escrow_id].status == EscrowStatus::Refunded,
{
    assert forall|w: AccountId| #[trigger] l2.account(w) == l0.account(w) by {
        if w != payer {
            assert(l1.account(w) == l0.account(w));
        }
    }
}

/// Locking funds and then releasing them moves exactly `amount` from the
/// payer's free balance to the payee's; nobody else's balance changes and
/// the payer's reserved balance is back where it was.
pub proof fn lemma_lock_then_release_pays(
    e0: Escrow,
    e1: Escrow,
    e2: Escrow,
    l0: Ledger,
    l1: Ledger,
    l2: Ledger,
    chain: Chain,
    escrow_id: EscrowId,
    payer: AccountId,
    payee: AccountId,
    amount: Balance,
)
    requires
        payer != payee,
        e0.lock_post(&e1, &l0, &l1, &chain, escrow_id, payer, payee, amount, Ok(())),
        e1.release_post(&e2, &l1, &l2, escrow_id, Ok(())),
    ensures
        l2.account(payer).free == l0.account(payer).free - amount,
        l2.account(payer).reserved == l0.account(payer).reserved,
        l2.account(payee).free == l0.account(payee).free + amount,
        l2.account(payee).reserved == l0.account(payee).reserved,
        forall|w: AccountId| w != payer && w != payee ==> #[trigger] l2.account(w) == l0.account(w),
        e2.records()[escrow_id].status == EscrowStatus::Released,
{
    assert(e1.records()[escrow_id].payer == payer);
    assert(l1.account(payee) == l0.account(payee));
}

/// A settled escrow stays settled: once released or refunded, neither
/// `release` nor `refund` succeeds on it again, and nothing changes.
pub proof fn lemma_settled_escrow_is_final(
    e0: Escrow,
    e1: Escrow,
    e2: Escrow,
    l0: Ledger,
    l1: Ledger,
    l2: Ledger,
    escrow_id: EscrowId,
    r1: Result<(), DispatchError>,
    r2: Result<(), DispatchError>,
)
    requires
        e0.records().contains_key(escrow_id),
        e0.records()[escrow_id].status != EscrowStatus::Locked,
        e0.release_post(&e1, &l0, &l1, escrow_id, r1),
        e0.refund_post(&e2, &l0, &l2, escrow_id, r2),
    ensures
        r1 == escrow_err::<()>(EscrowError::EscrowNotLocked),
        r2 == escrow_err::<()>(EscrowError::EscrowNotLocked),
        e1.records() == e0.records(),
        e2.records() == e0.records(),
        same_balances(&l1, &l0),
        same_balances(&l2, &l0),
{
}

} // verus!
