//! Primitive types shared by every pallet, the dispatch origin and the
//! dispatch error.
use vstd::prelude::*;

use crate::agent_registry::RegistryError;
use crate::escrow::EscrowError;
use crate::vector_db::VectorDbError;

verus! {

/// 32-byte decentralized identifier.
pub type Did = [u8; 32];

/// Account identifier of a signed caller.
pub type AccountId = u64;

/// Block height.
pub type BlockNumber = u64;

/// Currency amount.
pub type Balance = u64;

/// The all-zero 32-byte value.
pub open spec fn zero32() -> [u8; 32] {
    vstd::array::spec_array_fill_for_copy_type::<u8, 32>(0u8)
}

/// Origin of a dispatched call.
#[derive(Clone, Copy, Debug, PartialEq, Eq, Structural)]
pub enum Origin {
    /// A transaction signed by the given account.
    Signed(AccountId),
    /// The privileged root origin.
    Root,
    /// An unsigned transaction.
    Unsigned,
}

/// Errors raised by the balance ledger.
#[derive(Clone, Copy, Debug, PartialEq, Eq, Structural)]
pub enum LedgerError {
    /// The account's free balance does not cover the amount.
    InsufficientBalance,
    /// A balance would exceed the representable range.
    Overflow,
}

/// Why a dispatched call failed.
#[derive(Clone, Copy, Debug, PartialEq, Eq, Structural)]
pub enum DispatchError {
    /// The call needs a signed origin and did not get one.
    BadOrigin,
    /// An error of the agent registry.
    AgentRegistry(RegistryError),
    /// An error of the vector commitment registry.
    VectorDb(VectorDbError),
    /// An error of the escrow.
    Escrow(EscrowError),
    /// An error of the balance ledger.
    Ledger(LedgerError),
}

/// The signer of a signed origin; every other origin is rejected.
pub fn ensure_signed(origin: Origin) -> (r: Result<AccountId, DispatchError>)
    ensures
        match origin {
            Origin::Signed(who) => r == Ok::<AccountId, DispatchError>(who),
            _ => r == Err::<AccountId, DispatchError>(DispatchError::BadOrigin),
        },
{
    match origin {
        Origin::Signed(who) => Ok(who),
        _ => Err(DispatchError::BadOrigin),
    }
}


/// Execution cost of a call: reference time and proof size.
#[derive(Clone, Copy, Debug, PartialEq, Eq, Structural)]
pub struct Weight {
    pub ref_time: u64,
    pub proof_size: u64,
}

pub open spec fn sat_add_u64_spec(a: u64, b: u64) -> u64 {
    if a + b <= u64::MAX {
        (a + b) as u64
    } else {
        u64::MAX
    }
}

impl Weight {
    pub fn from_parts(ref_time: u64, proof_size: u64) -> (w: Weight)
        ensures
            w.ref_time == ref_time,
            w.proof_size == proof_size,
    {
        Weight { ref_time, proof_size }
    }

    /// Component-wise sum, saturating at the maximum.
    pub fn saturating_add(self, other: Weight) -> (w: Weight)
        ensures
            w.ref_time == sat_add_u64_spec(self.ref_time, other.ref_time),
            w.proof_size == sat_add_u64_spec(self.proof_size, other.proof_size),
    {
        Weight {
            ref_time: self.ref_time.saturating_add(other.ref_time),
            proof_size: self.proof_size.saturating_add(other.proof_size),
        }
    }
}

} // verus!
