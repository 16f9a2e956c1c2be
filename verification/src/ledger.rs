//! Chain environment (block height and block hashes) and the reservable
//! balance ledger that deposits and escrows are held in.
use vstd::prelude::*;

use crate::table::Table;
use crate::types::{zero32, AccountId, Balance, BlockNumber, LedgerError};

verus! {

/// Block height and the hashes recorded for past blocks.
#[derive(Clone, Debug, PartialEq, Eq)]
pub struct Chain {
    block_number: BlockNumber,
    block_hashes: Table<BlockNumber, [u8; 32]>,
}

impl Chain {
    pub closed spec fn wf(&self) -> bool {
        self.block_hashes.wf()
    }

    /// Current block height.
    pub closed spec fn now(&self) -> BlockNumber {
        self.block_number
    }

    /// Recorded hash of block `n`; all zeroes where none is recorded.
    pub closed spec fn hash_at(&self, n: BlockNumber) -> [u8; 32] {
        if self.block_hashes@.contains_key(n) {
            self.block_hashes@[n]
        } else {
            zero32()
        }
    }

    /// A chain at height 0 whose genesis block has hash `genesis_hash`.
    pub fn new(genesis_hash: [u8; 32]) -> (c: Chain)
        ensures
            c.wf(),
            c.now() == 0,
            c.hash_at(0) == genesis_hash,
            forall|n: BlockNumber| n != 0 ==> #[trigger] c.hash_at(n) == zero32(),
    {
        let mut block_hashes = Table::new();
        block_hashes.insert(0, genesis_hash);
        Chain { block_number: 0, block_hashes }
    }

    pub fn block_number(&self) -> (r: BlockNumber)
        ensures
            r == self.now(),
    {
        self.block_number
    }

    pub fn set_block_number(&mut self, n: BlockNumber)
        requires
            old(self).wf(),
        ensures
            final(self).wf(),
            final(self).now() == n,
            forall|m: BlockNumber| #[trigger] final(self).hash_at(m) == old(self).hash_at(m),
    {
        self.block_number = n;
    }

    pub fn block_hash(&self, n: BlockNumber) -> (r: [u8; 32])
        requires
            self.wf(),
        ensures
            r == self.hash_at(n),
    {
        match self.block_hashes.get(&n) {
            Some(h) => *h,
            None => [0u8; 32],
        }
    }

    pub fn set_block_hash(&mut self, n: BlockNumber, h: [u8; 32])
        requires
            old(self).wf(),
        ensures
            final(self).wf(),
            final(self).now() == old(self).now(),
            final(self).hash_at(n) == h,
            forall|m: BlockNumber| m != n ==> #[trigger] final(self).hash_at(m) == old(self).hash_at(m),
    {
        self.block_hashes.insert(n, h);
    }
}

/// Free and reserved balance of one account.
#[derive(Clone, Copy, Debug, PartialEq, Eq, Structural)]
pub struct AccountData {
    pub free: Balance,
    pub reserved: Balance,
}

/// Per-account free and reserved balances. An account never written holds
/// nothing.
#[derive(Clone, Debug, PartialEq, Eq)]
pub struct Ledger {
    accounts: Table<AccountId, AccountData>,
}

pub open spec fn zero_account() -> AccountData {
    AccountData { free: 0, reserved: 0 }
}

pub open spec fn min_balance(a: Balance, b: Balance) -> Balance {
    if a <= b {
        a
    } else {
        b
    }
}

impl Ledger {
    pub closed spec fn wf(&self) -> bool {
        self.accounts.wf()
    }

    /// Balances of `who`.
    pub closed spec fn account(&self, who: AccountId) -> AccountData {
        if self.accounts@.contains_key(who) {
            self.accounts@[who]
        } else {
            zero_account()
        }
    }

    /// Every account other than `who` holds in `self` what it holds in `other`.
    pub open spec fn same_except(&self, other: &Ledger, who: AccountId) -> bool {
        forall|w: AccountId| w != who ==> #[trigger] self.account(w) == other.account(w)
    }

    /// Every account other than `a` and `b` holds in `self` what it holds in `other`.
    pub open spec fn same_except2(&self, other: &Ledger, a: AccountId, b: AccountId) -> bool {
        forall|w: AccountId| w != a && w != b ==> #[trigger] self.account(w) == other.account(w)
    }

    pub fn new() -> (l: Ledger)
        ensures
            l.wf(),
            forall|w: AccountId| #[trigger] l.account(w) == zero_account(),
    {
        Ledger { accounts: Table::new() }
    }

    fn data(&self, who: AccountId) -> (r: AccountData)
        requires
            self.wf(),
        ensures
            r == self.account(who),
    {
        match self.accounts.get(&who) {
            Some(d) => *d,
            None => AccountData { free: 0, reserved: 0 },
        }
    }

    fn put(&mut self, who: AccountId, d: AccountData)
        requires
            old(self).wf(),
        ensures
            final(self).wf(),
            final(self).account(who) == d,
            final(self).same_except(old(self), who),
    {
        self.accounts.insert(who, d);
    }

    pub fn free_balance(&self, who: AccountId) -> (r: Balance)
        requires
            self.wf(),
        ensures
            r == self.account(who).free,
    {
        self.data(who).free
    }

    pub fn reserved_balance(&self, who: AccountId) -> (r: Balance)
        requires
            self.wf(),
        ensures
            r == self.account(who).reserved,
    {
        self.data(who).reserved
    }

    /// Sets the free balance of `who` (genesis endowment).
    pub fn set_free_balance(&mut self, who: AccountId, amount: Balance)
        requires
            old(self).wf(),
        ensures
            final(self).wf(),
            final(self).account(who) == (AccountData {
                free: amount,
                reserved: old(self).account(who).reserved,
            }),
            final(self).same_except(old(self), who),
    {
        let d = self.data(who);
        self.put(who, AccountData { free: amount, reserved: d.reserved });
    }

    /// Moves `amount` from the free to the reserved balance of `who`; fails,
    /// moving nothing, where the free balance does not cover it.
    pub fn reserve(&mut self, who: AccountId, amount: Balance) -> (r: Result<(), LedgerError>)
        requires
            old(self).wf(),
        ensures
            final(self).wf(),
            old(self).account(who).free < amount ==> r == Err::<(), LedgerError>(
                LedgerError::InsufficientBalance,
            ),
            old(self).account(who).free >= amount && old(self).account(who).reserved + amount
                > u64::MAX ==> r == Err::<(), LedgerError>(LedgerError::Overflow),
            r is Err ==> final(self).account(who) == old(self).account(who),
            r is Ok <==> (old(self).account(who).free >= amount && old(self).account(who).reserved
                + amount <= u64::MAX),
            r is Ok ==> final(self).account(who) == (AccountData {
                free: (old(self).account(who).free - amount) as u64,
                reserved: (old(self).account(who).reserved + amount) as u64,
            }),
            final(self).same_except(old(self), who),
    {
        let d = self.data(who);
        if d.free < amount {
            return Err(LedgerError::InsufficientBalance);
        }
        if d.reserved > u64::MAX - amount {
            return Err(LedgerError::Overflow);
        }
        self.put(who, AccountData { free: d.free - amount, reserved: d.reserved + amount });
        Ok(())
    }

    /// Moves up to `amount` from the reserved back to the free balance of
    /// `who` (the free balance saturating); returns the part of `amount`
    /// that was not reserved.
    pub fn unreserve(&mut self, who: AccountId, amount: Balance) -> (leftover: Balance)
        requires
            old(self).wf(),
        ensures
            final(self).wf(),
            ({
                let d = old(self).account(who);
                let moved = min_balance(amount, d.reserved);
                &&& leftover == amount - moved
                &&& final(self).account(who) == (AccountData {
                    free: if d.free + moved <= u64::MAX {
                        (d.free + moved) as u64
                    } else {
                        u64::MAX
                    },
                    reserved: (d.reserved - moved) as u64,
                })
            }),
            final(self).same_except(old(self), who),
    {
        let d = self.data(who);
        let moved = if amount <= d.reserved {
            amount
        } else {
            d.reserved
        };
        self.put(who, AccountData { free: d.free.saturating_add(moved), reserved: d.reserved - moved });
        amount - moved
    }

    /// Burns up to `amount` of the reserved balance of `who`; returns the
    /// amount actually burned.
    pub fn slash_reserved(&mut self, who: AccountId, amount: Balance) -> (slashed: Balance)
        requires
            old(self).wf(),
        ensures
            final(self).wf(),
            slashed == min_balance(amount, old(self).account(who).reserved),
            final(self).account(who) == (AccountData {
                free: old(self).account(who).free,
                reserved: (old(self).account(who).reserved - slashed) as u64,
            }),
            final(self).same_except(old(self), who),
    {
        let d = self.data(who);
        let slashed = if amount <= d.reserved {
            amount
        } else {
            d.reserved
        };
        self.put(who, AccountData { free: d.free, reserved: d.reserved - slashed });
        slashed
    }

    /// Moves up to `amount` of the reserved balance of `from` into the free
    /// balance of `to`; returns the part of `amount` that was not reserved.
    /// Moving to oneself unreserves.
    pub fn repatriate_reserved(&mut self, from: AccountId, to: AccountId, amount: Balance) -> (r:
        Result<Balance, LedgerError>)
        requires
            old(self).wf(),
        ensures
            final(self).wf(),
            from == to ==> ({
                let d = old(self).account(from);
                let moved = min_balance(amount, d.reserved);
                &&& r == Ok::<Balance, LedgerError>((amount - moved) as u64)
                &&& final(self).account(from) == (AccountData {
                    free: if d.free + moved <= u64::MAX {
                        (d.free + moved) as u64
                    } else {
                        u64::MAX
                    },
                    reserved: (d.reserved - moved) as u64,
                })
                &&& final(self).same_except(old(self), from)
            }),
            from != to ==> ({
                let d = old(self).account(from);
                let e = old(self).account(to);
                let moved = min_balance(amount, d.reserved);
                &&& (e.free + moved > u64::MAX) ==> r == Err::<Balance, LedgerError>(
                    LedgerError::Overflow,
                ) && final(self).same_except(old(self), from) && final(self).account(from)
                    == old(self).account(from)
                &&& (e.free + moved <= u64::MAX) ==> r == Ok::<Balance, LedgerError>(
                    (amount - moved) as u64,
                ) && final(self).account(from) == (AccountData {
                    free: d.free,
                    reserved: (d.reserved - moved) as u64,
                }) && final(self).account(to) == (AccountData {
                    free: (e.free + moved) as u64,
                    reserved: e.reserved,
                }) && final(self).same_except2(old(self), from, to)
            }),
    {
        if from == to {
            let leftover = self.unreserve(from, amount);
            return Ok(leftover);
        }
        let d = self.data(from);
        let e = self.data(to);
        let moved = if amount <= d.reserved {
            amount
        } else {
            d.reserved
        };
        if e.free > u64::MAX - moved {
            return Err(LedgerError::Overflow);
        }
        self.put(from, AccountData { free: d.free, reserved: d.reserved - moved });
        self.put(to, AccountData { free: e.free + moved, reserved: e.reserved });
        Ok(amount - moved)
    }
}

} // verus!
