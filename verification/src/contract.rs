//! The ledger itself: balances with a global supply invariant, storage-rent
//! escrow gating registration, and the two-phase transfer protocol.

use vstd::prelude::*;

use crate::error::Error;
use crate::ledger::{
    AccountRecord, bal_of, distinct_ids, escrow_of, has_id, lemma_balance_le_sum,
    lemma_idx_unique, lemma_push_row, lemma_remove_row, lemma_sum_nonneg, lemma_sum_push,
    lemma_update_row, sum_balances,
};
use crate::metadata::Metadata;

verus! {

/// Fixed durable footprint of one account row, in bytes.
pub const ACCOUNT_STORAGE_BYTES: u128 = 125;

/// Configured price of one byte of durable storage, in native units.
pub const STORAGE_PRICE_PER_BYTE: u128 = 10_000_000_000_000_000_000;

/// The minimum escrow an account must hold while registered: the cost of
/// its row.
pub const STORAGE_BALANCE_MIN: u128 = ACCOUNT_STORAGE_BYTES * STORAGE_PRICE_PER_BYTE;

/// The storage-rent escrow of one account, as reported to callers.
#[derive(Clone, Copy, Debug, PartialEq, Eq, Structural)]
pub struct StorageBalance {
    /// The whole escrowed amount.
    pub total: u128,
    /// The part above the mandatory bond, free to withdraw.
    pub available: u128,
}

/// The process-wide storage-rent configuration.
#[derive(Clone, Copy, Debug)]
pub struct StorageBalanceBounds {
    /// The mandatory bond for one account.
    pub min: u128,
    /// The cap on one account's escrow, when configured.
    pub max: Option<u128>,
}

/// The continuation data of a transfer-with-notification: what the host
/// needs to notify the receiver and to resolve the transfer afterwards.
pub struct TransferIntent {
    pub sender: String,
    pub receiver: String,
    pub amount: u128,
    pub msg: String,
}

/// What the host reports of the notify request when it resolves.
#[derive(Clone, Copy, Debug)]
pub enum NotifyOutcome {
    /// The receiver's handler completed and reported this many tokens unused.
    Unused(u128),
    /// The notify request failed entirely; the whole amount counts as unused.
    Failed,
}

/// The outcome of resolving a transfer-with-notification.
#[derive(Clone, Copy, Debug, PartialEq, Eq, Structural)]
pub struct Resolution {
    /// Tokens the receiver kept: the caller-visible result.
    pub used: u128,
    /// Tokens moved back from the receiver to the sender.
    pub refunded: u128,
    /// Tokens destroyed because the sender's row was gone.
    pub burned: u128,
}

/// What a successful unregistration releases.
#[derive(Clone, Copy, Debug, PartialEq, Eq, Structural)]
pub struct AccountClosure {
    /// The residual token balance, burned on forced closure.
    pub balance_burned: u128,
    /// The whole storage escrow, released back to the account.
    pub escrow_refunded: u128,
}

/// The ledger: account rows, the total supply, the immutable descriptor,
/// and the storage-rent configuration.
pub struct Contract {
    pub accounts: Vec<AccountRecord>,
    pub total_supply: u128,
    pub metadata: Metadata,
    pub storage_min: u128,
    pub storage_max: Option<u128>,
}

impl Contract {
    /// The state invariant: identifiers are distinct, the total supply is
    /// the sum of all balances, and every escrow respects the bounds.
    pub open spec fn wf(self) -> bool {
        &&& distinct_ids(self.accounts@)
        &&& sum_balances(self.accounts@) == self.total_supply as int
        &&& forall|i: int| 0 <= i < self.accounts@.len()
            ==> (#[trigger] self.accounts@[i]).storage_total >= self.storage_min
        &&& match self.storage_max {
            Some(m) => self.storage_min <= m && forall|i: int|
                0 <= i < self.accounts@.len()
                    ==> (#[trigger] self.accounts@[i]).storage_total <= m,
            None => true,
        }
    }

    /// Whether `a` has a row in the ledger.
    pub open spec fn is_registered(self, a: Seq<char>) -> bool {
        has_id(self.accounts@, a)
    }

    /// The balance of `a`; zero when unregistered.
    pub open spec fn spec_balance_of(self, a: Seq<char>) -> u128 {
        bal_of(self.accounts@, a)
    }

    /// The storage escrow of `a`; zero when unregistered.
    pub open spec fn spec_escrow_of(self, a: Seq<char>) -> u128 {
        escrow_of(self.accounts@, a)
    }

    /// The parts of the ledger that no operation after initialization may
    /// change: descriptor and storage-rent configuration.
    pub open spec fn same_config(self, other: Contract) -> bool {
        &&& self.metadata == other.metadata
        &&& self.storage_min == other.storage_min
        &&& self.storage_max == other.storage_max
    }
}

/// The index of the row carrying `id`, if any.
fn find(accounts: &Vec<AccountRecord>, id: &String) -> (r: Option<usize>)
    ensures
        match r {
            Some(i) => 0 <= i < accounts@.len() && accounts@[i as int].id@ == id@,
            None => !has_id(accounts@, id@),
        },
{
    let n = accounts.len();
    let mut k: usize = 0;
    while k < n
        invariant
            n == accounts@.len(),
            0 <= k <= n,
            forall|j: int| 0 <= j < k ==> (#[trigger] accounts@[j]).id@ != id@,
        decreases n - k,
    {
        if accounts[k].id == *id {
            return Some(k);
        }
        k = k + 1;
    }
    None
}

/// Replace row `i`'s balance, leaving identifier and escrow in place.
fn update_balance(accounts: &mut Vec<AccountRecord>, i: usize, new_bal: u128)
    requires
        i < old(accounts)@.len(),
    ensures
        final(accounts)@ == old(accounts)@.update(
            i as int,
            (AccountRecord {
                id: old(accounts)@[i as int].id,
                balance: new_bal,
                storage_total: old(accounts)@[i as int].storage_total,
            }),
        ),
{
    let id = accounts[i].id.clone();
    let storage_total = accounts[i].storage_total;
    accounts[i] = AccountRecord { id, balance: new_bal, storage_total };
}

/// Replace row `i`'s storage escrow, leaving identifier and balance in place.
fn update_escrow(accounts: &mut Vec<AccountRecord>, i: usize, new_escrow: u128)
    requires
        i < old(accounts)@.len(),
    ensures
        final(accounts)@ == old(accounts)@.update(
            i as int,
            (AccountRecord {
                id: old(accounts)@[i as int].id,
                balance: old(accounts)@[i as int].balance,
                storage_total: new_escrow,
            }),
        ),
{
    let id = accounts[i].id.clone();
    let balance = accounts[i].balance;
    accounts[i] = AccountRecord { id, balance, storage_total: new_escrow };
}

impl Contract {
    /// Create the ledger with an explicit storage-rent configuration:
    /// registers `owner_id` and issues the whole supply to it.
    pub fn new_with_bounds(
        owner_id: String,
        total_supply: u128,
        metadata: Metadata,
        storage_min: u128,
        storage_max: Option<u128>,
    ) -> (r: Result<Contract, Error>)
        requires
            storage_max matches Some(m) ==> storage_min <= m,
        ensures
            r is Err <==> !metadata.valid(),
            r matches Err(e) ==> e == Error::InvalidMetadata,
            r matches Ok(c) ==> {
                &&& c.wf()
                &&& c.total_supply == total_supply
                &&& c.is_registered(owner_id@)
                &&& c.spec_balance_of(owner_id@) == total_supply
                &&& c.spec_escrow_of(owner_id@) == storage_min
                &&& forall|a: Seq<char>| a != owner_id@ ==> !c.is_registered(a)
                &&& c.metadata == metadata
                &&& c.storage_min == storage_min
                &&& c.storage_max == storage_max
            },
    {
        if !metadata.is_valid() {
            return Err(Error::InvalidMetadata);
        }
        let mut accounts: Vec<AccountRecord> = Vec::new();
        let owner_row = AccountRecord {
            id: owner_id,
            balance: total_supply,
            storage_total: storage_min,
        };
        proof {
            lemma_sum_push(Seq::<AccountRecord>::empty(), owner_row);
        }
        accounts.push(owner_row);
        let c = Contract { accounts, total_supply, metadata, storage_min, storage_max };
        proof {
            assert forall|a: Seq<char>| a != owner_id@ implies !c.is_registered(a) by {
                if has_id(c.accounts@, a) {
                    let i = choose|i: int|
                        #![trigger c.accounts@[i].id]
                        0 <= i < c.accounts@.len() && c.accounts@[i].id@ == a;
                    assert(i == 0);
                }
            };
            lemma_idx_unique(c.accounts@, owner_id@, 0);
        }
        Ok(c)
    }

    /// Create the ledger with the fixed storage-rent configuration.
    pub fn new(owner_id: String, total_supply: u128, metadata: Metadata) -> (r: Result<
        Contract,
        Error,
    >)
        ensures
            r is Err <==> !metadata.valid(),
            r matches Err(e) ==> e == Error::InvalidMetadata,
            r matches Ok(c) ==> {
                &&& c.wf()
                &&& c.total_supply == total_supply
                &&& c.is_registered(owner_id@)
                &&& c.spec_balance_of(owner_id@) == total_supply
                &&& c.spec_escrow_of(owner_id@) == STORAGE_BALANCE_MIN
                &&& forall|a: Seq<char>| a != owner_id@ ==> !c.is_registered(a)
                &&& c.metadata == metadata
                &&& c.storage_min == STORAGE_BALANCE_MIN
                &&& c.storage_max is None
            },
    {
        Self::new_with_bounds(owner_id, total_supply, metadata, STORAGE_BALANCE_MIN, None)
    }

    /// Create the ledger with the built-in descriptor record.
    pub fn new_default_meta(owner_id: String, total_supply: u128) -> (c: Contract)
        ensures
            c.wf(),
            c.total_supply == total_supply,
            c.is_registered(owner_id@),
            c.spec_balance_of(owner_id@) == total_supply,
            forall|a: Seq<char>| a != owner_id@ ==> !c.is_registered(a),
            c.spec_escrow_of(owner_id@) == STORAGE_BALANCE_MIN,
            c.metadata.valid(),
            c.metadata.spec_version@ == "ft-1.0.0"@,
            c.metadata.name@ == "D fungible token"@,
            c.metadata.symbol@ == "D"@,
            c.metadata.icon is None,
            c.metadata.reference is None,
            c.metadata.reference_hash is None,
            c.metadata.decimals == 24,
            c.storage_min == STORAGE_BALANCE_MIN,
            c.storage_max is None,
    {
        let metadata = Metadata::new_default();
        match Self::new(owner_id, total_supply, metadata) {
            Ok(c) => c,
            Err(_) => {
                proof {
                    assert(false);
                }
                vstd::pervasive::unreached()
            },
        }
    }
}

impl Contract {
    /// Insert a fresh account row with balance zero and the given storage
    /// escrow.
    pub fn register(&mut self, account: String, escrow: u128) -> (r: Result<(), Error>)
        requires
            old(self).wf(),
            old(self).storage_min <= escrow,
            old(self).storage_max matches Some(m) ==> escrow <= m,
        ensures
            final(self).wf(),
            r is Ok <==> !old(self).is_registered(account@),
            r matches Err(e) ==> e == Error::AlreadyRegistered && *final(self) == *old(self),
            r is Ok ==> {
                &&& final(self).is_registered(account@)
                &&& final(self).spec_balance_of(account@) == 0
                &&& final(self).spec_escrow_of(account@) == escrow
                &&& forall|a: Seq<char>| a != account@
                    ==> final(self).is_registered(a) == old(self).is_registered(a)
                &&& forall|a: Seq<char>| a != account@
                    ==> final(self).spec_balance_of(a) == old(self).spec_balance_of(a)
                &&& forall|a: Seq<char>| a != account@
                    ==> final(self).spec_escrow_of(a) == old(self).spec_escrow_of(a)
                &&& final(self).total_supply == old(self).total_supply
                &&& final(self).same_config(*old(self))
            },
    {
        match find(&self.accounts, &account) {
            Some(_) => Err(Error::AlreadyRegistered),
            None => {
                let ghost s0 = self.accounts@;
                let row = AccountRecord { id: account, balance: 0, storage_total: escrow };
                proof {
                    lemma_push_row(s0, row);
                }
                self.accounts.push(row);
                Ok(())
            },
        }
    }

    /// Increase `account`'s balance and the total supply by `amount`:
    /// supply issuance.
    pub fn mint(&mut self, account: &String, amount: u128) -> (r: Result<(), Error>)
        requires
            old(self).wf(),
        ensures
            final(self).wf(),
            r matches Err(_) ==> *final(self) == *old(self),
            r == Err::<(), Error>(Error::AccountNotRegistered) <==> !old(self).is_registered(
                account@,
            ),
            r == Err::<(), Error>(Error::Overflow) <==> (old(self).is_registered(account@)
                && old(self).total_supply + amount > u128::MAX),
            r is Ok <==> (old(self).is_registered(account@) && old(self).total_supply + amount
                <= u128::MAX),
            r is Ok ==> {
                &&& final(self).spec_balance_of(account@) == old(self).spec_balance_of(account@)
                    + amount
                &&& final(self).total_supply == old(self).total_supply + amount
                &&& forall|a: Seq<char>| a != account@
                    ==> final(self).spec_balance_of(a) == old(self).spec_balance_of(a)
                &&& forall|a: Seq<char>|
                    final(self).is_registered(a) == old(self).is_registered(a)
                &&& forall|a: Seq<char>|
                    final(self).spec_escrow_of(a) == old(self).spec_escrow_of(a)
                &&& final(self).same_config(*old(self))
            },
    {
        match find(&self.accounts, account) {
            None => Err(Error::AccountNotRegistered),
            Some(i) => {
                if amount > u128::MAX - self.total_supply {
                    Err(Error::Overflow)
                } else {
                    let ghost s0 = self.accounts@;
                    proof {
                        lemma_idx_unique(s0, account@, i as int);
                        lemma_balance_le_sum(s0, i as int);
                    }
                    let new_bal = self.accounts[i].balance + amount;
                    update_balance(&mut self.accounts, i, new_bal);
                    proof {
                        lemma_update_row(
                            s0,
                            i as int,
                            (AccountRecord {
                                id: s0[i as int].id,
                                balance: new_bal,
                                storage_total: s0[i as int].storage_total,
                            }),
                        );
                    }
                    self.total_supply = self.total_supply + amount;
                    Ok(())
                }
            },
        }
    }

    /// Decrease `account`'s balance and the total supply by `amount`:
    /// destruction of tokens.
    pub fn burn(&mut self, account: &String, amount: u128) -> (r: Result<(), Error>)
        requires
            old(self).wf(),
        ensures
            final(self).wf(),
            r matches Err(_) ==> *final(self) == *old(self),
            r == Err::<(), Error>(Error::AccountNotRegistered) <==> !old(self).is_registered(
                account@,
            ),
            r == Err::<(), Error>(Error::InsufficientBalance) <==> (old(self).is_registered(
                account@,
            ) && old(self).spec_balance_of(account@) < amount),
            r is Ok <==> (old(self).is_registered(account@) && old(self).spec_balance_of(account@)
                >= amount),
            r is Ok ==> {
                &&& final(self).spec_balance_of(account@) == old(self).spec_balance_of(account@)
                    - amount
                &&& final(self).total_supply == old(self).total_supply - amount
                &&& forall|a: Seq<char>| a != account@
                    ==> final(self).spec_balance_of(a) == old(self).spec_balance_of(a)
                &&& forall|a: Seq<char>|
                    final(self).is_registered(a) == old(self).is_registered(a)
                &&& forall|a: Seq<char>|
                    final(self).spec_escrow_of(a) == old(self).spec_escrow_of(a)
                &&& final(self).same_config(*old(self))
            },
    {
        match find(&self.accounts, account) {
            None => Err(Error::AccountNotRegistered),
            Some(i) => {
                let bal = self.accounts[i].balance;
                let ghost s0 = self.accounts@;
                proof {
                    lemma_idx_unique(s0, account@, i as int);
                }
                if bal < amount {
                    Err(Error::InsufficientBalance)
                } else {
                    proof {
                        lemma_balance_le_sum(s0, i as int);
                    }
                    let new_bal = bal - amount;
                    update_balance(&mut self.accounts, i, new_bal);
                    proof {
                        lemma_update_row(
                            s0,
                            i as int,
                            (AccountRecord {
                                id: s0[i as int].id,
                                balance: new_bal,
                                storage_total: s0[i as int].storage_total,
                            }),
                        );
                    }
                    self.total_supply = self.total_supply - amount;
                    Ok(())
                }
            },
        }
    }
}

/// The amount a resolving transfer counts as unused: what the outcome
/// reports, clamped into `[0, amount]`; a failed notification counts as
/// fully unused.
pub open spec fn spec_unused(amount: u128, outcome: NotifyOutcome) -> u128 {
    match outcome {
        NotifyOutcome::Failed => amount,
        NotifyOutcome::Unused(u) => if u > amount {
            amount
        } else {
            u
        },
    }
}

/// The amount a resolving transfer takes back from the receiver: the unused
/// amount, clamped to what the receiver still holds.
pub open spec fn spec_refund(pre: Contract, receiver: Seq<char>, amount: u128, outcome: NotifyOutcome) -> u128 {
    let u = spec_unused(amount, outcome);
    let held = pre.spec_balance_of(receiver);
    if u > held {
        held
    } else {
        u
    }
}

impl Contract {
    /// Move `amount` tokens from `sender` to `receiver`: both mutations
    /// visible together or neither.
    pub fn ft_transfer(
        &mut self,
        sender: &String,
        receiver: &String,
        amount: u128,
        memo: Option<String>,
    ) -> (r: Result<(), Error>)
        requires
            old(self).wf(),
        ensures
            final(self).wf(),
            r matches Err(_) ==> *final(self) == *old(self),
            r == Err::<(), Error>(Error::SelfTransfer) <==> sender@ == receiver@,
            r == Err::<(), Error>(Error::ZeroAmount) <==> (sender@ != receiver@ && amount == 0),
            r == Err::<(), Error>(Error::AccountNotRegistered) <==> (sender@ != receiver@
                && amount > 0 && (!old(self).is_registered(sender@) || !old(
                self,
            ).is_registered(receiver@))),
            r == Err::<(), Error>(Error::InsufficientBalance) <==> (sender@ != receiver@ && amount
                > 0 && old(self).is_registered(sender@) && old(self).is_registered(receiver@)
                && old(self).spec_balance_of(sender@) < amount),
            r is Ok <==> (sender@ != receiver@ && amount > 0 && old(self).is_registered(sender@)
                && old(self).is_registered(receiver@) && old(self).spec_balance_of(sender@)
                >= amount),
            r is Ok ==> {
                &&& final(self).spec_balance_of(sender@) == old(self).spec_balance_of(sender@)
                    - amount
                &&& final(self).spec_balance_of(receiver@) == old(self).spec_balance_of(receiver@)
                    + amount
                &&& forall|a: Seq<char>| a != sender@ && a != receiver@
                    ==> final(self).spec_balance_of(a) == old(self).spec_balance_of(a)
                &&& forall|a: Seq<char>|
                    final(self).is_registered(a) == old(self).is_registered(a)
                &&& forall|a: Seq<char>|
                    final(self).spec_escrow_of(a) == old(self).spec_escrow_of(a)
                &&& final(self).total_supply == old(self).total_supply
                &&& final(self).same_config(*old(self))
            },
    {
        let _ = memo;
        if *sender == *receiver {
            return Err(Error::SelfTransfer);
        }
        if amount == 0 {
            return Err(Error::ZeroAmount);
        }
        let si = match find(&self.accounts, sender) {
            None => {
                return Err(Error::AccountNotRegistered);
            },
            Some(si) => si,
        };
        let ri = match find(&self.accounts, receiver) {
            None => {
                return Err(Error::AccountNotRegistered);
            },
            Some(ri) => ri,
        };
        let sbal = self.accounts[si].balance;
        let ghost s0 = self.accounts@;
        proof {
            lemma_idx_unique(s0, sender@, si as int);
            lemma_idx_unique(s0, receiver@, ri as int);
        }
        if sbal < amount {
            return Err(Error::InsufficientBalance);
        }
        let new_sbal = sbal - amount;
        update_balance(&mut self.accounts, si, new_sbal);
        let ghost s1 = self.accounts@;
        proof {
            lemma_update_row(
                s0,
                si as int,
                (AccountRecord {
                    id: s0[si as int].id,
                    balance: new_sbal,
                    storage_total: s0[si as int].storage_total,
                }),
            );
            lemma_idx_unique(s1, receiver@, ri as int);
            lemma_balance_le_sum(s1, ri as int);
        }
        let rbal = self.accounts[ri].balance;
        let new_rbal = rbal + amount;
        update_balance(&mut self.accounts, ri, new_rbal);
        proof {
            lemma_update_row(
                s1,
                ri as int,
                (AccountRecord {
                    id: s1[ri as int].id,
                    balance: new_rbal,
                    storage_total: s1[ri as int].storage_total,
                }),
            );
        }
        Ok(())
    }

    /// Phase one of a transfer-with-notification: validates and applies the
    /// transfer optimistically, and hands back the continuation data the
    /// host needs to notify the receiver and later resolve.
    pub fn ft_transfer_call(
        &mut self,
        sender: &String,
        receiver: &String,
        amount: u128,
        memo: Option<String>,
        msg: String,
    ) -> (r: Result<TransferIntent, Error>)
        requires
            old(self).wf(),
        ensures
            final(self).wf(),
            r matches Err(_) ==> *final(self) == *old(self),
            r == Err::<TransferIntent, Error>(Error::SelfTransfer) <==> sender@ == receiver@,
            r == Err::<TransferIntent, Error>(Error::ZeroAmount) <==> (sender@ != receiver@
                && amount == 0),
            r == Err::<TransferIntent, Error>(Error::AccountNotRegistered) <==> (sender@
                != receiver@ && amount > 0 && (!old(self).is_registered(sender@) || !old(
                self,
            ).is_registered(receiver@))),
            r == Err::<TransferIntent, Error>(Error::InsufficientBalance) <==> (sender@
                != receiver@ && amount > 0 && old(self).is_registered(sender@) && old(
                self,
            ).is_registered(receiver@) && old(self).spec_balance_of(sender@) < amount),
            r is Ok <==> (sender@ != receiver@ && amount > 0 && old(self).is_registered(sender@)
                && old(self).is_registered(receiver@) && old(self).spec_balance_of(sender@)
                >= amount),
            r matches Ok(intent) ==> {
                &&& intent.sender@ == sender@
                &&& intent.receiver@ == receiver@
                &&& intent.amount == amount
                &&& intent.msg == msg
                &&& final(self).spec_balance_of(sender@) == old(self).spec_balance_of(sender@)
                    - amount
                &&& final(self).spec_balance_of(receiver@) == old(self).spec_balance_of(receiver@)
                    + amount
                &&& forall|a: Seq<char>| a != sender@ && a != receiver@
                    ==> final(self).spec_balance_of(a) == old(self).spec_balance_of(a)
                &&& forall|a: Seq<char>|
                    final(self).is_registered(a) == old(self).is_registered(a)
                &&& forall|a: Seq<char>|
                    final(self).spec_escrow_of(a) == old(self).spec_escrow_of(a)
                &&& final(self).total_supply == old(self).total_supply
                &&& final(self).same_config(*old(self))
            },
    {
        match self.ft_transfer(sender, receiver, amount, memo) {
            Err(e) => Err(e),
            Ok(()) => Ok(
                TransferIntent {
                    sender: sender.clone(),
                    receiver: receiver.clone(),
                    amount,
                    msg,
                },
            ),
        }
    }

    /// Phase two of a transfer-with-notification, run exactly once with the
    /// outcome the host reports. Takes the unused amount back from the
    /// receiver; when the sender's row is gone, burns it instead. Never
    /// fails: phase one is already committed.
    pub fn ft_resolve_transfer(
        &mut self,
        sender: &String,
        receiver: &String,
        amount: u128,
        outcome: NotifyOutcome,
    ) -> (res: Resolution)
        requires
            old(self).wf(),
            sender@ != receiver@,
        ensures
            final(self).wf(),
            res.used == amount - spec_refund(*old(self), receiver@, amount, outcome),
            res.refunded + res.burned == spec_refund(*old(self), receiver@, amount, outcome),
            res.burned == if old(self).is_registered(sender@) {
                0
            } else {
                spec_refund(*old(self), receiver@, amount, outcome)
            },
            final(self).spec_balance_of(receiver@) == old(self).spec_balance_of(receiver@)
                - spec_refund(*old(self), receiver@, amount, outcome),
            final(self).spec_balance_of(sender@) == old(self).spec_balance_of(sender@)
                + res.refunded,
            forall|a: Seq<char>| a != sender@ && a != receiver@
                ==> final(self).spec_balance_of(a) == old(self).spec_balance_of(a),
            forall|a: Seq<char>| final(self).is_registered(a) == old(self).is_registered(a),
            forall|a: Seq<char>| final(self).spec_escrow_of(a) == old(self).spec_escrow_of(a),
            final(self).total_supply == old(self).total_supply - res.burned,
            final(self).same_config(*old(self)),
    {
        let unused = match outcome {
            NotifyOutcome::Failed => amount,
            NotifyOutcome::Unused(u) => if u > amount {
                amount
            } else {
                u
            },
        };
        if unused == 0 {
            return Resolution { used: amount, refunded: 0, burned: 0 };
        }
        let ri = match find(&self.accounts, receiver) {
            None => {
                return Resolution { used: amount, refunded: 0, burned: 0 };
            },
            Some(ri) => ri,
        };
        let ghost s0 = self.accounts@;
        proof {
            lemma_idx_unique(s0, receiver@, ri as int);
        }
        let rbal = self.accounts[ri].balance;
        let refund = if unused > rbal {
            rbal
        } else {
            unused
        };
        if refund == 0 {
            return Resolution { used: amount, refunded: 0, burned: 0 };
        }
        let new_rbal = rbal - refund;
        update_balance(&mut self.accounts, ri, new_rbal);
        let ghost s1 = self.accounts@;
        proof {
            lemma_update_row(
                s0,
                ri as int,
                (AccountRecord {
                    id: s0[ri as int].id,
                    balance: new_rbal,
                    storage_total: s0[ri as int].storage_total,
                }),
            );
        }
        match find(&self.accounts, sender) {
            Some(si) => {
                proof {
                    lemma_idx_unique(s1, sender@, si as int);
                    lemma_balance_le_sum(s1, si as int);
                }
                let sbal = self.accounts[si].balance;
                let new_sbal = sbal + refund;
                update_balance(&mut self.accounts, si, new_sbal);
                proof {
                    lemma_update_row(
                        s1,
                        si as int,
                        (AccountRecord {
                            id: s1[si as int].id,
                            balance: new_sbal,
                            storage_total: s1[si as int].storage_total,
                        }),
                    );
                }
                Resolution { used: amount - refund, refunded: refund, burned: 0 }
            },
            None => {
                proof {
                    lemma_sum_nonneg(self.accounts@);
                }
                self.total_supply = self.total_supply - refund;
                Resolution { used: amount - refund, refunded: 0, burned: refund }
            },
        }
    }
}

/// The part of a fresh deposit that is kept in escrow: only the mandatory
/// bond when registration alone was asked for, otherwise the whole attached
/// amount up to the configured cap.
pub open spec fn spec_deposit_consumed(
    attached: u128,
    registration_only: bool,
    min: u128,
    max: Option<u128>,
) -> u128 {
    if registration_only {
        min
    } else {
        match max {
            Some(m) => if attached > m {
                m
            } else {
                attached
            },
            None => attached,
        }
    }
}

/// The escrow after a deposit on an already-registered account: the attached
/// amount is added, up to the configured cap.
pub open spec fn spec_topup_total(total: u128, attached: u128, max: Option<u128>) -> int {
    match max {
        Some(m) => if total + attached > m {
            m as int
        } else {
            total + attached
        },
        None => total + attached,
    }
}

impl Contract {
    /// Accept a storage-rent deposit of `attached` for `account`,
    /// registering the account if it has no row yet. Returns the account's
    /// storage balance and the part of `attached` to hand back.
    pub fn storage_deposit(
        &mut self,
        account: &String,
        attached: u128,
        registration_only: bool,
    ) -> (r: Result<(StorageBalance, u128), Error>)
        requires
            old(self).wf(),
        ensures
            final(self).wf(),
            r matches Err(_) ==> *final(self) == *old(self),
            r == Err::<(StorageBalance, u128), Error>(Error::InsufficientStorageDeposit) <==> (!old(
                self,
            ).is_registered(account@) && attached < old(self).storage_min),
            r == Err::<(StorageBalance, u128), Error>(Error::Overflow) <==> (old(
                self,
            ).is_registered(account@) && !registration_only && old(self).storage_max is None
                && old(self).spec_escrow_of(account@) + attached > u128::MAX),
            r is Ok <==> !(!old(self).is_registered(account@) && attached < old(self).storage_min)
                && !(old(self).is_registered(account@) && !registration_only && old(
                self,
            ).storage_max is None && old(self).spec_escrow_of(account@) + attached > u128::MAX),
            r is Ok ==> {
                &&& final(self).is_registered(account@)
                &&& forall|a: Seq<char>| a != account@
                    ==> final(self).is_registered(a) == old(self).is_registered(a)
                &&& forall|a: Seq<char>|
                    final(self).spec_balance_of(a) == old(self).spec_balance_of(a)
                &&& forall|a: Seq<char>| a != account@
                    ==> final(self).spec_escrow_of(a) == old(self).spec_escrow_of(a)
                &&& final(self).total_supply == old(self).total_supply
                &&& final(self).same_config(*old(self))
            },
            !old(self).is_registered(account@) ==> (r matches Ok(p) ==> ({
                let consumed = spec_deposit_consumed(
                    attached,
                    registration_only,
                    old(self).storage_min,
                    old(self).storage_max,
                );
                &&& final(self).spec_escrow_of(account@) == consumed
                &&& p.1 == attached - consumed
                &&& p.0.total == consumed
                &&& p.0.available == consumed - old(self).storage_min
            })),
            old(self).is_registered(account@) && registration_only ==> (r matches Ok(p) ==> {
                &&& *final(self) == *old(self)
                &&& p.1 == attached
                &&& p.0.total == old(self).spec_escrow_of(account@)
                &&& p.0.available == old(self).spec_escrow_of(account@) - old(self).storage_min
            }),
            old(self).is_registered(account@) && !registration_only ==> (r matches Ok(p) ==> ({
                let new_total = spec_topup_total(
                    old(self).spec_escrow_of(account@),
                    attached,
                    old(self).storage_max,
                );
                &&& final(self).spec_escrow_of(account@) == new_total
                &&& p.1 == attached - (new_total - old(self).spec_escrow_of(account@))
                &&& p.0.total == new_total
                &&& p.0.available == new_total - old(self).storage_min
            })),
    {
        match find(&self.accounts, account) {
            None => {
                if attached < self.storage_min {
                    return Err(Error::InsufficientStorageDeposit);
                }
                let consumed = if registration_only {
                    self.storage_min
                } else {
                    match self.storage_max {
                        Some(m) => if attached > m {
                            m
                        } else {
                            attached
                        },
                        None => attached,
                    }
                };
                let ghost s0 = self.accounts@;
                let row = AccountRecord {
                    id: account.clone(),
                    balance: 0,
                    storage_total: consumed,
                };
                proof {
                    lemma_push_row(s0, row);
                }
                self.accounts.push(row);
                let refund = attached - consumed;
                Ok(
                    (
                        StorageBalance { total: consumed, available: consumed - self.storage_min },
                        refund,
                    ),
                )
            },
            Some(i) => {
                let ghost s0 = self.accounts@;
                proof {
                    lemma_idx_unique(s0, account@, i as int);
                }
                let esc = self.accounts[i].storage_total;
                if registration_only {
                    return Ok(
                        (
                            StorageBalance { total: esc, available: esc - self.storage_min },
                            attached,
                        ),
                    );
                }
                let new_total = match self.storage_max {
                    Some(m) => if attached > m - esc {
                        m
                    } else {
                        esc + attached
                    },
                    None => {
                        if attached > u128::MAX - esc {
                            return Err(Error::Overflow);
                        }
                        esc + attached
                    },
                };
                let consumed = new_total - esc;
                update_escrow(&mut self.accounts, i, new_total);
                proof {
                    lemma_update_row(
                        s0,
                        i as int,
                        (AccountRecord {
                            id: s0[i as int].id,
                            balance: s0[i as int].balance,
                            storage_total: new_total,
                        }),
                    );
                }
                Ok(
                    (
                        StorageBalance {
                            total: new_total,
                            available: new_total - self.storage_min,
                        },
                        attached - consumed,
                    ),
                )
            },
        }
    }

    /// Pay out part of `account`'s escrow above the mandatory bond; with no
    /// amount named, all of it. Returns the account's storage balance and
    /// the amount to hand back.
    pub fn storage_withdraw(&mut self, account: &String, amount: Option<u128>) -> (r: Result<
        (StorageBalance, u128),
        Error,
    >)
        requires
            old(self).wf(),
        ensures
            final(self).wf(),
            r matches Err(_) ==> *final(self) == *old(self),
            r == Err::<(StorageBalance, u128), Error>(Error::AccountNotRegistered) <==> !old(
                self,
            ).is_registered(account@),
            r == Err::<(StorageBalance, u128), Error>(Error::InsufficientStorageDeposit) <==> (old(
                self,
            ).is_registered(account@) && (amount matches Some(a) && a > old(self).spec_escrow_of(
                account@,
            ) - old(self).storage_min)),
            r is Ok <==> (old(self).is_registered(account@) && (amount matches Some(a) ==> a <= old(
                self,
            ).spec_escrow_of(account@) - old(self).storage_min)),
            r matches Ok(p) ==> ({
                let avail = old(self).spec_escrow_of(account@) - old(self).storage_min;
                let w = match amount {
                    Some(a) => a as int,
                    None => avail,
                };
                &&& p.1 == w
                &&& p.0.total == old(self).spec_escrow_of(account@) - w
                &&& p.0.available == avail - w
                &&& final(self).spec_escrow_of(account@) == old(self).spec_escrow_of(account@) - w
                &&& forall|a: Seq<char>| a != account@
                    ==> final(self).spec_escrow_of(a) == old(self).spec_escrow_of(a)
                &&& forall|a: Seq<char>|
                    final(self).is_registered(a) == old(self).is_registered(a)
                &&& forall|a: Seq<char>|
                    final(self).spec_balance_of(a) == old(self).spec_balance_of(a)
                &&& final(self).total_supply == old(self).total_supply
                &&& final(self).same_config(*old(self))
            }),
    {
        let i = match find(&self.accounts, account) {
            None => {
                return Err(Error::AccountNotRegistered);
            },
            Some(i) => i,
        };
        let ghost s0 = self.accounts@;
        proof {
            lemma_idx_unique(s0, account@, i as int);
        }
        let esc = self.accounts[i].storage_total;
        let available = esc - self.storage_min;
        let w = match amount {
            Some(a) => {
                if a > available {
                    return Err(Error::InsufficientStorageDeposit);
                }
                a
            },
            None => available,
        };
        let new_total = esc - w;
        update_escrow(&mut self.accounts, i, new_total);
        proof {
            lemma_update_row(
                s0,
                i as int,
                (AccountRecord {
                    id: s0[i as int].id,
                    balance: s0[i as int].balance,
                    storage_total: new_total,
                }),
            );
        }
        Ok((StorageBalance { total: new_total, available: available - w }, w))
    }

    /// Remove `account`'s row. Refused with a nonzero balance unless
    /// `force`, in which case the residual balance is burned. Returns what
    /// was burned and the escrow to hand back, or `None` for an account
    /// that was never registered.
    pub fn storage_unregister(&mut self, account: &String, force: bool) -> (r: Result<
        Option<AccountClosure>,
        Error,
    >)
        requires
            old(self).wf(),
        ensures
            final(self).wf(),
            r matches Err(_) ==> *final(self) == *old(self),
            r == Err::<Option<AccountClosure>, Error>(Error::NonZeroBalance) <==> (old(
                self,
            ).is_registered(account@) && old(self).spec_balance_of(account@) != 0 && !force),
            r == Ok::<Option<AccountClosure>, Error>(None) <==> !old(self).is_registered(account@),
            r == Ok::<Option<AccountClosure>, Error>(None) ==> *final(self) == *old(self),
            r matches Ok(Some(c)) <==> (old(self).is_registered(account@) && (old(
                self,
            ).spec_balance_of(account@) == 0 || force)),
            r matches Ok(Some(c)) ==> {
                &&& c.balance_burned == old(self).spec_balance_of(account@)
                &&& c.escrow_refunded == old(self).spec_escrow_of(account@)
                &&& !final(self).is_registered(account@)
                &&& forall|a: Seq<char>| a != account@
                    ==> final(self).is_registered(a) == old(self).is_registered(a)
                &&& forall|a: Seq<char>| a != account@
                    ==> final(self).spec_balance_of(a) == old(self).spec_balance_of(a)
                &&& forall|a: Seq<char>| a != account@
                    ==> final(self).spec_escrow_of(a) == old(self).spec_escrow_of(a)
                &&& final(self).total_supply == old(self).total_supply - c.balance_burned
                &&& final(self).same_config(*old(self))
            },
    {
        let i = match find(&self.accounts, account) {
            None => {
                return Ok(None);
            },
            Some(i) => i,
        };
        let ghost s0 = self.accounts@;
        proof {
            lemma_idx_unique(s0, account@, i as int);
        }
        let bal = self.accounts[i].balance;
        if bal != 0 && !force {
            return Err(Error::NonZeroBalance);
        }
        proof {
            lemma_balance_le_sum(s0, i as int);
            lemma_remove_row(s0, i as int);
        }
        let row = self.accounts.remove(i);
        self.total_supply = self.total_supply - bal;
        Ok(
            Some(
                AccountClosure { balance_burned: row.balance, escrow_refunded: row.storage_total },
            ),
        )
    }

    /// The process-wide storage-rent configuration.
    pub fn storage_balance_bounds(&self) -> (r: StorageBalanceBounds)
        ensures
            r.min == self.storage_min,
            r.max == self.storage_max,
    {
        StorageBalanceBounds { min: self.storage_min, max: self.storage_max }
    }

    /// The storage balance of `account`, or `None` when unregistered.
    pub fn storage_balance_of(&self, account: &String) -> (r: Option<StorageBalance>)
        requires
            self.wf(),
        ensures
            r is Some <==> self.is_registered(account@),
            r matches Some(sb) ==> sb.total == self.spec_escrow_of(account@) && sb.available
                == self.spec_escrow_of(account@) - self.storage_min,
    {
        match find(&self.accounts, account) {
            None => None,
            Some(i) => {
                proof {
                    lemma_idx_unique(self.accounts@, account@, i as int);
                }
                let esc = self.accounts[i].storage_total;
                Some(StorageBalance { total: esc, available: esc - self.storage_min })
            },
        }
    }

    /// The balance of `account`; zero when unregistered.
    pub fn ft_balance_of(&self, account: &String) -> (r: u128)
        requires
            self.wf(),
        ensures
            r == self.spec_balance_of(account@),
    {
        match find(&self.accounts, account) {
            None => 0,
            Some(i) => {
                proof {
                    lemma_idx_unique(self.accounts@, account@, i as int);
                }
                self.accounts[i].balance
            },
        }
    }

    /// The total number of tokens in existence.
    pub fn ft_total_supply(&self) -> (r: u128)
        ensures
            r == self.total_supply,
    {
        self.total_supply
    }

    /// The immutable descriptor record.
    pub fn ft_metadata(&self) -> (r: &Metadata)
        ensures
            *r == self.metadata,
    {
        &self.metadata
    }
}

} // verus!
