//! The ledger-wide laws, stated over the spec functions that the
//! operations' contracts use.

use vstd::prelude::*;

use crate::contract::{spec_deposit_consumed, Contract};
use crate::ledger::{lemma_balance_le_sum, lemma_sum_nonneg, sum_balances};

verus! {

/// Law: in every well-formed ledger state, the total supply equals the sum
/// of all account balances. Every operation of the ledger requires and
/// preserves `wf`, so this holds in every reachable state.
pub proof fn lemma_total_supply_is_sum_of_balances(c: Contract)
    requires
        c.wf(),
    ensures
        c.total_supply as int == sum_balances(c.accounts@),
{
}

/// Law: no account's balance exceeds the total supply. Balances are
/// unsigned, so none is negative either; together the two bound every
/// balance into `[0, total_supply]`.
pub proof fn lemma_balance_bounded_by_supply(c: Contract, a: Seq<char>)
    requires
        c.wf(),
    ensures
        c.spec_balance_of(a) <= c.total_supply,
{
    if c.is_registered(a) {
        let i = crate::ledger::idx_of(c.accounts@, a);
        assert(0 <= i < c.accounts@.len() && c.accounts@[i].id@ == a);
        lemma_balance_le_sum(c.accounts@, i);
    } else {
        lemma_sum_nonneg(c.accounts@);
    }
}

/// Law: with no escrow cap configured, a deposit that freshly registers an
/// account (not restricted to the bond alone), followed by a withdrawal of
/// everything available, hands back exactly the attached amount above the
/// mandatory bond. The two middle premises quote what `storage_deposit`'s
/// contract ensures of the state it leaves, and the last what
/// `storage_withdraw(None)`'s contract ensures of its result.
pub proof fn lemma_storage_round_trip(
    pre: Contract,
    mid: Contract,
    account: Seq<char>,
    attached: u128,
    withdrawn: int,
)
    requires
        pre.wf(),
        !pre.is_registered(account),
        pre.storage_max is None,
        attached >= pre.storage_min,
        mid.storage_min == pre.storage_min,
        mid.spec_escrow_of(account) == spec_deposit_consumed(
            attached,
            false,
            pre.storage_min,
            pre.storage_max,
        ),
        withdrawn == mid.spec_escrow_of(account) - mid.storage_min,
    ensures
        withdrawn == attached - pre.storage_min,
{
}

} // verus!
