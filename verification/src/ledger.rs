//! The rows of the ledger and the mathematics used to reason about them:
//! looking an account up by identifier, summing balances, and how both
//! behave under updating, adding and removing a row.

use vstd::prelude::*;

verus! {

/// One registered account: its identifier, its token balance, and the
/// native-currency amount escrowed against its durable storage footprint.
pub struct AccountRecord {
    pub id: String,
    pub balance: u128,
    pub storage_total: u128,
}

/// Whether some row of `s` carries the identifier `id`.
pub open spec fn has_id(s: Seq<AccountRecord>, id: Seq<char>) -> bool {
    exists|i: int| #![trigger s[i].id] 0 <= i < s.len() && s[i].id@ == id
}

/// The index of the row carrying `id`; meaningful when `has_id` holds and
/// the identifiers are distinct.
pub open spec fn idx_of(s: Seq<AccountRecord>, id: Seq<char>) -> int {
    choose|i: int| #![trigger s[i].id] 0 <= i < s.len() && s[i].id@ == id
}

/// The balance recorded for `id`; zero for an absent account.
pub open spec fn bal_of(s: Seq<AccountRecord>, id: Seq<char>) -> u128 {
    if has_id(s, id) {
        s[idx_of(s, id)].balance
    } else {
        0
    }
}

/// The storage escrow recorded for `id`; zero for an absent account.
pub open spec fn escrow_of(s: Seq<AccountRecord>, id: Seq<char>) -> u128 {
    if has_id(s, id) {
        s[idx_of(s, id)].storage_total
    } else {
        0
    }
}

/// No two rows carry the same identifier.
pub open spec fn distinct_ids(s: Seq<AccountRecord>) -> bool {
    forall|i: int, j: int| #![trigger s[i].id, s[j].id]
        0 <= i < j < s.len() ==> s[i].id@ != s[j].id@
}

/// The sum of all balances recorded in `s`.
pub open spec fn sum_balances(s: Seq<AccountRecord>) -> int
    decreases s.len(),
{
    if s.len() == 0 {
        0
    } else {
        sum_balances(s.drop_last()) + s.last().balance
    }
}

pub proof fn lemma_sum_nonneg(s: Seq<AccountRecord>)
    ensures
        sum_balances(s) >= 0,
    decreases s.len(),
{
    if s.len() > 0 {
        lemma_sum_nonneg(s.drop_last());
    }
}

/// Each single balance is at most the sum of all of them.
pub proof fn lemma_balance_le_sum(s: Seq<AccountRecord>, i: int)
    requires
        0 <= i < s.len(),
    ensures
        s[i].balance <= sum_balances(s),
    decreases s.len(),
{
    if i == s.len() - 1 {
        lemma_sum_nonneg(s.drop_last());
    } else {
        lemma_balance_le_sum(s.drop_last(), i);
        assert(s.drop_last()[i] == s[i]);
    }
}

pub proof fn lemma_sum_update(s: Seq<AccountRecord>, i: int, r: AccountRecord)
    requires
        0 <= i < s.len(),
    ensures
        sum_balances(s.update(i, r)) == sum_balances(s) - s[i].balance + r.balance,
    decreases s.len(),
{
    let s2 = s.update(i, r);
    if i == s.len() - 1 {
        assert(s2.drop_last() =~= s.drop_last());
        assert(s2.last() == r);
    } else {
        lemma_sum_update(s.drop_last(), i, r);
        assert(s2.drop_last() =~= s.drop_last().update(i, r));
        assert(s2.last() == s.last());
    }
}

pub proof fn lemma_sum_push(s: Seq<AccountRecord>, r: AccountRecord)
    ensures
        sum_balances(s.push(r)) == sum_balances(s) + r.balance,
{
    assert(s.push(r).drop_last() =~= s);
    assert(s.push(r).last() == r);
}

pub proof fn lemma_sum_remove(s: Seq<AccountRecord>, i: int)
    requires
        0 <= i < s.len(),
    ensures
        sum_balances(s.remove(i)) == sum_balances(s) - s[i].balance,
    decreases s.len(),
{
    let s2 = s.remove(i);
    if i == s.len() - 1 {
        assert(s2 =~= s.drop_last());
    } else {
        lemma_sum_remove(s.drop_last(), i);
        assert(s2.drop_last() =~= s.drop_last().remove(i));
        assert(s2.last() == s.last());
    }
}

/// With distinct identifiers, a row matching `id` is the row `idx_of` picks.
pub proof fn lemma_idx_unique(s: Seq<AccountRecord>, id: Seq<char>, i: int)
    requires
        distinct_ids(s),
        0 <= i < s.len(),
        s[i].id@ == id,
    ensures
        has_id(s, id),
        idx_of(s, id) == i,
{
    assert(has_id(s, id));
    let j = idx_of(s, id);
    if i < j {
        assert(s[i].id@ != s[j].id@);
    }
    if j < i {
        assert(s[j].id@ != s[i].id@);
    }
}

/// Sequences whose rows carry the same identifiers in the same order have
/// the same lookup structure.
pub proof fn lemma_same_ids(s1: Seq<AccountRecord>, s2: Seq<AccountRecord>)
    requires
        distinct_ids(s1),
        s1.len() == s2.len(),
        forall|k: int| #![trigger s2[k].id] 0 <= k < s1.len() ==> s1[k].id@ == s2[k].id@,
    ensures
        distinct_ids(s2),
        forall|a: Seq<char>| #[trigger] has_id(s2, a) == has_id(s1, a),
        forall|a: Seq<char>| has_id(s1, a) ==> #[trigger] idx_of(s2, a) == idx_of(s1, a),
{
    assert forall|a: Seq<char>| #[trigger] has_id(s2, a) == has_id(s1, a) by {
        if has_id(s1, a) {
            let i = idx_of(s1, a);
            assert(0 <= i < s1.len() && s1[i].id@ == a);
            assert(s2[i].id@ == a);
            assert(has_id(s2, a));
        }
        if has_id(s2, a) {
            let i = choose|i: int| #![trigger s2[i].id] 0 <= i < s2.len() && s2[i].id@ == a;
            assert(s1[i].id@ == a);
            assert(has_id(s1, a));
        }
    };
    assert forall|a: Seq<char>| has_id(s1, a) implies #[trigger] idx_of(s2, a) == idx_of(s1, a) by {
        let i = idx_of(s1, a);
        assert(0 <= i < s1.len() && s1[i].id@ == a);
        assert(s2[i].id@ == a);
        lemma_idx_unique(s2, a, i);
    };
}

/// Replacing one row by another with the same identifier changes only that
/// account's numbers, and moves the sum by the balance difference.
pub proof fn lemma_update_row(s: Seq<AccountRecord>, i: int, r: AccountRecord)
    requires
        distinct_ids(s),
        0 <= i < s.len(),
        r.id@ == s[i].id@,
    ensures
        distinct_ids(s.update(i, r)),
        forall|a: Seq<char>| #[trigger] has_id(s.update(i, r), a) == has_id(s, a),
        has_id(s, r.id@),
        idx_of(s, r.id@) == i,
        bal_of(s.update(i, r), r.id@) == r.balance,
        escrow_of(s.update(i, r), r.id@) == r.storage_total,
        forall|a: Seq<char>| a != r.id@ ==> #[trigger] bal_of(s.update(i, r), a) == bal_of(s, a),
        forall|a: Seq<char>| a != r.id@ ==> #[trigger] escrow_of(s.update(i, r), a) == escrow_of(s, a),
        sum_balances(s.update(i, r)) == sum_balances(s) - s[i].balance + r.balance,
{
    let s2 = s.update(i, r);
    lemma_sum_update(s, i, r);
    assert(forall|k: int| #![trigger s2[k].id] 0 <= k < s.len() ==> s[k].id@ == s2[k].id@);
    lemma_same_ids(s, s2);
    lemma_idx_unique(s, r.id@, i);
    lemma_idx_unique(s2, r.id@, i);
    assert forall|a: Seq<char>| a != r.id@ implies #[trigger] bal_of(s2, a) == bal_of(s, a)
        && #[trigger] escrow_of(s2, a) == escrow_of(s, a) by {
        if has_id(s, a) {
            let j = idx_of(s, a);
            assert(0 <= j < s.len() && s[j].id@ == a);
            assert(j != i);
            assert(idx_of(s2, a) == j);
            assert(s2[j] == s[j]);
        }
    };
}

/// Adding a fresh row leaves every other account's numbers alone.
pub proof fn lemma_push_row(s: Seq<AccountRecord>, r: AccountRecord)
    requires
        distinct_ids(s),
        !has_id(s, r.id@),
    ensures
        distinct_ids(s.push(r)),
        has_id(s.push(r), r.id@),
        bal_of(s.push(r), r.id@) == r.balance,
        escrow_of(s.push(r), r.id@) == r.storage_total,
        forall|a: Seq<char>| a != r.id@ ==> #[trigger] has_id(s.push(r), a) == has_id(s, a),
        forall|a: Seq<char>| a != r.id@ ==> #[trigger] bal_of(s.push(r), a) == bal_of(s, a),
        forall|a: Seq<char>| a != r.id@ ==> #[trigger] escrow_of(s.push(r), a) == escrow_of(s, a),
        sum_balances(s.push(r)) == sum_balances(s) + r.balance,
{
    let s2 = s.push(r);
    lemma_sum_push(s, r);
    assert(s2[s.len() as int].id@ == r.id@);
    assert forall|i: int, j: int| 0 <= i < j < s2.len() implies s2[i].id@ != s2[j].id@ by {
        if j < s.len() {
            assert(s[i].id@ != s[j].id@);
        } else {
            assert(s2[j] == r);
            assert(s2[i] == s[i]);
        }
    };
    lemma_idx_unique(s2, r.id@, s.len() as int);
    assert forall|a: Seq<char>| a != r.id@ implies #[trigger] has_id(s2, a) == has_id(s, a) by {
        if has_id(s, a) {
            let i = idx_of(s, a);
            assert(s2[i].id@ == a);
        }
        if has_id(s2, a) {
            let i = choose|i: int| #![trigger s2[i].id] 0 <= i < s2.len() && s2[i].id@ == a;
            assert(i < s.len());
            assert(s[i].id@ == a);
        }
    };
    assert forall|a: Seq<char>| a != r.id@ implies #[trigger] bal_of(s2, a) == bal_of(s, a)
        && #[trigger] escrow_of(s2, a) == escrow_of(s, a) by {
        if has_id(s, a) {
            let j = idx_of(s, a);
            assert(0 <= j < s.len() && s[j].id@ == a);
            assert(s2[j].id@ == a);
            lemma_idx_unique(s2, a, j);
            assert(s2[j] == s[j]);
        }
    };
}

/// Removing a row leaves every other account's numbers alone, and lowers
/// the sum by exactly that row's balance.
pub proof fn lemma_remove_row(s: Seq<AccountRecord>, i: int)
    requires
        distinct_ids(s),
        0 <= i < s.len(),
    ensures
        distinct_ids(s.remove(i)),
        !has_id(s.remove(i), s[i].id@),
        forall|a: Seq<char>| a != s[i].id@ ==> #[trigger] has_id(s.remove(i), a) == has_id(s, a),
        forall|a: Seq<char>| a != s[i].id@ ==> #[trigger] bal_of(s.remove(i), a) == bal_of(s, a),
        forall|a: Seq<char>| a != s[i].id@ ==> #[trigger] escrow_of(s.remove(i), a) == escrow_of(s, a),
        sum_balances(s.remove(i)) == sum_balances(s) - s[i].balance,
{
    let s2 = s.remove(i);
    lemma_sum_remove(s, i);
    assert forall|p: int, q: int| 0 <= p < q < s2.len() implies s2[p].id@ != s2[q].id@ by {
        let p0 = if p < i { p } else { p + 1 };
        let q0 = if q < i { q } else { q + 1 };
        assert(s2[p] == s[p0]);
        assert(s2[q] == s[q0]);
        assert(s[p0].id@ != s[q0].id@);
    };
    assert forall|k: int| 0 <= k < s2.len() implies #[trigger] s2[k].id@ != s[i].id@ by {
        let k0 = if k < i { k } else { k + 1 };
        assert(s2[k] == s[k0]);
        if k0 < i {
            assert(s[k0].id@ != s[i].id@);
        } else {
            assert(s[i].id@ != s[k0].id@);
        }
    };
    assert(!has_id(s2, s[i].id@));
    assert forall|a: Seq<char>| a != s[i].id@ implies #[trigger] has_id(s2, a) == has_id(s, a) by {
        if has_id(s, a) {
            let j = idx_of(s, a);
            assert(0 <= j < s.len() && s[j].id@ == a);
            let j2 = if j < i { j } else { j - 1 };
            assert(s2[j2] == s[j]);
            assert(has_id(s2, a));
        }
        if has_id(s2, a) {
            let k = choose|k: int| #![trigger s2[k].id] 0 <= k < s2.len() && s2[k].id@ == a;
            let k0 = if k < i { k } else { k + 1 };
            assert(s2[k] == s[k0]);
            assert(has_id(s, a));
        }
    };
    assert forall|a: Seq<char>| a != s[i].id@ implies #[trigger] bal_of(s2, a) == bal_of(s, a)
        && #[trigger] escrow_of(s2, a) == escrow_of(s, a) by {
        if has_id(s, a) {
            let j = idx_of(s, a);
            assert(0 <= j < s.len() && s[j].id@ == a);
            let j2 = if j < i { j } else { j - 1 };
            assert(s2[j2] == s[j]);
            lemma_idx_unique(s2, a, j2);
        }
    };
}

} // verus!
