//! The allowance table: an association list keyed by (owner, spender)
//! pairs, holding at most one record per pair. An absent key reads as the
//! record `{ amount: 0, expiration_ledger: 0 }`.

use vstd::prelude::*;

verus! {

/// The ordered pair that keys an allowance: the identity that granted it
/// and the identity allowed to spend it.
#[derive(Clone, Copy, Debug, PartialEq, Eq, Structural)]
pub struct AllowanceKey {
    pub from: u64,
    pub spender: u64,
}

/// A stored allowance: the amount still spendable and the ledger sequence
/// at which the grant expires (0 when no expiration is tracked).
#[derive(Clone, Copy, Debug, PartialEq, Eq, Structural)]
pub struct AllowanceValue {
    pub amount: i128,
    pub expiration_ledger: u32,
}

/// The record an absent key reads as.
pub open spec fn absent() -> AllowanceValue {
    AllowanceValue { amount: 0, expiration_ledger: 0 }
}

/// No two entries carry the same key.
pub open spec fn keys_unique(s: Seq<(AllowanceKey, AllowanceValue)>) -> bool {
    forall|i: int, j: int| 0 <= i < j < s.len() ==> s[i].0 != s[j].0
}

/// The record stored under `k`, or the absent record when no entry carries
/// that key.
pub open spec fn lookup(s: Seq<(AllowanceKey, AllowanceValue)>, k: AllowanceKey) -> AllowanceValue
    decreases s.len(),
{
    if s.len() == 0 {
        absent()
    } else if s.last().0 == k {
        s.last().1
    } else {
        lookup(s.drop_last(), k)
    }
}

/// Every stored amount is non-negative.
pub open spec fn amounts_nonneg(s: Seq<(AllowanceKey, AllowanceValue)>) -> bool {
    forall|i: int| 0 <= i < s.len() ==> s[i].1.amount >= 0
}

/// A key present at index `i` of a table without duplicate keys is the one
/// `lookup` reports.
pub proof fn lemma_lookup_present(s: Seq<(AllowanceKey, AllowanceValue)>, i: int, k: AllowanceKey)
    requires
        keys_unique(s),
        0 <= i < s.len(),
        s[i].0 == k,
    ensures
        lookup(s, k) == s[i].1,
    decreases s.len(),
{
    if i < s.len() - 1 {
        assert(s.last().0 != k);
        assert(s.drop_last()[i] == s[i]);
        lemma_lookup_present(s.drop_last(), i, k);
    }
}

/// A key no entry carries reads as the absent record.
pub proof fn lemma_lookup_absent(s: Seq<(AllowanceKey, AllowanceValue)>, k: AllowanceKey)
    requires
        forall|i: int| 0 <= i < s.len() ==> s[i].0 != k,
    ensures
        lookup(s, k) == absent(),
    decreases s.len(),
{
    if s.len() > 0 {
        lemma_lookup_absent(s.drop_last(), k);
    }
}

/// With non-negative stored amounts, every lookup reports a non-negative
/// amount.
pub proof fn lemma_lookup_amount_nonneg(s: Seq<(AllowanceKey, AllowanceValue)>, k: AllowanceKey)
    requires
        amounts_nonneg(s),
    ensures
        lookup(s, k).amount >= 0,
    decreases s.len(),
{
    if s.len() > 0 && s.last().0 != k {
        lemma_lookup_amount_nonneg(s.drop_last(), k);
    }
}

/// Overwriting the entry that holds `k` changes that lookup and no other.
pub proof fn lemma_update(
    s: Seq<(AllowanceKey, AllowanceValue)>,
    i: int,
    k: AllowanceKey,
    val: AllowanceValue,
)
    requires
        keys_unique(s),
        0 <= i < s.len(),
        s[i].0 == k,
    ensures
        keys_unique(s.update(i, (k, val))),
        lookup(s.update(i, (k, val)), k) == val,
        forall|x: AllowanceKey| x != k ==> lookup(s.update(i, (k, val)), x) == lookup(s, x),
    decreases s.len(),
{
    let u = s.update(i, (k, val));
    assert forall|p: int, q: int| 0 <= p < q < u.len() implies u[p].0 != u[q].0 by {
        assert(u[p].0 == s[p].0);
        assert(u[q].0 == s[q].0);
    }
    if i == s.len() - 1 {
        assert(u.drop_last() =~= s.drop_last());
        assert(u.last() == (k, val));
        assert forall|x: AllowanceKey| x != k implies lookup(u, x) == lookup(s, x) by {
            assert(lookup(u, x) == lookup(u.drop_last(), x));
            assert(lookup(s, x) == lookup(s.drop_last(), x));
        }
    } else {
        assert(u.drop_last() =~= s.drop_last().update(i, (k, val)));
        assert(u.last() == s.last());
        assert(s.last().0 != k);
        assert(s.drop_last()[i] == s[i]);
        lemma_update(s.drop_last(), i, k, val);
        assert forall|x: AllowanceKey| x != k implies lookup(u, x) == lookup(s, x) by {
            if s.last().0 == x {
                assert(lookup(u, x) == u.last().1);
            } else {
                assert(lookup(u, x) == lookup(u.drop_last(), x));
                assert(lookup(s, x) == lookup(s.drop_last(), x));
            }
        }
    }
}

/// Appending an entry for a key the table does not hold sets that lookup
/// and keeps every other.
pub proof fn lemma_push(s: Seq<(AllowanceKey, AllowanceValue)>, k: AllowanceKey, val: AllowanceValue)
    requires
        keys_unique(s),
        forall|i: int| 0 <= i < s.len() ==> s[i].0 != k,
    ensures
        keys_unique(s.push((k, val))),
        lookup(s.push((k, val)), k) == val,
        forall|x: AllowanceKey| x != k ==> lookup(s.push((k, val)), x) == lookup(s, x),
{
    let u = s.push((k, val));
    assert(u.drop_last() =~= s);
    assert(u.last() == (k, val));
    assert forall|p: int, q: int| 0 <= p < q < u.len() implies u[p].0 != u[q].0 by {
        assert(u[p].0 == s[p].0);
        if q < s.len() {
            assert(u[q].0 == s[q].0);
        }
    }
}

/// Reads the record stored under `k`, or the absent record when there is
/// no entry.
pub fn get(entries: &Vec<(AllowanceKey, AllowanceValue)>, k: AllowanceKey) -> (r: AllowanceValue)
    requires
        keys_unique(entries@),
    ensures
        r == lookup(entries@, k),
{
    let mut i: usize = 0;
    while i < entries.len()
        invariant
            i <= entries.len(),
            keys_unique(entries@),
            forall|j: int| 0 <= j < i ==> entries@[j].0 != k,
        decreases entries.len() - i,
    {
        if entries[i].0 == k {
            proof {
                lemma_lookup_present(entries@, i as int, k);
            }
            return entries[i].1;
        }
        i += 1;
    }
    proof {
        lemma_lookup_absent(entries@, k);
    }
    AllowanceValue { amount: 0, expiration_ledger: 0 }
}

/// Stores `val` under `k`, overwriting the entry that holds the key or
/// appending one.
pub fn set(entries: &mut Vec<(AllowanceKey, AllowanceValue)>, k: AllowanceKey, val: AllowanceValue)
    requires
        keys_unique(old(entries)@),
    ensures
        keys_unique(final(entries)@),
        lookup(final(entries)@, k) == val,
        forall|x: AllowanceKey| x != k ==> lookup(final(entries)@, x) == lookup(old(entries)@, x),
        amounts_nonneg(old(entries)@) && val.amount >= 0 ==> amounts_nonneg(final(entries)@),
{
    let mut i: usize = 0;
    while i < entries.len()
        invariant
            i <= entries.len(),
            keys_unique(entries@),
            *entries == *old(entries),
            forall|j: int| 0 <= j < i ==> entries@[j].0 != k,
        decreases entries.len() - i,
    {
        if entries[i].0 == k {
            proof {
                lemma_update(entries@, i as int, k, val);
            }
            entries[i] = (k, val);
            return;
        }
        i += 1;
    }
    proof {
        lemma_lookup_absent(entries@, k);
        lemma_push(entries@, k, val);
    }
    entries.push((k, val));
}

} // verus!
