//! The balance table: an association list holding at most one entry per
//! identity. An absent key reads as balance 0, matching a keyed store in
//! which entries are created on first write and never deleted.

use vstd::prelude::*;

verus! {

/// No two entries carry the same identity.
pub open spec fn keys_unique(s: Seq<(u64, i128)>) -> bool {
    forall|i: int, j: int| 0 <= i < j < s.len() ==> s[i].0 != s[j].0
}

/// The balance recorded for `id`, or 0 when no entry carries that key.
pub open spec fn lookup(s: Seq<(u64, i128)>, id: u64) -> int
    decreases s.len(),
{
    if s.len() == 0 {
        0
    } else if s.last().0 == id {
        s.last().1 as int
    } else {
        lookup(s.drop_last(), id)
    }
}

/// The sum of every recorded balance.
pub open spec fn sum(s: Seq<(u64, i128)>) -> int
    decreases s.len(),
{
    if s.len() == 0 {
        0
    } else {
        sum(s.drop_last()) + s.last().1
    }
}

/// Every recorded balance is non-negative.
pub open spec fn nonneg(s: Seq<(u64, i128)>) -> bool {
    forall|i: int| 0 <= i < s.len() ==> s[i].1 >= 0
}

/// A key present at index `i` of a table without duplicate keys is the one
/// `lookup` reports.
pub proof fn lemma_lookup_present(s: Seq<(u64, i128)>, i: int, id: u64)
    requires
        keys_unique(s),
        0 <= i < s.len(),
        s[i].0 == id,
    ensures
        lookup(s, id) == s[i].1 as int,
    decreases s.len(),
{
    if i < s.len() - 1 {
        assert(s.last().0 != id);
        assert(s.drop_last()[i] == s[i]);
        lemma_lookup_present(s.drop_last(), i, id);
    }
}

/// A key no entry carries reads as 0.
pub proof fn lemma_lookup_absent(s: Seq<(u64, i128)>, id: u64)
    requires
        forall|i: int| 0 <= i < s.len() ==> s[i].0 != id,
    ensures
        lookup(s, id) == 0,
    decreases s.len(),
{
    if s.len() > 0 {
        lemma_lookup_absent(s.drop_last(), id);
    }
}

/// Non-negative entries sum to a non-negative total.
pub proof fn lemma_sum_nonneg(s: Seq<(u64, i128)>)
    requires
        nonneg(s),
    ensures
        sum(s) >= 0,
    decreases s.len(),
{
    if s.len() > 0 {
        lemma_sum_nonneg(s.drop_last());
    }
}

/// With non-negative entries, every lookup is non-negative.
pub proof fn lemma_lookup_nonneg(s: Seq<(u64, i128)>, id: u64)
    requires
        nonneg(s),
    ensures
        lookup(s, id) >= 0,
    decreases s.len(),
{
    if s.len() > 0 && s.last().0 != id {
        lemma_lookup_nonneg(s.drop_last(), id);
    }
}

/// With non-negative entries, no single balance exceeds the sum.
pub proof fn lemma_lookup_le_sum(s: Seq<(u64, i128)>, id: u64)
    requires
        nonneg(s),
    ensures
        lookup(s, id) <= sum(s),
    decreases s.len(),
{
    if s.len() > 0 {
        if s.last().0 == id {
            lemma_sum_nonneg(s.drop_last());
        } else {
            lemma_lookup_le_sum(s.drop_last(), id);
        }
    }
}

/// With non-negative entries, two distinct balances together never exceed
/// the sum.
pub proof fn lemma_two_lookups(s: Seq<(u64, i128)>, a: u64, b: u64)
    requires
        nonneg(s),
        a != b,
    ensures
        lookup(s, a) + lookup(s, b) <= sum(s),
    decreases s.len(),
{
    if s.len() > 0 {
        if s.last().0 == a {
            lemma_lookup_le_sum(s.drop_last(), b);
        } else if s.last().0 == b {
            lemma_lookup_le_sum(s.drop_last(), a);
        } else {
            lemma_two_lookups(s.drop_last(), a, b);
        }
    }
}

/// Overwriting the entry that holds `id` changes that lookup, no other, and
/// moves the sum by the difference.
pub proof fn lemma_update(s: Seq<(u64, i128)>, i: int, id: u64, val: i128)
    requires
        keys_unique(s),
        0 <= i < s.len(),
        s[i].0 == id,
    ensures
        keys_unique(s.update(i, (id, val))),
        lookup(s.update(i, (id, val)), id) == val as int,
        forall|x: u64| x != id ==> lookup(s.update(i, (id, val)), x) == lookup(s, x),
        sum(s.update(i, (id, val))) == sum(s) - s[i].1 + val,
    decreases s.len(),
{
    let u = s.update(i, (id, val));
    assert forall|p: int, q: int| 0 <= p < q < u.len() implies u[p].0 != u[q].0 by {
        assert(u[p].0 == s[p].0);
        assert(u[q].0 == s[q].0);
    }
    if i == s.len() - 1 {
        assert(u.drop_last() =~= s.drop_last());
        assert(u.last() == (id, val));
        assert forall|x: u64| x != id implies lookup(u, x) == lookup(s, x) by {
            assert(lookup(u, x) == lookup(u.drop_last(), x));
            assert(lookup(s, x) == lookup(s.drop_last(), x));
        }
    } else {
        assert(u.drop_last() =~= s.drop_last().update(i, (id, val)));
        assert(u.last() == s.last());
        assert(s.last().0 != id);
        assert(s.drop_last()[i] == s[i]);
        lemma_update(s.drop_last(), i, id, val);
        assert forall|x: u64| x != id implies lookup(u, x) == lookup(s, x) by {
            if s.last().0 == x {
                assert(lookup(u, x) == u.last().1 as int);
            } else {
                assert(lookup(u, x) == lookup(u.drop_last(), x));
                assert(lookup(s, x) == lookup(s.drop_last(), x));
            }
        }
    }
}

/// Appending an entry for a key the table does not hold sets that lookup,
/// keeps every other, and adds the new balance to the sum.
pub proof fn lemma_push(s: Seq<(u64, i128)>, id: u64, val: i128)
    requires
        keys_unique(s),
        forall|i: int| 0 <= i < s.len() ==> s[i].0 != id,
    ensures
        keys_unique(s.push((id, val))),
        lookup(s.push((id, val)), id) == val as int,
        forall|x: u64| x != id ==> lookup(s.push((id, val)), x) == lookup(s, x),
        sum(s.push((id, val))) == sum(s) + val,
{
    let u = s.push((id, val));
    assert(u.drop_last() =~= s);
    assert(u.last() == (id, val));
    assert forall|p: int, q: int| 0 <= p < q < u.len() implies u[p].0 != u[q].0 by {
        assert(u[p].0 == s[p].0);
        if q < s.len() {
            assert(u[q].0 == s[q].0);
        }
    }
}

/// Reads the balance recorded for `id`, or 0 when there is no entry.
pub fn get(entries: &Vec<(u64, i128)>, id: u64) -> (r: i128)
    requires
        keys_unique(entries@),
    ensures
        r as int == lookup(entries@, id),
{
    let mut i: usize = 0;
    while i < entries.len()
        invariant
            i <= entries.len(),
            keys_unique(entries@),
            forall|j: int| 0 <= j < i ==> entries@[j].0 != id,
        decreases entries.len() - i,
    {
        if entries[i].0 == id {
            proof {
                lemma_lookup_present(entries@, i as int, id);
            }
            return entries[i].1;
        }
        i += 1;
    }
    proof {
        lemma_lookup_absent(entries@, id);
    }
    0
}

/// Records `val` as the balance of `id`, overwriting the entry that holds
/// the key or appending one.
pub fn set(entries: &mut Vec<(u64, i128)>, id: u64, val: i128)
    requires
        keys_unique(old(entries)@),
    ensures
        keys_unique(final(entries)@),
        lookup(final(entries)@, id) == val as int,
        forall|x: u64| x != id ==> lookup(final(entries)@, x) == lookup(old(entries)@, x),
        sum(final(entries)@) == sum(old(entries)@) - lookup(old(entries)@, id) + val,
        nonneg(old(entries)@) && val >= 0 ==> nonneg(final(entries)@),
{
    let mut i: usize = 0;
    while i < entries.len()
        invariant
            i <= entries.len(),
            keys_unique(entries@),
            *entries == *old(entries),
            forall|j: int| 0 <= j < i ==> entries@[j].0 != id,
        decreases entries.len() - i,
    {
        if entries[i].0 == id {
            proof {
                lemma_lookup_present(entries@, i as int, id);
                lemma_update(entries@, i as int, id, val);
            }
            entries[i] = (id, val);
            return;
        }
        i += 1;
    }
    proof {
        lemma_lookup_absent(entries@, id);
        lemma_push(entries@, id, val);
    }
    entries.push((id, val));
}

} // verus!
