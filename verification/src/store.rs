//! The ledger's backing tables.
//!
//! Balances and allowances are kept as association lists with unique keys.
//! An absent key reads as zero, matching lazy creation: accounts come into
//! being on first write and are never deleted, only set to zero.

use vstd::prelude::*;
use vstd::seq_lib::*;

use crate::address::Address;
use crate::amount::U256;

verus! {

// ---------------------------------------------------------------------------
// Balances: account -> quantity
// ---------------------------------------------------------------------------

/// The quantity recorded for `who`, zero when absent.
pub open spec fn balance_in(s: Seq<(Address, U256)>, who: Address) -> nat
    decreases s.len(),
{
    if s.len() == 0 {
        0
    } else if s[0].0 == who {
        s[0].1.as_nat()
    } else {
        balance_in(s.drop_first(), who)
    }
}

/// The sum of all recorded quantities.
pub open spec fn total_in(s: Seq<(Address, U256)>) -> nat
    decreases s.len(),
{
    if s.len() == 0 {
        0
    } else {
        s[0].1.as_nat() + total_in(s.drop_first())
    }
}

/// Each account appears at most once.
pub open spec fn balance_keys_unique(s: Seq<(Address, U256)>) -> bool {
    forall|i: int, j: int| 0 <= i < j < s.len() ==> s[i].0 != s[j].0
}

/// A key found at `i` past a prefix of misses reads as the entry there.
proof fn lemma_balance_found(s: Seq<(Address, U256)>, who: Address, i: int)
    requires
        0 <= i < s.len(),
        s[i].0 == who,
        forall|j: int| 0 <= j < i ==> s[j].0 != who,
    ensures
        balance_in(s, who) == s[i].1.as_nat(),
    decreases i,
{
    if i > 0 {
        lemma_balance_found(s.drop_first(), who, i - 1);
    }
}

/// A key that appears nowhere reads as zero.
proof fn lemma_balance_absent(s: Seq<(Address, U256)>, who: Address)
    requires
        forall|j: int| 0 <= j < s.len() ==> s[j].0 != who,
    ensures
        balance_in(s, who) == 0,
    decreases s.len(),
{
    if s.len() > 0 {
        lemma_balance_absent(s.drop_first(), who);
    }
}

/// Rewriting the entry at `i` in place does not change what any other key
/// reads as.
proof fn lemma_balance_update_other(s: Seq<(Address, U256)>, i: int, e: (Address, U256), a: Address)
    requires
        0 <= i < s.len(),
        s[i].0 == e.0,
        a != e.0,
    ensures
        balance_in(s.update(i, e), a) == balance_in(s, a),
    decreases i,
{
    let t = s.update(i, e);
    if i == 0 {
        assert(t.drop_first() =~= s.drop_first());
    } else {
        assert(t.drop_first() =~= s.drop_first().update(i - 1, e));
        lemma_balance_update_other(s.drop_first(), i - 1, e, a);
    }
}

/// Rewriting the entry at `i` moves the sum by the difference of the values.
proof fn lemma_total_update(s: Seq<(Address, U256)>, i: int, e: (Address, U256))
    requires
        0 <= i < s.len(),
    ensures
        total_in(s.update(i, e)) + s[i].1.as_nat() == total_in(s) + e.1.as_nat(),
    decreases i,
{
    let t = s.update(i, e);
    if i == 0 {
        assert(t.drop_first() =~= s.drop_first());
    } else {
        assert(t.drop_first() =~= s.drop_first().update(i - 1, e));
        lemma_total_update(s.drop_first(), i - 1, e);
    }
}

/// Appending an entry leaves every other key's reading alone.
proof fn lemma_balance_push_other(s: Seq<(Address, U256)>, e: (Address, U256), a: Address)
    requires
        a != e.0,
    ensures
        balance_in(s.push(e), a) == balance_in(s, a),
    decreases s.len(),
{
    if s.len() == 0 {
        assert(s.push(e)[0] == e);
        assert(s.push(e).drop_first() =~= Seq::<(Address, U256)>::empty());
        assert(balance_in(Seq::<(Address, U256)>::empty(), a) == 0);
    } else {
        assert(s.push(e)[0] == s[0]);
        assert(s.push(e).drop_first() =~= s.drop_first().push(e));
        lemma_balance_push_other(s.drop_first(), e, a);
    }
}

/// Appending an entry adds its value to the sum.
proof fn lemma_total_push(s: Seq<(Address, U256)>, e: (Address, U256))
    ensures
        total_in(s.push(e)) == total_in(s) + e.1.as_nat(),
    decreases s.len(),
{
    if s.len() == 0 {
        assert(s.push(e)[0] == e);
        assert(s.push(e).drop_first() =~= Seq::<(Address, U256)>::empty());
        assert(total_in(Seq::<(Address, U256)>::empty()) == 0);
    } else {
        assert(s.push(e)[0] == s[0]);
        assert(s.push(e).drop_first() =~= s.drop_first().push(e));
        lemma_total_push(s.drop_first(), e);
    }
}

/// Any one key's reading is at most the sum of all recorded quantities.
pub proof fn lemma_balance_le_total(s: Seq<(Address, U256)>, a: Address)
    ensures
        balance_in(s, a) <= total_in(s),
    decreases s.len(),
{
    if s.len() > 0 {
        lemma_balance_le_total(s.drop_first(), a);
    }
}

/// Two distinct keys' readings together are at most the sum of all recorded
/// quantities.
pub proof fn lemma_two_balances_le_total(s: Seq<(Address, U256)>, a: Address, b: Address)
    requires
        a != b,
    ensures
        balance_in(s, a) + balance_in(s, b) <= total_in(s),
    decreases s.len(),
{
    if s.len() > 0 {
        if s[0].0 == a {
            lemma_balance_le_total(s.drop_first(), b);
        } else if s[0].0 == b {
            lemma_balance_le_total(s.drop_first(), a);
        } else {
            lemma_two_balances_le_total(s.drop_first(), a, b);
        }
    }
}

/// Reads the quantity recorded for `who`, zero when absent.
pub fn balance_lookup(v: &Vec<(Address, U256)>, who: &Address) -> (r: U256)
    ensures
        r.as_nat() == balance_in(v@, *who),
{
    let n = v.len();
    let mut i: usize = 0;
    while i < n
        invariant
            n == v@.len(),
            i <= n,
            forall|j: int| 0 <= j < i ==> v@[j].0 != *who,
        decreases n - i,
    {
        let e = v[i];
        if e.0 == *who {
            proof {
                lemma_balance_found(v@, *who, i as int);
            }
            return e.1;
        }
        i = i + 1;
    }
    proof {
        lemma_balance_absent(v@, *who);
    }
    U256::zero()
}

/// Records `val` for `who`, overwriting any previous entry; every other key
/// keeps its reading, and the sum moves by exactly the difference.
pub fn balance_store(v: &mut Vec<(Address, U256)>, who: Address, val: U256)
    requires
        balance_keys_unique(old(v)@),
    ensures
        balance_keys_unique(final(v)@),
        balance_in(final(v)@, who) == val.as_nat(),
        forall|a: Address| a != who ==> balance_in(final(v)@, a) == balance_in(old(v)@, a),
        total_in(final(v)@) + balance_in(old(v)@, who) == total_in(old(v)@) + val.as_nat(),
    {
    let n = v.len();
    let mut i: usize = 0;
    while i < n
        invariant
            n == v@.len(),
            i <= n,
            v@ == old(v)@,
            balance_keys_unique(v@),
            forall|j: int| 0 <= j < i ==> v@[j].0 != who,
        decreases n - i,
    {
        if v[i].0 == who {
            proof {
                lemma_balance_found(old(v)@, who, i as int);
                lemma_total_update(old(v)@, i as int, (who, val));
                lemma_balance_found(old(v)@.update(i as int, (who, val)), who, i as int);
                assert forall|a: Address| a != who implies balance_in(
                    old(v)@.update(i as int, (who, val)),
                    a,
                ) == balance_in(old(v)@, a) by {
                    lemma_balance_update_other(old(v)@, i as int, (who, val), a);
                }
                assert forall|p: int, q: int|
                    0 <= p < q < old(v)@.len() implies old(v)@.update(i as int, (who, val))[p].0
                    != old(v)@.update(i as int, (who, val))[q].0 by {
                    assert(old(v)@.update(i as int, (who, val))[p].0 == old(v)@[p].0);
                    assert(old(v)@.update(i as int, (who, val))[q].0 == old(v)@[q].0);
                }
            }
            v.set(i, (who, val));
            return;
        }
        i = i + 1;
    }
    proof {
        lemma_balance_absent(old(v)@, who);
        lemma_total_push(old(v)@, (who, val));
        lemma_balance_found(old(v)@.push((who, val)), who, old(v)@.len() as int);
        assert forall|a: Address| a != who implies balance_in(old(v)@.push((who, val)), a)
            == balance_in(old(v)@, a) by {
            lemma_balance_push_other(old(v)@, (who, val), a);
        }
    }
    v.push((who, val));
}

// ---------------------------------------------------------------------------
// Allowances: (owner, spender) -> quantity
// ---------------------------------------------------------------------------

/// The quantity the owner has approved the spender for, zero when absent.
pub open spec fn allowance_in(s: Seq<(Address, Address, U256)>, owner: Address, spender: Address) -> nat
    decreases s.len(),
{
    if s.len() == 0 {
        0
    } else if s[0].0 == owner && s[0].1 == spender {
        s[0].2.as_nat()
    } else {
        allowance_in(s.drop_first(), owner, spender)
    }
}

/// Each (owner, spender) pair appears at most once.
pub open spec fn allowance_keys_unique(s: Seq<(Address, Address, U256)>) -> bool {
    forall|i: int, j: int|
        0 <= i < j < s.len() ==> !(s[i].0 == s[j].0 && s[i].1 == s[j].1)
}

/// A pair found at `i` past a prefix of misses reads as the entry there.
proof fn lemma_allowance_found(s: Seq<(Address, Address, U256)>, owner: Address, spender: Address, i: int)
    requires
        0 <= i < s.len(),
        s[i].0 == owner && s[i].1 == spender,
        forall|j: int| 0 <= j < i ==> !(s[j].0 == owner && s[j].1 == spender),
    ensures
        allowance_in(s, owner, spender) == s[i].2.as_nat(),
    decreases i,
{
    if i > 0 {
        lemma_allowance_found(s.drop_first(), owner, spender, i - 1);
    }
}

/// A pair that appears nowhere reads as zero.
proof fn lemma_allowance_absent(s: Seq<(Address, Address, U256)>, owner: Address, spender: Address)
    requires
        forall|j: int| 0 <= j < s.len() ==> !(s[j].0 == owner && s[j].1 == spender),
    ensures
        allowance_in(s, owner, spender) == 0,
    decreases s.len(),
{
    if s.len() > 0 {
        lemma_allowance_absent(s.drop_first(), owner, spender);
    }
}

/// Rewriting the entry at `i` in place does not change what any other pair
/// reads as.
proof fn lemma_allowance_update_other(
    s: Seq<(Address, Address, U256)>,
    i: int,
    e: (Address, Address, U256),
    o: Address,
    p: Address,
)
    requires
        0 <= i < s.len(),
        s[i].0 == e.0 && s[i].1 == e.1,
        !(o == e.0 && p == e.1),
    ensures
        allowance_in(s.update(i, e), o, p) == allowance_in(s, o, p),
    decreases i,
{
    let t = s.update(i, e);
    if i == 0 {
        assert(t.drop_first() =~= s.drop_first());
    } else {
        assert(t.drop_first() =~= s.drop_first().update(i - 1, e));
        lemma_allowance_update_other(s.drop_first(), i - 1, e, o, p);
    }
}

/// Appending an entry leaves every other pair's reading alone.
proof fn lemma_allowance_push_other(
    s: Seq<(Address, Address, U256)>,
    e: (Address, Address, U256),
    o: Address,
    p: Address,
)
    requires
        !(o == e.0 && p == e.1),
    ensures
        allowance_in(s.push(e), o, p) == allowance_in(s, o, p),
    decreases s.len(),
{
    if s.len() == 0 {
        assert(s.push(e)[0] == e);
        assert(s.push(e).drop_first() =~= Seq::<(Address, Address, U256)>::empty());
        assert(allowance_in(Seq::<(Address, Address, U256)>::empty(), o, p) == 0);
    } else {
        assert(s.push(e)[0] == s[0]);
        assert(s.push(e).drop_first() =~= s.drop_first().push(e));
        lemma_allowance_push_other(s.drop_first(), e, o, p);
    }
}

/// Reads the allowance recorded for (owner, spender), zero when absent.
pub fn allowance_lookup(v: &Vec<(Address, Address, U256)>, owner: &Address, spender: &Address) -> (r: U256)
    ensures
        r.as_nat() == allowance_in(v@, *owner, *spender),
{
    let n = v.len();
    let mut i: usize = 0;
    while i < n
        invariant
            n == v@.len(),
            i <= n,
            forall|j: int| 0 <= j < i ==> !(v@[j].0 == *owner && v@[j].1 == *spender),
        decreases n - i,
    {
        let e = v[i];
        if e.0 == *owner && e.1 == *spender {
            proof {
                lemma_allowance_found(v@, *owner, *spender, i as int);
            }
            return e.2;
        }
        i = i + 1;
    }
    proof {
        lemma_allowance_absent(v@, *owner, *spender);
    }
    U256::zero()
}

/// Records `val` for (owner, spender), overwriting any previous entry; every
/// other pair keeps its reading.
pub fn allowance_store(v: &mut Vec<(Address, Address, U256)>, owner: Address, spender: Address, val: U256)
    requires
        allowance_keys_unique(old(v)@),
    ensures
        allowance_keys_unique(final(v)@),
        allowance_in(final(v)@, owner, spender) == val.as_nat(),
        forall|o: Address, p: Address|
            !(o == owner && p == spender) ==> allowance_in(final(v)@, o, p) == allowance_in(
                old(v)@,
                o,
                p,
            ),
    {
    let n = v.len();
    let mut i: usize = 0;
    while i < n
        invariant
            n == v@.len(),
            i <= n,
            v@ == old(v)@,
            allowance_keys_unique(v@),
            forall|j: int| 0 <= j < i ==> !(v@[j].0 == owner && v@[j].1 == spender),
        decreases n - i,
    {
        if v[i].0 == owner && v[i].1 == spender {
            proof {
                let e = (owner, spender, val);
                lemma_allowance_found(old(v)@.update(i as int, e), owner, spender, i as int);
                assert forall|o: Address, p: Address|
                    !(o == owner && p == spender) implies allowance_in(
                    old(v)@.update(i as int, e),
                    o,
                    p,
                ) == allowance_in(old(v)@, o, p) by {
                    lemma_allowance_update_other(old(v)@, i as int, e, o, p);
                }
                assert forall|x: int, y: int|
                    0 <= x < y < old(v)@.len() implies !(old(v)@.update(i as int, e)[x].0 == old(
                    v,
                )@.update(i as int, e)[y].0 && old(v)@.update(i as int, e)[x].1 == old(v)@.update(
                    i as int,
                    e,
                )[y].1) by {
                    assert(old(v)@.update(i as int, e)[x].0 == old(v)@[x].0 || x == i);
                    assert(old(v)@.update(i as int, e)[y].0 == old(v)@[y].0 || y == i);
                }
            }
            v.set(i, (owner, spender, val));
            return;
        }
        i = i + 1;
    }
    proof {
        let e = (owner, spender, val);
        lemma_allowance_absent(old(v)@, owner, spender);
        lemma_allowance_found(old(v)@.push(e), owner, spender, old(v)@.len() as int);
        assert forall|o: Address, p: Address|
            !(o == owner && p == spender) implies allowance_in(old(v)@.push(e), o, p)
            == allowance_in(old(v)@, o, p) by {
            lemma_allowance_push_other(old(v)@, e, o, p);
        }
    }
    v.push((owner, spender, val));
}

} // verus!
