//! Global laws of the ledger, proved over the state transitions.
//!
//! The operation contracts in [`crate::ledger`] already pin each call down;
//! the lemmas here state the cross-operation consequences in their own
//! right: conservation under transfers, 1:1 backing as an inductive
//! invariant, and the deposit/withdraw round trip.

use vstd::prelude::*;

use crate::address::Address;
use crate::ledger::{
    stake_applied, stake_outcome, transfer_applied, transfer_from_applied, transfer_from_outcome,
    transfer_outcome, unstake_applied, unstake_outcome, LedgerView,
};

verus! {

/// Law: a successful transfer conserves units. The source and destination
/// balances move together by the same amount, every other balance is
/// untouched, and the total issued units and custody pool do not change.
pub proof fn lemma_transfer_conserves(s: LedgerView, from: Address, to: Address, amount: nat)
    requires
        transfer_outcome(s, from, to, amount) is Ok,
    ensures
        transfer_applied(s, from, to, amount).balances[from] + amount == s.balances[from],
        transfer_applied(s, from, to, amount).balances[to] == s.balances[to] + amount,
        forall|a: Address|
            a != from && a != to ==> transfer_applied(s, from, to, amount).balances[a]
                == s.balances[a],
        transfer_applied(s, from, to, amount).balances[from] + transfer_applied(
            s,
            from,
            to,
            amount,
        ).balances[to] == s.balances[from] + s.balances[to],
        transfer_applied(s, from, to, amount).total == s.total,
        transfer_applied(s, from, to, amount).custody == s.custody,
        transfer_applied(s, from, to, amount).allowances == s.allowances,
{
}

/// Law: 1:1 backing is inductive for issuance. A deposit or withdrawal that
/// starts from a backed state (total issued units equal to the custody pool)
/// ends in a backed state, with both aggregates moved in lockstep by the
/// amount. Together with `lemma_transfer_conserves` (which moves neither
/// aggregate) and the contracts' rollback-on-error clauses, backing holds of
/// every reachable state.
pub proof fn lemma_backing_inductive(s: LedgerView, caller: Address, amount: nat, now: u64)
    ensures
        stake_outcome(s, caller, amount) is Ok ==> {
            let t = stake_applied(s, caller, amount, now);
            t.total == t.custody && t.total == s.total + amount
        },
        unstake_outcome(s, caller, amount) is Ok ==> {
            let t = unstake_applied(s, caller, amount, now);
            t.total == t.custody && t.total + amount == s.total
        },
{
}

/// Law: a deposit followed by a withdrawal of the same amount by the same
/// caller is a round trip. The withdrawal is always possible, and the
/// caller's balance, every other balance, the total issued units, the
/// custody pool and all allowances return to their pre-deposit values.
pub proof fn lemma_stake_unstake_round_trip(
    s: LedgerView,
    caller: Address,
    amount: nat,
    t1: u64,
    t2: u64,
)
    requires
        stake_outcome(s, caller, amount) is Ok,
    ensures
        unstake_outcome(stake_applied(s, caller, amount, t1), caller, amount) is Ok,
        ({
            let back = unstake_applied(stake_applied(s, caller, amount, t1), caller, amount, t2);
            &&& back.balances[caller] == s.balances[caller]
            &&& forall|a: Address| a != caller ==> back.balances[a] == s.balances[a]
            &&& back.total == s.total
            &&& back.custody == s.custody
            &&& back.allowances == s.allowances
        }),
{
    let s1 = stake_applied(s, caller, amount, t1);
    assert(s1.balances[caller] == s.balances[caller] + amount);
    assert(unstake_outcome(s1, caller, amount) is Ok);
}

/// Law: a successful delegated transfer consumes exactly the amount from the
/// (owner, caller) allowance and touches no other allowance entry.
pub proof fn lemma_allowance_consumption(
    s: LedgerView,
    caller: Address,
    owner: Address,
    to: Address,
    amount: nat,
)
    requires
        transfer_from_outcome(s, caller, owner, to, amount) is Ok,
    ensures
        transfer_from_applied(s, caller, owner, to, amount).allowances[(owner, caller)] + amount
            == s.allowances[(owner, caller)],
        forall|o: Address, p: Address|
            !(o == owner && p == caller) ==> transfer_from_applied(
                s,
                caller,
                owner,
                to,
                amount,
            ).allowances[(o, p)] == s.allowances[(o, p)],
{
}

} // verus!
