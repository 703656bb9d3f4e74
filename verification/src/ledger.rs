//! The ledger and its operations.
//!
//! [`CasperLiquid`] owns the whole state: per-account balances, per-(owner,
//! spender) allowances, the two aggregates (total issued units and custody
//! pool), fixed metadata, and the log of emitted notifications. The hosting
//! environment is expected to serialize mutating calls and to supply the
//! caller identity and the current time explicitly.
//!
//! Every mutating operation checks first and commits after: all new values
//! are computed with checked arithmetic before any write, so a call that
//! fails leaves the ledger exactly as it was. The contract of each operation
//! pins down both the exact error for every rejected input and the exact new
//! state for every accepted one, as a function [`LedgerView`] of the old
//! state.

use vstd::prelude::*;
use vstd::seq_lib::*;
use vstd::string::StringExecFns;

use crate::address::Address;
use crate::amount::{
    amount_ceiling, lemma_as_nat_bounded, lemma_value_determines_limbs, u256_bound, U256,
};
use crate::error::Error;
use crate::events::{Approval, Event, EventRec, StakeEvent, Transfer, UnstakeEvent};
use crate::store::{
    allowance_in, allowance_keys_unique, allowance_lookup, allowance_store, balance_in,
    balance_keys_unique, balance_lookup, balance_store, lemma_balance_le_total,
    lemma_two_balances_le_total, total_in,
};

verus! {

/// The mathematical state of the ledger: what every contract speaks of.
#[verifier::ext_equal]
pub struct LedgerView {
    /// Every account's balance; an account never written reads as zero.
    pub balances: Map<Address, nat>,
    /// Every (owner, spender) allowance; a pair never written reads as zero.
    pub allowances: Map<(Address, Address), nat>,
    /// Total issued units.
    pub total: nat,
    /// Custody pool size.
    pub custody: nat,
    /// The notifications recorded so far, oldest first.
    pub events: Seq<EventRec>,
    /// Display name, fixed at initialization.
    pub name: Seq<char>,
    /// Display symbol, fixed at initialization.
    pub symbol: Seq<char>,
    /// Decimal precision, fixed at initialization.
    pub decimals: u8,
    /// The ledger's own identity, standing for the custody pool in
    /// notifications.
    pub self_address: Address,
}

/// Whether an amount passes validation: positive and within the safe ceiling.
pub open spec fn amount_valid(amount: nat) -> bool {
    0 < amount <= amount_ceiling()
}

/// The result a direct or delegated balance movement reports: `Ok` exactly
/// when the amount is valid, source and destination differ, the source
/// covers the amount, and the destination balance stays representable.
pub open spec fn transfer_outcome(s: LedgerView, from: Address, to: Address, amount: nat) -> Result<
    (),
    Error,
> {
    if amount == 0 {
        Err(Error::InvalidAmount)
    } else if amount > amount_ceiling() {
        Err(Error::ExceedsMaximum)
    } else if from == to {
        Err(Error::SelfTransfer)
    } else if s.balances[from] < amount {
        Err(Error::InsufficientBalance)
    } else if s.balances[to] + amount >= u256_bound() {
        Err(Error::ArithmeticOverflow)
    } else {
        Ok(())
    }
}

/// The state after a successful balance movement: the amount leaves `from`,
/// arrives at `to`, and one transfer notification is recorded. Everything
/// else is untouched.
pub open spec fn transfer_applied(s: LedgerView, from: Address, to: Address, amount: nat) -> LedgerView {
    LedgerView {
        balances: s.balances.insert(from, (s.balances[from] - amount) as nat).insert(
            to,
            s.balances[to] + amount,
        ),
        events: s.events.push(EventRec::Transfer { from, to, amount }),
        ..s
    }
}

/// The result an approval reports: `Ok` exactly when owner and spender
/// differ. The amount is not validated — zero revokes.
pub open spec fn approve_outcome(owner: Address, spender: Address) -> Result<(), Error> {
    if owner == spender {
        Err(Error::SelfTransfer)
    } else {
        Ok(())
    }
}

/// The state after a successful approval: the allowance entry is overwritten
/// (not incremented) and one approval notification is recorded.
pub open spec fn approve_applied(s: LedgerView, owner: Address, spender: Address, amount: nat) -> LedgerView {
    LedgerView {
        allowances: s.allowances.insert((owner, spender), amount),
        events: s.events.push(EventRec::Approval { owner, spender, amount }),
        ..s
    }
}

/// The result a delegated transfer reports: the allowance of (owner, caller)
/// must cover the amount, and the movement itself must be possible.
pub open spec fn transfer_from_outcome(
    s: LedgerView,
    caller: Address,
    owner: Address,
    to: Address,
    amount: nat,
) -> Result<(), Error> {
    if amount == 0 {
        Err(Error::InvalidAmount)
    } else if amount > amount_ceiling() {
        Err(Error::ExceedsMaximum)
    } else if s.allowances[(owner, caller)] < amount {
        Err(Error::InsufficientAllowance)
    } else {
        transfer_outcome(s, owner, to, amount)
    }
}

/// The state after a successful delegated transfer: the movement from owner
/// to destination, and the (owner, caller) allowance decremented by exactly
/// the amount. No other allowance entry changes.
pub open spec fn transfer_from_applied(
    s: LedgerView,
    caller: Address,
    owner: Address,
    to: Address,
    amount: nat,
) -> LedgerView {
    let t = transfer_applied(s, owner, to, amount);
    LedgerView {
        allowances: t.allowances.insert(
            (owner, caller),
            (s.allowances[(owner, caller)] - amount) as nat,
        ),
        ..t
    }
}

/// The result a deposit reports: `Ok` exactly when the amount is valid, the
/// ledger passes its consistency pre-check, and the caller balance and both
/// aggregates stay representable after the increase. A consistency violation
/// is the distinct fatal internal-state error, never an ordinary user error.
pub open spec fn stake_outcome(s: LedgerView, caller: Address, amount: nat) -> Result<(), Error> {
    if amount == 0 {
        Err(Error::InvalidAmount)
    } else if amount > amount_ceiling() {
        Err(Error::ExceedsMaximum)
    } else if s.total != s.custody {
        Err(Error::InternalInconsistency)
    } else if s.balances[caller] + amount >= u256_bound() {
        Err(Error::ArithmeticOverflow)
    } else if s.total + amount >= u256_bound() {
        Err(Error::ArithmeticOverflow)
    } else {
        Ok(())
    }
}

/// The state after a successful deposit: the caller balance, the total
/// issued units and the custody pool all rise by the amount, and a stake
/// notification followed by a mint-leg transfer notification are recorded.
pub open spec fn stake_applied(s: LedgerView, caller: Address, amount: nat, now: u64) -> LedgerView {
    LedgerView {
        balances: s.balances.insert(caller, s.balances[caller] + amount),
        total: s.total + amount,
        custody: s.custody + amount,
        events: s.events.push(
            EventRec::Stake {
                user: caller,
                cspr_amount: amount,
                stcspr_minted: amount,
                timestamp: now,
            },
        ).push(EventRec::Transfer { from: s.self_address, to: caller, amount }),
        ..s
    }
}

/// The result a withdrawal reports: `Ok` exactly when the amount is valid,
/// the ledger passes its consistency pre-check, the caller balance covers
/// the amount, and the aggregates cover it too.
pub open spec fn unstake_outcome(s: LedgerView, caller: Address, amount: nat) -> Result<(), Error> {
    if amount == 0 {
        Err(Error::InvalidAmount)
    } else if amount > amount_ceiling() {
        Err(Error::ExceedsMaximum)
    } else if s.total != s.custody {
        Err(Error::InternalInconsistency)
    } else if s.balances[caller] < amount {
        Err(Error::InsufficientBalance)
    } else if s.total < amount {
        Err(Error::ArithmeticUnderflow)
    } else {
        Ok(())
    }
}

/// The state after a successful withdrawal: the caller balance, the total
/// issued units and the custody pool all fall by the amount, and an unstake
/// notification followed by a burn-leg transfer notification are recorded.
pub open spec fn unstake_applied(s: LedgerView, caller: Address, amount: nat, now: u64) -> LedgerView {
    LedgerView {
        balances: s.balances.insert(caller, (s.balances[caller] - amount) as nat),
        total: (s.total - amount) as nat,
        custody: (s.custody - amount) as nat,
        events: s.events.push(
            EventRec::Unstake {
                user: caller,
                stcspr_burned: amount,
                cspr_returned: amount,
                timestamp: now,
            },
        ).push(EventRec::Transfer { from: caller, to: s.self_address, amount }),
        ..s
    }
}

/// A liquid-staking ledger: balances of a fungible unit minted 1:1 against a
/// custody pool, spending allowances, fixed metadata, and the log of emitted
/// notifications.
pub struct CasperLiquid {
    balances: Vec<(Address, U256)>,
    allowances: Vec<(Address, Address, U256)>,
    total_staked: U256,
    contract_cspr_balance: U256,
    name: String,
    symbol: String,
    decimals: u8,
    self_address: Address,
    events: Vec<Event>,
}

impl View for CasperLiquid {
    type V = LedgerView;

    closed spec fn view(&self) -> LedgerView {
        LedgerView {
            balances: Map::new(|a: Address| true, |a: Address| balance_in(self.balances@, a)),
            allowances: Map::new(
                |k: (Address, Address)| true,
                |k: (Address, Address)| allowance_in(self.allowances@, k.0, k.1),
            ),
            total: self.total_staked.as_nat(),
            custody: self.contract_cspr_balance.as_nat(),
            events: self.events@.map_values(|e: Event| e@),
            name: self.name@,
            symbol: self.symbol@,
            decimals: self.decimals,
            self_address: self.self_address,
        }
    }
}

impl CasperLiquid {
    /// The representation invariant: each backing table keys every entry
    /// once, so the tables read as the maps the view shows.
    pub closed spec fn well_formed(self) -> bool {
        balance_keys_unique(self.balances@) && allowance_keys_unique(self.allowances@)
    }

    /// The sum of all recorded account balances.
    pub closed spec fn sum_balances(self) -> nat {
        total_in(self.balances@)
    }

    /// Global conservation: the issued units equal the sum of all balances,
    /// and are backed 1:1 by the custody pool. Established at initialization
    /// and preserved by every operation.
    pub open spec fn consistent(self) -> bool {
        self.sum_balances() == self@.total && self@.total == self@.custody
    }

    /// Creates the ledger: all balances and allowances zero, empty custody,
    /// fixed metadata, no notifications. `self_address` is the ledger's own
    /// identity, used as the custody-pool endpoint in mint and burn
    /// notifications.
    pub fn init(self_address: Address) -> (c: CasperLiquid)
        ensures
            c.well_formed(),
            c.consistent(),
            forall|a: Address| c@.balances[a] == 0,
            forall|o: Address, p: Address| c@.allowances[(o, p)] == 0,
            c@.total == 0,
            c@.custody == 0,
            c@.events.len() == 0,
            c@.name == "Staked CSPR"@,
            c@.symbol == "stCSPR"@,
            c@.decimals == 9,
            c@.self_address == self_address,
    {
        let c = CasperLiquid {
            balances: Vec::new(),
            allowances: Vec::new(),
            total_staked: U256::zero(),
            contract_cspr_balance: U256::zero(),
            name: String::from_str("Staked CSPR"),
            symbol: String::from_str("stCSPR"),
            decimals: 9,
            self_address,
            events: Vec::new(),
        };
        proof {
            assert forall|a: Address| c@.balances[a] == 0 by {
                assert(balance_in(c.balances@, a) == 0);
            }
            assert forall|o: Address, p: Address| c@.allowances[(o, p)] == 0 by {
                assert(allowance_in(c.allowances@, o, p) == 0);
            }
            assert(c@.events =~= Seq::<EventRec>::empty());
        }
        c
    }

    /// Validates an amount: rejects zero, and rejects anything over the
    /// safe ceiling.
    fn validate_amount(&self, amount: U256) -> (r: Result<(), Error>)
        ensures
            amount.as_nat() == 0 ==> r == Err::<(), Error>(Error::InvalidAmount),
            amount.as_nat() > amount_ceiling() ==> r == Err::<(), Error>(Error::ExceedsMaximum),
            amount_valid(amount.as_nat()) ==> r == Ok::<(), Error>(()),
    {
        if amount.is_zero() {
            return Err(Error::InvalidAmount);
        }
        let max_amount = U256::max_amount();
        if max_amount.lt(&amount) {
            return Err(Error::ExceedsMaximum);
        }
        Ok(())
    }

    /// Structural address validation. The identifier space has no reserved
    /// null value, so every address passes; the check is kept as the seam
    /// where a stricter identifier shape would be enforced.
    fn validate_address(&self, _address: &Address) -> (r: Result<(), Error>)
        ensures
            r == Ok::<(), Error>(()),
    {
        Ok(())
    }

    /// Bounds-checked addition over quantities.
    fn safe_add(&self, a: U256, b: U256) -> (r: Result<U256, Error>)
        ensures
            a.as_nat() + b.as_nat() < u256_bound() ==> (r matches Ok(s) && s.as_nat() == a.as_nat()
                + b.as_nat()),
            a.as_nat() + b.as_nat() >= u256_bound() ==> r == Err::<U256, Error>(
                Error::ArithmeticOverflow,
            ),
    {
        match a.checked_add(&b) {
            Some(s) => Ok(s),
            None => Err(Error::ArithmeticOverflow),
        }
    }

    /// Bounds-checked subtraction over quantities.
    fn safe_sub(&self, a: U256, b: U256) -> (r: Result<U256, Error>)
        ensures
            b.as_nat() <= a.as_nat() ==> (r matches Ok(d) && d.as_nat() == a.as_nat()
                - b.as_nat()),
            a.as_nat() < b.as_nat() ==> r == Err::<U256, Error>(Error::ArithmeticUnderflow),
    {
        match a.checked_sub(&b) {
            Some(d) => Ok(d),
            None => Err(Error::ArithmeticUnderflow),
        }
    }

    /// Rejects an operation whose source balance cannot cover it.
    fn validate_sufficient_balance(&self, balance: U256, required: U256) -> (r: Result<(), Error>)
        ensures
            balance.as_nat() < required.as_nat() ==> r == Err::<(), Error>(
                Error::InsufficientBalance,
            ),
            balance.as_nat() >= required.as_nat() ==> r == Ok::<(), Error>(()),
    {
        if balance.lt(&required) {
            return Err(Error::InsufficientBalance);
        }
        Ok(())
    }

    /// Rejects a delegated operation whose allowance cannot cover it.
    fn validate_sufficient_allowance(&self, allowance: U256, required: U256) -> (r: Result<
        (),
        Error,
    >)
        ensures
            allowance.as_nat() < required.as_nat() ==> r == Err::<(), Error>(
                Error::InsufficientAllowance,
            ),
            allowance.as_nat() >= required.as_nat() ==> r == Ok::<(), Error>(()),
    {
        if allowance.lt(&required) {
            return Err(Error::InsufficientAllowance);
        }
        Ok(())
    }

    /// The consistency check run before and after every issuance operation:
    /// total issued units must equal the custody pool. A violation signals a
    /// fault in the ledger itself, not a caller error, and is reported as
    /// the distinct fatal internal-consistency error, so a caller can always
    /// tell a ledger bug from an ordinary arithmetic failure.
    fn validate_state_consistency(&self) -> (r: Result<(), Error>)
        ensures
            self@.total == self@.custody ==> r == Ok::<(), Error>(()),
            self@.total != self@.custody ==> r == Err::<(), Error>(Error::InternalInconsistency),
    {
        let total_supply = self.total_supply();
        let contract_balance = self.contract_cspr_balance();
        proof {
            if total_supply.as_nat() == contract_balance.as_nat() {
                lemma_value_determines_limbs(total_supply, contract_balance);
            }
        }
        if total_supply == contract_balance {
            Ok(())
        } else {
            Err(Error::InternalInconsistency)
        }
    }

    /// The token's display name.
    pub fn name(&self) -> (r: String)
        ensures
            r@ == self@.name,
    {
        self.name.clone()
    }

    /// The token's display symbol.
    pub fn symbol(&self) -> (r: String)
        ensures
            r@ == self@.symbol,
    {
        self.symbol.clone()
    }

    /// The token's decimal precision.
    pub fn decimals(&self) -> (r: u8)
        ensures
            r == self@.decimals,
    {
        self.decimals
    }

    /// Total issued units.
    pub fn total_supply(&self) -> (r: U256)
        ensures
            r.as_nat() == self@.total,
    {
        self.total_staked
    }

    /// The balance of an account, zero when never written.
    pub fn balance_of(&self, owner: &Address) -> (r: U256)
        ensures
            r.as_nat() == self@.balances[*owner],
    {
        balance_lookup(&self.balances, owner)
    }

    /// The remaining amount `spender` may move out of `owner`'s balance,
    /// zero when never approved.
    pub fn allowance(&self, owner: &Address, spender: &Address) -> (r: U256)
        ensures
            r.as_nat() == self@.allowances[(*owner, *spender)],
    {
        allowance_lookup(&self.allowances, owner, spender)
    }

    /// The custody pool size.
    pub fn contract_cspr_balance(&self) -> (r: U256)
        ensures
            r.as_nat() == self@.custody,
    {
        self.contract_cspr_balance
    }

    /// Whether total issued units equal the custody pool.
    pub fn validate_supply_consistency(&self) -> (r: bool)
        ensures
            r == (self@.total == self@.custody),
    {
        let total_supply = self.total_supply();
        let contract_balance = self.contract_cspr_balance();
        proof {
            if total_supply.as_nat() == contract_balance.as_nat() {
                lemma_value_determines_limbs(total_supply, contract_balance);
            }
        }
        total_supply == contract_balance
    }

    /// The notifications recorded so far, oldest first.
    pub fn events(&self) -> (r: &Vec<Event>)
        ensures
            r@.map_values(|e: Event| e@) == self@.events,
    {
        &self.events
    }

    /// Moves `amount` from `caller` to `recipient`. Fails — leaving the
    /// ledger untouched — on a zero or over-ceiling amount, a self-transfer,
    /// or a short balance; on success both balances move together and a
    /// transfer notification is recorded.
    pub fn transfer(&mut self, caller: Address, recipient: &Address, amount: U256) -> (r: Result<
        (),
        Error,
    >)
        requires
            old(self).well_formed(),
        ensures
            final(self).well_formed(),
            r == transfer_outcome(old(self)@, caller, *recipient, amount.as_nat()),
            r is Ok ==> final(self)@ == transfer_applied(
                old(self)@,
                caller,
                *recipient,
                amount.as_nat(),
            ),
            r is Err ==> *final(self) == *old(self),
            final(self).sum_balances() == old(self).sum_balances(),
            old(self).consistent() ==> final(self).consistent(),
    {
        if let Err(e) = self.validate_amount(amount) {
            return Err(e);
        }
        if let Err(e) = self.validate_address(recipient) {
            return Err(e);
        }
        self._transfer(&caller, recipient, amount)
    }

    /// Sets (not increments) the allowance of (caller, spender) to `amount`
    /// and records an approval notification. Zero revokes. Fails only on a
    /// self-approval — even one that would merely reset to zero.
    pub fn approve(&mut self, caller: Address, spender: &Address, amount: U256) -> (r: Result<
        (),
        Error,
    >)
        requires
            old(self).well_formed(),
        ensures
            final(self).well_formed(),
            r == approve_outcome(caller, *spender),
            r is Ok ==> final(self)@ == approve_applied(
                old(self)@,
                caller,
                *spender,
                amount.as_nat(),
            ),
            r is Err ==> *final(self) == *old(self),
            final(self).sum_balances() == old(self).sum_balances(),
            old(self).consistent() ==> final(self).consistent(),
    {
        if let Err(e) = self.validate_address(spender) {
            return Err(e);
        }
        if caller == *spender {
            return Err(Error::SelfTransfer);
        }
        allowance_store(&mut self.allowances, caller, *spender, amount);
        self.events.push(Event::Approval(Approval { owner: caller, spender: *spender, amount }));
        proof {
            assert(self@.allowances =~= approve_applied(
                old(self)@,
                caller,
                *spender,
                amount.as_nat(),
            ).allowances);
            assert(self@.events =~= approve_applied(
                old(self)@,
                caller,
                *spender,
                amount.as_nat(),
            ).events);
            assert(self@.balances =~= old(self)@.balances);
            assert(self@ =~~= approve_applied(old(self)@, caller, *spender, amount.as_nat()));
        }
        Ok(())
    }

    /// Moves `amount` from `owner` to `recipient` on the strength of the
    /// allowance `owner` granted to `caller`, then decrements that allowance
    /// by exactly the amount. The balance movement and the allowance
    /// decrement stand or fall together.
    pub fn transfer_from(
        &mut self,
        caller: Address,
        owner: &Address,
        recipient: &Address,
        amount: U256,
    ) -> (r: Result<(), Error>)
        requires
            old(self).well_formed(),
        ensures
            final(self).well_formed(),
            r == transfer_from_outcome(old(self)@, caller, *owner, *recipient, amount.as_nat()),
            r is Ok ==> final(self)@ == transfer_from_applied(
                old(self)@,
                caller,
                *owner,
                *recipient,
                amount.as_nat(),
            ),
            r is Err ==> *final(self) == *old(self),
            final(self).sum_balances() == old(self).sum_balances(),
            old(self).consistent() ==> final(self).consistent(),
    {
        if let Err(e) = self.validate_amount(amount) {
            return Err(e);
        }
        if let Err(e) = self.validate_address(owner) {
            return Err(e);
        }
        if let Err(e) = self.validate_address(recipient) {
            return Err(e);
        }
        let current_allowance = allowance_lookup(&self.allowances, owner, &caller);
        if let Err(e) = self.validate_sufficient_allowance(current_allowance, amount) {
            return Err(e);
        }
        if let Err(e) = self._transfer(owner, recipient, amount) {
            return Err(e);
        }
        let new_allowance = match self.safe_sub(current_allowance, amount) {
            Ok(v) => v,
            Err(e) => {
                return Err(e);
            },
        };
        allowance_store(&mut self.allowances, *owner, caller, new_allowance);
        proof {
            let target = transfer_from_applied(
                old(self)@,
                caller,
                *owner,
                *recipient,
                amount.as_nat(),
            );
            assert(self@.allowances =~= target.allowances);
            assert(self@ =~~= target);
        }
        Ok(())
    }

    /// Deposits `amount` of the underlying resource at time `now`: mints the
    /// caller the same number of units and grows the custody pool in
    /// lockstep, keeping the 1:1 backing. All three new values are computed
    /// before any write, so a failure leaves the ledger untouched.
    pub fn stake(&mut self, caller: Address, amount: U256, now: u64) -> (r: Result<(), Error>)
        requires
            old(self).well_formed(),
        ensures
            final(self).well_formed(),
            r == stake_outcome(old(self)@, caller, amount.as_nat()),
            r is Ok ==> final(self)@ == stake_applied(old(self)@, caller, amount.as_nat(), now),
            r is Err ==> *final(self) == *old(self),
            r is Ok ==> final(self).sum_balances() == old(self).sum_balances() + amount.as_nat(),
            r is Err ==> final(self).sum_balances() == old(self).sum_balances(),
            old(self).consistent() ==> final(self).consistent(),
    {
        if let Err(e) = self.validate_amount(amount) {
            return Err(e);
        }
        if let Err(e) = self.validate_state_consistency() {
            return Err(e);
        }
        let current_balance = balance_lookup(&self.balances, &caller);
        let current_total_supply = self.total_staked;
        let current_contract_balance = self.contract_cspr_balance;
        let new_balance = match self.safe_add(current_balance, amount) {
            Ok(v) => v,
            Err(e) => {
                return Err(e);
            },
        };
        let new_total_supply = match self.safe_add(current_total_supply, amount) {
            Ok(v) => v,
            Err(e) => {
                return Err(e);
            },
        };
        let new_contract_balance = match self.safe_add(current_contract_balance, amount) {
            Ok(v) => v,
            Err(e) => {
                return Err(e);
            },
        };
        balance_store(&mut self.balances, caller, new_balance);
        self.total_staked = new_total_supply;
        self.contract_cspr_balance = new_contract_balance;
        if let Err(e) = self.validate_state_consistency() {
            proof {
                lemma_value_determines_limbs(new_total_supply, new_contract_balance);
            }
            return Err(e);
        }
        self.events.push(
            Event::Stake(
                StakeEvent {
                    user: caller,
                    cspr_amount: amount,
                    stcspr_minted: amount,
                    timestamp: now,
                },
            ),
        );
        let contract_address = self.self_address;
        self.events.push(
            Event::Transfer(Transfer { from: contract_address, to: caller, amount }),
        );
        proof {
            let target = stake_applied(old(self)@, caller, amount.as_nat(), now);
            assert(self@.balances =~= target.balances);
            assert(self@.allowances =~= target.allowances);
            assert(self@.events =~= target.events);
            assert(self@ =~~= target);
        }
        Ok(())
    }

    /// Withdraws `amount` of the underlying resource at time `now`: burns
    /// that many of the caller's units and shrinks the custody pool in
    /// lockstep, keeping the 1:1 backing. All three new values are computed
    /// before any write, so a failure leaves the ledger untouched.
    pub fn unstake(&mut self, caller: Address, amount: U256, now: u64) -> (r: Result<(), Error>)
        requires
            old(self).well_formed(),
        ensures
            final(self).well_formed(),
            r == unstake_outcome(old(self)@, caller, amount.as_nat()),
            r is Ok ==> final(self)@ == unstake_applied(old(self)@, caller, amount.as_nat(), now),
            r is Err ==> *final(self) == *old(self),
            r is Ok ==> final(self).sum_balances() + amount.as_nat() == old(self).sum_balances(),
            r is Err ==> final(self).sum_balances() == old(self).sum_balances(),
            old(self).consistent() ==> final(self).consistent(),
    {
        if let Err(e) = self.validate_amount(amount) {
            return Err(e);
        }
        if let Err(e) = self.validate_state_consistency() {
            return Err(e);
        }
        let current_balance = balance_lookup(&self.balances, &caller);
        if let Err(e) = self.validate_sufficient_balance(current_balance, amount) {
            return Err(e);
        }
        let current_total_supply = self.total_staked;
        let current_contract_balance = self.contract_cspr_balance;
        let new_balance = match self.safe_sub(current_balance, amount) {
            Ok(v) => v,
            Err(e) => {
                return Err(e);
            },
        };
        let new_total_supply = match self.safe_sub(current_total_supply, amount) {
            Ok(v) => v,
            Err(e) => {
                return Err(e);
            },
        };
        let new_contract_balance = match self.safe_sub(current_contract_balance, amount) {
            Ok(v) => v,
            Err(e) => {
                return Err(e);
            },
        };
        balance_store(&mut self.balances, caller, new_balance);
        self.total_staked = new_total_supply;
        self.contract_cspr_balance = new_contract_balance;
        if let Err(e) = self.validate_state_consistency() {
            proof {
                lemma_value_determines_limbs(new_total_supply, new_contract_balance);
            }
            return Err(e);
        }
        self.events.push(
            Event::Unstake(
                UnstakeEvent {
                    user: caller,
                    stcspr_burned: amount,
                    cspr_returned: amount,
                    timestamp: now,
                },
            ),
        );
        let contract_address = self.self_address;
        self.events.push(
            Event::Transfer(Transfer { from: caller, to: contract_address, amount }),
        );
        proof {
            let target = unstake_applied(old(self)@, caller, amount.as_nat(), now);
            assert(self@.balances =~= target.balances);
            assert(self@.allowances =~= target.allowances);
            assert(self@.events =~= target.events);
            assert(self@ =~~= target);
        }
        Ok(())
    }

    /// Writes a balance directly, bypassing validation and the aggregates:
    /// a seeding hook mirroring the hosting environment's ability to install
    /// state for tests. It can break conservation, which the issuance
    /// operations then detect as a consistency violation.
    pub fn set_balance_for_testing(&mut self, address: &Address, amount: U256)
        requires
            old(self).well_formed(),
        ensures
            final(self).well_formed(),
            final(self)@ == (LedgerView {
                balances: old(self)@.balances.insert(*address, amount.as_nat()),
                ..old(self)@
            }),
            final(self).sum_balances() + old(self)@.balances[*address] == old(self).sum_balances()
                + amount.as_nat(),
    {
        balance_store(&mut self.balances, *address, amount);
        proof {
            let target = LedgerView {
                balances: old(self)@.balances.insert(*address, amount.as_nat()),
                ..old(self)@
            };
            assert(self@.balances =~= target.balances);
            assert(self@.allowances =~= target.allowances);
            assert(self@ =~~= target);
        }
    }

    /// Law: in a conserving state a transfer can never overflow — it is
    /// refused only for a zero or over-ceiling amount, a self-transfer, or a
    /// short source balance. The destination balance plus the amount always
    /// stays under the sum of all balances, which the total supply equals
    /// and which fits in 256 bits.
    pub proof fn lemma_consistent_transfer_never_overflows(
        self,
        from: Address,
        to: Address,
        amount: nat,
    )
        requires
            self.consistent(),
        ensures
            transfer_outcome(self@, from, to, amount) != Err::<(), Error>(
                Error::ArithmeticOverflow,
            ),
    {
        if from != to {
            lemma_two_balances_le_total(self.balances@, from, to);
            lemma_as_nat_bounded(self.total_staked);
        }
    }

    /// Law: in a conserving state a withdrawal can never underflow the
    /// aggregates — it is refused only for a zero or over-ceiling amount or
    /// a short caller balance. A covered balance is itself covered by the
    /// total supply.
    pub proof fn lemma_consistent_unstake_never_underflows(self, caller: Address, amount: nat)
        requires
            self.consistent(),
        ensures
            unstake_outcome(self@, caller, amount) != Err::<(), Error>(
                Error::ArithmeticUnderflow,
            ),
    {
        lemma_balance_le_total(self.balances@, caller);
    }

    /// The balance movement shared by direct and delegated transfers:
    /// validates, pre-computes both new balances, and commits them together
    /// with the transfer notification.
    fn _transfer(&mut self, from: &Address, to: &Address, amount: U256) -> (r: Result<(), Error>)
        requires
            old(self).well_formed(),
        ensures
            final(self).well_formed(),
            r == transfer_outcome(old(self)@, *from, *to, amount.as_nat()),
            r is Ok ==> final(self)@ == transfer_applied(old(self)@, *from, *to, amount.as_nat()),
            r is Err ==> *final(self) == *old(self),
            final(self).sum_balances() == old(self).sum_balances(),
            final(self)@.allowances == old(self)@.allowances,
            old(self).consistent() ==> final(self).consistent(),
    {
        if let Err(e) = self.validate_amount(amount) {
            return Err(e);
        }
        if let Err(e) = self.validate_address(from) {
            return Err(e);
        }
        if let Err(e) = self.validate_address(to) {
            return Err(e);
        }
        if from == to {
            return Err(Error::SelfTransfer);
        }
        let from_balance = balance_lookup(&self.balances, from);
        if let Err(e) = self.validate_sufficient_balance(from_balance, amount) {
            return Err(e);
        }
        let new_from_balance = match self.safe_sub(from_balance, amount) {
            Ok(v) => v,
            Err(e) => {
                return Err(e);
            },
        };
        let to_balance = balance_lookup(&self.balances, to);
        let new_to_balance = match self.safe_add(to_balance, amount) {
            Ok(v) => v,
            Err(e) => {
                return Err(e);
            },
        };
        balance_store(&mut self.balances, *from, new_from_balance);
        balance_store(&mut self.balances, *to, new_to_balance);
        self.events.push(Event::Transfer(Transfer { from: *from, to: *to, amount }));
        proof {
            let target = transfer_applied(old(self)@, *from, *to, amount.as_nat());
            assert(self@.balances =~= target.balances);
            assert(self@.allowances =~= target.allowances);
            assert(self@.events =~= target.events);
            assert(self@ =~~= target);
        }
        Ok(())
    }
}

} // verus!
