//! Notifications describing completed mutations.
//!
//! Every successful mutating operation appends one or two of these records to
//! the ledger's event log; the hosting environment forwards them to whatever
//! sink consumes them. A failed operation records nothing.

use vstd::prelude::*;

use crate::address::Address;
use crate::amount::U256;

verus! {

/// Emitted when a user deposits the underlying resource and is minted units.
#[derive(Clone, Copy, Debug, PartialEq, Eq, Structural)]
pub struct StakeEvent {
    pub user: Address,
    pub cspr_amount: U256,
    pub stcspr_minted: U256,
    pub timestamp: u64,
}

/// Emitted when a user burns units and is returned the underlying resource.
#[derive(Clone, Copy, Debug, PartialEq, Eq, Structural)]
pub struct UnstakeEvent {
    pub user: Address,
    pub stcspr_burned: U256,
    pub cspr_returned: U256,
    pub timestamp: u64,
}

/// Emitted when units move between accounts, including the mint and burn
/// legs of a deposit or withdrawal (with the ledger's own identity standing
/// for the custody pool).
#[derive(Clone, Copy, Debug, PartialEq, Eq, Structural)]
pub struct Transfer {
    pub from: Address,
    pub to: Address,
    pub amount: U256,
}

/// Emitted when an owner sets a spender's allowance.
#[derive(Clone, Copy, Debug, PartialEq, Eq, Structural)]
pub struct Approval {
    pub owner: Address,
    pub spender: Address,
    pub amount: U256,
}

/// One recorded notification.
#[derive(Clone, Copy, Debug, PartialEq, Eq, Structural)]
pub enum Event {
    Stake(StakeEvent),
    Unstake(UnstakeEvent),
    Transfer(Transfer),
    Approval(Approval),
}

/// The mathematical reading of a notification, with amounts as naturals.
pub enum EventRec {
    Stake { user: Address, cspr_amount: nat, stcspr_minted: nat, timestamp: u64 },
    Unstake { user: Address, stcspr_burned: nat, cspr_returned: nat, timestamp: u64 },
    Transfer { from: Address, to: Address, amount: nat },
    Approval { owner: Address, spender: Address, amount: nat },
}

impl View for Event {
    type V = EventRec;

    open spec fn view(&self) -> EventRec {
        match self {
            Event::Stake(e) => EventRec::Stake {
                user: e.user,
                cspr_amount: e.cspr_amount.as_nat(),
                stcspr_minted: e.stcspr_minted.as_nat(),
                timestamp: e.timestamp,
            },
            Event::Unstake(e) => EventRec::Unstake {
                user: e.user,
                stcspr_burned: e.stcspr_burned.as_nat(),
                cspr_returned: e.cspr_returned.as_nat(),
                timestamp: e.timestamp,
            },
            Event::Transfer(e) => EventRec::Transfer {
                from: e.from,
                to: e.to,
                amount: e.amount.as_nat(),
            },
            Event::Approval(e) => EventRec::Approval {
                owner: e.owner,
                spender: e.spender,
                amount: e.amount.as_nat(),
            },
        }
    }
}

} // verus!
