//! The error kinds a ledger operation can fail with.

use vstd::prelude::*;

verus! {

/// Every way a mutating ledger operation can be refused. All checks run
/// before any state is written, so a call that returns one of these leaves
/// the ledger untouched.
#[derive(Clone, Copy, Debug, PartialEq, Eq, Structural)]
pub enum Error {
    /// Source account balance is less than the requested amount.
    InsufficientBalance,
    /// Delegated amount exceeds the remaining approved allowance.
    InsufficientAllowance,
    /// Amount is zero where a positive amount is required.
    InvalidAmount,
    /// Source and destination identifiers are equal where that is disallowed.
    SelfTransfer,
    /// A computed quantity would exceed the representable range.
    ArithmeticOverflow,
    /// A computed quantity would go negative.
    ArithmeticUnderflow,
    /// Reserved for address-shape validation.
    InvalidAddress,
    /// Amount exceeds the configured safe ceiling.
    ExceedsMaximum,
    /// Total issued units and the custody pool disagree at a consistency
    /// check: a fault in the ledger itself, never a caller error. The
    /// operation aborts rather than attempt repair.
    InternalInconsistency,
}

impl Error {
    /// A short human-readable label for the error kind.
    pub fn describe(&self) -> (r: &'static str)
        ensures
            r@ == match self {
                Error::InsufficientBalance => "insufficient balance"@,
                Error::InsufficientAllowance => "insufficient allowance"@,
                Error::InvalidAmount => "invalid amount"@,
                Error::SelfTransfer => "transfer to self"@,
                Error::ArithmeticOverflow => "arithmetic overflow"@,
                Error::ArithmeticUnderflow => "arithmetic underflow"@,
                Error::InvalidAddress => "invalid address"@,
                Error::ExceedsMaximum => "exceeds maximum"@,
                Error::InternalInconsistency => "internal consistency violation"@,
            },
    {
        match self {
            Error::InsufficientBalance => "insufficient balance",
            Error::InsufficientAllowance => "insufficient allowance",
            Error::InvalidAmount => "invalid amount",
            Error::SelfTransfer => "transfer to self",
            Error::ArithmeticOverflow => "arithmetic overflow",
            Error::ArithmeticUnderflow => "arithmetic underflow",
            Error::InvalidAddress => "invalid address",
            Error::ExceedsMaximum => "exceeds maximum",
            Error::InternalInconsistency => "internal consistency violation",
        }
    }
}

} // verus!
