//! Bounds-checked 256-bit unsigned quantities.
//!
//! Every balance, allowance and aggregate in the ledger is a [`U256`]: four
//! 64-bit limbs read in base 2^64. Arithmetic is checked — an addition that
//! would not fit in 256 bits, or a subtraction that would go negative,
//! reports failure instead of wrapping.

use vstd::prelude::*;
use vstd::arithmetic::div_mod::lemma_fundamental_div_mod;

verus! {

/// The weight of the second limb: 2^64.
pub open spec fn limb_base() -> nat {
    0x1_0000_0000_0000_0000nat
}

/// The weight of the third limb: 2^128.
pub open spec fn limb_base2() -> nat {
    0x1_0000_0000_0000_0000_0000_0000_0000_0000nat
}

/// The weight of the fourth limb: 2^192.
pub open spec fn limb_base3() -> nat {
    0x1_0000_0000_0000_0000_0000_0000_0000_0000_0000_0000_0000_0000nat
}

/// One more than the largest representable quantity: 2^256.
pub open spec fn u256_bound() -> nat {
    0x1_0000_0000_0000_0000_0000_0000_0000_0000_0000_0000_0000_0000_0000_0000_0000_0000nat
}

/// The safe ceiling for the amount of a single operation: u128::MAX. It sits
/// far below the largest representable quantity, so balances can accumulate
/// past it even though no single operation may move more than this at once.
pub open spec fn amount_ceiling() -> nat {
    0xffff_ffff_ffff_ffff_ffff_ffff_ffff_ffffnat
}

/// 2^64 as an executable constant, for carry and borrow extraction.
const LIMB_BASE: u128 = 0x1_0000_0000_0000_0000;

/// An unsigned 256-bit quantity, least significant limb first.
#[derive(Clone, Copy, Debug, PartialEq, Eq, Structural, Hash)]
pub struct U256 {
    pub w0: u64,
    pub w1: u64,
    pub w2: u64,
    pub w3: u64,
}

impl U256 {
    /// The mathematical value of the quantity.
    pub open spec fn as_nat(self) -> nat {
        (self.w0 + self.w1 * limb_base() + self.w2 * limb_base2() + self.w3 * limb_base3()) as nat
    }

    /// The quantity zero.
    pub fn zero() -> (r: U256)
        ensures
            r.as_nat() == 0,
    {
        U256 { w0: 0, w1: 0, w2: 0, w3: 0 }
    }

    /// The quantity with the given 64-bit value.
    pub fn from(v: u64) -> (r: U256)
        ensures
            r.as_nat() == v,
    {
        U256 { w0: v, w1: 0, w2: 0, w3: 0 }
    }

    /// The quantity with the given 128-bit value.
    pub fn from_u128(v: u128) -> (r: U256)
        ensures
            r.as_nat() == v,
    {
        proof {
            lemma_fundamental_div_mod(v as int, LIMB_BASE as int);
        }
        let lo: u64 = (v % LIMB_BASE) as u64;
        let hi: u64 = (v / LIMB_BASE) as u64;
        U256 { w0: lo, w1: hi, w2: 0, w3: 0 }
    }

    /// The largest amount a single operation accepts (the safe ceiling).
    pub fn max_amount() -> (r: U256)
        ensures
            r.as_nat() == amount_ceiling(),
    {
        U256 { w0: u64::MAX, w1: u64::MAX, w2: 0, w3: 0 }
    }

    /// The value reduced modulo 2^64: the low limb, as display code reads it.
    pub fn as_u64(&self) -> (r: u64)
        ensures
            r == self.as_nat() % limb_base(),
            self.as_nat() <= u64::MAX ==> r == self.as_nat(),
    {
        proof {
            let b = limb_base() as int;
            let k: int = self.w1 + self.w2 * b + self.w3 * b * b;
            assert(self.as_nat() == b * k + self.w0) by (nonlinear_arith)
                requires
                    b == limb_base(),
                    k == self.w1 + self.w2 * b + self.w3 * b * b,
                    self.as_nat() == (self.w0 + self.w1 * limb_base() + self.w2 * limb_base2()
                        + self.w3 * limb_base3()) as nat,
            ;
            vstd::arithmetic::div_mod::lemma_mod_multiples_vanish(k, self.w0 as int, b);
            vstd::arithmetic::div_mod::lemma_small_mod(self.w0 as nat, limb_base());
            if self.as_nat() <= u64::MAX {
                vstd::arithmetic::div_mod::lemma_small_mod(self.as_nat(), limb_base());
            }
        }
        self.w0
    }

    /// Whether the quantity is zero.
    pub fn is_zero(&self) -> (r: bool)
        ensures
            r == (self.as_nat() == 0),
    {
        self.w0 == 0 && self.w1 == 0 && self.w2 == 0 && self.w3 == 0
    }

    /// Whether this quantity is strictly below the other.
    pub fn lt(&self, other: &U256) -> (r: bool)
        ensures
            r == (self.as_nat() < other.as_nat()),
    {
        if self.w3 != other.w3 {
            self.w3 < other.w3
        } else if self.w2 != other.w2 {
            self.w2 < other.w2
        } else if self.w1 != other.w1 {
            self.w1 < other.w1
        } else {
            self.w0 < other.w0
        }
    }

    /// The sum, or `None` when the true sum does not fit in 256 bits.
    pub fn checked_add(&self, other: &U256) -> (r: Option<U256>)
        ensures
            self.as_nat() + other.as_nat() < u256_bound() ==> (r matches Some(s)
                && s.as_nat() == self.as_nat() + other.as_nat()),
            self.as_nat() + other.as_nat() >= u256_bound() ==> r is None,
    {
        let s0: u128 = self.w0 as u128 + other.w0 as u128;
        proof {
            lemma_fundamental_div_mod(s0 as int, LIMB_BASE as int);
        }
        let r0: u64 = (s0 % LIMB_BASE) as u64;
        let c0: u128 = s0 / LIMB_BASE;
        let s1: u128 = self.w1 as u128 + other.w1 as u128 + c0;
        proof {
            lemma_fundamental_div_mod(s1 as int, LIMB_BASE as int);
        }
        let r1: u64 = (s1 % LIMB_BASE) as u64;
        let c1: u128 = s1 / LIMB_BASE;
        let s2: u128 = self.w2 as u128 + other.w2 as u128 + c1;
        proof {
            lemma_fundamental_div_mod(s2 as int, LIMB_BASE as int);
        }
        let r2: u64 = (s2 % LIMB_BASE) as u64;
        let c2: u128 = s2 / LIMB_BASE;
        let s3: u128 = self.w3 as u128 + other.w3 as u128 + c2;
        proof {
            lemma_fundamental_div_mod(s3 as int, LIMB_BASE as int);
        }
        let r3: u64 = (s3 % LIMB_BASE) as u64;
        let c3: u128 = s3 / LIMB_BASE;
        let sum = U256 { w0: r0, w1: r1, w2: r2, w3: r3 };
        proof {
            assert(sum.as_nat() + c3 * u256_bound() == self.as_nat() + other.as_nat());
        }
        if c3 == 0 {
            Some(sum)
        } else {
            None
        }
    }

    /// The difference, or `None` when the other quantity is larger.
    pub fn checked_sub(&self, other: &U256) -> (r: Option<U256>)
        ensures
            other.as_nat() <= self.as_nat() ==> (r matches Some(d)
                && d.as_nat() == self.as_nat() - other.as_nat()),
            self.as_nat() < other.as_nat() ==> r is None,
    {
        let t0: u128 = LIMB_BASE + self.w0 as u128 - other.w0 as u128;
        proof {
            lemma_fundamental_div_mod(t0 as int, LIMB_BASE as int);
        }
        let d0: u64 = (t0 % LIMB_BASE) as u64;
        let b0: u128 = 1 - t0 / LIMB_BASE;
        let t1: u128 = LIMB_BASE + self.w1 as u128 - other.w1 as u128 - b0;
        proof {
            lemma_fundamental_div_mod(t1 as int, LIMB_BASE as int);
        }
        let d1: u64 = (t1 % LIMB_BASE) as u64;
        let b1: u128 = 1 - t1 / LIMB_BASE;
        let t2: u128 = LIMB_BASE + self.w2 as u128 - other.w2 as u128 - b1;
        proof {
            lemma_fundamental_div_mod(t2 as int, LIMB_BASE as int);
        }
        let d2: u64 = (t2 % LIMB_BASE) as u64;
        let b2: u128 = 1 - t2 / LIMB_BASE;
        let t3: u128 = LIMB_BASE + self.w3 as u128 - other.w3 as u128 - b2;
        proof {
            lemma_fundamental_div_mod(t3 as int, LIMB_BASE as int);
        }
        let d3: u64 = (t3 % LIMB_BASE) as u64;
        let b3: u128 = 1 - t3 / LIMB_BASE;
        let diff = U256 { w0: d0, w1: d1, w2: d2, w3: d3 };
        proof {
            assert(diff.as_nat() == self.as_nat() - other.as_nat() + b3 * u256_bound());
        }
        if b3 == 0 {
            Some(diff)
        } else {
            None
        }
    }
}

/// Every quantity's value fits in 256 bits.
pub proof fn lemma_as_nat_bounded(a: U256)
    ensures
        a.as_nat() < u256_bound(),
{
}

/// Two quantities with the same mathematical value are the same quantity:
/// the limb representation is canonical.
pub proof fn lemma_value_determines_limbs(a: U256, b: U256)
    requires
        a.as_nat() == b.as_nat(),
    ensures
        a == b,
{
    let base = limb_base() as int;
    let xa: int = a.w1 + a.w2 * base + a.w3 * base * base;
    let xb: int = b.w1 + b.w2 * base + b.w3 * base * base;
    assert(a.w0 + xa * base == b.w0 + xb * base) by (nonlinear_arith)
        requires
            a.as_nat() == b.as_nat(),
            xa == a.w1 + a.w2 * base + a.w3 * base * base,
            xb == b.w1 + b.w2 * base + b.w3 * base * base,
            base == limb_base(),
    ;
    assert(a.w0 == b.w0 && xa == xb);
    let ya: int = a.w2 + a.w3 * base;
    let yb: int = b.w2 + b.w3 * base;
    assert(a.w1 + ya * base == b.w1 + yb * base) by (nonlinear_arith)
        requires
            xa == xb,
            xa == a.w1 + a.w2 * base + a.w3 * base * base,
            xb == b.w1 + b.w2 * base + b.w3 * base * base,
            ya == a.w2 + a.w3 * base,
            yb == b.w2 + b.w3 * base,
    ;
    assert(a.w1 == b.w1 && ya == yb);
    assert(a.w2 == b.w2 && a.w3 == b.w3);
}

} // verus!
