//! Exact integer division, for the inverse of a scaled integer.

use vstd::prelude::*;
use vstd::arithmetic::div_mod::{lemma_fundamental_div_mod, lemma_mod_multiples_basic};
use crate::errors::Error;

verus! {

/// Whether `v` is a multiple of `k`.
pub open spec fn divisible(v: int, k: int) -> bool {
    exists|q: int| #[trigger] (q * k) == v
}

/// The number that gives `v` when it is multiplied by `k`, where `v` is a
/// multiple of `k` and `k` is not zero.
pub open spec fn quotient(v: int, k: int) -> int {
    choose|q: int| #[trigger] (q * k) == v
}

/// A product with a factor that is not zero determines the other factor.
pub proof fn lemma_quotient_unique(q: int, k: int, v: int)
    requires
        k != 0,
        q * k == v,
    ensures
        divisible(v, k),
        quotient(v, k) == q,
{
    let c = quotient(v, k);
    assert(c * k == v);
    assert(c == q) by (nonlinear_arith)
        requires
            c * k == q * k,
            k != 0,
    ;
}

/// The absolute value of a number.
pub open spec fn abs(x: int) -> int {
    if x < 0 {
        -x
    } else {
        x
    }
}

/// The absolute value of a number.
fn magnitude(x: i64) -> (m: u64)
    ensures
        m == abs(x as int),
{
    if x >= 0 {
        x as u64
    } else if x == i64::MIN {
        0x8000_0000_0000_0000u64
    } else {
        (-x) as u64
    }
}

/// Divides `v` by `k` where that leaves no remainder: `NotDivisible` where
/// it leaves one, `Overflow` where the quotient is no `i64`.
pub fn exact_div(v: i64, k: i64) -> (r: Result<i64, Error>)
    requires
        k != 0,
    ensures
        r == if !divisible(v as int, k as int) {
            Err::<i64, _>(Error::NotDivisible)
        } else if i64::MIN <= quotient(v as int, k as int) <= i64::MAX {
            Ok(quotient(v as int, k as int) as i64)
        } else {
            Err(Error::Overflow)
        },
{
    let mv = magnitude(v);
    let mk = magnitude(k);
    let qm = mv / mk;
    let rm = mv % mk;
    proof {
        lemma_fundamental_div_mod(mv as int, mk as int);
    }
    if rm != 0 {
        proof {
            if divisible(v as int, k as int) {
                let q = quotient(v as int, k as int);
                let a = abs(q);
                assert(a * mk == mv) by (nonlinear_arith)
                    requires
                        q * k == v,
                        a == abs(q),
                        mk == abs(k as int),
                        mv == abs(v as int),
                ;
                lemma_mod_multiples_basic(a, mk as int);
            }
        }
        return Err(Error::NotDivisible);
    }
    let negative = (v < 0) != (k < 0);
    let ghost q: int = if negative {
        -(qm as int)
    } else {
        qm as int
    };
    proof {
        assert(mv == mk * qm);
        assert(q * k == v) by (nonlinear_arith)
            requires
                mv == mk * qm,
                mk == abs(k as int),
                mv == abs(v as int),
                q == if (v < 0) != (k < 0) {
                    -(qm as int)
                } else {
                    qm as int
                },
                k != 0,
        ;
        lemma_quotient_unique(q, k as int, v as int);
    }
    if negative {
        if qm == 0x8000_0000_0000_0000u64 {
            Ok(i64::MIN)
        } else {
            assert(qm <= mv) by (nonlinear_arith)
                requires
                    mv == mk * qm,
                    mk >= 1,
            ;
            Ok(-(qm as i64))
        }
    } else if qm > i64::MAX as u64 {
        Err(Error::Overflow)
    } else {
        Ok(qm as i64)
    }
}

} // verus!
