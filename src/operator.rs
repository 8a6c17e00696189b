use vstd::prelude::*;

use crate::socketio::model::Amount;

verus! {

/// Why an operator action was refused before anything was sent.
#[derive(Clone, Copy, Debug, PartialEq, Eq)]
pub enum OperatorError {
    /// The account cannot pay the bond it is asked to post.
    InsufficientBalance,
}

impl Amount {
    /// `self - other`, or `None` when `other` is larger.
    pub fn checked_sub(&self, other: &Amount) -> (r: Option<Amount>)
        ensures
            r is Some <==> self.value() >= other.value(),
            r is Some ==> r->0.value() == self.value() - other.value(),
    {
        let ghost m: int = u128::MAX as int + 1;
        if !self.ge(other) {
            return None;
        }
        let ghost (a, b, c, d) = (self.hi as int, self.lo as int, other.hi as int, other.lo as int);
        proof {
            assert(a >= c) by (nonlinear_arith)
                requires
                    a * m + b >= c * m + d,
                    0 <= b < m,
                    0 <= d < m,
                    m > 0,
            ;
        }
        if self.lo >= other.lo {
            let r = Amount { hi: self.hi - other.hi, lo: self.lo - other.lo };
            assert(r.value() == self.value() - other.value()) by (nonlinear_arith)
                requires
                    r.value() == (a - c) * m + (b - d),
                    self.value() == a * m + b,
                    other.value() == c * m + d,
            ;
            Some(r)
        } else {
            proof {
                assert(a > c) by (nonlinear_arith)
                    requires
                        a * m + b >= c * m + d,
                        b < d,
                        0 <= b < m,
                        0 <= d < m,
                        m > 0,
                ;
            }
            let r = Amount { hi: self.hi - other.hi - 1, lo: u128::MAX - (other.lo - self.lo) + 1 };
            assert(r.value() == self.value() - other.value()) by (nonlinear_arith)
                requires
                    r.value() == (a - c - 1) * m + (m - (d - b)),
                    self.value() == a * m + b,
                    other.value() == c * m + d,
            ;
            Some(r)
        }
    }
}

/// What an operator must add to `bond` to reach `min_bond`; `None` when the
/// bond already suffices.
pub fn bond_shortfall(bond: &Amount, min_bond: &Amount) -> (r: Option<Amount>)
    ensures
        r is Some <==> bond.value() < min_bond.value(),
        r is Some ==> r->0.value() == min_bond.value() - bond.value(),
{
    if bond.ge(min_bond) {
        None
    } else {
        min_bond.checked_sub(bond)
    }
}

/// Whether an account holding `balance` can post a bond of `amount`.
pub fn check_bond_funds(balance: &Amount, amount: &Amount) -> (r: Result<(), OperatorError>)
    ensures
        r is Ok <==> balance.value() >= amount.value(),
        r is Err ==> r == Err::<(), OperatorError>(OperatorError::InsufficientBalance),
{
    if balance.ge(amount) {
        Ok(())
    } else {
        Err(OperatorError::InsufficientBalance)
    }
}

} // verus!
