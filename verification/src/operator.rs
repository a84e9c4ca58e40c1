//! The four binary operators and their two's-complement arithmetic.

use crate::error::EvalError;
use vstd::prelude::*;

verus! {

/// A binary arithmetic operator.
#[derive(Clone, Copy, Debug, PartialEq, Eq, Structural)]
pub enum Operator {
    Add,
    Multiply,
    Divide,
    Subtract,
}

/// The 32-bit two's-complement value congruent to `v` modulo 2^32.
pub open spec fn wrap_i32(v: int) -> i32 {
    (((v + 0x8000_0000) % 0x1_0000_0000) - 0x8000_0000) as i32
}

/// The quotient of `a` by `b` rounded toward zero, for `b` other than zero.
pub open spec fn truncated_quotient(a: int, b: int) -> int {
    if a >= 0 && b > 0 {
        a / b
    } else if a >= 0 {
        -(a / (-b))
    } else if b > 0 {
        -((-a) / b)
    } else {
        (-a) / (-b)
    }
}

impl Operator {
    /// What the operator makes of two operands: the exact result reduced to
    /// 32 bits, or `DivisionByZero` for a division by zero.
    pub open spec fn apply_spec(self, a: i32, b: i32) -> Result<i32, EvalError> {
        match self {
            Operator::Add => Ok(wrap_i32(a + b)),
            Operator::Subtract => Ok(wrap_i32(a - b)),
            Operator::Multiply => Ok(wrap_i32(a * b)),
            Operator::Divide => if b == 0 {
                Err(EvalError::DivisionByZero)
            } else {
                Ok(wrap_i32(truncated_quotient(a as int, b as int)))
            },
        }
    }

    /// Applies the operator to two operands.
    pub fn apply(&self, a: i32, b: i32) -> (result: Result<i32, EvalError>)
        ensures
            result == self.apply_spec(a, b),
    {
        match self {
            Operator::Add => Ok(a.wrapping_add(b)),
            Operator::Subtract => Ok(a.wrapping_sub(b)),
            Operator::Multiply => Ok(a.wrapping_mul(b)),
            Operator::Divide => {
                if b == 0 {
                    Err(EvalError::DivisionByZero)
                } else {
                    match a.checked_div(b) {
                        Some(q) => Ok(q),
                        None => Ok(i32::MIN),
                    }
                }
            },
        }
    }
}

/// A quotient that fits in 32 bits is returned as it is: only
/// `i32::MIN / -1` does not fit.
pub proof fn lemma_quotient_exact(a: i32, b: i32)
    requires
        b != 0,
        !(a == i32::MIN && b == -1),
    ensures
        Operator::Divide.apply_spec(a, b) == Ok::<i32, EvalError>(
            truncated_quotient(a as int, b as int) as i32,
        ),
        i32::MIN <= truncated_quotient(a as int, b as int) <= i32::MAX,
{
    let q = truncated_quotient(a as int, b as int);
    assert(i32::MIN <= q <= i32::MAX) by (nonlinear_arith)
        requires
            q == truncated_quotient(a as int, b as int),
            b != 0,
            i32::MIN <= a <= i32::MAX,
            i32::MIN <= b <= i32::MAX,
            !(a == i32::MIN && b == -1),
    ;
}

} // verus!
