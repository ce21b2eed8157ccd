//! Zerofier expressions: small arithmetic trees over the evaluation point `x`,
//! the subgroup generator `g` and the trace length `n`.
use crate::field::{
    ext_add, ext_exp, ext_from_base, ext_inverse, ext_is_zero, ext_mul, ext_sub, ExtFelt, Felt,
};
use vstd::prelude::*;

verus! {

/// An exponent that may depend on the trace length `n`.
#[derive(Clone, Copy, Debug, PartialEq, Eq)]
pub enum Exponent {
    /// `a^i`
    First(usize),
    /// `a^(n - i)`
    Last(usize),
    /// `a^(n / i)`
    Rate(usize),
}

impl Exponent {
    /// Whether the exponent is defined for trace length `n`: `Last(i)` needs
    /// `i <= n`, `Rate(i)` needs `i` to divide `n`.
    pub open spec fn defined_for(self, n: nat) -> bool {
        match self {
            Exponent::First(_) => true,
            Exponent::Last(i) => i <= n,
            Exponent::Rate(i) => i > 0 && n % (i as nat) == 0,
        }
    }

    pub open spec fn power_spec(self, n: nat) -> nat {
        match self {
            Exponent::First(i) => i as nat,
            Exponent::Last(i) => (n - i) as nat,
            Exponent::Rate(i) => n / (i as nat),
        }
    }

    pub fn is_defined_for(&self, n: usize) -> (r: bool)
        ensures
            r == self.defined_for(n as nat),
    {
        match *self {
            Exponent::First(_) => true,
            Exponent::Last(i) => i <= n,
            Exponent::Rate(i) => i > 0 && n % i == 0,
        }
    }

    /// The exponent's value for trace length `n`.
    pub fn power(&self, n: usize) -> (r: usize)
        requires
            self.defined_for(n as nat),
        ensures
            r == self.power_spec(n as nat),
    {
        match *self {
            Exponent::First(i) => i,
            Exponent::Last(i) => n - i,
            Exponent::Rate(i) => n / i,
        }
    }
}

/// An arithmetic expression whose value at the evaluation point is the
/// zerofier of a constraint.
#[derive(Debug)]
pub enum ZerofierExpression {
    Constant(Felt),
    /// A power of the evaluation point `x`.
    X(Exponent),
    /// A power of the generator `g`.
    G(Exponent),
    Add(Box<ZerofierExpression>, Box<ZerofierExpression>),
    Sub(Box<ZerofierExpression>, Box<ZerofierExpression>),
    Mul(Box<ZerofierExpression>, Box<ZerofierExpression>),
    Div(Box<ZerofierExpression>, Box<ZerofierExpression>),
}

/// Applies `f` when both operands are defined.
pub open spec fn both(
    a: Option<ExtFelt>,
    b: Option<ExtFelt>,
    f: spec_fn(ExtFelt, ExtFelt) -> ExtFelt,
) -> Option<ExtFelt> {
    match (a, b) {
        (Some(u), Some(v)) => Some(f(u, v)),
        _ => None,
    }
}

impl ZerofierExpression {
    /// The value at `x`, for generator `g` and trace length `n`; `None` when an
    /// exponent is undefined for `n` or a divisor is zero.
    pub open spec fn eval_spec(self, x: ExtFelt, g: Felt, n: nat) -> Option<ExtFelt>
        decreases self,
    {
        match self {
            ZerofierExpression::Constant(c) => Some(ext_from_base(c)),
            ZerofierExpression::X(e) => if e.defined_for(n) {
                Some(ext_exp(x, e.power_spec(n)))
            } else {
                None
            },
            ZerofierExpression::G(e) => if e.defined_for(n) {
                Some(ext_exp(ext_from_base(g), e.power_spec(n)))
            } else {
                None
            },
            ZerofierExpression::Add(l, r) => both(
                l.eval_spec(x, g, n),
                r.eval_spec(x, g, n),
                |u: ExtFelt, v: ExtFelt| ext_add(u, v),
            ),
            ZerofierExpression::Sub(l, r) => both(
                l.eval_spec(x, g, n),
                r.eval_spec(x, g, n),
                |u: ExtFelt, v: ExtFelt| ext_sub(u, v),
            ),
            ZerofierExpression::Mul(l, r) => both(
                l.eval_spec(x, g, n),
                r.eval_spec(x, g, n),
                |u: ExtFelt, v: ExtFelt| ext_mul(u, v),
            ),
            ZerofierExpression::Div(l, r) => match (l.eval_spec(x, g, n), r.eval_spec(x, g, n)) {
                (Some(u), Some(v)) => if ext_is_zero(v) {
                    None
                } else {
                    Some(ext_mul(u, ext_inverse(v)))
                },
                _ => None,
            },
        }
    }

    /// Evaluates the expression at `x`, for generator `g` and trace length `n`.
    pub fn eval(&self, x: ExtFelt, g: Felt, n: usize) -> (r: Option<ExtFelt>)
        ensures
            r == self.eval_spec(x, g, n as nat),
        decreases self,
    {
        match self {
            ZerofierExpression::Constant(c) => Some(ExtFelt::from_base(*c)),
            ZerofierExpression::X(e) => {
                if e.is_defined_for(n) {
                    Some(x.exp_u64(e.power(n) as u64))
                } else {
                    None
                }
            },
            ZerofierExpression::G(e) => {
                if e.is_defined_for(n) {
                    Some(ExtFelt::from_base(g).exp_u64(e.power(n) as u64))
                } else {
                    None
                }
            },
            ZerofierExpression::Add(l, r) => match (l.eval(x, g, n), r.eval(x, g, n)) {
                (Some(u), Some(v)) => Some(u.add(v)),
                _ => None,
            },
            ZerofierExpression::Sub(l, r) => match (l.eval(x, g, n), r.eval(x, g, n)) {
                (Some(u), Some(v)) => Some(u.sub(v)),
                _ => None,
            },
            ZerofierExpression::Mul(l, r) => match (l.eval(x, g, n), r.eval(x, g, n)) {
                (Some(u), Some(v)) => Some(u.mul(v)),
                _ => None,
            },
            ZerofierExpression::Div(l, r) => match (l.eval(x, g, n), r.eval(x, g, n)) {
                (Some(u), Some(v)) => match v.try_inverse() {
                    Some(inv) => Some(u.mul(inv)),
                    None => None,
                },
                _ => None,
            },
        }
    }
}

} // verus!
