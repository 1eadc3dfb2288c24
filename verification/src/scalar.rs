//! The arithmetic that the engine computes with.
//!
//! Every numeric routine of this crate is generic over a [`Scalar`]. The trait
//! gives each operation twice: as an executable method and as a specification
//! function that names the value the method returns. Contracts elsewhere in
//! the crate are written over those names, so a formula in a contract reads
//! like the formula it stands for, while the arithmetic itself (rounding,
//! infinities, not-a-number) is whatever the implementing type provides.
use vstd::prelude::*;

verus! {

/// A number type closed under the operations the engine needs.
///
/// The specification functions carry a default so that an implementation
/// written outside of verified code does not have to state them. An
/// implementation written in verified code overrides them with what its
/// methods compute. Each executable method promises only that it returns the
/// value its specification function names: an operation is a function of its
/// operands and of nothing else. Where a number type has several
/// representations of one number that no operation can tell apart, such as
/// the payloads of not-a-number, an implementation is to settle on one. The
/// logarithm, the exponential and the general power are left without a name,
/// since how they round may differ from one platform to the next: each says
/// only which results it admits.
pub trait Scalar: Sized + Copy {
    /// The additive identity.
    open spec fn spec_zero() -> Self {
        arbitrary()
    }

    /// The multiplicative identity.
    open spec fn spec_one() -> Self {
        arbitrary()
    }

    /// The distance from one to the next larger representable number.
    open spec fn spec_epsilon() -> Self {
        arbitrary()
    }

    /// The number that stands for the integer `n`.
    open spec fn spec_from_int(n: int) -> Self {
        arbitrary()
    }

    open spec fn spec_plus(self, rhs: Self) -> Self {
        arbitrary()
    }

    open spec fn spec_minus(self, rhs: Self) -> Self {
        arbitrary()
    }

    open spec fn spec_times(self, rhs: Self) -> Self {
        arbitrary()
    }

    open spec fn spec_over(self, rhs: Self) -> Self {
        arbitrary()
    }

    open spec fn spec_neg(self) -> Self {
        arbitrary()
    }

    open spec fn spec_abs(self) -> Self {
        arbitrary()
    }

    open spec fn spec_sqrt(self) -> Self {
        arbitrary()
    }

    /// The larger of the two operands; the first where neither is larger.
    open spec fn spec_max(self, rhs: Self) -> Self {
        arbitrary()
    }

    /// Strictly less than.
    open spec fn spec_lt(self, rhs: Self) -> bool {
        arbitrary()
    }

    /// Less than or equal to.
    open spec fn spec_le(self, rhs: Self) -> bool {
        arbitrary()
    }

    /// Numerically equal.
    open spec fn spec_equals(self, rhs: Self) -> bool {
        arbitrary()
    }

    /// Neither infinite nor not-a-number.
    open spec fn spec_is_finite(self) -> bool {
        arbitrary()
    }

    /// Carries a negative sign.
    open spec fn spec_is_sign_negative(self) -> bool {
        arbitrary()
    }

    /// The sign of the operand as a number: one, or one negated.
    open spec fn spec_signum(self) -> Self {
        arbitrary()
    }

    /// The operand written out with two digits after the decimal point.
    open spec fn spec_two_decimals(self) -> Seq<char> {
        arbitrary()
    }

    /// Whether `r` is a logarithm of the operand that the implementation
    /// admits. An implementation that does not say admits every number.
    open spec fn ln_admits(self, r: Self) -> bool {
        true
    }

    /// Whether `r` is an exponential of the operand that the implementation
    /// admits. An implementation that does not say admits every number.
    open spec fn exp_admits(self, r: Self) -> bool {
        true
    }

    /// Whether `r` is a power of the operand with `exponent` that the
    /// implementation admits. An implementation that does not say admits
    /// every number.
    open spec fn powf_admits(self, exponent: Self, r: Self) -> bool {
        true
    }

    fn zero() -> (r: Self)
        ensures
            r == Self::spec_zero(),
    ;

    fn one() -> (r: Self)
        ensures
            r == Self::spec_one(),
    ;

    fn epsilon() -> (r: Self)
        ensures
            r == Self::spec_epsilon(),
    ;

    fn from_i16(n: i16) -> (r: Self)
        ensures
            r == Self::spec_from_int(n as int),
    ;

    fn from_usize(n: usize) -> (r: Self)
        ensures
            r == Self::spec_from_int(n as int),
    ;

    fn plus(self, rhs: Self) -> (r: Self)
        ensures
            r == self.spec_plus(rhs),
    ;

    fn minus(self, rhs: Self) -> (r: Self)
        ensures
            r == self.spec_minus(rhs),
    ;

    fn times(self, rhs: Self) -> (r: Self)
        ensures
            r == self.spec_times(rhs),
    ;

    fn over(self, rhs: Self) -> (r: Self)
        ensures
            r == self.spec_over(rhs),
    ;

    fn neg(self) -> (r: Self)
        ensures
            r == self.spec_neg(),
    ;

    fn abs(self) -> (r: Self)
        ensures
            r == self.spec_abs(),
    ;

    fn sqrt(self) -> (r: Self)
        ensures
            r == self.spec_sqrt(),
    ;

    fn max(self, rhs: Self) -> (r: Self)
        ensures
            r == self.spec_max(rhs),
    ;

    fn lt(self, rhs: Self) -> (b: bool)
        ensures
            b == self.spec_lt(rhs),
    ;

    fn le(self, rhs: Self) -> (b: bool)
        ensures
            b == self.spec_le(rhs),
    ;

    fn equals(self, rhs: Self) -> (b: bool)
        ensures
            b == self.spec_equals(rhs),
    ;

    fn is_finite(self) -> (b: bool)
        ensures
            b == self.spec_is_finite(),
    ;

    fn is_sign_negative(self) -> (b: bool)
        ensures
            b == self.spec_is_sign_negative(),
    ;

    fn signum(self) -> (r: Self)
        ensures
            r == self.spec_signum(),
    ;

    fn two_decimals(self) -> (text: String)
        ensures
            text@ == self.spec_two_decimals(),
    ;

    /// The natural logarithm. How it rounds is left to the implementation.
    fn ln(self) -> (r: Self)
        ensures
            self.ln_admits(r),
    ;

    /// The exponential function. How it rounds is left to the implementation.
    fn exp(self) -> (r: Self)
        ensures
            self.exp_admits(r),
    ;

    /// The operand raised to the power `exponent`. How it rounds is left to
    /// the implementation.
    fn powf(self, exponent: Self) -> (r: Self)
        ensures
            self.powf_admits(exponent, r),
    ;
}

} // verus!
