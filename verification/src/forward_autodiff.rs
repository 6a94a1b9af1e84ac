use vstd::prelude::*;

use core::cmp::Ordering;
use core::ops::{Add, AddAssign, Div, DivAssign, Mul, MulAssign, Neg, Sub, SubAssign};

use vstd::std_specs::cmp::{PartialEqSpecImpl, PartialOrdSpecImpl};
use vstd::std_specs::convert::FromSpecImpl;
use vstd::std_specs::ops::{AddSpecImpl, DivSpecImpl, MulSpecImpl, NegSpecImpl, SubSpecImpl};

use crate::{DualNum, DualNumFloat, FloatConstant};

verus! {

/// A dual number `re + eps·ε` with `ε² = 0`: a value and its derivative.
#[derive(Clone, Copy, Debug)]
pub struct Dual<T: DualNumFloat> {
    pub re: T,
    pub eps: T,
}

/* The dual-number algebra, over the scalar operations of `T`. */
impl<T: DualNumFloat> Dual<T> {
    /// A constant: derivative part zero.
    pub open spec fn lift(re: T) -> Self {
        Dual { re, eps: T::spec_zero() }
    }

    /// The independent variable: derivative part one.
    pub open spec fn variable(re: T) -> Self {
        Dual { re, eps: T::spec_one() }
    }

    /// Sum rule.
    pub open spec fn sum(self, rhs: Self) -> Self {
        Dual { re: self.re.spec_add(rhs.re), eps: self.eps.spec_add(rhs.eps) }
    }

    /// Difference rule.
    pub open spec fn difference(self, rhs: Self) -> Self {
        Dual { re: self.re.spec_sub(rhs.re), eps: self.eps.spec_sub(rhs.eps) }
    }

    /// Product rule: `(a·b)' = a'·b + a·b'`.
    pub open spec fn product(self, rhs: Self) -> Self {
        Dual {
            re: self.re.spec_mul(rhs.re),
            eps: self.eps.spec_mul(rhs.re).spec_add(self.re.spec_mul(rhs.eps)),
        }
    }

    /// Quotient rule: `(a/b)' = (a'·b - b'·a) / b²`, computed with `1/b`.
    pub open spec fn quotient(self, rhs: Self) -> Self {
        let inv = rhs.re.spec_recip();
        Dual {
            re: self.re.spec_mul(inv),
            eps: self.eps.spec_mul(rhs.re).spec_sub(rhs.eps.spec_mul(self.re)).spec_mul(
                inv,
            ).spec_mul(inv),
        }
    }

    pub open spec fn negation(self) -> Self {
        Dual { re: self.re.spec_neg(), eps: self.eps.spec_neg() }
    }

    /// Chain rule: `f(a)` where `f0 = f(a.re)` and `f1 = f'(a.re)`.
    pub open spec fn chained(self, f0: T, f1: T) -> Self {
        Dual { re: f0, eps: self.eps.spec_mul(f1) }
    }

    /// Sine, with derivative `cos`.
    pub open spec fn sine(self) -> Self {
        self.chained(self.re.spec_sin(), self.re.spec_cos())
    }

    /// Cosine, with derivative `-sin`.
    pub open spec fn cosine(self) -> Self {
        self.chained(self.re.spec_cos(), self.re.spec_sin().spec_neg())
    }

    /// Square root, with derivative `sqrt(x) * (1/x) * 1/2`.
    pub open spec fn square_root(self) -> Self {
        let s = self.re.spec_sqrt();
        self.chained(s, s.spec_mul(self.re.spec_recip()).spec_mul(T::spec_half()))
    }

    /// Integer power `self^n`, with derivative `n * x^(n-1)`; the zeroth power
    /// is the constant one.  For `n = i32::MIN`, whose `n - 1` is no `i32`, the
    /// derivative is computed as `n * x^n * (1/x)`.
    pub open spec fn power(self, n: i32) -> Self {
        if n == 0 {
            Self::lift(T::spec_one())
        } else if n == i32::MIN {
            let p = self.re.spec_powi(n);
            self.chained(p, T::spec_from_i32(n).spec_mul(p).spec_mul(self.re.spec_recip()))
        } else {
            self.chained(
                self.re.spec_powi(n),
                T::spec_from_i32(n).spec_mul(self.re.spec_powi((n - 1) as i32)),
            )
        }
    }

    /// `self.re > 0`.
    pub open spec fn positive(self) -> bool {
        T::spec_zero().spec_lt(self.re)
    }

    /// `self.re < 0`.
    pub open spec fn negative(self) -> bool {
        self.re.spec_lt(T::spec_zero())
    }

    /// The absolute value: `self` when its real part is positive, else `-self`.
    pub open spec fn absolute(self) -> Self {
        if self.positive() {
            self
        } else {
            self.negation()
        }
    }

    /// One when the real part is positive, zero when it equals zero, minus one
    /// otherwise (all constants).
    pub open spec fn sign(self) -> Self {
        if self.positive() {
            Self::lift(T::spec_one())
        } else if self.re.spec_eq(T::spec_zero()) {
            Self::lift(T::spec_zero())
        } else {
            Self::lift(T::spec_one()).negation()
        }
    }

    /// `self - other` when `other.re < self.re`, else the constant zero.
    pub open spec fn positive_difference(self, other: Self) -> Self {
        if other.re.spec_lt(self.re) {
            self.difference(other)
        } else {
            Self::lift(T::spec_zero())
        }
    }

    /// The absolute value of `self`, negated unless the sign bit of `sign`'s
    /// real part is clear.
    pub open spec fn with_sign_of(self, sign: Self) -> Self {
        if sign.re.spec_is_sign_positive() {
            self.absolute()
        } else {
            self.absolute().negation()
        }
    }

    /// The argument of a real number: the constant zero when the real part is
    /// at least zero, the constant pi otherwise.
    pub open spec fn arg(self) -> Self {
        if T::spec_zero().spec_lt(self.re) || self.re.spec_eq(T::spec_zero()) {
            Self::lift(T::spec_zero())
        } else {
            Self::lift(T::spec_constant(FloatConstant::Pi))
        }
    }

    /// `other` when it is greater, else `self`.
    pub open spec fn maximum(self, other: Self) -> Self {
        if other.greater(self) {
            other
        } else {
            self
        }
    }

    /// `other` when it is less, else `self`.
    pub open spec fn minimum(self, other: Self) -> Self {
        if other.less(self) {
            other
        } else {
            self
        }
    }

    /// `min` below it, `max` above it, `self` otherwise.
    pub open spec fn clamped(self, min: Self, max: Self) -> Self {
        if self.less(min) {
            min
        } else if self.greater(max) {
            max
        } else {
            self
        }
    }

    /// The order of two dual numbers, decided by their real parts.
    pub open spec fn compare(self, other: Self) -> Option<Ordering> {
        if self.re.spec_lt(other.re) {
            Some(Ordering::Less)
        } else if other.re.spec_lt(self.re) {
            Some(Ordering::Greater)
        } else if self.re.spec_eq(other.re) {
            Some(Ordering::Equal)
        } else {
            None
        }
    }

    pub open spec fn greater(self, other: Self) -> bool {
        self.compare(other) == Some(Ordering::Greater)
    }

    pub open spec fn less(self, other: Self) -> bool {
        self.compare(other) == Some(Ordering::Less)
    }
}

impl<T: DualNumFloat> Dual<T> {
    pub fn new(re: T, eps: T) -> (r: Self)
        ensures
            r.re == re,
            r.eps == eps,
    {
        Self { re, eps }
    }

    /// Create a new dual number from the real part.
    pub fn from_re(re: T) -> (r: Self)
        ensures
            r == Self::lift(re),
    {
        Self::new(re, T::zero())
    }

    /// Set the derivative part to 1.
    ///
    /// For example `from_re(5).derivative().powi(2)` has value 25 and
    /// derivative 10.
    pub fn derivative(self) -> (r: Self)
        ensures
            r == Self::variable(self.re),
    {
        let mut s = self;
        s.eps = T::one();
        s
    }

    /// Apply a function with value `f0` and derivative `f1` at `self.re`.
    pub fn chain_rule(&self, f0: T, f1: T) -> (r: Self)
        ensures
            r == self.chained(f0, f1),
    {
        Self::new(f0, self.eps.mul(f1))
    }
}

impl<T: DualNumFloat> DualNum<T> for Dual<T> {
    fn sin(&self) -> (r: Self)
        ensures
            r == self.sine(),
    {
        let (s, c) = self.re.sin_cos();
        self.chain_rule(s, c)
    }

    fn cos(&self) -> (r: Self)
        ensures
            r == self.cosine(),
    {
        let (s, c) = self.re.sin_cos();
        self.chain_rule(c, s.neg())
    }

    fn sin_cos(&self) -> (r: (Self, Self))
        ensures
            r == (self.sine(), self.cosine()),
    {
        let (s, c) = self.re.sin_cos();
        (self.chain_rule(s, c), self.chain_rule(c, s.neg()))
    }

    /// `sqrt'(x) = sqrt(x) · (1/x) · 1/2`.
    fn sqrt(&self) -> (r: Self)
        ensures
            r == self.square_root(),
    {
        let rec = self.re.recip();
        let half = T::half();
        let f0 = self.re.sqrt();
        let f1 = f0.mul(rec).mul(half);
        self.chain_rule(f0, f1)
    }
}

impl<T: DualNumFloat> From<T> for Dual<T> {
    fn from(value: T) -> (r: Self)
        ensures
            r == Self::lift(value),
    {
        Self::from_re(value)
    }
}

impl<T: DualNumFloat> FromSpecImpl<T> for Dual<T> {
    open spec fn obeys_from_spec() -> bool {
        true
    }

    open spec fn from_spec(v: T) -> Self {
        Self::lift(v)
    }
}

/* dual ∘ dual */
impl<T: DualNumFloat> Add for Dual<T> {
    type Output = Dual<T>;

    fn add(self, rhs: Self) -> (r: Self::Output)
        ensures
            r == self.sum(rhs),
    {
        Dual { re: self.re.add(rhs.re), eps: self.eps.add(rhs.eps) }
    }
}

impl<T: DualNumFloat> AddSpecImpl for Dual<T> {
    open spec fn obeys_add_spec() -> bool {
        true
    }

    open spec fn add_req(self, rhs: Self) -> bool {
        true
    }

    open spec fn add_spec(self, rhs: Self) -> Self {
        self.sum(rhs)
    }
}

impl<T: DualNumFloat> Sub for Dual<T> {
    type Output = Dual<T>;

    fn sub(self, rhs: Self) -> (r: Self::Output)
        ensures
            r == self.difference(rhs),
    {
        Dual { re: self.re.sub(rhs.re), eps: self.eps.sub(rhs.eps) }
    }
}

impl<T: DualNumFloat> SubSpecImpl for Dual<T> {
    open spec fn obeys_sub_spec() -> bool {
        true
    }

    open spec fn sub_req(self, rhs: Self) -> bool {
        true
    }

    open spec fn sub_spec(self, rhs: Self) -> Self {
        self.difference(rhs)
    }
}

/* product rule */
impl<T: DualNumFloat> Mul for Dual<T> {
    type Output = Dual<T>;

    fn mul(self, rhs: Self) -> (r: Self::Output)
        ensures
            r == self.product(rhs),
    {
        Dual { re: self.re.mul(rhs.re), eps: self.eps.mul(rhs.re).add(self.re.mul(rhs.eps)) }
    }
}

impl<T: DualNumFloat> MulSpecImpl for Dual<T> {
    open spec fn obeys_mul_spec() -> bool {
        true
    }

    open spec fn mul_req(self, rhs: Self) -> bool {
        true
    }

    open spec fn mul_spec(self, rhs: Self) -> Self {
        self.product(rhs)
    }
}

/* quotient rule */
impl<T: DualNumFloat> Div for Dual<T> {
    type Output = Dual<T>;

    fn div(self, other: Self) -> (r: Self::Output)
        ensures
            r == self.quotient(other),
    {
        let inv = other.re.recip();
        Dual::new(
            self.re.mul(inv),
            self.eps.mul(other.re).sub(other.eps.mul(self.re)).mul(inv).mul(inv),
        )
    }
}

impl<T: DualNumFloat> DivSpecImpl for Dual<T> {
    open spec fn obeys_div_spec() -> bool {
        true
    }

    open spec fn div_req(self, rhs: Self) -> bool {
        true
    }

    open spec fn div_spec(self, rhs: Self) -> Self {
        self.quotient(rhs)
    }
}

impl<T: DualNumFloat> Neg for Dual<T> {
    type Output = Dual<T>;

    fn neg(self) -> (r: Self::Output)
        ensures
            r == self.negation(),
    {
        Self::new(self.re.neg(), self.eps.neg())
    }
}

impl<T: DualNumFloat> NegSpecImpl for Dual<T> {
    open spec fn obeys_neg_spec() -> bool {
        true
    }

    open spec fn neg_req(self) -> bool {
        true
    }

    open spec fn neg_spec(self) -> Self {
        self.negation()
    }
}

/* dual ∘ scalar: the scalar is lifted to a constant */
impl<T: DualNumFloat> Add<T> for Dual<T> {
    type Output = Dual<T>;

    fn add(self, rhs: T) -> (r: Self::Output)
        ensures
            r == self.sum(Self::lift(rhs)),
    {
        self + Self::from_re(rhs)
    }
}

impl<T: DualNumFloat> AddSpecImpl<T> for Dual<T> {
    open spec fn obeys_add_spec() -> bool {
        true
    }

    open spec fn add_req(self, rhs: T) -> bool {
        true
    }

    open spec fn add_spec(self, rhs: T) -> Self {
        self.sum(Self::lift(rhs))
    }
}

impl<T: DualNumFloat> Sub<T> for Dual<T> {
    type Output = Dual<T>;

    fn sub(self, rhs: T) -> (r: Self::Output)
        ensures
            r == self.difference(Self::lift(rhs)),
    {
        self - Self::from_re(rhs)
    }
}

impl<T: DualNumFloat> SubSpecImpl<T> for Dual<T> {
    open spec fn obeys_sub_spec() -> bool {
        true
    }

    open spec fn sub_req(self, rhs: T) -> bool {
        true
    }

    open spec fn sub_spec(self, rhs: T) -> Self {
        self.difference(Self::lift(rhs))
    }
}

impl<T: DualNumFloat> Mul<T> for Dual<T> {
    type Output = Dual<T>;

    fn mul(self, rhs: T) -> (r: Self::Output)
        ensures
            r == self.product(Self::lift(rhs)),
    {
        self * Self::from_re(rhs)
    }
}

impl<T: DualNumFloat> MulSpecImpl<T> for Dual<T> {
    open spec fn obeys_mul_spec() -> bool {
        true
    }

    open spec fn mul_req(self, rhs: T) -> bool {
        true
    }

    open spec fn mul_spec(self, rhs: T) -> Self {
        self.product(Self::lift(rhs))
    }
}

impl<T: DualNumFloat> Div<T> for Dual<T> {
    type Output = Dual<T>;

    fn div(self, rhs: T) -> (r: Self::Output)
        ensures
            r == self.quotient(Self::lift(rhs)),
    {
        self / Self::from_re(rhs)
    }
}

impl<T: DualNumFloat> DivSpecImpl<T> for Dual<T> {
    open spec fn obeys_div_spec() -> bool {
        true
    }

    open spec fn div_req(self, rhs: T) -> bool {
        true
    }

    open spec fn div_spec(self, rhs: T) -> Self {
        self.quotient(Self::lift(rhs))
    }
}

/* compound assignment */
impl<T: DualNumFloat> MulAssign for Dual<T> {
    fn mul_assign(&mut self, rhs: Self)
        ensures
            *final(self) == old(self).product(rhs),
    {
        *self = *self * rhs;
    }
}

impl<T: DualNumFloat> DivAssign for Dual<T> {
    fn div_assign(&mut self, rhs: Self)
        ensures
            *final(self) == old(self).quotient(rhs),
    {
        *self = *self / rhs;
    }
}

impl<T: DualNumFloat> AddAssign for Dual<T> {
    fn add_assign(&mut self, rhs: Self)
        ensures
            *final(self) == old(self).sum(rhs),
    {
        self.re = self.re.add(rhs.re);
        self.eps = self.eps.add(rhs.eps);
    }
}

impl<T: DualNumFloat> SubAssign for Dual<T> {
    fn sub_assign(&mut self, rhs: Self)
        ensures
            *final(self) == old(self).difference(rhs),
    {
        self.re = self.re.sub(rhs.re);
        self.eps = self.eps.sub(rhs.eps);
    }
}

/* comparison looks at the real part only */
impl<T: DualNumFloat> PartialEq for Dual<T> {
    fn eq(&self, other: &Self) -> (r: bool) {
        self.re.eq(other.re)
    }
}

impl<T: DualNumFloat> PartialEqSpecImpl for Dual<T> {
    open spec fn obeys_eq_spec() -> bool {
        true
    }

    open spec fn eq_spec(&self, other: &Self) -> bool {
        self.re.spec_eq(other.re)
    }
}

impl<T: DualNumFloat> PartialOrd for Dual<T> {
    fn partial_cmp(&self, other: &Self) -> (r: Option<Ordering>) {
        if self.re.lt(other.re) {
            Some(Ordering::Less)
        } else if other.re.lt(self.re) {
            Some(Ordering::Greater)
        } else if self.re.eq(other.re) {
            Some(Ordering::Equal)
        } else {
            None
        }
    }
}

impl<T: DualNumFloat> PartialOrdSpecImpl for Dual<T> {
    open spec fn obeys_partial_cmp_spec() -> bool {
        true
    }

    open spec fn partial_cmp_spec(&self, other: &Self) -> Option<Ordering> {
        self.compare(*other)
    }
}

/* sign, zero and one */
impl<T: DualNumFloat> Dual<T> {
    /// `self` when its real part is positive, else `-self`.
    pub fn abs(&self) -> (r: Self)
        ensures
            r == self.absolute(),
    {
        if self.is_positive() {
            *self
        } else {
            (*self).neg()
        }
    }

    /// `self - other` when `self.re > other.re`, else zero.
    pub fn abs_sub(&self, other: &Self) -> (r: Self)
        ensures
            r == self.positive_difference(*other),
    {
        if other.re.lt(self.re) {
            *self - *other
        } else {
            Self::zero()
        }
    }

    /// One when the real part is positive, zero when it equals zero, minus one
    /// otherwise.
    pub fn signum(&self) -> (r: Self)
        ensures
            r == self.sign(),
    {
        if self.is_positive() {
            Self::one()
        } else if self.is_zero() {
            Self::zero()
        } else {
            Self::one().neg()
        }
    }

    /// `self.re > 0`.
    pub fn is_positive(&self) -> (r: bool)
        ensures
            r == self.positive(),
    {
        T::zero().lt(self.re)
    }

    /// `self.re < 0`.
    pub fn is_negative(&self) -> (r: bool)
        ensures
            r == self.negative(),
    {
        self.re.lt(T::zero())
    }

    pub fn zero() -> (r: Self)
        ensures
            r == Self::lift(T::spec_zero()),
    {
        Self::from_re(T::zero())
    }

    /// Whether the real part is zero.
    pub fn is_zero(&self) -> (r: bool)
        ensures
            r == self.re.spec_eq(T::spec_zero()),
    {
        self.re.eq(T::zero())
    }

    pub fn one() -> (r: Self)
        ensures
            r == Self::lift(T::spec_one()),
    {
        Self::from_re(T::one())
    }

    /// Whether the real part is one.
    pub fn is_one(&self) -> (r: bool)
        ensures
            r == self.re.spec_eq(T::spec_one()),
    {
        self.re.eq(T::one())
    }

    /// The constant nearest to an integer, if the scalar type has one.
    pub fn from_i64(n: i64) -> (r: Option<Self>)
        ensures
            r == (match T::spec_from_i64(n) {
                Some(v) => Some(Self::lift(v)),
                None => None,
            }),
    {
        match T::from_i64(n) {
            Some(v) => Some(Self::from_re(v)),
            None => None,
        }
    }

    pub fn from_u64(n: u64) -> (r: Option<Self>)
        ensures
            r == (match T::spec_from_u64(n) {
                Some(v) => Some(Self::lift(v)),
                None => None,
            }),
    {
        match T::from_u64(n) {
            Some(v) => Some(Self::from_re(v)),
            None => None,
        }
    }
}

/* a dual number as a (real) complex field element */
impl<T: DualNumFloat> Dual<T> {
    /// Builds a pure-real complex number from the given value.
    pub fn from_real(re: Self) -> (r: Self)
        ensures
            r == re,
    {
        re
    }

    /// The real part of this complex number: the number itself.
    pub fn real_part(self) -> (r: Self)
        ensures
            r == self,
    {
        self
    }

    /// The imaginary part of this complex number: zero.
    pub fn imaginary(self) -> (r: Self)
        ensures
            r == Self::lift(T::spec_zero()),
    {
        Self::zero()
    }

    /// The modulus: the absolute value.
    pub fn modulus(self) -> (r: Self)
        ensures
            r == self.absolute(),
    {
        self.abs()
    }

    /// The squared modulus: `self * self`.
    pub fn modulus_squared(self) -> (r: Self)
        ensures
            r == self.product(self),
    {
        self * self
    }

    /// The sum of the absolute values of the real and imaginary parts.
    pub fn norm1(self) -> (r: Self)
        ensures
            r == self.absolute(),
    {
        self.abs()
    }

    /// The argument of this (real) complex number: zero when the real part is
    /// at least zero, pi otherwise, as a constant.
    pub fn argument(self) -> (r: Self)
        ensures
            r == self.arg(),
    {
        let zero = T::zero();
        if zero.lt(self.re) || self.re.eq(zero) {
            Self::zero()
        } else {
            Self::pi()
        }
    }

    /// `(self.conjugate() * self + other.conjugate() * other).sqrt()`.
    pub fn hypot(self, other: Self) -> (r: Self)
        ensures
            r == self.product(self).sum(other.product(other)).square_root(),
    {
        let s = self.conjugate() * self + other.conjugate() * other;
        s.sqrt()
    }

    /// `self` to the integer power `n`, by the power rule.
    pub fn powi(&self, n: i32) -> (r: Self)
        ensures
            r == self.power(n),
    {
        if n == 0 {
            Self::one()
        } else if n == i32::MIN {
            let p = self.re.powi(n);
            self.chain_rule(p, T::from_i32(n).mul(p).mul(self.re.recip()))
        } else {
            let p = self.re.powi(n);
            self.chain_rule(p, T::from_i32(n).mul(self.re.powi(n - 1)))
        }
    }

    /// Multiplies by `factor`.
    pub fn scale(self, factor: Self) -> (r: Self)
        ensures
            r == self.product(factor),
    {
        self * factor
    }

    /// Divides by `factor`.
    pub fn unscale(self, factor: Self) -> (r: Self)
        ensures
            r == self.quotient(factor),
    {
        self / factor
    }

    /// The conjugate of a real number: the number itself.
    pub fn conjugate(self) -> (r: Self)
        ensures
            r == self,
    {
        self
    }
}

/* a dual number as a real field element */
impl<T: DualNumFloat> Dual<T> {
    /// The absolute value of `self` with the sign of `sign`'s real part.
    pub fn copysign(self, sign: Self) -> (r: Self)
        ensures
            r == self.with_sign_of(sign),
    {
        if sign.re.is_sign_positive() {
            self.abs()
        } else {
            self.abs().neg()
        }
    }

    /// A scalar constant, lifted.
    pub open spec fn lifted_constant(c: FloatConstant) -> Self {
        Self::lift(T::spec_constant(c))
    }

    pub fn pi() -> (r: Self)
        ensures
            r == Self::lifted_constant(FloatConstant::Pi),
    {
        Self::from_re(T::constant(FloatConstant::Pi))
    }

    pub fn two_pi() -> (r: Self)
        ensures
            r == Self::lifted_constant(FloatConstant::Tau),
    {
        Self::from_re(T::constant(FloatConstant::Tau))
    }

    /// Lifts the scalar constant π/4 (not π/2).
    pub fn frac_pi_2() -> (r: Self)
        ensures
            r == Self::lifted_constant(FloatConstant::FracPi4),
    {
        Self::from_re(T::constant(FloatConstant::FracPi4))
    }

    pub fn frac_pi_3() -> (r: Self)
        ensures
            r == Self::lifted_constant(FloatConstant::FracPi3),
    {
        Self::from_re(T::constant(FloatConstant::FracPi3))
    }

    pub fn frac_pi_4() -> (r: Self)
        ensures
            r == Self::lifted_constant(FloatConstant::FracPi4),
    {
        Self::from_re(T::constant(FloatConstant::FracPi4))
    }

    pub fn frac_pi_6() -> (r: Self)
        ensures
            r == Self::lifted_constant(FloatConstant::FracPi6),
    {
        Self::from_re(T::constant(FloatConstant::FracPi6))
    }

    pub fn frac_pi_8() -> (r: Self)
        ensures
            r == Self::lifted_constant(FloatConstant::FracPi8),
    {
        Self::from_re(T::constant(FloatConstant::FracPi8))
    }

    pub fn frac_1_pi() -> (r: Self)
        ensures
            r == Self::lifted_constant(FloatConstant::Frac1Pi),
    {
        Self::from_re(T::constant(FloatConstant::Frac1Pi))
    }

    pub fn frac_2_pi() -> (r: Self)
        ensures
            r == Self::lifted_constant(FloatConstant::Frac2Pi),
    {
        Self::from_re(T::constant(FloatConstant::Frac2Pi))
    }

    pub fn frac_2_sqrt_pi() -> (r: Self)
        ensures
            r == Self::lifted_constant(FloatConstant::Frac2SqrtPi),
    {
        Self::from_re(T::constant(FloatConstant::Frac2SqrtPi))
    }

    pub fn e() -> (r: Self)
        ensures
            r == Self::lifted_constant(FloatConstant::E),
    {
        Self::from_re(T::constant(FloatConstant::E))
    }

    pub fn log2_e() -> (r: Self)
        ensures
            r == Self::lifted_constant(FloatConstant::Log2E),
    {
        Self::from_re(T::constant(FloatConstant::Log2E))
    }

    pub fn log10_e() -> (r: Self)
        ensures
            r == Self::lifted_constant(FloatConstant::Log10E),
    {
        Self::from_re(T::constant(FloatConstant::Log10E))
    }

    pub fn ln_2() -> (r: Self)
        ensures
            r == Self::lifted_constant(FloatConstant::Ln2),
    {
        Self::from_re(T::constant(FloatConstant::Ln2))
    }

    pub fn ln_10() -> (r: Self)
        ensures
            r == Self::lifted_constant(FloatConstant::Ln10),
    {
        Self::from_re(T::constant(FloatConstant::Ln10))
    }

    pub fn is_sign_positive(&self) -> (r: bool)
        ensures
            r == self.re.spec_is_sign_positive(),
    {
        self.re.is_sign_positive()
    }

    pub fn is_sign_negative(&self) -> (r: bool)
        ensures
            r == self.re.spec_is_sign_negative(),
    {
        self.re.is_sign_negative()
    }

    /// The greater of the two by real part (`self` on a tie or when they are
    /// unordered); the derivative of the other one is dropped.
    pub fn max(self, other: Self) -> (r: Self)
        ensures
            r == self.maximum(other),
    {
        if other > self {
            other
        } else {
            self
        }
    }

    /// The lesser of the two by real part (`self` on a tie or when they are
    /// unordered); the derivative of the other one is dropped.
    pub fn min(self, other: Self) -> (r: Self)
        ensures
            r == self.minimum(other),
    {
        if other < self {
            other
        } else {
            self
        }
    }

    /// `min` below the range, `max` above it, `self` otherwise.
    pub fn clamp(self, min: Self, max: Self) -> (r: Self)
        ensures
            r == self.clamped(min, max),
    {
        if self < min {
            min
        } else if self > max {
            max
        } else {
            self
        }
    }

    pub fn min_value() -> (r: Option<Self>)
        ensures
            r == Some(Self::lift(T::spec_min_value())),
    {
        Some(Self::from_re(T::min_value()))
    }

    pub fn max_value() -> (r: Option<Self>)
        ensures
            r == Some(Self::lift(T::spec_max_value())),
    {
        Some(Self::from_re(T::max_value()))
    }
}

} // verus!
