//! Forward-mode automatic differentiation with dual numbers.
//!
//! A dual number `re + eps·ε` (with `ε² = 0`) carries a value together with a
//! derivative.  Every operation on `Dual` applies the matching rule of
//! differentiation (sum, product, quotient and chain rule) to the `eps` part, so
//! evaluating a function on `x + 1·ε` yields `f(x) + f'(x)·ε`.
//!
//! The arithmetic is generic over the scalar type `T: DualNumFloat`.  The
//! contracts of this crate state each operation over the scalar operations of
//! `T` (`spec_add`, `spec_mul`, ...), so they hold for every scalar type; the
//! module `laws` proves what follows when the scalar arithmetic is exact.
use vstd::prelude::*;

pub mod forward_autodiff;
pub mod laws;

pub use forward_autodiff::Dual;

verus! {

/// The constants of a floating-point scalar type that the dual numbers lift.
#[derive(Clone, Copy, Debug, PartialEq, Eq, Structural)]
pub enum FloatConstant {
    Pi,
    Tau,
    FracPi2,
    FracPi3,
    FracPi4,
    FracPi6,
    FracPi8,
    Frac1Pi,
    Frac2Pi,
    Frac2SqrtPi,
    E,
    Log2E,
    Log10E,
    Ln2,
    Ln10,
}

/// The scalar type underneath a dual number (`f32` and `f64` in practice).
///
/// Each operation is described by a spec function of the same name.  An
/// implementor promises that the executable operation returns exactly the
/// value of its spec function, that is, that each operation is a function of
/// its arguments; nothing else is assumed of the scalar arithmetic.  In
/// particular nothing here says that it is exact: floating-point addition is not
/// associative, and the laws that need exact arithmetic ask for it explicitly
/// (see `laws::exact_arithmetic`).  An implementation outside Verus gives each
/// spec function the body of its operation.
pub trait DualNumFloat: Copy + Sized {
    /// The additive identity.
    spec fn spec_zero() -> Self;

    /// The multiplicative identity.
    spec fn spec_one() -> Self;

    /// One half.
    spec fn spec_half() -> Self;

    spec fn spec_add(self, rhs: Self) -> Self;

    spec fn spec_sub(self, rhs: Self) -> Self;

    spec fn spec_mul(self, rhs: Self) -> Self;

    spec fn spec_neg(self) -> Self;

    /// The reciprocal `1 / self`.
    spec fn spec_recip(self) -> Self;

    spec fn spec_sqrt(self) -> Self;

    /// `self` to the integer power `n`.
    spec fn spec_powi(self, n: i32) -> Self;

    spec fn spec_sin(self) -> Self;

    spec fn spec_cos(self) -> Self;

    /// Equality of scalars (`==` of the float type).
    spec fn spec_eq(self, rhs: Self) -> bool;

    /// Strict order of scalars (`<` of the float type).
    spec fn spec_lt(self, rhs: Self) -> bool;

    spec fn spec_is_sign_positive(self) -> bool;

    spec fn spec_is_sign_negative(self) -> bool;

    /// The scalar nearest to an integer, where there is one.
    spec fn spec_from_i64(n: i64) -> Option<Self>;

    spec fn spec_from_u64(n: u64) -> Option<Self>;

    /// The scalar equal to a 32-bit integer (floats hold every one of them, up
    /// to rounding).
    spec fn spec_from_i32(n: i32) -> Self;

    /// The most negative finite value.
    spec fn spec_min_value() -> Self;

    /// The largest finite value.
    spec fn spec_max_value() -> Self;

    spec fn spec_constant(c: FloatConstant) -> Self;

    fn zero() -> (r: Self)
        ensures
            r == Self::spec_zero(),
    ;

    fn one() -> (r: Self)
        ensures
            r == Self::spec_one(),
    ;

    fn half() -> (r: Self)
        ensures
            r == Self::spec_half(),
    ;

    fn add(self, rhs: Self) -> (r: Self)
        ensures
            r == self.spec_add(rhs),
    ;

    fn sub(self, rhs: Self) -> (r: Self)
        ensures
            r == self.spec_sub(rhs),
    ;

    fn mul(self, rhs: Self) -> (r: Self)
        ensures
            r == self.spec_mul(rhs),
    ;

    fn neg(self) -> (r: Self)
        ensures
            r == self.spec_neg(),
    ;

    fn recip(self) -> (r: Self)
        ensures
            r == self.spec_recip(),
    ;

    fn sqrt(self) -> (r: Self)
        ensures
            r == self.spec_sqrt(),
    ;

    fn powi(self, n: i32) -> (r: Self)
        ensures
            r == self.spec_powi(n),
    ;

    /// Sine and cosine together.
    fn sin_cos(self) -> (r: (Self, Self))
        ensures
            r == (self.spec_sin(), self.spec_cos()),
    ;

    fn eq(self, rhs: Self) -> (r: bool)
        ensures
            r == self.spec_eq(rhs),
    ;

    fn lt(self, rhs: Self) -> (r: bool)
        ensures
            r == self.spec_lt(rhs),
    ;

    fn is_sign_positive(self) -> (r: bool)
        ensures
            r == self.spec_is_sign_positive(),
    ;

    fn is_sign_negative(self) -> (r: bool)
        ensures
            r == self.spec_is_sign_negative(),
    ;

    fn from_i64(n: i64) -> (r: Option<Self>)
        ensures
            r == Self::spec_from_i64(n),
    ;

    fn from_u64(n: u64) -> (r: Option<Self>)
        ensures
            r == Self::spec_from_u64(n),
    ;

    fn from_i32(n: i32) -> (r: Self)
        ensures
            r == Self::spec_from_i32(n),
    ;

    fn min_value() -> (r: Self)
        ensures
            r == Self::spec_min_value(),
    ;

    fn max_value() -> (r: Self)
        ensures
            r == Self::spec_max_value(),
    ;

    fn constant(c: FloatConstant) -> (r: Self)
        ensures
            r == Self::spec_constant(c),
    ;
}

/// Elementary functions on a dual number, differentiated by the chain rule.
pub trait DualNum<T: DualNumFloat>: Sized {
    fn sin(&self) -> Self;

    fn cos(&self) -> Self;

    fn sin_cos(&self) -> (Self, Self);

    fn sqrt(&self) -> Self;
}

/// A dual number type that is also ordered like a real number.
pub trait RealDualNum<T: DualNumFloat>: DualNum<T> {

}

/// The input `x` with every derivative part cleared but the one of entry `i`,
/// which is set to one: the direction in which `jacobian` differentiates.
pub open spec fn seeded<T: DualNumFloat>(x: Seq<Dual<T>>, i: int) -> Seq<Dual<T>> {
    Seq::new(
        x.len(),
        |j: int|
            if j == i {
                Dual { re: x[j].re, eps: T::spec_one() }
            } else {
                Dual { re: x[j].re, eps: T::spec_zero() }
            },
    )
}

/// The derivative parts of a sequence of dual numbers.
pub open spec fn derivative_parts<T: DualNumFloat>(y: Seq<Dual<T>>) -> Seq<T> {
    y.map_values(|d: Dual<T>| d.eps)
}

/// `row` holds the derivative parts of one possible result of `g` on `x`
/// seeded in direction `i`.
pub open spec fn is_jacobian_row<T: DualNumFloat, G: Fn(&Vec<Dual<T>>) -> Vec<Dual<T>>>(
    g: G,
    x: Seq<Dual<T>>,
    i: int,
    row: Seq<T>,
) -> bool {
    exists|v: Vec<Dual<T>>, y: Vec<Dual<T>>|
        {
            &&& v@ == seeded(x, i)
            &&& #[trigger] g.ensures((&v,), y)
            &&& row == derivative_parts(y@)
        }
}

fn seed<T: DualNumFloat>(x: &Vec<Dual<T>>, i: usize) -> (r: Vec<Dual<T>>)
    ensures
        r@ == seeded(x@, i as int),
{
    let mut r: Vec<Dual<T>> = Vec::new();
    let n = x.len();
    for j in 0..n
        invariant
            n == x@.len(),
            r@.len() == j,
            forall|k: int| 0 <= k < j ==> r@[k] == #[trigger] seeded(x@, i as int)[k],
    {
        if i == j {
            r.push(x[j].derivative());
        } else {
            r.push(Dual::from_re(x[j].re));
        }
    }
    assert(r@ =~= seeded(x@, i as int));
    r
}

fn derivative_row<T: DualNumFloat>(y: &Vec<Dual<T>>) -> (r: Vec<T>)
    ensures
        r@ == derivative_parts(y@),
{
    let mut r: Vec<T> = Vec::new();
    let m = y.len();
    for k in 0..m
        invariant
            m == y@.len(),
            r@.len() == k,
            forall|l: int| 0 <= l < k ==> r@[l] == #[trigger] y@[l].eps,
    {
        r.push(y[k].eps);
    }
    assert(r@ =~= derivative_parts(y@));
    r
}

/// The derivatives of `g` at `x`, one row per input: row `i` holds the
/// derivative parts of `g` evaluated on `x` seeded in direction `i`, so that
/// entry `(i, k)` is the partial derivative of output `k` by input `i`.
pub fn jacobian<T: DualNumFloat, G: Fn(&Vec<Dual<T>>) -> Vec<Dual<T>>>(
    g: G,
    x: &Vec<Dual<T>>,
) -> (jac: Vec<Vec<T>>)
    requires
        forall|v: &Vec<Dual<T>>, i: int|
            0 <= i < x@.len() && v@ == #[trigger] seeded(x@, i) ==> #[trigger] g.requires((v,)),
    ensures
        jac@.len() == x@.len(),
        forall|i: int| 0 <= i < x@.len() ==> #[trigger] is_jacobian_row(g, x@, i, jac@[i]@),
{
    let mut jac: Vec<Vec<T>> = Vec::new();
    let n = x.len();
    for i in 0..n
        invariant
            n == x@.len(),
            forall|v: &Vec<Dual<T>>, l: int|
                0 <= l < x@.len() && v@ == #[trigger] seeded(x@, l) ==> #[trigger] g.requires(
                    (v,),
                ),
            jac@.len() == i,
            forall|l: int| 0 <= l < i ==> #[trigger] is_jacobian_row(g, x@, l, jac@[l]@),
    {
        let x_p = seed(x, i);
        assert(x_p@ == seeded(x@, i as int) && g.requires((&x_p,)));
        let y = g(&x_p);
        let row = derivative_row(&y);
        jac.push(row);
        assert(g.ensures((&x_p,), y) && jac@[i as int]@ == derivative_parts(y@));
        assert(is_jacobian_row(g, x@, i as int, jac@[i as int]@));
    }
    jac
}

} // verus!
