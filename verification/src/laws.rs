//! What forward-mode differentiation guarantees.
//!
//! The laws that hold whatever the scalar type does come first.  Commutativity
//! asks only that scalar addition and multiplication commute, as they do for
//! floats.  The rest ask for `exact_arithmetic`: that the scalar operations form
//! a commutative ring (and, for division, a field).  Floating-point scalars do
//! not (their addition is not associative), so for them these laws describe the
//! exact computation that the rounded one approximates.
use vstd::prelude::*;

use crate::forward_autodiff::Dual;
use crate::{derivative_parts, is_jacobian_row, seeded, DualNumFloat};

verus! {

/* laws that hold for every scalar type */

/// Seeding is idempotent: marking a variable twice is marking it once.
pub proof fn law_variable_of_variable<T: DualNumFloat>(x: Dual<T>)
    ensures
        Dual::variable(Dual::variable(x.re).re) == Dual::variable(x.re),
        Dual::variable(Dual::lift(x.re).re) == Dual::variable(x.re),
{
}

/// Equality and order of dual numbers see the real parts only: two numbers
/// with equal real parts compare alike with everything.
pub proof fn law_comparison_ignores_derivative<T: DualNumFloat>(a: Dual<T>, b: Dual<T>, c: Dual<T>)
    requires
        a.re == b.re,
    ensures
        a.compare(c) == b.compare(c),
        c.compare(a) == c.compare(b),
        a.re.spec_eq(c.re) == b.re.spec_eq(c.re),
{
}

/* what each operation computes, in terms of the scalar operations */

/// A constant has derivative part zero, the variable has derivative part one,
/// and both keep the value they are given.
pub proof fn law_constants_and_variables<T: DualNumFloat>(a: T)
    ensures
        Dual::lift(a).re == a,
        Dual::lift(a).eps == T::spec_zero(),
        Dual::variable(a).re == a,
        Dual::variable(a).eps == T::spec_one(),
{
}

/// Sum and difference act part by part, whatever the signs of the parts:
/// values add (subtract) and so do derivatives.
pub proof fn law_sum_and_difference_rules<T: DualNumFloat>(a: Dual<T>, b: Dual<T>)
    ensures
        a.sum(b).re == a.re.spec_add(b.re),
        a.sum(b).eps == a.eps.spec_add(b.eps),
        a.difference(b).re == a.re.spec_sub(b.re),
        a.difference(b).eps == a.eps.spec_sub(b.eps),
        a.negation().re == a.re.spec_neg(),
        a.negation().eps == a.eps.spec_neg(),
{
}

/// Over exact arithmetic subtracting is adding the negation, and adding back
/// what was subtracted restores the number.
pub proof fn law_difference_is_sum_with_negation<T: DualNumFloat>(a: Dual<T>, b: Dual<T>)
    requires
        exact_arithmetic::<T>(),
    ensures
        a.difference(b) == a.sum(b.negation()),
        a.difference(b).sum(b) == a,
        a.sum(a.negation()) == Dual::lift(T::spec_zero()),
{
    lemma_ring(a.re, b.re, b.re);
    lemma_ring(a.eps, b.eps, b.eps);
    // (a - b) + b = (a + -b) + b = a + (-b + b) = a + 0 = a
    lemma_ring(a.re, b.re.spec_neg(), b.re);
    lemma_ring(a.eps, b.eps.spec_neg(), b.eps);
    lemma_neg_add(b.re);
    lemma_neg_add(b.eps);
    lemma_ring(a.re, a.re, a.re);
    lemma_ring(a.eps, a.eps, a.eps);
}

/// The product rule, the quotient rule and the chain rule, written out over
/// the scalar operations: the value is the product (quotient, function value)
/// of the values, the derivative part `a'b + ab'` (`(a'b - b'a)/b/b`,
/// `a' * f'`).
pub proof fn law_product_quotient_chain_rules<T: DualNumFloat>(a: Dual<T>, b: Dual<T>, f0: T, f1: T)
    ensures
        a.product(b).re == a.re.spec_mul(b.re),
        a.product(b).eps == a.eps.spec_mul(b.re).spec_add(a.re.spec_mul(b.eps)),
        a.quotient(b).re == a.re.spec_mul(b.re.spec_recip()),
        a.quotient(b).eps == a.eps.spec_mul(b.re).spec_sub(b.eps.spec_mul(a.re)).spec_mul(
            b.re.spec_recip(),
        ).spec_mul(b.re.spec_recip()),
        a.chained(f0, f1).re == f0,
        a.chained(f0, f1).eps == a.eps.spec_mul(f1),
{
}

/// Sine and cosine: the value is the scalar sine (cosine) of the real part;
/// the derivative part of the sine is the incoming derivative times the
/// cosine's value, that of the cosine the incoming derivative times minus the
/// sine's value.
pub proof fn law_sine_and_cosine<T: DualNumFloat>(d: Dual<T>)
    ensures
        d.sine().re == d.re.spec_sin(),
        d.cosine().re == d.re.spec_cos(),
        d.sine().eps == d.eps.spec_mul(d.cosine().re),
        d.cosine().eps == d.eps.spec_mul(d.sine().re.spec_neg()),
{
}

/// At the variable `a + e` the derivative part of the sine is `cos(a)` and
/// that of the cosine is `-sin(a)`, wherever one is neutral for
/// multiplication.
pub proof fn law_sine_and_cosine_of_variable<T: DualNumFloat>(a: T)
    requires
        units_behave::<T>(),
        T::spec_one().spec_mul(a.spec_cos()) == a.spec_cos(),
        T::spec_one().spec_mul(a.spec_sin().spec_neg()) == a.spec_sin().spec_neg(),
    ensures
        Dual::variable(a).sine() == (Dual { re: a.spec_sin(), eps: a.spec_cos() }),
        Dual::variable(a).cosine() == (Dual { re: a.spec_cos(), eps: a.spec_sin().spec_neg() }),
{
}

/// The square root: the value is the scalar square root of the real part
/// (the root that the scalar type gives, not its negation), and the derivative
/// part is the incoming derivative times `sqrt(x) * (1/x) * 1/2`.
pub proof fn law_square_root<T: DualNumFloat>(d: Dual<T>)
    ensures
        d.square_root().re == d.re.spec_sqrt(),
        d.square_root().eps == d.eps.spec_mul(
            d.re.spec_sqrt().spec_mul(d.re.spec_recip()).spec_mul(T::spec_half()),
        ),
{
}

/// A number is positive exactly when zero is below its real part, negative
/// exactly when its real part is below zero; a positive number is its own
/// absolute value and has sign one; any other number has its negation as
/// absolute value, and sign zero or minus one by whether its real part equals
/// zero.
pub proof fn law_sign_functions<T: DualNumFloat>(x: Dual<T>)
    ensures
        x.positive() == T::spec_zero().spec_lt(x.re),
        x.negative() == x.re.spec_lt(T::spec_zero()),
        T::spec_zero().spec_lt(x.re) ==> x.absolute() == x,
        T::spec_zero().spec_lt(x.re) ==> x.sign() == (Dual {
            re: T::spec_one(),
            eps: T::spec_zero(),
        }),
        !T::spec_zero().spec_lt(x.re) ==> x.absolute() == (Dual {
            re: x.re.spec_neg(),
            eps: x.eps.spec_neg(),
        }),
        !T::spec_zero().spec_lt(x.re) && x.re.spec_eq(T::spec_zero()) ==> x.sign() == (Dual {
            re: T::spec_zero(),
            eps: T::spec_zero(),
        }),
        !T::spec_zero().spec_lt(x.re) && !x.re.spec_eq(T::spec_zero()) ==> x.sign() == (Dual {
            re: T::spec_one().spec_neg(),
            eps: T::spec_zero().spec_neg(),
        }),
{
}

/// Dual numbers are ordered by their real parts alone: less when the real
/// part is below, greater when it is above and not below, equal when neither
/// and the real parts are equal, unordered otherwise.
pub proof fn law_order_by_real_parts<T: DualNumFloat>(a: Dual<T>, b: Dual<T>)
    ensures
        a.less(b) == a.re.spec_lt(b.re),
        a.greater(b) == (!a.re.spec_lt(b.re) && b.re.spec_lt(a.re)),
        (a.compare(b) == Some(core::cmp::Ordering::Equal)) <==> (!a.re.spec_lt(b.re)
            && !b.re.spec_lt(a.re) && a.re.spec_eq(b.re)),
        (a.compare(b) is None) <==> (!a.re.spec_lt(b.re) && !b.re.spec_lt(a.re)
            && !a.re.spec_eq(b.re)),
{
}

/// The positive difference is `a - b` where `b.re < a.re` and the constant
/// zero elsewhere; copying a sign gives the absolute value, negated exactly
/// when the sign bit of the sign's real part is set; the argument is zero for
/// a real part at least zero and pi below.
pub proof fn law_positive_difference_sign_and_argument<T: DualNumFloat>(a: Dual<T>, b: Dual<T>)
    ensures
        b.re.spec_lt(a.re) ==> a.positive_difference(b) == (Dual {
            re: a.re.spec_sub(b.re),
            eps: a.eps.spec_sub(b.eps),
        }),
        !b.re.spec_lt(a.re) ==> a.positive_difference(b) == (Dual {
            re: T::spec_zero(),
            eps: T::spec_zero(),
        }),
        b.re.spec_is_sign_positive() ==> a.with_sign_of(b) == a.absolute(),
        !b.re.spec_is_sign_positive() ==> a.with_sign_of(b) == (Dual {
            re: a.absolute().re.spec_neg(),
            eps: a.absolute().eps.spec_neg(),
        }),
        T::spec_zero().spec_lt(a.re) || a.re.spec_eq(T::spec_zero()) ==> a.arg() == (Dual {
            re: T::spec_zero(),
            eps: T::spec_zero(),
        }),
        !(T::spec_zero().spec_lt(a.re) || a.re.spec_eq(T::spec_zero())) ==> a.arg() == (Dual {
            re: T::spec_constant(crate::FloatConstant::Pi),
            eps: T::spec_zero(),
        }),
{
}

/// `max` takes the other number exactly when its real part is above and not
/// below, `min` exactly when it is below; `clamp` takes the lower bound when
/// the real part is below it, else the upper bound when it is above and not
/// below it, else the number itself.  Each result is one of the arguments,
/// derivative part and all.
pub proof fn law_max_min_clamp<T: DualNumFloat>(a: Dual<T>, b: Dual<T>, lo: Dual<T>, hi: Dual<T>)
    ensures
        a.maximum(b) == (if a.re.spec_lt(b.re) && !b.re.spec_lt(a.re) {
            b
        } else {
            a
        }),
        a.minimum(b) == (if b.re.spec_lt(a.re) {
            b
        } else {
            a
        }),
        a.clamped(lo, hi) == (if a.re.spec_lt(lo.re) {
            lo
        } else if hi.re.spec_lt(a.re) && !a.re.spec_lt(hi.re) {
            hi
        } else {
            a
        }),
{
}

/// A lifted constant is the scalar constant with derivative part zero.
pub proof fn law_lifted_constants<T: DualNumFloat>(c: crate::FloatConstant)
    ensures
        Dual::<T>::lifted_constant(c) == (Dual { re: T::spec_constant(c), eps: T::spec_zero() }),
{
}

/// Seeding keeps every real part, sets the derivative part of the chosen
/// input to one and clears all others; the derivative parts are read entry by
/// entry.
pub proof fn law_seeding<T: DualNumFloat>(x: Seq<Dual<T>>, i: int, y: Seq<Dual<T>>)
    ensures
        seeded(x, i).len() == x.len(),
        forall|j: int| 0 <= j < x.len() ==> #[trigger] seeded(x, i)[j].re == x[j].re,
        0 <= i < x.len() ==> seeded(x, i)[i].eps == T::spec_one(),
        forall|j: int|
            0 <= j < x.len() && j != i ==> #[trigger] seeded(x, i)[j].eps == T::spec_zero(),
        derivative_parts(y).len() == y.len(),
        forall|k: int| 0 <= k < y.len() ==> #[trigger] derivative_parts(y)[k] == y[k].eps,
{
}

/* exact scalar arithmetic */

/// Scalar addition is commutative.
#[verifier::opaque]
pub open spec fn add_commutes<T: DualNumFloat>() -> bool {
    forall|x: T, y: T| #[trigger] x.spec_add(y) == y.spec_add(x)
}

/// Scalar addition is associative.
#[verifier::opaque]
pub open spec fn add_associates<T: DualNumFloat>() -> bool {
    forall|x: T, y: T, z: T| #[trigger] x.spec_add(y).spec_add(z) == x.spec_add(y.spec_add(z))
}

/// Zero is neutral for addition.
#[verifier::opaque]
pub open spec fn zero_is_neutral<T: DualNumFloat>() -> bool {
    forall|x: T| #[trigger] T::spec_zero().spec_add(x) == x
}

/// Negation gives the additive inverse, and subtraction adds it.
#[verifier::opaque]
pub open spec fn negation_inverts<T: DualNumFloat>() -> bool {
    &&& forall|x: T| #[trigger] x.spec_add(x.spec_neg()) == T::spec_zero()
    &&& forall|x: T, y: T| #[trigger] x.spec_sub(y) == x.spec_add(y.spec_neg())
}

/// Scalar multiplication is commutative.
#[verifier::opaque]
pub open spec fn mul_commutes<T: DualNumFloat>() -> bool {
    forall|x: T, y: T| #[trigger] x.spec_mul(y) == y.spec_mul(x)
}

/// Scalar multiplication is associative.
#[verifier::opaque]
pub open spec fn mul_associates<T: DualNumFloat>() -> bool {
    forall|x: T, y: T, z: T| #[trigger] x.spec_mul(y).spec_mul(z) == x.spec_mul(y.spec_mul(z))
}

/// One is neutral for multiplication.
#[verifier::opaque]
pub open spec fn one_is_neutral<T: DualNumFloat>() -> bool {
    forall|x: T| #[trigger] T::spec_one().spec_mul(x) == x
}

/// Multiplication distributes over addition.
#[verifier::opaque]
pub open spec fn mul_distributes<T: DualNumFloat>() -> bool {
    forall|x: T, y: T, z: T|
        #[trigger] x.spec_mul(y.spec_add(z)) == x.spec_mul(y).spec_add(x.spec_mul(z))
}

/// The scalar operations form a commutative ring, with subtraction as adding
/// the negation.
pub open spec fn exact_arithmetic<T: DualNumFloat>() -> bool {
    &&& add_commutes::<T>()
    &&& add_associates::<T>()
    &&& zero_is_neutral::<T>()
    &&& negation_inverts::<T>()
    &&& mul_commutes::<T>()
    &&& mul_associates::<T>()
    &&& one_is_neutral::<T>()
    &&& mul_distributes::<T>()
}

/// Zero and one behave as units: zero is neutral for addition on both sides
/// and absorbing for multiplication, one is neutral for multiplication.  This
/// is much less than `exact_arithmetic` (no associativity, no inverses).
#[verifier::opaque]
pub open spec fn units_behave<T: DualNumFloat>() -> bool {
    &&& forall|x: T| #[trigger] T::spec_zero().spec_add(x) == x
    &&& forall|x: T| #[trigger] x.spec_add(T::spec_zero()) == x
    &&& forall|x: T| #[trigger] x.spec_mul(T::spec_one()) == x
    &&& forall|x: T| #[trigger] x.spec_mul(T::spec_zero()) == T::spec_zero()
    &&& forall|x: T| #[trigger] T::spec_zero().spec_mul(x) == T::spec_zero()
}

proof fn lemma_units<T: DualNumFloat>(x: T)
    requires
        units_behave::<T>(),
    ensures
        T::spec_zero().spec_add(x) == x,
        x.spec_add(T::spec_zero()) == x,
        x.spec_mul(T::spec_one()) == x,
        x.spec_mul(T::spec_zero()) == T::spec_zero(),
        T::spec_zero().spec_mul(x) == T::spec_zero(),
{
    reveal(units_behave);
}

/// One instance of each ring law, for the values given.
proof fn lemma_ring<T: DualNumFloat>(x: T, y: T, z: T)
    requires
        exact_arithmetic::<T>(),
    ensures
        x.spec_add(y) == y.spec_add(x),
        x.spec_add(y).spec_add(z) == x.spec_add(y.spec_add(z)),
        T::spec_zero().spec_add(x) == x,
        x.spec_add(T::spec_zero()) == x,
        x.spec_add(x.spec_neg()) == T::spec_zero(),
        x.spec_sub(y) == x.spec_add(y.spec_neg()),
        x.spec_mul(y) == y.spec_mul(x),
        x.spec_mul(y).spec_mul(z) == x.spec_mul(y.spec_mul(z)),
        T::spec_one().spec_mul(x) == x,
        x.spec_mul(T::spec_one()) == x,
        x.spec_mul(y.spec_add(z)) == x.spec_mul(y).spec_add(x.spec_mul(z)),
{
    let zero = T::spec_zero();
    let one = T::spec_one();
    assert(x.spec_add(y) == y.spec_add(x) && x.spec_add(zero) == zero.spec_add(x)) by {
        reveal(add_commutes);
    }
    assert(x.spec_add(y).spec_add(z) == x.spec_add(y.spec_add(z))) by {
        reveal(add_associates);
    }
    assert(zero.spec_add(x) == x) by {
        reveal(zero_is_neutral);
    }
    assert(x.spec_add(x.spec_neg()) == zero && x.spec_sub(y) == x.spec_add(y.spec_neg())) by {
        reveal(negation_inverts);
    }
    assert(x.spec_mul(y) == y.spec_mul(x) && x.spec_mul(one) == one.spec_mul(x)) by {
        reveal(mul_commutes);
    }
    assert(x.spec_mul(y).spec_mul(z) == x.spec_mul(y.spec_mul(z))) by {
        reveal(mul_associates);
    }
    assert(one.spec_mul(x) == x) by {
        reveal(one_is_neutral);
    }
    assert(x.spec_mul(y.spec_add(z)) == x.spec_mul(y).spec_add(x.spec_mul(z))) by {
        reveal(mul_distributes);
    }
}

proof fn lemma_mul_zero<T: DualNumFloat>(x: T)
    requires
        exact_arithmetic::<T>(),
    ensures
        x.spec_mul(T::spec_zero()) == T::spec_zero(),
        T::spec_zero().spec_mul(x) == T::spec_zero(),
{
    let z = T::spec_zero();
    let p = x.spec_mul(z);
    // p = x*(0 + 0) = p + p, and adding -p to both sides leaves p = 0
    lemma_ring(z, z, z);
    lemma_ring(x, z, z);
    lemma_ring(p, p, p.spec_neg());
    lemma_ring(p, z, z);
    lemma_ring(z, x, z);
}

proof fn lemma_add_swap_middle<T: DualNumFloat>(p: T, q: T, r: T, s: T)
    requires
        exact_arithmetic::<T>(),
    ensures
        p.spec_add(q).spec_add(r.spec_add(s)) == p.spec_add(r).spec_add(q.spec_add(s)),
{
    // (p + q) + (r + s) = p + (q + (r + s)) = p + ((q + r) + s) = p + ((r + q) + s)
    //                   = p + (r + (q + s)) = (p + r) + (q + s)
    lemma_ring(p, q, r.spec_add(s));
    lemma_ring(q, r, s);
    lemma_ring(r, q, s);
    lemma_ring(p, r, q.spec_add(s));
}

/// The square of the independent variable plus a constant, `x*x + y` at
/// `x = a + e`, `y = b`: value `a*a + b` and derivative `a + a`.
pub proof fn law_square_plus_constant<T: DualNumFloat>(a: T, b: T)
    requires
        exact_arithmetic::<T>(),
    ensures
        Dual::variable(a).product(Dual::variable(a)).sum(Dual::lift(b)) == (Dual {
            re: a.spec_mul(a).spec_add(b),
            eps: a.spec_add(a),
        }),
{
    lemma_ring(a, a, a);
    lemma_ring(a.spec_add(a), a, a);
}

/// The chain rule composes: applying `g` and then `f` multiplies the
/// derivative by `g'` and then by `f'`, which is multiplying it by `g'*f'`.
pub proof fn law_chain_rule_composes<T: DualNumFloat>(d: Dual<T>, g0: T, g1: T, f0: T, f1: T)
    requires
        exact_arithmetic::<T>(),
    ensures
        d.chained(g0, g1).chained(f0, f1) == d.chained(f0, g1.spec_mul(f1)),
{
    lemma_ring(d.eps, g1, f1);
}

/// Where scalar addition and multiplication commute (as they do for floats),
/// so do the sum and the product of dual numbers.
pub proof fn law_product_commutes<T: DualNumFloat>(a: Dual<T>, b: Dual<T>)
    requires
        add_commutes::<T>(),
        mul_commutes::<T>(),
    ensures
        a.product(b) == b.product(a),
        a.sum(b) == b.sum(a),
{
    reveal(add_commutes);
    reveal(mul_commutes);
    assert(a.re.spec_mul(b.re) == b.re.spec_mul(a.re));
    assert(a.eps.spec_mul(b.re) == b.re.spec_mul(a.eps));
    assert(a.re.spec_mul(b.eps) == b.eps.spec_mul(a.re));
    assert(b.eps.spec_mul(a.re).spec_add(b.re.spec_mul(a.eps)) == b.re.spec_mul(a.eps).spec_add(
        b.eps.spec_mul(a.re),
    ));
    assert(a.re.spec_add(b.re) == b.re.spec_add(a.re));
    assert(a.eps.spec_add(b.eps) == b.eps.spec_add(a.eps));
}

/// Over exact arithmetic the product of dual numbers is associative.
pub proof fn law_product_associates<T: DualNumFloat>(a: Dual<T>, b: Dual<T>, c: Dual<T>)
    requires
        exact_arithmetic::<T>(),
    ensures
        a.product(b).product(c) == a.product(b.product(c)),
{
    let x = a.eps.spec_mul(b.re);
    let y = a.re.spec_mul(b.eps);
    // (x + y)*c = c*(x + y) = c*x + c*y = x*c + y*c
    lemma_ring(c.re, x, y);
    lemma_ring(x.spec_add(y), c.re, c.re);
    lemma_ring(x, c.re, c.re);
    lemma_ring(y, c.re, c.re);
    // regroup each product
    lemma_ring(a.eps, b.re, c.re);
    lemma_ring(a.re, b.eps, c.re);
    lemma_ring(a.re, b.re, c.eps);
    lemma_ring(a.re, b.re, c.re);
    lemma_ring(a.re, b.eps.spec_mul(c.re), b.re.spec_mul(c.eps));
    lemma_ring(x.spec_mul(c.re), y.spec_mul(c.re), a.re.spec_mul(b.re).spec_mul(c.eps));
}

/// Over exact arithmetic the product of dual numbers distributes over their
/// sum.
pub proof fn law_product_distributes<T: DualNumFloat>(a: Dual<T>, b: Dual<T>, c: Dual<T>)
    requires
        exact_arithmetic::<T>(),
    ensures
        a.product(b.sum(c)) == a.product(b).sum(a.product(c)),
{
    lemma_ring(a.re, b.re, c.re);
    lemma_ring(a.eps, b.re, c.re);
    lemma_ring(a.re, b.eps, c.eps);
    lemma_add_swap_middle(
        a.eps.spec_mul(b.re),
        a.eps.spec_mul(c.re),
        a.re.spec_mul(b.eps),
        a.re.spec_mul(c.eps),
    );
}

/// Over exact arithmetic the sum of dual numbers is associative, and the
/// constants zero and one are neutral for sum and product.
pub proof fn law_sum_and_units<T: DualNumFloat>(a: Dual<T>, b: Dual<T>, c: Dual<T>)
    requires
        exact_arithmetic::<T>(),
    ensures
        a.sum(b).sum(c) == a.sum(b.sum(c)),
        Dual::lift(T::spec_zero()).sum(a) == a,
        Dual::lift(T::spec_one()).product(a) == a,
{
    lemma_ring(a.re, b.re, c.re);
    lemma_ring(a.eps, b.eps, c.eps);
    lemma_ring(b.re, a.re, c.re);
    lemma_ring(b.eps, a.eps, c.eps);
    lemma_mul_zero(a.re);
    lemma_ring(a.eps, a.eps, a.eps);
    lemma_ring(T::spec_one().spec_mul(a.eps), T::spec_zero(), T::spec_zero());
}

/// The infinitesimal squares to zero: `e * e = 0`.
pub proof fn law_epsilon_squared_is_zero<T: DualNumFloat>()
    requires
        exact_arithmetic::<T>(),
    ensures
        (Dual { re: T::spec_zero(), eps: T::spec_one() }).product(
            Dual { re: T::spec_zero(), eps: T::spec_one() },
        ) == Dual::lift(T::spec_zero()),
{
    let z = T::spec_zero();
    lemma_mul_zero(z);
    lemma_mul_zero(T::spec_one());
    lemma_ring(z, z, z);
}

/// One is not zero, and every nonzero scalar has its reciprocal as
/// multiplicative inverse.
pub open spec fn exact_division<T: DualNumFloat>() -> bool {
    &&& T::spec_one() != T::spec_zero()
    &&& forall|x: T|
        x != T::spec_zero() ==> #[trigger] x.spec_mul(x.spec_recip()) == T::spec_one()
}

proof fn lemma_neg_add<T: DualNumFloat>(x: T)
    requires
        exact_arithmetic::<T>(),
    ensures
        x.spec_neg().spec_add(x) == T::spec_zero(),
{
    lemma_ring(x, x.spec_neg(), x);
    lemma_ring(x.spec_neg(), x, x);
}

proof fn lemma_mul_right_distributes<T: DualNumFloat>(x: T, y: T, z: T)
    requires
        exact_arithmetic::<T>(),
    ensures
        x.spec_add(y).spec_mul(z) == x.spec_mul(z).spec_add(y.spec_mul(z)),
{
    lemma_ring(z, x, y);
    lemma_ring(x.spec_add(y), z, z);
    lemma_ring(x, z, z);
    lemma_ring(y, z, z);
}

/// Dividing by a dual number with nonzero real part and multiplying by it
/// again gives back the dividend, derivative included: the quotient rule is
/// the inverse of the product rule.
pub proof fn law_quotient_undoes_product<T: DualNumFloat>(a: Dual<T>, b: Dual<T>)
    requires
        exact_arithmetic::<T>(),
        exact_division::<T>(),
        b.re != T::spec_zero(),
    ensures
        a.quotient(b).product(b) == a,
{
    let zero = T::spec_zero();
    let one = T::spec_one();
    let inv = b.re.spec_recip();
    assert(b.re.spec_mul(inv) == one);
    // real part: (a*inv)*b = a*(inv*b) = a*(b*inv) = a*1 = a
    lemma_ring(a.re, inv, b.re);
    lemma_ring(inv, b.re, b.re);
    lemma_ring(a.re, one, one);
    // derivative part
    let p = a.eps.spec_mul(b.re);
    let m = b.eps.spec_mul(a.re);
    let d = p.spec_sub(m);
    let di = d.spec_mul(inv);
    // ((d*inv)*inv)*b = (d*inv)*(inv*b) = (d*inv)*1 = d*inv
    lemma_ring(di, inv, b.re);
    lemma_ring(di, one, one);
    // d*inv = p*inv + (-m)*inv, and p*inv = a'*(b*inv) = a'
    lemma_ring(p, m, m);
    lemma_mul_right_distributes(p, m.spec_neg(), inv);
    lemma_ring(a.eps, b.re, inv);
    lemma_ring(a.eps, one, one);
    // (a*inv)*b' = b'*(a*inv) = (b'*a)*inv = m*inv
    lemma_ring(a.re.spec_mul(inv), b.eps, b.eps);
    lemma_ring(b.eps, a.re, inv);
    // (-m)*inv + m*inv = (-m + m)*inv = 0*inv = 0
    lemma_mul_right_distributes(m.spec_neg(), m, inv);
    lemma_neg_add(m);
    lemma_mul_zero(inv);
    let u = m.spec_neg().spec_mul(inv);
    let w = m.spec_mul(inv);
    lemma_ring(a.eps, u, w);
    lemma_ring(a.eps, zero, zero);
}

/// The square root, squared, gives back the dual number, wherever the scalar
/// square root is exact at a nonzero real part and one half is half of one.
pub proof fn law_sqrt_squared<T: DualNumFloat>(d: Dual<T>)
    requires
        exact_arithmetic::<T>(),
        exact_division::<T>(),
        d.re != T::spec_zero(),
        d.re.spec_sqrt().spec_mul(d.re.spec_sqrt()) == d.re,
        T::spec_half().spec_add(T::spec_half()) == T::spec_one(),
    ensures
        d.square_root().product(d.square_root()) == d,
{
    let one = T::spec_one();
    let h = T::spec_half();
    let x = d.re;
    let s = x.spec_sqrt();
    let inv = x.spec_recip();
    assert(x.spec_mul(inv) == one);
    let f1 = s.spec_mul(inv).spec_mul(h);
    let e = d.eps.spec_mul(f1);
    // f1*s = (s*inv)*(h*s) = (s*inv)*(s*h) = ((s*inv)*s)*h, and (s*inv)*s = (s*s)*inv = x*inv = 1
    lemma_ring(s.spec_mul(inv), h, s);
    lemma_ring(h, s, s);
    lemma_ring(s.spec_mul(inv), s, h);
    lemma_ring(s, inv, s);
    lemma_ring(inv, s, s);
    lemma_ring(s, s, inv);
    lemma_ring(h, one, one);
    assert(f1.spec_mul(s) == h);
    // e*s = d'*(f1*s) = d'*h, and s*e = e*s
    lemma_ring(d.eps, f1, s);
    lemma_ring(s, e, e);
    // d'*h + d'*h = d'*(h + h) = d'*1 = d'
    lemma_ring(d.eps, h, h);
    lemma_ring(d.eps, one, one);
}

/// `sin(d)² + cos(d)² = 1` for dual numbers, wherever it holds of the scalar
/// sine and cosine at the real part: the derivative parts cancel.
pub proof fn law_sin_cos_pythagoras<T: DualNumFloat>(d: Dual<T>)
    requires
        exact_arithmetic::<T>(),
        ({
            let s = d.re.spec_sin();
            let c = d.re.spec_cos();
            s.spec_mul(s).spec_add(c.spec_mul(c)) == T::spec_one()
        }),
    ensures
        d.sine().product(d.sine()).sum(d.cosine().product(d.cosine())) == Dual::lift(
            T::spec_one(),
        ),
{
    let zero = T::spec_zero();
    let s = d.re.spec_sin();
    let c = d.re.spec_cos();
    let ns = s.spec_neg();
    let a = d.eps.spec_mul(c);
    let b = d.eps.spec_mul(ns);
    let x = a.spec_mul(s);
    let y = b.spec_mul(c);
    // s*a = a*s and c*b = b*c
    lemma_ring(s, a, a);
    lemma_ring(c, b, b);
    // x + y = d'*(c*s) + d'*(ns*c) = d'*(c*s + c*ns) = d'*(c*(s + ns)) = d'*0 = 0
    lemma_ring(d.eps, c, s);
    lemma_ring(d.eps, ns, c);
    lemma_ring(ns, c, c);
    lemma_ring(d.eps, c.spec_mul(s), c.spec_mul(ns));
    lemma_ring(c, s, ns);
    lemma_ring(s, s, s);
    lemma_mul_zero(c);
    lemma_mul_zero(d.eps);
    assert(x.spec_add(y) == zero);
    // (x + x) + (y + y) = (x + y) + (x + y) = 0 + 0 = 0
    lemma_add_swap_middle(x, x, y, y);
    lemma_ring(zero, zero, zero);
}

proof fn lemma_inverse_unique<T: DualNumFloat>(u: T, v: T)
    requires
        exact_arithmetic::<T>(),
        u.spec_add(v) == T::spec_zero(),
    ensures
        u == v.spec_neg(),
{
    // u = u + (v + -v) = (u + v) + -v = 0 + -v = -v
    lemma_ring(u, v, v.spec_neg());
    lemma_ring(v, v, v);
    lemma_ring(v.spec_neg(), v, v);
}

proof fn lemma_neg_facts<T: DualNumFloat>(a: T, b: T)
    requires
        exact_arithmetic::<T>(),
    ensures
        a.spec_neg().spec_neg() == a,
        T::spec_zero().spec_neg() == T::spec_zero(),
        a.spec_neg().spec_mul(b) == a.spec_mul(b).spec_neg(),
        a.spec_mul(b.spec_neg()) == a.spec_mul(b).spec_neg(),
{
    let zero = T::spec_zero();
    lemma_ring(a, a, a);
    lemma_inverse_unique(a, a.spec_neg());
    lemma_ring(zero, zero, zero);
    lemma_inverse_unique(zero, zero);
    // (-a)*b + a*b = (-a + a)*b = 0*b = 0
    lemma_mul_right_distributes(a.spec_neg(), a, b);
    lemma_neg_add(a);
    lemma_mul_zero(b);
    lemma_inverse_unique(a.spec_neg().spec_mul(b), a.spec_mul(b));
    // a*(-b) = (-b)*a = -(b*a) = -(a*b)
    lemma_mul_right_distributes(b.spec_neg(), b, a);
    lemma_neg_add(b);
    lemma_mul_zero(a);
    lemma_inverse_unique(b.spec_neg().spec_mul(a), b.spec_mul(a));
    lemma_ring(a, b.spec_neg(), b);
    lemma_ring(a, b, b);
}

/// The absolute value is the number divided by its sign, wherever the real
/// part is not zero (derivative part included).
pub proof fn law_abs_is_quotient_by_signum<T: DualNumFloat>(x: Dual<T>)
    requires
        exact_arithmetic::<T>(),
        exact_division::<T>(),
        !x.re.spec_eq(T::spec_zero()),
    ensures
        x.absolute() == x.quotient(x.sign()),
{
    let zero = T::spec_zero();
    let one = T::spec_one();
    let m1 = one.spec_neg();
    lemma_ring(one.spec_recip(), one, one);
    lemma_neg_facts(one, one);
    lemma_mul_zero(x.re);
    if x.positive() {
        // dividing by the constant 1: recip(1) = 1*recip(1) = 1
        assert(one.spec_recip() == one);
        let d = x.eps.spec_mul(one).spec_sub(zero.spec_mul(x.re));
        lemma_ring(x.eps, zero, one);
        lemma_ring(x.re, one, one);
        assert(d == x.eps);
        lemma_ring(d, one, one);
    } else {
        // -1 is not zero, since 1 = 1 + 0 = 1 + -1 = 0 otherwise
        lemma_ring(one, one, one);
        assert(m1 != zero);
        let inv = m1.spec_recip();
        assert(m1.spec_mul(inv) == one);
        // inv = 1*inv = ((-1)*(-1))*inv = (-1)*((-1)*inv) = (-1)*1 = -1
        lemma_neg_facts(one, m1);
        lemma_neg_facts(m1, one);
        lemma_ring(m1, m1, inv);
        lemma_ring(inv, one, one);
        lemma_ring(m1, one, one);
        assert(inv == m1);
        // real part: x.re * (-1) = -(x.re)
        lemma_neg_facts(x.re, one);
        lemma_ring(x.re, one, one);
        // derivative part: ((x'*(-1) - 0*x.re) * (-1)) * (-1) = -x'
        lemma_neg_facts(x.eps, one);
        lemma_ring(x.eps, one, one);
        let nx = x.eps.spec_neg();
        lemma_ring(nx, zero, zero);
        let d = x.eps.spec_mul(m1).spec_sub(zero.spec_mul(x.re));
        assert(d == nx);
        lemma_neg_facts(nx, one);
        lemma_ring(nx, one, one);
        lemma_neg_facts(x.eps, one);
        assert(d.spec_mul(inv) == x.eps);
    }
}

/// The absolute value is the number divided by its sign, wherever the real
/// part is not zero and the scalar arithmetic meets, at the values involved,
/// the facts that the division uses: dividing by one or minus one (whose
/// reciprocal is itself), multiplying by one, minus one and signed zero.
/// Floats meet all of them at finite values.
pub proof fn law_abs_is_quotient_by_signum_at<T: DualNumFloat>(x: Dual<T>)
    requires
        !x.re.spec_eq(T::spec_zero()),
        x.positive() ==> {
            &&& T::spec_one().spec_recip() == T::spec_one()
            &&& x.re.spec_mul(T::spec_one()) == x.re
            &&& x.eps.spec_mul(T::spec_one()) == x.eps
            &&& T::spec_zero().spec_mul(x.re) == T::spec_zero()
            &&& x.eps.spec_sub(T::spec_zero()) == x.eps
        },
        !x.positive() ==> {
            &&& T::spec_one().spec_neg().spec_recip() == T::spec_one().spec_neg()
            &&& x.re.spec_mul(T::spec_one().spec_neg()) == x.re.spec_neg()
            &&& x.eps.spec_mul(T::spec_one().spec_neg()) == x.eps.spec_neg()
            &&& T::spec_zero().spec_neg().spec_mul(x.re) == T::spec_zero()
            &&& x.eps.spec_neg().spec_sub(T::spec_zero()) == x.eps.spec_neg()
            &&& x.eps.spec_neg().spec_mul(T::spec_one().spec_neg()) == x.eps
        },
    ensures
        x.absolute() == x.quotient(x.sign()),
{
}

/// Squaring by the power rule is multiplying by itself, wherever the scalar
/// powers at the real part are `x*x` and `x` and the scalar 2 is `1 + 1`, and
/// the arithmetic is exact.
pub proof fn law_powi_two_is_square<T: DualNumFloat>(d: Dual<T>)
    requires
        exact_arithmetic::<T>(),
        d.re.spec_powi(2) == d.re.spec_mul(d.re),
        d.re.spec_powi(1) == d.re,
        T::spec_from_i32(2) == T::spec_one().spec_add(T::spec_one()),
    ensures
        d.power(2) == d.product(d),
{
    let one = T::spec_one();
    let x = d.re;
    assert(d.power(2) == d.chained(x.spec_powi(2), T::spec_from_i32(2).spec_mul(x.spec_powi(1))));
    // (1 + 1)*x = x + x
    lemma_mul_right_distributes(one, one, x);
    lemma_ring(x, x, x);
    // d'*(x + x) = d'*x + d'*x, and x*d' = d'*x
    lemma_ring(d.eps, x, x);
    lemma_ring(x, d.eps, d.eps);
}

/// The integer powers of the scalar type behave: `x^0 = 1`, each further
/// power multiplies by `x` once more, and the scalar for `k + 1` is the one
/// for `k` plus one.
#[verifier::opaque]
pub open spec fn powers_behave<T: DualNumFloat>() -> bool {
    &&& forall|x: T| #[trigger] x.spec_powi(0) == T::spec_one()
    &&& forall|x: T, k: i32|
        0 < k ==> #[trigger] x.spec_powi(k) == x.spec_powi((k - 1) as i32).spec_mul(x)
    &&& forall|k: i32|
        0 < k ==> #[trigger] T::spec_from_i32(k) == T::spec_from_i32((k - 1) as i32).spec_add(
            T::spec_one(),
        )
    &&& T::spec_from_i32(0) == T::spec_zero()
}

/// The zeroth power is the constant one, and the first power is the number
/// itself, wherever arithmetic is exact and powers behave.
pub proof fn law_power_zero_and_one<T: DualNumFloat>(d: Dual<T>)
    requires
        exact_arithmetic::<T>(),
        powers_behave::<T>(),
    ensures
        d.power(0) == (Dual { re: T::spec_one(), eps: T::spec_zero() }),
        d.power(1) == d,
{
    reveal(powers_behave);
    let one = T::spec_one();
    let x = d.re;
    assert(x.spec_powi(1) == x.spec_powi(0).spec_mul(x));
    assert(x.spec_powi(0) == one);
    assert(T::spec_from_i32(1) == T::spec_from_i32(0).spec_add(one));
    lemma_ring(one, one, one);
    lemma_ring(x, one, one);
    lemma_ring(d.eps, one, one);
}

/// The power rule: one more power is one more factor, `d^(n+1) = d^n * d`,
/// for every `n >= 1`, wherever arithmetic is exact and powers behave.  With
/// `d^1 = d` this fixes every positive power, derivative part included.
pub proof fn law_power_step<T: DualNumFloat>(d: Dual<T>, n: i32)
    requires
        exact_arithmetic::<T>(),
        powers_behave::<T>(),
        1 <= n < i32::MAX,
    ensures
        d.power((n + 1) as i32) == d.power(n).product(d),
{
    reveal(powers_behave);
    let one = T::spec_one();
    let x = d.re;
    let m = (n + 1) as i32;
    let pn = x.spec_powi(n);
    let pn1 = x.spec_powi((n - 1) as i32);
    let cn = T::spec_from_i32(n);
    assert(x.spec_powi(m) == pn.spec_mul(x));
    assert(pn == pn1.spec_mul(x));
    assert(((m - 1) as i32) == n);
    assert(T::spec_from_i32(m) == cn.spec_add(one));
    // power(n+1).eps = d' * ((n + 1) * x^n) = d'*(n*x^n) + d'*x^n
    lemma_mul_right_distributes(cn, one, pn);
    lemma_ring(pn, one, one);
    lemma_ring(d.eps, cn.spec_mul(pn), pn);
    // (d'*(n*x^(n-1)))*x = d'*(n*(x^(n-1)*x)) = d'*(n*x^n)
    lemma_ring(d.eps, cn.spec_mul(pn1), x);
    lemma_ring(cn, pn1, x);
    // x^n * d' = d' * x^n
    lemma_ring(pn, d.eps, d.eps);
}

/// The negative integer powers of the scalar type behave: one power lower is
/// one more division by a nonzero `x`, and the scalar for `k - 1` is the one
/// for `k` minus one.
#[verifier::opaque]
pub open spec fn negative_powers_behave<T: DualNumFloat>() -> bool {
    &&& forall|x: T, k: i32|
        x != T::spec_zero() && k < 0 ==> #[trigger] x.spec_powi(k) == x.spec_powi(
            (k + 1) as i32,
        ).spec_mul(x.spec_recip())
    &&& forall|k: i32|
        k < 0 ==> #[trigger] T::spec_from_i32(k) == T::spec_from_i32((k + 1) as i32).spec_sub(
            T::spec_one(),
        )
}

proof fn lemma_negative_power<T: DualNumFloat>(x: T, k: i32)
    requires
        negative_powers_behave::<T>(),
        x != T::spec_zero(),
        k < 0,
    ensures
        x.spec_powi(k) == x.spec_powi((k + 1) as i32).spec_mul(x.spec_recip()),
        T::spec_from_i32(k) == T::spec_from_i32((k + 1) as i32).spec_sub(T::spec_one()),
{
    reveal(negative_powers_behave);
}

/// The power `-1` is the reciprocal `1/d`, derivative part included, for a
/// nonzero real part, wherever arithmetic and division are exact and powers
/// behave.
pub proof fn law_power_minus_one_is_reciprocal<T: DualNumFloat>(d: Dual<T>)
    requires
        exact_arithmetic::<T>(),
        exact_division::<T>(),
        powers_behave::<T>(),
        negative_powers_behave::<T>(),
        d.re != T::spec_zero(),
    ensures
        d.power(-1i32) == Dual::lift(T::spec_one()).quotient(d),
{
    let zero = T::spec_zero();
    let one = T::spec_one();
    let m1 = one.spec_neg();
    let x = d.re;
    let inv = x.spec_recip();
    assert(x.spec_powi(0) == one && T::spec_from_i32(0) == zero) by {
        reveal(powers_behave);
    }
    lemma_negative_power(x, -1i32);
    lemma_negative_power(x, -2i32);
    let w = inv.spec_mul(inv);
    assert(x.spec_powi(-1i32) == inv) by {
        lemma_ring(inv, one, one);
    }
    assert(T::spec_from_i32(-1i32) == m1) by {
        lemma_ring(zero, one, one);
        lemma_ring(m1, one, one);
    }
    assert(d.power(-1i32) == d.chained(x.spec_powi(-1i32), T::spec_from_i32(-1i32).spec_mul(
        x.spec_powi(-2i32),
    )));
    // real part: 1*inv = inv
    lemma_ring(inv, one, one);
    // derivative: d'*((-1)*(inv*inv)) = -(d'*w) = ((-d')*inv)*inv
    lemma_neg_facts(one, w);
    lemma_ring(w, one, one);
    lemma_neg_facts(d.eps, w);
    lemma_mul_zero(x);
    lemma_ring(d.eps, one, one);
    lemma_ring(zero, d.eps, d.eps);
    lemma_ring(d.eps.spec_neg(), inv, inv);
    lemma_neg_facts(d.eps, w);
    lemma_neg_facts(d.eps, inv);
    lemma_neg_facts(d.eps.spec_neg(), w);
}

/// Below zero, one power lower is one more division: `d^(n-1) = d^n / d`
/// for `n <= -1`, for a nonzero real part, wherever arithmetic and division
/// are exact and powers behave.  With `d^-1 = 1/d` this fixes every negative
/// power above `i32::MIN`, derivative part included.
pub proof fn law_power_step_down<T: DualNumFloat>(d: Dual<T>, n: i32)
    requires
        exact_arithmetic::<T>(),
        exact_division::<T>(),
        negative_powers_behave::<T>(),
        d.re != T::spec_zero(),
        i32::MIN + 1 < n <= -1,
    ensures
        d.power((n - 1) as i32) == d.power(n).quotient(d),
{
    let one = T::spec_one();
    let m1 = one.spec_neg();
    let x = d.re;
    let inv = x.spec_recip();
    assert(x.spec_mul(inv) == one);
    let n1 = (n - 1) as i32;
    let n2 = (n - 2) as i32;
    lemma_negative_power(x, n1);
    lemma_negative_power(x, n2);
    assert(((n1 + 1) as i32) == n);
    assert(((n2 + 1) as i32) == n1);
    assert(((n1 - 1) as i32) == n2);
    let xn = x.spec_powi(n);
    let xn1 = x.spec_powi(n1);
    let xn2 = x.spec_powi(n2);
    let cn = T::spec_from_i32(n);
    let cn1 = T::spec_from_i32(n1);
    assert(xn1 == xn.spec_mul(inv));
    assert(xn2 == xn1.spec_mul(inv));
    assert(cn1 == cn.spec_sub(one));
    assert(d.power(n1) == d.chained(xn1, cn1.spec_mul(xn2)));
    assert(d.power(n) == d.chained(xn, cn.spec_mul(xn1)));
    let en = d.eps.spec_mul(cn.spec_mul(xn1));
    // xn1*x = (xn*inv)*x = xn*(inv*x) = xn*(x*inv) = xn
    lemma_ring(xn, inv, x);
    lemma_ring(inv, x, x);
    lemma_ring(xn, one, one);
    assert(xn1.spec_mul(x) == xn);
    // en*x = d'*((cn*xn1)*x) = d'*(cn*(xn1*x)) = d'*(cn*xn)
    lemma_ring(d.eps, cn.spec_mul(xn1), x);
    lemma_ring(cn, xn1, x);
    assert(en.spec_mul(x) == d.eps.spec_mul(cn.spec_mul(xn)));
    // d'*(cn*xn) - d'*xn = d'*(cn*xn) + d'*((-1)*xn) = d'*((cn + -1)*xn) = d'*(cn1*xn)
    let p = d.eps.spec_mul(cn.spec_mul(xn));
    let q = d.eps.spec_mul(xn);
    lemma_ring(p, q, q);
    lemma_neg_facts(d.eps, xn);
    lemma_neg_facts(one, xn);
    lemma_ring(xn, one, one);
    lemma_ring(d.eps, cn.spec_mul(xn), m1.spec_mul(xn));
    lemma_mul_right_distributes(cn, m1, xn);
    lemma_ring(cn, one, one);
    assert(q.spec_mul(one) == q) by {
        lemma_ring(q, one, one);
    }
    lemma_ring(d.eps, x, x);
    let dd = en.spec_mul(x).spec_sub(d.eps.spec_mul(xn));
    assert(dd == d.eps.spec_mul(cn1.spec_mul(xn)));
    // (dd*inv)*inv = d'*(cn1*xn2)
    lemma_ring(d.eps, cn1.spec_mul(xn), inv);
    lemma_ring(cn1, xn, inv);
    lemma_ring(d.eps, cn1.spec_mul(xn1), inv);
    lemma_ring(cn1, xn1, inv);
    // the quotient's real part: xn*inv = xn1
}

/// Multiplying by a dual number with nonzero real part and dividing by it
/// again gives back the first factor, derivative included.
pub proof fn law_product_undone_by_quotient<T: DualNumFloat>(a: Dual<T>, b: Dual<T>)
    requires
        exact_arithmetic::<T>(),
        exact_division::<T>(),
        b.re != T::spec_zero(),
    ensures
        a.product(b).quotient(b) == a,
{
    let one = T::spec_one();
    let inv = b.re.spec_recip();
    assert(b.re.spec_mul(inv) == one);
    // real part: (a*b)*inv = a*(b*inv) = a
    lemma_ring(a.re, b.re, inv);
    lemma_ring(a.re, one, one);
    // derivative part
    let u = a.eps.spec_mul(b.re).spec_mul(b.re);
    let w = a.re.spec_mul(b.eps).spec_mul(b.re);
    let pe = a.eps.spec_mul(b.re).spec_add(a.re.spec_mul(b.eps));
    // pe*b = u + w
    lemma_mul_right_distributes(a.eps.spec_mul(b.re), a.re.spec_mul(b.eps), b.re);
    // b'*(a*b) = (a*b)*b' = a*(b*b') = a*(b'*b) = (a*b')*b = w
    lemma_ring(b.eps, a.re.spec_mul(b.re), a.re);
    lemma_ring(a.re, b.re, b.eps);
    lemma_ring(b.re, b.eps, b.re);
    lemma_ring(a.re, b.eps, b.re);
    // (u + w) - w = u + (w + -w) = u + 0 = u
    lemma_ring(u, w, w.spec_neg());
    lemma_ring(w, w, w);
    lemma_ring(u, u, u);
    lemma_ring(u.spec_add(w), w, w);
    // (u*inv)*inv = ((a'*b)*(b*inv))*inv = (a'*b)*inv = a'*(b*inv) = a'
    let ab = a.eps.spec_mul(b.re);
    lemma_ring(ab, b.re, inv);
    lemma_ring(ab, one, one);
    lemma_ring(a.eps, b.re, inv);
    lemma_ring(a.eps, one, one);
}

/// A product of constants is the constant of the product, wherever zero and
/// one behave as units.
pub proof fn law_product_of_constants<T: DualNumFloat>(p: T, q: T)
    requires
        units_behave::<T>(),
    ensures
        Dual::lift(p).product(Dual::lift(q)) == Dual::lift(p.spec_mul(q)),
{
    lemma_units(q);
    lemma_units(p);
    lemma_units(T::spec_zero());
}

/// Exact arithmetic has units that behave.
pub proof fn law_exact_arithmetic_has_units<T: DualNumFloat>()
    requires
        exact_arithmetic::<T>(),
    ensures
        units_behave::<T>(),
{
    reveal(units_behave);
    assert forall|x: T|
        #[trigger] T::spec_zero().spec_add(x) == x && x.spec_add(T::spec_zero()) == x
            && x.spec_mul(T::spec_one()) == x by {
        lemma_ring(x, x, x);
    }
    assert forall|x: T|
        #[trigger] x.spec_mul(T::spec_zero()) == T::spec_zero() && T::spec_zero().spec_mul(x)
            == T::spec_zero() by {
        lemma_mul_zero(x);
    }
    assert forall|x: T| #[trigger] x.spec_add(T::spec_zero()) == x by {
        lemma_ring(x, x, x);
    }
    assert forall|x: T| #[trigger] x.spec_mul(T::spec_one()) == x by {
        lemma_ring(x, x, x);
    }
    assert forall|x: T| #[trigger] T::spec_zero().spec_mul(x) == T::spec_zero() by {
        lemma_mul_zero(x);
    }
}

/* polynomials */

/// The value at `a` of the polynomial with coefficients `cs` (lowest degree
/// first), by Horner's scheme.
pub open spec fn poly<T: DualNumFloat>(cs: Seq<T>, a: T) -> T
    decreases cs.len(),
{
    if cs.len() == 0 {
        T::spec_zero()
    } else {
        cs[0].spec_add(a.spec_mul(poly(cs.drop_first(), a)))
    }
}

/// `n*c`, as `c` added `n` times.
pub open spec fn times<T: DualNumFloat>(n: nat, c: T) -> T
    decreases n,
{
    if n == 0 {
        T::spec_zero()
    } else {
        c.spec_add(times((n - 1) as nat, c))
    }
}

/// The coefficients of the derivative: `[1*c1, 2*c2, 3*c3, ...]`.
pub open spec fn poly_derivative<T: DualNumFloat>(cs: Seq<T>) -> Seq<T> {
    if cs.len() == 0 {
        cs
    } else {
        scaled_by_degree(cs.drop_first(), 1)
    }
}

/// `[k*r0, (k+1)*r1, (k+2)*r2, ...]`.
pub open spec fn scaled_by_degree<T: DualNumFloat>(r: Seq<T>, k: nat) -> Seq<T> {
    Seq::new(r.len(), |i: int| times((i + k) as nat, r[i]))
}

/// The same polynomial evaluated by Horner's scheme on dual numbers, with the
/// dual-number sum and product.
pub open spec fn dual_poly<T: DualNumFloat>(cs: Seq<T>, x: Dual<T>) -> Dual<T>
    decreases cs.len(),
{
    if cs.len() == 0 {
        Dual::lift(T::spec_zero())
    } else {
        Dual::lift(cs[0]).sum(x.product(dual_poly(cs.drop_first(), x)))
    }
}

proof fn lemma_poly_of_sum<T: DualNumFloat>(xs: Seq<T>, ys: Seq<T>, a: T)
    requires
        exact_arithmetic::<T>(),
        xs.len() == ys.len(),
    ensures
        poly(Seq::new(xs.len(), |i: int| xs[i].spec_add(ys[i])), a) == poly(xs, a).spec_add(
            poly(ys, a),
        ),
    decreases xs.len(),
{
    let zs = Seq::new(xs.len(), |i: int| xs[i].spec_add(ys[i]));
    if xs.len() == 0 {
        lemma_ring(T::spec_zero(), T::spec_zero(), T::spec_zero());
    } else {
        let xr = xs.drop_first();
        let yr = ys.drop_first();
        lemma_poly_of_sum(xr, yr, a);
        assert(zs.drop_first() =~= Seq::new(xr.len(), |i: int| xr[i].spec_add(yr[i])));
        let px = poly(xr, a);
        let py = poly(yr, a);
        lemma_ring(a, px, py);
        lemma_add_swap_middle(xs[0], ys[0], a.spec_mul(px), a.spec_mul(py));
    }
}

proof fn lemma_scaled_step<T: DualNumFloat>(r: Seq<T>, k: nat, a: T)
    requires
        exact_arithmetic::<T>(),
    ensures
        poly(scaled_by_degree(r, k + 1), a) == poly(r, a).spec_add(poly(scaled_by_degree(r, k), a)),
{
    let s = scaled_by_degree(r, k);
    assert(scaled_by_degree(r, k + 1) =~= Seq::new(r.len(), |i: int| r[i].spec_add(s[i])));
    lemma_poly_of_sum(r, s, a);
}

proof fn lemma_poly_derivative_step<T: DualNumFloat>(cs: Seq<T>, a: T)
    requires
        exact_arithmetic::<T>(),
        cs.len() > 0,
    ensures
        poly(poly_derivative(cs), a) == poly(cs.drop_first(), a).spec_add(
            a.spec_mul(poly(poly_derivative(cs.drop_first()), a)),
        ),
{
    let r = cs.drop_first();
    lemma_scaled_step(r, 0, a);
    let s0 = scaled_by_degree(r, 0);
    let z = T::spec_zero();
    if r.len() == 0 {
        assert(poly(s0, a) == z);
        lemma_mul_zero(a);
        lemma_ring(poly(r, a), z, z);
    } else {
        assert(s0[0] == times(0, r[0]));
        assert(s0.drop_first() =~= scaled_by_degree(r.drop_first(), 1));
        assert(poly(s0, a) == z.spec_add(a.spec_mul(poly(poly_derivative(r), a))));
        lemma_ring(a.spec_mul(poly(poly_derivative(r), a)), z, z);
    }
}

/// Forward-mode differentiation is exact on polynomials: evaluating a
/// polynomial on the variable `a + e` gives its value at `a` and, in the
/// derivative part, the value at `a` of its derivative.
pub proof fn law_polynomial_derivative<T: DualNumFloat>(cs: Seq<T>, a: T)
    requires
        exact_arithmetic::<T>(),
    ensures
        dual_poly(cs, Dual::variable(a)) == (Dual {
            re: poly(cs, a),
            eps: poly(poly_derivative(cs), a),
        }),
    decreases cs.len(),
{
    if cs.len() == 0 {
    } else {
        let r = cs.drop_first();
        law_polynomial_derivative(r, a);
        lemma_poly_derivative_step(cs, a);
        let p = poly(r, a);
        let d = poly(poly_derivative(r), a);
        lemma_ring(p, p, p);
        lemma_ring(p.spec_add(a.spec_mul(d)), p, p);
    }
}

/* the Jacobian of a linear map */

/// `row[0]*v[0] + row[1]*v[1] + ...`, with constant coefficients.
pub open spec fn linear_combination<T: DualNumFloat>(row: Seq<T>, v: Seq<Dual<T>>) -> Dual<T>
    decreases row.len(),
{
    if row.len() == 0 || v.len() == 0 {
        Dual::lift(T::spec_zero())
    } else {
        Dual::lift(row[0]).product(v[0]).sum(linear_combination(row.drop_first(), v.drop_first()))
    }
}

/// The linear map with matrix `a`: output `k` combines the inputs by row `k`.
pub open spec fn linear_map<T: DualNumFloat>(a: Seq<Seq<T>>, v: Seq<Dual<T>>) -> Seq<Dual<T>> {
    Seq::new(a.len(), |k: int| linear_combination(a[k], v))
}

proof fn lemma_combination_of_unit<T: DualNumFloat>(row: Seq<T>, v: Seq<Dual<T>>, i: int)
    requires
        units_behave::<T>(),
        row.len() == v.len(),
        forall|j: int|
            0 <= j < v.len() ==> #[trigger] v[j].eps == (if j == i {
                T::spec_one()
            } else {
                T::spec_zero()
            }),
    ensures
        linear_combination(row, v).eps == (if 0 <= i < row.len() {
            row[i]
        } else {
            T::spec_zero()
        }),
    decreases row.len(),
{
    let zero = T::spec_zero();
    let one = T::spec_one();
    if row.len() > 0 {
        let rest_row = row.drop_first();
        let rest_v = v.drop_first();
        assert forall|j: int| 0 <= j < rest_v.len() implies #[trigger] rest_v[j].eps == (if j == i
            - 1 {
            one
        } else {
            zero
        }) by {
            assert(rest_v[j] == v[j + 1]);
        }
        lemma_combination_of_unit(rest_row, rest_v, i - 1);
        let r = linear_combination(rest_row, rest_v).eps;
        // the first term's derivative part: 0*v0 + row0*e0
        lemma_units(v[0].re);
        lemma_units(row[0]);
        lemma_units(row[0].spec_mul(v[0].eps));
        lemma_units(r);
        lemma_units(zero);
        if i == 0 {
            assert(v[0].eps == one);
        } else {
            assert(v[0].eps == zero);
            if 0 <= i < row.len() {
                assert(rest_row[i - 1] == row[i]);
            }
        }
    }
}

/// The Jacobian of a linear map is its matrix transposed: where every result
/// of `g` is the linear map with matrix `a` of its argument, and `jac` is what
/// `jacobian` returns for `g` at `x`, entry `(i, k)` of `jac` is `a[k][i]`.
/// Only the units of the scalar arithmetic need to behave.
pub proof fn law_jacobian_of_linear_map<
    T: DualNumFloat,
    G: Fn(&Vec<Dual<T>>) -> Vec<Dual<T>>,
>(g: G, x: Seq<Dual<T>>, a: Seq<Seq<T>>, jac: Seq<Seq<T>>)
    requires
        units_behave::<T>(),
        forall|v: Vec<Dual<T>>, y: Vec<Dual<T>>|
            #[trigger] g.ensures((&v,), y) ==> y@ == linear_map(a, v@),
        forall|k: int| 0 <= k < a.len() ==> #[trigger] a[k].len() == x.len(),
        jac.len() == x.len(),
        forall|i: int| 0 <= i < x.len() ==> #[trigger] is_jacobian_row(g, x, i, jac[i]),
    ensures
        forall|i: int| 0 <= i < x.len() ==> #[trigger] jac[i].len() == a.len(),
        forall|i: int, k: int|
            0 <= i < x.len() && 0 <= k < a.len() ==> #[trigger] jac[i][k] == a[k][i],
{
    assert forall|i: int| 0 <= i < x.len() implies #[trigger] jac[i].len() == a.len()
        && forall|k: int| 0 <= k < a.len() ==> #[trigger] jac[i][k] == a[k][i] by {
        assert(is_jacobian_row(g, x, i, jac[i]));
        let (v, y) = choose|v: Vec<Dual<T>>, y: Vec<Dual<T>>|
            {
                &&& v@ == seeded(x, i)
                &&& #[trigger] g.ensures((&v,), y)
                &&& jac[i] == derivative_parts(y@)
            };
        assert(y@ == linear_map(a, seeded(x, i)));
        assert forall|k: int| 0 <= k < a.len() implies #[trigger] jac[i][k] == a[k][i] by {
            lemma_combination_of_unit(a[k], seeded(x, i), i);
        }
    }
    assert forall|i: int, k: int| 0 <= i < x.len() && 0 <= k < a.len() implies #[trigger] jac[i][k]
        == a[k][i] by {
        assert(jac[i].len() == a.len());
    }
}

} // verus!
