use num_dual::{jacobian, Dual, DualNum, DualNumFloat, FloatConstant};
use num_traits::{Float, FloatConst, FromPrimitive};

/// A floating-point scalar for the dual numbers under test.
#[derive(Clone, Copy, Debug, PartialEq, PartialOrd)]
struct Real<F>(F);

impl<F: Float + FloatConst + FromPrimitive> DualNumFloat for Real<F> {
    // The specification of each operation is the operation itself.
    fn spec_zero() -> Self {
        <Self as DualNumFloat>::zero()
    }

    fn spec_one() -> Self {
        <Self as DualNumFloat>::one()
    }

    fn spec_half() -> Self {
        <Self as DualNumFloat>::half()
    }

    fn spec_add(self, rhs: Self) -> Self {
        DualNumFloat::add(self, rhs)
    }

    fn spec_sub(self, rhs: Self) -> Self {
        DualNumFloat::sub(self, rhs)
    }

    fn spec_mul(self, rhs: Self) -> Self {
        DualNumFloat::mul(self, rhs)
    }

    fn spec_neg(self) -> Self {
        DualNumFloat::neg(self)
    }

    fn spec_recip(self) -> Self {
        DualNumFloat::recip(self)
    }

    fn spec_sqrt(self) -> Self {
        DualNumFloat::sqrt(self)
    }

    fn spec_powi(self, n: i32) -> Self {
        DualNumFloat::powi(self, n)
    }

    fn spec_from_i32(n: i32) -> Self {
        <Self as DualNumFloat>::from_i32(n)
    }

    fn spec_sin(self) -> Self {
        DualNumFloat::sin_cos(self).0
    }

    fn spec_cos(self) -> Self {
        DualNumFloat::sin_cos(self).1
    }

    fn spec_eq(self, rhs: Self) -> bool {
        DualNumFloat::eq(self, rhs)
    }

    fn spec_lt(self, rhs: Self) -> bool {
        DualNumFloat::lt(self, rhs)
    }

    fn spec_is_sign_positive(self) -> bool {
        DualNumFloat::is_sign_positive(self)
    }

    fn spec_is_sign_negative(self) -> bool {
        DualNumFloat::is_sign_negative(self)
    }

    fn spec_from_i64(n: i64) -> Option<Self> {
        <Self as DualNumFloat>::from_i64(n)
    }

    fn spec_from_u64(n: u64) -> Option<Self> {
        <Self as DualNumFloat>::from_u64(n)
    }

    fn spec_min_value() -> Self {
        <Self as DualNumFloat>::min_value()
    }

    fn spec_max_value() -> Self {
        <Self as DualNumFloat>::max_value()
    }

    fn spec_constant(c: FloatConstant) -> Self {
        <Self as DualNumFloat>::constant(c)
    }

    fn zero() -> Self {
        Real(F::zero())
    }

    fn one() -> Self {
        Real(F::one())
    }

    fn half() -> Self {
        Real(F::from_f64(0.5).unwrap())
    }

    fn add(self, rhs: Self) -> Self {
        Real(self.0 + rhs.0)
    }

    fn sub(self, rhs: Self) -> Self {
        Real(self.0 - rhs.0)
    }

    fn mul(self, rhs: Self) -> Self {
        Real(self.0 * rhs.0)
    }

    fn neg(self) -> Self {
        Real(-self.0)
    }

    fn recip(self) -> Self {
        Real(self.0.recip())
    }

    fn sqrt(self) -> Self {
        Real(self.0.sqrt())
    }

    fn powi(self, n: i32) -> Self {
        Real(self.0.powi(n))
    }

    fn from_i32(n: i32) -> Self {
        Real(F::from_i32(n).unwrap())
    }

    fn sin_cos(self) -> (Self, Self) {
        let (s, c) = self.0.sin_cos();
        (Real(s), Real(c))
    }

    fn eq(self, rhs: Self) -> bool {
        self.0 == rhs.0
    }

    fn lt(self, rhs: Self) -> bool {
        self.0 < rhs.0
    }

    fn is_sign_positive(self) -> bool {
        self.0.is_sign_positive()
    }

    fn is_sign_negative(self) -> bool {
        self.0.is_sign_negative()
    }

    fn from_i64(n: i64) -> Option<Self> {
        F::from_i64(n).map(Real)
    }

    fn from_u64(n: u64) -> Option<Self> {
        F::from_u64(n).map(Real)
    }

    fn min_value() -> Self {
        Real(F::min_value())
    }

    fn max_value() -> Self {
        Real(F::max_value())
    }

    fn constant(c: FloatConstant) -> Self {
        Real(match c {
            FloatConstant::Pi => F::PI(),
            FloatConstant::Tau => F::TAU(),
            FloatConstant::FracPi2 => F::FRAC_PI_2(),
            FloatConstant::FracPi3 => F::FRAC_PI_3(),
            FloatConstant::FracPi4 => F::FRAC_PI_4(),
            FloatConstant::FracPi6 => F::FRAC_PI_6(),
            FloatConstant::FracPi8 => F::FRAC_PI_8(),
            FloatConstant::Frac1Pi => F::FRAC_1_PI(),
            FloatConstant::Frac2Pi => F::FRAC_2_PI(),
            FloatConstant::Frac2SqrtPi => F::FRAC_2_SQRT_PI(),
            FloatConstant::E => F::E(),
            FloatConstant::Log2E => F::LOG2_E(),
            FloatConstant::Log10E => F::LOG10_E(),
            FloatConstant::Ln2 => F::LN_2(),
            FloatConstant::Ln10 => F::LN_10(),
        })
    }
}

type Dual32 = Dual<Real<f32>>;
type Dual64 = Dual<Real<f64>>;

fn d64(re: f64, eps: f64) -> Dual64 {
    Dual64::new(Real(re), Real(eps))
}

fn parts(x: Dual64) -> (f64, f64) {
    (x.re.0, x.eps.0)
}

#[test]
fn test_sqrt() {
    let x = Dual64::from_re(Real(4.0)).derivative();
    let y = x.sqrt();
    assert_eq!(y.re.0, 2.0);
    assert_eq!(y.eps.0, 0.25);
}

#[test]
fn test_derivative() {
    let f = |x: Dual32, y: Dual32| -> Dual32 { x * x + y };

    let x = f(Dual32::from_re(Real(3.0)).derivative(), Dual32::from_re(Real(3.0)));

    assert_eq!(x.re.0, 12.0);
    assert_eq!(x.eps.0, 6.0);
}

#[test]
fn test_jacobian() {
    fn my_fn(x: &Vec<Dual32>) -> Vec<Dual32> {
        let y = x[0] * x[0] + Dual32::from_re(Real(2.0)) * x[1];
        vec![y]
    }

    let x = vec![Dual32::from_re(Real(3.0)), Dual32::from_re(Real(5.0))];

    let jac = jacobian(my_fn, &x);
    assert_eq!(jac[0][0].0, 6.0);
    assert_eq!(jac[1][0].0, 2.0);
}

#[test]
fn jacobian_of_two_outputs_has_one_row_per_input() {
    // g(x, y) = (x * y, x - y) at (2, 7)
    let g = |v: &Vec<Dual64>| vec![v[0] * v[1], v[0] - v[1]];
    let x = vec![d64(2.0, 9.0), d64(7.0, -4.0)];
    let jac = jacobian(g, &x);
    assert_eq!(jac.len(), 2);
    assert_eq!(jac[0].iter().map(|r| r.0).collect::<Vec<_>>(), vec![7.0, 1.0]);
    assert_eq!(jac[1].iter().map(|r| r.0).collect::<Vec<_>>(), vec![2.0, -1.0]);
}

#[test]
fn jacobian_of_no_inputs_is_empty() {
    let g = |_: &Vec<Dual64>| vec![Dual64::one()];
    let jac = jacobian(g, &Vec::new());
    assert!(jac.is_empty());
}

#[test]
fn constructors_set_the_parts() {
    assert_eq!(parts(d64(1.5, -2.0)), (1.5, -2.0));
    assert_eq!(parts(Dual64::from_re(Real(3.0))), (3.0, 0.0));
    assert_eq!(parts(Dual64::from(Real(3.0))), (3.0, 0.0));
    assert_eq!(parts(d64(3.0, 8.0).derivative()), (3.0, 1.0));
    assert_eq!(parts(d64(3.0, 8.0).derivative().derivative()), (3.0, 1.0));
    assert_eq!(parts(d64(3.0, 8.0).chain_rule(Real(5.0), Real(0.5))), (5.0, 4.0));
}

#[test]
fn arithmetic_follows_the_rules_of_differentiation() {
    let a = d64(3.0, 2.0);
    let b = d64(4.0, -1.0);
    assert_eq!(parts(a + b), (7.0, 1.0));
    assert_eq!(parts(a - b), (-1.0, 3.0));
    // product rule: 2*4 + 3*(-1)
    assert_eq!(parts(a * b), (12.0, 5.0));
    // quotient rule: (2*4 - (-1)*3) / 16
    assert_eq!(parts(a / b), (0.75, 11.0 / 16.0));
    assert_eq!(parts(-a), (-3.0, -2.0));
}

#[test]
fn scalar_operands_are_constants() {
    let a = d64(3.0, 2.0);
    assert_eq!(parts(a + Real(1.0)), (4.0, 2.0));
    assert_eq!(parts(a - Real(1.0)), (2.0, 2.0));
    assert_eq!(parts(a * Real(2.0)), (6.0, 4.0));
    assert_eq!(parts(a / Real(2.0)), (1.5, 1.0));
    assert_eq!(parts(a * Real(2.0)), parts(a * Dual64::from_re(Real(2.0))));
}

#[test]
fn compound_assignment_matches_the_operators() {
    let a = d64(3.0, 2.0);
    let b = d64(4.0, -1.0);
    let mut x = a;
    x += b;
    assert_eq!(parts(x), parts(a + b));
    let mut x = a;
    x -= b;
    assert_eq!(parts(x), parts(a - b));
    let mut x = a;
    x *= b;
    assert_eq!(parts(x), parts(a * b));
    let mut x = a;
    x /= b;
    assert_eq!(parts(x), parts(a / b));
}

#[test]
fn trigonometry_uses_the_chain_rule() {
    let x = d64(0.0, 2.0);
    assert_eq!(parts(x.sin()), (0.0, 2.0));
    assert_eq!(parts(x.cos()), (1.0, -0.0));
    let (s, c) = x.sin_cos();
    assert_eq!(parts(s), parts(x.sin()));
    assert_eq!(parts(c), parts(x.cos()));
}

#[test]
fn chained_functions_multiply_derivatives() {
    // sqrt(x * x) at x = 4 + e: value 4, derivative 1
    let x = Dual64::from_re(Real(4.0)).derivative();
    let y = (x * x).sqrt();
    assert_eq!(parts(y), (4.0, 1.0));
}

#[test]
fn polynomial_derivative_by_horner() {
    // p(x) = 1 + 2x + 3x^2, p(2) = 17, p'(2) = 2 + 6*2 = 14
    let x = Dual64::from_re(Real(2.0)).derivative();
    let coeffs = [1.0, 2.0, 3.0];
    let mut acc = Dual64::zero();
    for c in coeffs.iter().rev() {
        acc = Dual64::from_re(Real(*c)) + x * acc;
    }
    assert_eq!(parts(acc), (17.0, 14.0));
}

#[test]
fn comparisons_look_at_the_real_part() {
    let a = d64(1.0, 5.0);
    let b = d64(1.0, -5.0);
    let c = d64(2.0, 0.0);
    assert!(a == b);
    assert!(a != c);
    assert!(a < c);
    assert!(c > b);
    assert_eq!(a.partial_cmp(&c), Some(std::cmp::Ordering::Less));
    assert_eq!(a.partial_cmp(&b), Some(std::cmp::Ordering::Equal));
    let nan = d64(f64::NAN, 0.0);
    assert_eq!(nan.partial_cmp(&a), None);
    assert!(nan != nan);
}

#[test]
fn max_min_clamp_keep_the_chosen_derivative() {
    let a = d64(1.0, 5.0);
    let c = d64(2.0, 7.0);
    assert_eq!(parts(a.max(c)), (2.0, 7.0));
    assert_eq!(parts(c.max(a)), (2.0, 7.0));
    assert_eq!(parts(a.min(c)), (1.0, 5.0));
    assert_eq!(parts(c.min(a)), (1.0, 5.0));
    // on a tie the receiver wins
    let b = d64(1.0, -5.0);
    assert_eq!(parts(a.max(b)), (1.0, 5.0));
    assert_eq!(parts(a.min(b)), (1.0, 5.0));
    let lo = d64(0.0, 1.0);
    let hi = d64(3.0, 2.0);
    assert_eq!(parts(d64(-1.0, 9.0).clamp(lo, hi)), (0.0, 1.0));
    assert_eq!(parts(d64(4.0, 9.0).clamp(lo, hi)), (3.0, 2.0));
    assert_eq!(parts(d64(2.0, 9.0).clamp(lo, hi)), (2.0, 9.0));
}

#[test]
fn sign_functions() {
    let p = d64(2.0, 3.0);
    let n = d64(-2.0, 3.0);
    let z = d64(0.0, 3.0);
    assert_eq!(parts(p.abs()), (2.0, 3.0));
    assert_eq!(parts(n.abs()), (2.0, -3.0));
    assert_eq!(parts(z.abs()), (-0.0, -3.0));
    assert_eq!(parts(p.signum()), (1.0, 0.0));
    assert_eq!(parts(z.signum()), (0.0, 0.0));
    assert_eq!(parts(n.signum()), (-1.0, -0.0));
    assert!(p.is_positive() && !p.is_negative());
    assert!(n.is_negative() && !n.is_positive());
    assert!(!z.is_positive() && !z.is_negative());
    assert_eq!(parts(p.abs_sub(&n)), (4.0, 0.0));
    assert_eq!(parts(n.abs_sub(&p)), (0.0, 0.0));
    assert_eq!(parts(n.copysign(p)), (2.0, -3.0));
    assert_eq!(parts(p.copysign(n)), (-2.0, -3.0));
    assert!(p.is_sign_positive() && n.is_sign_negative());
}

#[test]
fn zero_and_one() {
    assert_eq!(parts(Dual64::zero()), (0.0, 0.0));
    assert_eq!(parts(Dual64::one()), (1.0, 0.0));
    assert!(d64(0.0, 4.0).is_zero());
    assert!(!d64(1.0, 0.0).is_zero());
    assert!(d64(1.0, 4.0).is_one());
    assert!(!d64(2.0, 0.0).is_one());
}

#[test]
fn conversions_from_integers() {
    assert_eq!(Dual64::from_i64(-3).map(parts), Some((-3.0, 0.0)));
    assert_eq!(Dual64::from_u64(7).map(parts), Some((7.0, 0.0)));
    assert_eq!(Dual64::min_value().map(parts), Some((f64::MIN, 0.0)));
    assert_eq!(Dual64::max_value().map(parts), Some((f64::MAX, 0.0)));
}

#[test]
fn complex_field_views() {
    let a = d64(-3.0, 2.0);
    let b = d64(2.0, 1.0);
    assert_eq!(parts(Dual64::from_real(a)), parts(a));
    assert_eq!(parts(a.real_part()), parts(a));
    assert_eq!(parts(a.imaginary()), (0.0, 0.0));
    assert_eq!(parts(a.modulus()), (3.0, -2.0));
    assert_eq!(parts(a.norm1()), (3.0, -2.0));
    assert_eq!(parts(a.modulus_squared()), (9.0, -12.0));
    assert_eq!(parts(a.scale(b)), parts(a * b));
    assert_eq!(parts(a.unscale(b)), parts(a / b));
    assert_eq!(parts(a.conjugate()), parts(a));
}

#[test]
fn constants_are_lifted() {
    assert_eq!(parts(Dual64::pi()), (std::f64::consts::PI, 0.0));
    assert_eq!(parts(Dual64::two_pi()), (std::f64::consts::TAU, 0.0));
    assert_eq!(parts(Dual64::frac_pi_2()), (std::f64::consts::FRAC_PI_4, 0.0));
    assert_eq!(parts(Dual64::frac_pi_3()), (std::f64::consts::FRAC_PI_3, 0.0));
    assert_eq!(parts(Dual64::frac_pi_4()), (std::f64::consts::FRAC_PI_4, 0.0));
    assert_eq!(parts(Dual64::frac_pi_6()), (std::f64::consts::FRAC_PI_6, 0.0));
    assert_eq!(parts(Dual64::frac_pi_8()), (std::f64::consts::FRAC_PI_8, 0.0));
    assert_eq!(parts(Dual64::frac_1_pi()), (std::f64::consts::FRAC_1_PI, 0.0));
    assert_eq!(parts(Dual64::frac_2_pi()), (std::f64::consts::FRAC_2_PI, 0.0));
    assert_eq!(parts(Dual64::frac_2_sqrt_pi()), (std::f64::consts::FRAC_2_SQRT_PI, 0.0));
    assert_eq!(parts(Dual64::e()), (std::f64::consts::E, 0.0));
    assert_eq!(parts(Dual64::log2_e()), (std::f64::consts::LOG2_E, 0.0));
    assert_eq!(parts(Dual64::log10_e()), (std::f64::consts::LOG10_E, 0.0));
    assert_eq!(parts(Dual64::ln_2()), (std::f64::consts::LN_2, 0.0));
    assert_eq!(parts(Dual64::ln_10()), (std::f64::consts::LN_10, 0.0));
}

#[test]
fn dual_numbers_form_a_ring_on_exact_values() {
    let a = d64(3.0, 2.0);
    let b = d64(4.0, -1.0);
    let c = d64(-2.0, 5.0);
    assert_eq!(parts(a * b), parts(b * a));
    assert_eq!(parts((a * b) * c), parts(a * (b * c)));
    assert_eq!(parts(a * (b + c)), parts(a * b + a * c));
    assert_eq!(parts(a + b), parts(b + a));
    assert_eq!(parts((a + b) + c), parts(a + (b + c)));
    assert_eq!(parts(Dual64::zero() + a), parts(a));
    assert_eq!(parts(Dual64::one() * a), parts(a));
}

#[test]
fn epsilon_squared_is_zero() {
    let e = d64(0.0, 1.0);
    assert_eq!(parts(e * e), (0.0, 0.0));
}

#[test]
fn quotient_undoes_product() {
    let a = d64(3.0, 2.0);
    let b = d64(4.0, -1.0);
    assert_eq!(parts((a / b) * b), parts(a));
}

#[test]
fn square_root_squared() {
    let d = d64(4.0, 3.0);
    let r = d.sqrt();
    assert_eq!(parts(r), (2.0, 0.75));
    assert_eq!(parts(r * r), parts(d));
}

#[test]
fn sine_and_cosine_squares_sum_to_one() {
    let d = d64(0.0, 3.0);
    let (s, c) = d.sin_cos();
    assert_eq!(parts(s * s + c * c), (1.0, 0.0));
}

#[test]
fn rounded_arithmetic_is_not_associative() {
    // the laws over exact arithmetic do not hold of floats as such
    let a = d64(0.1, 0.0);
    let b = d64(0.2, 0.0);
    let c = d64(0.3, 0.0);
    assert_ne!(parts((a + b) + c), parts(a + (b + c)));
}

#[test]
fn products_and_sums_commute_on_floats() {
    let a = d64(0.1, 0.7);
    let b = d64(0.3, -1.9);
    assert_eq!(parts(a * b), parts(b * a));
    assert_eq!(parts(a + b), parts(b + a));
}

#[test]
fn abs_is_division_by_signum() {
    let x = d64(-3.0, 2.0);
    assert_eq!(parts(x.abs()), parts(x / x.signum()));
    let y = d64(5.0, -4.0);
    assert_eq!(parts(y.abs()), parts(y / y.signum()));
}

#[test]
fn product_undone_by_quotient() {
    let a = d64(3.0, 2.0);
    let b = d64(4.0, -1.0);
    assert_eq!(parts((a * b) / b), parts(a));
}

#[test]
fn product_of_constants_is_constant() {
    let r = Dual64::from_re(Real(3.0)) * Dual64::from_re(Real(-2.5));
    assert_eq!(parts(r), (-7.5, 0.0));
}

#[test]
fn jacobian_of_linear_map_is_transposed_matrix() {
    // g(x) = (2 x0 + 3 x1, -x0 + 5 x1): matrix [[2, 3], [-1, 5]]
    let g = |v: &Vec<Dual64>| {
        vec![
            Dual64::from_re(Real(2.0)) * v[0] + Dual64::from_re(Real(3.0)) * v[1],
            Dual64::from_re(Real(-1.0)) * v[0] + Dual64::from_re(Real(5.0)) * v[1],
        ]
    };
    let x = vec![d64(1.0, 0.0), d64(2.0, 0.0)];
    let jac = jacobian(g, &x);
    let rows: Vec<Vec<f64>> = jac.iter().map(|r| r.iter().map(|s| s.0).collect()).collect();
    assert_eq!(rows, vec![vec![2.0, -1.0], vec![3.0, 5.0]]);
}

#[test]
fn powi_of_the_variable() {
    // the example on `derivative`: (5 + e)^2 = 25 + 10 e
    let x = Dual64::from_re(Real(5.0)).derivative().powi(2);
    assert_eq!(x.re.0, 25.0);
    assert_eq!(x.eps.0, 10.0);
    assert_eq!(parts(d64(2.0, 1.0).powi(3)), (8.0, 12.0));
    assert_eq!(parts(d64(2.0, 1.0).powi(-1)), (0.5, -0.25));
    assert_eq!(parts(d64(2.0, 7.0).powi(0)), (1.0, 0.0));
    assert_eq!(parts(d64(1.0, 1.0).powi(1)), (1.0, 1.0));
    assert_eq!(parts(d64(1.0, 1.0).powi(i32::MIN)), (1.0, i32::MIN as f64));
}

#[test]
fn powi_two_is_square() {
    let d = d64(3.0, -2.0);
    assert_eq!(parts(d.powi(2)), parts(d * d));
}

#[test]
fn hypot_is_root_of_sum_of_squares() {
    // hypot(3 + e, 4) = 5 + (3/5) e
    let a = Dual64::from_re(Real(3.0)).derivative();
    let b = Dual64::from_re(Real(4.0));
    let h = a.hypot(b);
    assert_eq!(h.re.0, 5.0);
    assert!((h.eps.0 - 0.6).abs() < 1e-15);
    assert_eq!(parts(h), parts((a * a + b * b).sqrt()));
}

#[test]
fn argument_of_a_real_number() {
    assert_eq!(parts(d64(2.0, 3.0).argument()), (0.0, 0.0));
    assert_eq!(parts(d64(0.0, 3.0).argument()), (0.0, 0.0));
    assert_eq!(parts(d64(-2.0, 3.0).argument()), (std::f64::consts::PI, 0.0));
}
