# num_dual

Forward-mode automatic differentiation with dual numbers `re + eps·ε`
(`ε² = 0`), verified with Verus.

- `src/lib.rs`: the scalar trait `DualNumFloat` (the operations a float type
  supplies, each described by a spec function), the traits `DualNum` and
  `RealDualNum`, and `jacobian`, which seeds each input in turn and collects
  the derivative parts of the outputs.
- `src/forward_autodiff.rs`: `Dual<T>` and its arithmetic. Every operation is
  specified by the rule of differentiation it applies (sum, product, quotient
  and chain rule), stated over the scalar operations of `T`.
- `src/laws.rs`: what holds across operations: comparisons ignore derivative
  parts; sum and product commute wherever scalar `+` and `*` do; and, over
  exact scalar arithmetic, dual numbers form a commutative ring with `ε² = 0`,
  products of constants stay constant, quotient and product undo each other,
  `abs(x) = x / signum(x)`, the chain rule composes, evaluating a polynomial at
  `a + ε` yields its value and its derivative at `a`, and the Jacobian of a
  linear map is its matrix transposed.
- `app/`: `f32`/`f64` dual numbers with the num-traits, approx, simba and
  nalgebra traits, delegating all arithmetic to the verified library, and a
  nalgebra `jacobian`.
