//! The roots of a quadratic, told apart by its discriminant.
use crate::scalar::Scalar;
use vstd::prelude::*;

verus! {

/// The real roots of `a*t^2 + b*t + c`.
#[derive(Clone, Copy, Debug, PartialEq, Eq, Structural)]
pub enum QuadraticRoot {
    NoRoot,
    One(Scalar),
    Two(Scalar, Scalar),
}

/// How many real roots a discriminant allows.
///
/// A discriminant nearer to zero than `epsilon` means one root, whatever its
/// sign: the line touches. Beyond that a positive one means two roots, and
/// anything else (a negative one, a NaN) means none.
pub open spec fn root_count(discriminant: Scalar, epsilon: Scalar) -> nat {
    if discriminant.absolute().below(epsilon) {
        1
    } else if (Scalar { bits: 0 }).below(discriminant) {
        2
    } else {
        0
    }
}

/// The roots that [`solve_quadratic`] reports.
pub open spec fn quadratic_roots(
    discriminant: Scalar,
    tangent: Scalar,
    plus: Scalar,
    minus: Scalar,
    epsilon: Scalar,
) -> QuadraticRoot {
    if root_count(discriminant, epsilon) == 1 {
        QuadraticRoot::One(tangent)
    } else if root_count(discriminant, epsilon) == 2 {
        QuadraticRoot::Two(plus, minus)
    } else {
        QuadraticRoot::NoRoot
    }
}

/// Chooses the roots of `a*t^2 + b*t + c` among the candidates that the
/// caller has computed from the coefficients:
/// `discriminant = b*b - 4*a*c`, `tangent = -b / (2*a)`,
/// `plus = (-b + sqrt(discriminant)) / (2*a)` and
/// `minus = (-b - sqrt(discriminant)) / (2*a)`.
///
/// A candidate that does not apply is never looked at, so it may be a NaN
/// (as the square root of a negative discriminant is).
pub fn solve_quadratic(
    discriminant: Scalar,
    tangent: Scalar,
    plus: Scalar,
    minus: Scalar,
    epsilon: Scalar,
) -> (r: QuadraticRoot)
    ensures
        r == quadratic_roots(discriminant, tangent, plus, minus, epsilon),
{
    if discriminant.abs().lt(epsilon) {
        QuadraticRoot::One(tangent)
    } else if discriminant.gt(Scalar::zero()) {
        QuadraticRoot::Two(plus, minus)
    } else {
        QuadraticRoot::NoRoot
    }
}

} // verus!
