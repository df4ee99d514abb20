use raytracer::scalar::Scalar;
use raytracer::shapes::sphere;
use raytracer::solvers::{solve_quadratic, QuadraticRoot};
use raytracer::types::epsilon;

fn s(x: f32) -> Scalar {
    Scalar::from_bits(x.to_bits())
}

/// The candidates as a caller computes them from the coefficients.
fn solve(a: f32, b: f32, c: f32) -> QuadraticRoot {
    let discriminant = b * b - 4.0 * a * c;
    let tangent = -b / (2.0 * a);
    let plus = (-b + discriminant.sqrt()) / (2.0 * a);
    let minus = (-b - discriminant.sqrt()) / (2.0 * a);
    solve_quadratic(s(discriminant), s(tangent), s(plus), s(minus), epsilon())
}

#[test]
fn two_roots_use_the_whole_divisor() {
    // 2 t^2 - 8 t + 6 = 2 (t - 1) (t - 3): dividing by 2 and multiplying by a
    // would give 12 and 4.
    assert_eq!(solve(2.0, -8.0, 6.0), QuadraticRoot::Two(s(3.0), s(1.0)));
}

#[test]
fn negative_discriminant_has_no_root() {
    assert_eq!(solve(1.0, 0.0, 1.0), QuadraticRoot::NoRoot);
}

#[test]
fn zero_discriminant_has_one_root() {
    // (t - 2)^2
    assert_eq!(solve(1.0, -4.0, 4.0), QuadraticRoot::One(s(2.0)));
}

#[test]
fn discriminant_just_below_zero_still_touches() {
    let tangent = s(2.0);
    let nan = s(f32::NAN);
    let r = solve_quadratic(s(-0.0005), tangent, nan, nan, epsilon());
    assert_eq!(r, QuadraticRoot::One(tangent));
    let r = solve_quadratic(s(0.0005), tangent, s(2.1), s(1.9), epsilon());
    assert_eq!(r, QuadraticRoot::One(tangent));
}

#[test]
fn discriminant_at_the_threshold_is_not_near_zero() {
    let r = solve_quadratic(epsilon(), s(2.0), s(2.1), s(1.9), epsilon());
    assert_eq!(r, QuadraticRoot::Two(s(2.1), s(1.9)));
    let r = solve_quadratic(epsilon().neg(), s(2.0), s(2.1), s(1.9), epsilon());
    assert_eq!(r, QuadraticRoot::NoRoot);
}

#[test]
fn discriminant_that_is_no_number_has_no_root() {
    let r = solve_quadratic(s(f32::NAN), s(2.0), s(2.1), s(1.9), epsilon());
    assert_eq!(r, QuadraticRoot::NoRoot);
}

#[test]
fn sphere_takes_the_nearer_root_ahead() {
    let eps = epsilon();
    assert_eq!(sphere::intersection(QuadraticRoot::NoRoot, eps), None);
    assert_eq!(sphere::intersection(QuadraticRoot::One(s(2.0)), eps), Some(s(2.0)));
    assert_eq!(sphere::intersection(QuadraticRoot::One(s(-2.0)), eps), None);
    assert_eq!(sphere::intersection(QuadraticRoot::Two(s(3.0), s(1.0)), eps), Some(s(1.0)));
    assert_eq!(sphere::intersection(QuadraticRoot::Two(s(1.0), s(3.0)), eps), Some(s(1.0)));
    assert_eq!(sphere::intersection(QuadraticRoot::Two(s(3.0), s(-1.0)), eps), Some(s(3.0)));
    assert_eq!(sphere::intersection(QuadraticRoot::Two(s(-1.0), s(3.0)), eps), Some(s(3.0)));
    assert_eq!(sphere::intersection(QuadraticRoot::Two(s(-3.0), s(-1.0)), eps), None);
}

#[test]
fn sphere_discards_roots_at_the_origin() {
    let eps = epsilon();
    // A root of exactly epsilon is not ahead.
    assert_eq!(sphere::intersection(QuadraticRoot::One(eps), eps), None);
    assert_eq!(sphere::intersection(QuadraticRoot::Two(s(0.0), s(0.0005)), eps), None);
    assert_eq!(sphere::intersection(QuadraticRoot::Two(s(0.0), s(2.0)), eps), Some(s(2.0)));
    // A root that is no number is never reported.
    assert_eq!(sphere::intersection(QuadraticRoot::Two(s(f32::NAN), s(2.0)), eps), Some(s(2.0)));
    assert_eq!(sphere::intersection(QuadraticRoot::One(s(f32::NAN)), eps), None);
}
