//! Where a ray meets a sphere.
use crate::scalar::Scalar;
use crate::solvers::QuadraticRoot;
use crate::types::V3;
use vstd::prelude::*;

verus! {

#[derive(Clone, Copy, Debug, PartialEq, Eq, Structural)]
pub struct Sphere {
    pub center: V3,
    pub radius: Scalar,
}

/// A distance counts only if it lies beyond `epsilon`: nearer ones are
/// behind the ray's origin or on it.
pub open spec fn ahead(t: Scalar, epsilon: Scalar) -> bool {
    epsilon.below(t)
}

/// The nearer of the roots that lie ahead, if any does. Of two roots ahead
/// the smaller one is taken, and the second one when they are the same
/// number.
pub open spec fn nearest_root(roots: QuadraticRoot, epsilon: Scalar) -> Option<Scalar> {
    match roots {
        QuadraticRoot::NoRoot => None,
        QuadraticRoot::One(t) => if ahead(t, epsilon) {
            Some(t)
        } else {
            None
        },
        QuadraticRoot::Two(t1, t2) => if ahead(t1, epsilon) && ahead(t2, epsilon) {
            if t1.below(t2) {
                Some(t1)
            } else {
                Some(t2)
            }
        } else if ahead(t1, epsilon) {
            Some(t1)
        } else if ahead(t2, epsilon) {
            Some(t2)
        } else {
            None
        },
    }
}

/// The distance along the ray to the sphere, given the roots of the
/// quadratic `a = d.d`, `b = 2 d.(o - c)`, `c = (o - c).(o - c) - r*r` for a
/// ray from `o` along `d` and a sphere of radius `r` around `c`.
///
/// The result, if there is one, lies beyond `epsilon`, is one of the roots,
/// and no root that lies beyond `epsilon` is smaller.
pub fn intersection(roots: QuadraticRoot, epsilon: Scalar) -> (r: Option<Scalar>)
    ensures
        r == nearest_root(roots, epsilon),
        match r {
            Some(t) => {
                &&& ahead(t, epsilon)
                &&& !t.nan()
                &&& match roots {
                    QuadraticRoot::NoRoot => false,
                    QuadraticRoot::One(t1) => t == t1,
                    QuadraticRoot::Two(t1, t2) => {
                        &&& t == t1 || t == t2
                        &&& ahead(t1, epsilon) ==> t.at_most(t1)
                        &&& ahead(t2, epsilon) ==> t.at_most(t2)
                    },
                }
            },
            None => match roots {
                QuadraticRoot::NoRoot => true,
                QuadraticRoot::One(t1) => !ahead(t1, epsilon),
                QuadraticRoot::Two(t1, t2) => !ahead(t1, epsilon) && !ahead(t2, epsilon),
            },
        },
{
    match roots {
        QuadraticRoot::NoRoot => None,
        QuadraticRoot::One(t) => if t.gt(epsilon) {
            Some(t)
        } else {
            None
        },
        QuadraticRoot::Two(t1, t2) => {
            let first: bool = t1.gt(epsilon);
            let second: bool = t2.gt(epsilon);
            if first && second {
                if t1.lt(t2) {
                    Some(t1)
                } else {
                    Some(t2)
                }
            } else if first {
                Some(t1)
            } else if second {
                Some(t2)
            } else {
                None
            }
        },
    }
}

} // verus!
