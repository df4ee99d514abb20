//! Where a ray meets a triangle.
use crate::scalar::Scalar;
use crate::types::{V2, V3};
use vstd::prelude::*;

verus! {

/// Three corners, and optionally a texture coordinate at each.
#[derive(Clone, Copy, Debug)]
pub struct Triangle {
    vertices: [V3; 3],
    uv: Option<[V2; 3]>,
}

impl Triangle {
    /// The corners, in winding order.
    pub closed spec fn corners(self) -> Seq<V3> {
        self.vertices@
    }

    /// The texture coordinates of the corners, where the triangle has them.
    pub closed spec fn mapping(self) -> Option<Seq<V2>> {
        match self.uv {
            Some(uv) => Some(uv@),
            None => None,
        }
    }

    pub fn new(vertices: [V3; 3]) -> (r: Triangle)
        ensures
            r.corners() == vertices@,
            r.mapping() is None,
    {
        Triangle { vertices, uv: None }
    }

    pub fn new_with_uv(vertices: [V3; 3], uv: [V2; 3]) -> (r: Triangle)
        ensures
            r.corners() == vertices@,
            r.mapping() == Some(uv@),
    {
        Triangle { vertices, uv: Some(uv) }
    }

    pub fn vertices(&self) -> (r: &[V3; 3])
        ensures
            r@ == self.corners(),
    {
        &self.vertices
    }

    pub fn uv(&self) -> (r: &Option<[V2; 3]>)
        ensures
            match *r {
                Some(uv) => self.mapping() == Some(uv@),
                None => self.mapping() is None,
            },
    {
        &self.uv
    }

    /// The same triangle seen from the other side: the second and third
    /// corner change places, and their texture coordinates with them.
    pub fn reversed(&self) -> (r: Triangle)
        ensures
            r.corners() == seq![self.corners()[0], self.corners()[2], self.corners()[1]],
            match self.mapping() {
                Some(uv) => r.mapping() == Some(seq![uv[0], uv[2], uv[1]]),
                None => r.mapping() is None,
            },
    {
        let vertices: [V3; 3] = [self.vertices[0], self.vertices[2], self.vertices[1]];
        let r = match self.uv {
            Some(uv) => Triangle { vertices, uv: Some([uv[0], uv[2], uv[1]]) },
            None => Triangle { vertices, uv: None },
        };
        assert(r.corners() =~= seq![self.corners()[0], self.corners()[2], self.corners()[1]]);
        assert(match self.mapping() {
            Some(uv) => r.mapping().unwrap() =~= seq![uv[0], uv[2], uv[1]],
            None => true,
        });
        r
    }
}

/// What the Moeller-Trumbore construction yields for one ray and one
/// triangle with corners `v0, v1, v2`. With `e1 = v1 - v0`, `e2 = v2 - v0`,
/// `h = d x e2`, `s = o - v0` and `q = s x e1` for a ray from `o` along `d`:
#[derive(Clone, Copy, Debug, PartialEq, Eq, Structural)]
pub struct Crossing {
    /// `e1 . h`; near zero when the ray runs along the triangle's plane.
    pub determinant: Scalar,
    /// `(s . h) / determinant`, the weight of `v1`.
    pub u: Scalar,
    /// `(d . q) / determinant`, the weight of `v2`.
    pub v: Scalar,
    /// `u + v`.
    pub u_plus_v: Scalar,
    /// `(e2 . q) / determinant`, the distance along the ray to the plane.
    pub distance: Scalar,
}

impl Crossing {
    /// The ray runs along the plane of the triangle, or so nearly that the
    /// construction is not to be trusted.
    pub open spec fn parallel(self, epsilon: Scalar) -> bool {
        self.determinant.absolute().below(epsilon)
    }

    /// The point in the plane lies in the triangle: its weights `u`, `v` and
    /// `1 - u - v` are all at least zero.
    pub open spec fn inside(self) -> bool {
        let zero = Scalar { bits: 0 };
        let one = Scalar { bits: crate::scalar::ONE_BITS };
        &&& zero.at_most(self.u)
        &&& self.u.at_most(one)
        &&& zero.at_most(self.v)
        &&& self.u_plus_v.at_most(one)
    }

    /// The ray meets the triangle ahead of its origin.
    pub open spec fn hits(self, epsilon: Scalar) -> bool {
        &&& !self.parallel(epsilon)
        &&& self.inside()
        &&& epsilon.below(self.distance)
    }
}

/// The distance along the ray to the triangle, or nothing where the ray is
/// parallel to it, passes outside it, or meets it at or behind the origin.
///
/// When a distance is returned, the weights `u` and `v` are numbers in
/// `[0, 1]` and their sum is at most one.
pub fn intersection(crossing: &Crossing, epsilon: Scalar) -> (r: Option<Scalar>)
    ensures
        r == (if crossing.hits(epsilon) {
            Some(crossing.distance)
        } else {
            None
        }),
        r is Some ==> {
            &&& !crossing.u.nan() && 0 <= crossing.u.key() <= crate::scalar::ONE_BITS
            &&& !crossing.v.nan() && 0 <= crossing.v.key()
            &&& !crossing.u_plus_v.nan() && crossing.u_plus_v.key() <= crate::scalar::ONE_BITS
            &&& epsilon.below(r.unwrap())
        },
{
    if crossing.determinant.abs().lt(epsilon) {
        return None;
    }
    let zero = Scalar::zero();
    let one = Scalar::one();
    if !(crossing.u.ge(zero) && crossing.u.le(one)) {
        return None;
    }
    if !(crossing.v.ge(zero) && crossing.u_plus_v.le(one)) {
        return None;
    }
    if crossing.distance.gt(epsilon) {
        Some(crossing.distance)
    } else {
        None
    }
}

} // verus!
