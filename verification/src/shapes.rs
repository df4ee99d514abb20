//! The primitives of a scene and what they are made of.
use crate::scalar::Scalar;
use crate::solvers::QuadraticRoot;
use crate::tracer::nearest;
use crate::types::{Color, V2, V3};
use vstd::prelude::*;

pub mod cuboid;
pub mod sphere;
pub mod triangle;

pub use self::cuboid::Cuboid;
pub use self::sphere::Sphere;
pub use self::triangle::{Crossing, Triangle};

verus! {

/// How a surface answers light.
#[derive(Clone, Copy, Debug, PartialEq, Eq, Structural)]
pub enum Surface {
    /// The object's own shaded colour.
    Diffuse,
    /// The share of the colour, in `[0, 1]`, that is the mirror image; the
    /// rest is the object's own shaded colour.
    Reflective(Scalar),
    /// The number of the texture that colours the object.
    Textured(usize),
}

#[derive(Clone, Copy, Debug, PartialEq, Eq, Structural)]
pub struct Light {
    pub position: V3,
    pub brightness: Scalar,
}

#[derive(Clone, Copy, Debug)]
pub enum Shape {
    Triangle(Triangle),
    Sphere(Sphere),
    Cuboid(Cuboid),
}

#[derive(Clone, Copy, Debug)]
pub struct Object2 {
    pub color: Color,
    pub surface: Surface,
    pub shape: Shape,
    pub shininess: Scalar,
}

/// What one ray yields against one shape, computed by the caller: for a
/// sphere the roots of its quadratic, for a triangle its crossing, for a
/// cuboid the crossings of its triangles in the order of
/// [`Cuboid::triangles`].
#[derive(Clone, Debug)]
pub enum Probe {
    Sphere(QuadraticRoot),
    Triangle(Crossing),
    Cuboid(Vec<Crossing>),
}

/// Where a ray with the given probe meets a shape. A probe of another kind
/// than the shape says nothing about it.
pub open spec fn shape_hit(shape: Shape, probe: Probe, epsilon: Scalar) -> Option<Scalar> {
    match (shape, probe) {
        (Shape::Sphere(_), Probe::Sphere(roots)) => sphere::nearest_root(roots, epsilon),
        (Shape::Triangle(_), Probe::Triangle(crossing)) => if crossing.hits(epsilon) {
            Some(crossing.distance)
        } else {
            None
        },
        (Shape::Cuboid(_), Probe::Cuboid(crossings)) => match nearest(
            cuboid::triangle_hits(crossings@, epsilon),
        ) {
            Some((t, _)) => Some(t),
            None => None,
        },
        _ => None,
    }
}

impl Object2 {
    /// The distance along a ray at which it meets the object, by the rule of
    /// the object's shape, or nothing where it does not meet it.
    pub fn closest_intersection(&self, probe: &Probe, epsilon: Scalar) -> (r: Option<Scalar>)
        ensures
            r == shape_hit(self.shape, *probe, epsilon),
            r is Some ==> epsilon.below(r.unwrap()),
    {
        match (&self.shape, probe) {
            (Shape::Sphere(_), Probe::Sphere(roots)) => sphere::intersection(*roots, epsilon),
            (Shape::Triangle(_), Probe::Triangle(crossing)) => triangle::intersection(
                crossing,
                epsilon,
            ),
            (Shape::Cuboid(_), Probe::Cuboid(crossings)) => {
                let r = cuboid::intersection(crossings, epsilon);
                proof {
                    crate::tracer::lemma_nearest(cuboid::triangle_hits(crossings@, epsilon));
                }
                r
            },
            _ => None,
        }
    }

    /// The corners of the object and their texture coordinates, where the
    /// object is a triangle that has them. Every other object has the
    /// texture coordinate `(0, 0)` at each of its points.
    pub fn texture_mapping(&self) -> (r: Option<([V3; 3], [V2; 3])>)
        ensures
            match r {
                Some((corners, uv)) => match self.shape {
                    Shape::Triangle(t) => t.corners() == corners@ && t.mapping() == Some(uv@),
                    _ => false,
                },
                None => match self.shape {
                    Shape::Triangle(t) => t.mapping() is None,
                    _ => true,
                },
            },
    {
        match &self.shape {
            Shape::Triangle(t) => match t.uv() {
                Some(uv) => Some((*t.vertices(), *uv)),
                None => None,
            },
            _ => None,
        }
    }
}

} // verus!
