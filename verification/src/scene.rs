//! A scene: the objects and the lights, fixed once they are put together.
use crate::scalar::Scalar;
use crate::shapes::{Light, Object2, Shape, Surface, Triangle};
use crate::types::{Color, V3};
use vstd::prelude::*;

verus! {

/// The objects and lights of one render. Nothing changes them after
/// [`Scene::new`]; the render only reads them.
#[derive(Clone, Debug)]
pub struct Scene {
    objects: Vec<Object2>,
    lights: Vec<Light>,
}

impl Scene {
    /// The objects, in the order in which they were given.
    pub closed spec fn object_list(self) -> Seq<Object2> {
        self.objects@
    }

    /// The lights, in the order in which they were given.
    pub closed spec fn light_list(self) -> Seq<Light> {
        self.lights@
    }

    pub fn new(objects: Vec<Object2>, lights: Vec<Light>) -> (r: Scene)
        ensures
            r.object_list() == objects@,
            r.light_list() == lights@,
    {
        Scene { objects, lights }
    }

    pub fn objects(&self) -> (r: &Vec<Object2>)
        ensures
            r@ == self.object_list(),
    {
        &self.objects
    }

    pub fn lights(&self) -> (r: &Vec<Light>)
        ensures
            r@ == self.light_list(),
    {
        &self.lights
    }
}

/// The corners of a cube as one strip: triangle `i` of the cube is made of
/// entries `i`, `i + 1` and `i + 2`.
pub const VERTEX_ORDER: [usize; 14] = [7, 5, 1, 3, 2, 5, 4, 7, 6, 1, 0, 2, 6, 4];

/// The pattern of `20.0`, the shininess of a cube's faces.
pub const CUBE_SHININESS_BITS: u32 = 0x41a0_0000;

/// Triangle `i` of the strip is wound as the strip gives it. Along a strip
/// the winding alternates, so this holds of the odd triangles; two
/// triangles of the strip are turned over.
pub open spec fn strip_order_kept(i: int) -> bool {
    (i % 2 == 1) != (i == 2 || i == 9)
}

/// The three corners of triangle `i` of the strip, in winding order, as
/// places in the list of the cube's corners.
pub open spec fn strip_triangle(i: int) -> (int, int, int) {
    if strip_order_kept(i) {
        (VERTEX_ORDER[i] as int, VERTEX_ORDER[i + 1] as int, VERTEX_ORDER[i + 2] as int)
    } else {
        (VERTEX_ORDER[i] as int, VERTEX_ORDER[i + 2] as int, VERTEX_ORDER[i + 1] as int)
    }
}

/// Triangle `i` of the strip belongs to the lid, which an open cube lacks.
pub open spec fn in_lid(i: int) -> bool {
    i == 3 || i == 4
}

/// The strip triangle that stands at place `k` among a cube's objects.
pub open spec fn strip_number(open_top: bool, k: int) -> int {
    if open_top && k >= 3 {
        k + 2
    } else {
        k
    }
}

/// How many triangles a cube is made of.
pub open spec fn cube_len(open_top: bool) -> int {
    if open_top {
        10
    } else {
        12
    }
}

/// What [`make_cube`] says of the object at place `k`.
pub open spec fn is_cube_face(
    object: Object2,
    open_top: bool,
    color: Color,
    surface: Surface,
    corners: Seq<V3>,
    k: int,
) -> bool {
    let (a, b, c) = strip_triangle(strip_number(open_top, k));
    &&& object.color == color
    &&& object.surface == surface
    &&& object.shininess == (Scalar { bits: CUBE_SHININESS_BITS })
    &&& match object.shape {
        Shape::Triangle(t) => t.corners() == seq![corners[a], corners[b], corners[c]]
            && t.mapping() is None,
        _ => false,
    }
}

/// The triangles of a cube whose eight corners the caller has placed: twelve
/// objects, or ten without the lid, each with the given colour and surface
/// and a shininess of 20. They follow the strip [`VERTEX_ORDER`], each wound
/// as [`strip_triangle`] says.
pub fn make_cube(open_top: bool, color: Color, surface: Surface, corners: &[V3; 8]) -> (r: Vec<
    Object2,
>)
    ensures
        r@.len() == cube_len(open_top),
        forall|k: int|
            0 <= k < r@.len() ==> is_cube_face(#[trigger] r@[k], open_top, color, surface, corners@, k),
{
    let mut triangles: Vec<Object2> = Vec::new();
    let mut i: usize = 0;
    while i < 12
        invariant
            i <= 12,
            triangles@.len() == (if open_top && i > 3 {
                if i == 4 {
                    3
                } else {
                    i - 2
                }
            } else {
                i as int
            }),
            forall|k: int|
                0 <= k < triangles@.len() ==> is_cube_face(
                    #[trigger] triangles@[k],
                    open_top,
                    color,
                    surface,
                    corners@,
                    k,
                ),
        decreases 12 - i,
    {
        if !(open_top && (i == 3 || i == 4)) {
            let flip_normal: bool = i == 2 || i == 9;
            let odd_index: bool = i % 2 == 1;
            let keep: bool = odd_index != flip_normal;
            let first: V3 = corners[VERTEX_ORDER[i]];
            let second: V3 = corners[VERTEX_ORDER[i + 1]];
            let third: V3 = corners[VERTEX_ORDER[i + 2]];
            let as_given = Triangle::new([first, second, third]);
            let triangle = if keep {
                as_given
            } else {
                as_given.reversed()
            };
            let object = Object2 {
                shape: Shape::Triangle(triangle),
                color,
                surface,
                shininess: Scalar::from_bits(CUBE_SHININESS_BITS),
            };
            proof {
                let k = triangles@.len() as int;
                assert(strip_number(open_top, k) == i);
                let (a, b, c) = strip_triangle(i as int);
                assert(triangle.corners() =~= seq![corners@[a], corners@[b], corners@[c]]);
            }
            triangles.push(object);
        }
        i = i + 1;
    }
    triangles
}

/// Every triangle of the strip has three different corners of the cube.
pub proof fn lemma_strip(i: int)
    requires
        0 <= i < 12,
    ensures
        0 <= strip_triangle(i).0 < 8,
        0 <= strip_triangle(i).1 < 8,
        0 <= strip_triangle(i).2 < 8,
        strip_triangle(i).0 != strip_triangle(i).1,
        strip_triangle(i).0 != strip_triangle(i).2,
        strip_triangle(i).1 != strip_triangle(i).2,
{
}

} // verus!
