//! A box of eight corners whose surface is twelve triangles.
use crate::scalar::Scalar;
use crate::shapes::triangle;
use crate::shapes::triangle::{Crossing, Triangle};
use crate::tracer::{nearest, nearest_hit};
use crate::types::V3;
use vstd::prelude::*;

verus! {

/// The corners of each surface triangle, two triangles to a face. Corner `c`
/// lies on the high side in x when `c / 4` is 1, in y when `(c / 2) % 2` is
/// 1, and in z when `c % 2` is 1.
pub const FACE_TRIANGLES: [[usize; 3]; 12] = [
    [0, 2, 1],
    [2, 3, 1],
    [0, 6, 4],
    [0, 2, 6],
    [0, 1, 5],
    [0, 5, 4],
    [7, 5, 4],
    [7, 4, 6],
    [7, 3, 1],
    [7, 1, 5],
    [7, 3, 2],
    [7, 2, 6],
];

/// The first two triangles form the face that an open box lacks.
pub const OPEN_FACE_TRIANGLES: usize = 2;

#[derive(Clone, Copy, Debug)]
pub struct Cuboid {
    vertices: [V3; 8],
    open_top: bool,
}

/// On which side of the box corner `corner` lies along `axis` (0, 1, 2 for
/// x, y, z): 0 for the low side, 1 for the high side.
pub open spec fn side(corner: int, axis: int) -> int {
    if axis == 0 {
        corner / 4
    } else if axis == 1 {
        (corner / 2) % 2
    } else {
        corner % 2
    }
}

/// Corner `corner` of the box that reaches from `lo` to `hi`.
pub open spec fn corner_of(lo: V3, hi: V3, corner: int) -> V3 {
    V3 {
        x: if side(corner, 0) == 0 {
            lo.x
        } else {
            hi.x
        },
        y: if side(corner, 1) == 0 {
            lo.y
        } else {
            hi.y
        },
        z: if side(corner, 2) == 0 {
            lo.z
        } else {
            hi.z
        },
    }
}

/// The axis across which face `face` lies, for the six faces in the order
/// of [`FACE_TRIANGLES`].
pub open spec fn face_axis(face: int) -> int {
    if face == 0 || face == 3 {
        0
    } else if face == 2 || face == 5 {
        1
    } else {
        2
    }
}

/// The side of the box on which face `face` lies.
pub open spec fn face_side(face: int) -> int {
    if face < 3 {
        0
    } else {
        1
    }
}

/// Triangle `k` of a box's surface, counted without the open face where
/// the box is open.
pub open spec fn surface_triangle(corners: Seq<V3>, open_top: bool, k: int) -> Seq<V3> {
    let i = if open_top {
        k + OPEN_FACE_TRIANGLES
    } else {
        k
    };
    seq![
        corners[FACE_TRIANGLES[i][0] as int],
        corners[FACE_TRIANGLES[i][1] as int],
        corners[FACE_TRIANGLES[i][2] as int],
    ]
}

/// How many triangles the surface of a box has.
pub open spec fn surface_len(open_top: bool) -> int {
    if open_top {
        12 - OPEN_FACE_TRIANGLES
    } else {
        12
    }
}

impl Cuboid {
    /// The eight corners.
    pub closed spec fn corners(self) -> Seq<V3> {
        self.vertices@
    }

    /// Whether the box lacks its first face.
    pub closed spec fn open(self) -> bool {
        self.open_top
    }

    /// The box that reaches from `lo` to `hi`: for a box of extent `size`
    /// around `center`, `lo = center - size / 2` and `hi = center + size / 2`.
    /// Each corner takes each of its components from `lo` or from `hi`.
    pub fn new(lo: V3, hi: V3, open_top: bool) -> (r: Cuboid)
        ensures
            r.corners().len() == 8,
            forall|c: int| 0 <= c < 8 ==> r.corners()[c] == #[trigger] corner_of(lo, hi, c),
            r.open() == open_top,
    {
        let vertices: [V3; 8] = [
            V3 { x: lo.x, y: lo.y, z: lo.z },
            V3 { x: lo.x, y: lo.y, z: hi.z },
            V3 { x: lo.x, y: hi.y, z: lo.z },
            V3 { x: lo.x, y: hi.y, z: hi.z },
            V3 { x: hi.x, y: lo.y, z: lo.z },
            V3 { x: hi.x, y: lo.y, z: hi.z },
            V3 { x: hi.x, y: hi.y, z: lo.z },
            V3 { x: hi.x, y: hi.y, z: hi.z },
        ];
        Cuboid { vertices, open_top }
    }

    /// The box with the given corners, which the caller has placed.
    pub fn from_vertices(vertices: [V3; 8], open_top: bool) -> (r: Cuboid)
        ensures
            r.corners() == vertices@,
            r.open() == open_top,
    {
        Cuboid { vertices, open_top }
    }

    pub fn vertices(&self) -> (r: &[V3; 8])
        ensures
            r@ == self.corners(),
    {
        &self.vertices
    }

    pub fn open_top(&self) -> (r: bool)
        ensures
            r == self.open(),
    {
        self.open_top
    }

    /// The triangles of the surface, in the order of [`FACE_TRIANGLES`],
    /// without the first two where the box is open.
    pub fn triangles(&self) -> (r: Vec<Triangle>)
        ensures
            r@.len() == surface_len(self.open()),
            forall|k: int|
                0 <= k < r@.len() ==> (#[trigger] r@[k]).corners() == surface_triangle(
                    self.corners(),
                    self.open(),
                    k,
                ) && r@[k].mapping() is None,
    {
        let mut triangles: Vec<Triangle> = Vec::new();
        let skip: usize = if self.open_top {
            OPEN_FACE_TRIANGLES
        } else {
            0
        };
        let mut i: usize = skip;
        while i < 12
            invariant
                skip <= i <= 12,
                skip == (if self.open() {
                    OPEN_FACE_TRIANGLES
                } else {
                    0
                }),
                triangles@.len() == i - skip,
                forall|k: int|
                    0 <= k < triangles@.len() ==> (#[trigger] triangles@[k]).corners()
                        == surface_triangle(self.corners(), self.open(), k)
                        && triangles@[k].mapping() is None,
            decreases 12 - i,
        {
            let indices: [usize; 3] = FACE_TRIANGLES[i];
            let t = Triangle::new(
                [self.vertices[indices[0]], self.vertices[indices[1]], self.vertices[indices[2]]],
            );
            assert(t.corners() =~= surface_triangle(self.corners(), self.open(), i - skip));
            triangles.push(t);
            i = i + 1;
        }
        triangles
    }
}

/// The axis along which the point lies farthest from the centre: x where
/// `|x|` is at least `|y|` and `|z|`, else y where `|y|` is at least `|x|`
/// and `|z|`, else z.
pub open spec fn dominant_axis(point: V3) -> int {
    let x = point.x.absolute();
    let y = point.y.absolute();
    let z = point.z.absolute();
    if y.at_most(x) && z.at_most(x) {
        0
    } else if x.at_most(y) && z.at_most(y) {
        1
    } else {
        2
    }
}

/// The unit vector along `axis`, negated.
pub open spec fn negative_unit(axis: int) -> V3 {
    let zero = Scalar { bits: crate::scalar::SIGN_BIT };
    let one = Scalar { bits: (crate::scalar::SIGN_BIT + crate::scalar::ONE_BITS) as u32 };
    V3 {
        x: if axis == 0 {
            one
        } else {
            zero
        },
        y: if axis == 1 {
            one
        } else {
            zero
        },
        z: if axis == 2 {
            one
        } else {
            zero
        },
    }
}

/// The normal at a point of the surface, given relative to the centre of the
/// box: the negated unit vector of the point's dominant axis.
///
/// This is exact only for a box whose faces lie across the axes and for a
/// point given relative to its centre; for any other box it is an accepted
/// approximation. The box itself is not consulted.
pub fn normal(cuboid: &Cuboid, intersection: V3) -> (r: V3)
    ensures
        r == negative_unit(dominant_axis(intersection)),
{
    let x = intersection.x.abs();
    let y = intersection.y.abs();
    let z = intersection.z.abs();
    let zero = Scalar::zero().neg();
    let one = Scalar::one().neg();
    if x.ge(y) && x.ge(z) {
        V3 { x: one, y: zero, z: zero }
    } else if y.ge(x) && y.ge(z) {
        V3 { x: zero, y: one, z: zero }
    } else {
        V3 { x: zero, y: zero, z: one }
    }
}

/// What each crossing amounts to: the distance where the ray meets that
/// triangle, nothing where it does not.
pub open spec fn triangle_hits(crossings: Seq<Crossing>, epsilon: Scalar) -> Seq<Option<Scalar>> {
    Seq::new(
        crossings.len(),
        |i: int|
            if crossings[i].hits(epsilon) {
                Some(crossings[i].distance)
            } else {
                None
            },
    )
}

/// The distance along the ray to the box: the smallest finite distance at
/// which the ray meets one of its triangles. `crossings[k]` belongs to
/// triangle `k` of [`Cuboid::triangles`].
pub fn intersection(crossings: &Vec<Crossing>, epsilon: Scalar) -> (r: Option<Scalar>)
    ensures
        r == (match nearest(triangle_hits(crossings@, epsilon)) {
            Some((t, _)) => Some(t),
            None => None,
        }),
{
    let mut hits: Vec<Option<Scalar>> = Vec::new();
    let mut i: usize = 0;
    while i < crossings.len()
        invariant
            i <= crossings.len(),
            hits@.len() == i,
            forall|k: int| 0 <= k < i ==> hits@[k] == #[trigger] triangle_hits(crossings@, epsilon)[k],
        decreases crossings.len() - i,
    {
        hits.push(triangle::intersection(&crossings[i], epsilon));
        i = i + 1;
    }
    assert(hits@ =~= triangle_hits(crossings@, epsilon));
    match nearest_hit(&hits) {
        Some((t, _)) => Some(t),
        None => None,
    }
}

/// Corner `corner` is one of the three corners of triangle `i`.
pub open spec fn has_corner(i: int, corner: int) -> bool {
    ||| FACE_TRIANGLES[i][0] == corner
    ||| FACE_TRIANGLES[i][1] == corner
    ||| FACE_TRIANGLES[i][2] == corner
}

/// The table describes the surface of a box. The corners of triangle `i`
/// are three different corners of face `i / 2`, and every corner of a face
/// belongs to one of its two triangles.
pub proof fn lemma_faces(i: int, j: int, corner: int)
    requires
        0 <= i < 12,
        0 <= j < 3,
        0 <= corner < 8,
    ensures
        FACE_TRIANGLES[i][j] < 8,
        side(FACE_TRIANGLES[i][j] as int, face_axis(i / 2)) == face_side(i / 2),
        FACE_TRIANGLES[i][0] != FACE_TRIANGLES[i][1],
        FACE_TRIANGLES[i][0] != FACE_TRIANGLES[i][2],
        FACE_TRIANGLES[i][1] != FACE_TRIANGLES[i][2],
        side(corner, face_axis(i / 2)) == face_side(i / 2) ==> has_corner(2 * (i / 2), corner)
            || has_corner(2 * (i / 2) + 1, corner),
{
}

} // verus!
