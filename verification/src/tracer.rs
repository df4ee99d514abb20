//! What the tracer decides: which object a ray meets first, whether a light
//! reaches a point, and how a ray's colour comes about.
use crate::scalar::Scalar;
use crate::scene::Scene;
use crate::shapes::{shape_hit, Object2, Probe, Surface};
use crate::types::{Color, Config};
use vstd::prelude::*;

verus! {

/// Entry `i` is a distance that can be the nearest one: it is there and it
/// is a finite number.
pub open spec fn candidate(hits: Seq<Option<Scalar>>, i: int) -> bool {
    0 <= i < hits.len() && hits[i] is Some && hits[i].unwrap().finite()
}

/// Entry `i` is the nearest: no candidate is smaller, and every candidate
/// before it is larger.
pub open spec fn is_nearest(hits: Seq<Option<Scalar>>, i: int) -> bool {
    &&& candidate(hits, i)
    &&& forall|j: int| #[trigger]
        candidate(hits, j) ==> hits[i].unwrap().key() <= hits[j].unwrap().key()
    &&& forall|j: int|
        0 <= j < i && #[trigger] candidate(hits, j) ==> hits[i].unwrap().key()
            < hits[j].unwrap().key()
}

/// The nearest entry and its place, found by going through `hits` in order
/// and keeping what was found unless the next candidate is smaller.
pub open spec fn nearest(hits: Seq<Option<Scalar>>) -> Option<(Scalar, int)>
    decreases hits.len(),
{
    if hits.len() == 0 {
        None
    } else {
        let before = nearest(hits.drop_last());
        let last = hits.len() - 1;
        if candidate(hits, last) && (before is None || hits[last].unwrap().key()
            < before.unwrap().0.key()) {
            Some((hits[last].unwrap(), last))
        } else {
            before
        }
    }
}

/// [`nearest`] finds the entry that [`is_nearest`] describes, and finds
/// nothing only where there is no candidate.
pub proof fn lemma_nearest(hits: Seq<Option<Scalar>>)
    ensures
        match nearest(hits) {
            Some((t, i)) => is_nearest(hits, i) && hits[i] == Some(t),
            None => forall|j: int| !candidate(hits, j),
        },
    decreases hits.len(),
{
    if hits.len() > 0 {
        let front = hits.drop_last();
        let last = hits.len() - 1;
        lemma_nearest(front);
        assert forall|j: int| 0 <= j < last implies candidate(front, j) == candidate(hits, j) by {
            assert(front[j] == hits[j]);
        }
        match nearest(hits) {
            Some((t, i)) => {
                if i == last {
                    assert forall|j: int| #[trigger] candidate(hits, j) implies hits[i].unwrap().key()
                        <= hits[j].unwrap().key() by {
                        if j < last {
                            assert(candidate(front, j));
                        }
                    }
                    assert forall|j: int| 0 <= j < i && #[trigger] candidate(hits, j) implies hits[i].unwrap().key()
                        < hits[j].unwrap().key() by {
                        assert(candidate(front, j));
                    }
                } else {
                    assert(nearest(front) == Some((t, i)));
                    assert(front[i] == hits[i]);
                    assert(candidate(front, i));
                    assert forall|j: int| #[trigger] candidate(hits, j) implies hits[i].unwrap().key()
                        <= hits[j].unwrap().key() by {
                        if j < last {
                            assert(candidate(front, j));
                        }
                    }
                    assert forall|j: int| 0 <= j < i && #[trigger] candidate(hits, j) implies hits[i].unwrap().key()
                        < hits[j].unwrap().key() by {
                        assert(candidate(front, j));
                    }
                }
            },
            None => {
                assert forall|j: int| !candidate(hits, j) by {
                    if 0 <= j < last {
                        assert(!candidate(front, j));
                    }
                }
            },
        }
    }
}

/// At most one entry is the nearest.
pub proof fn lemma_nearest_unique(hits: Seq<Option<Scalar>>, i: int, j: int)
    requires
        is_nearest(hits, i),
        is_nearest(hits, j),
    ensures
        i == j,
{
    if i < j {
        assert(candidate(hits, i));
    } else if j < i {
        assert(candidate(hits, j));
    }
}

/// The object that a ray meets first. `hits[i]` is the distance at which the
/// ray meets object `i`, if it does. The result is the smallest finite
/// distance with the place of its object, the first such place where several
/// objects are equally near, or nothing where the ray meets no object.
pub fn nearest_hit(hits: &Vec<Option<Scalar>>) -> (r: Option<(Scalar, usize)>)
    ensures
        match r {
            Some((t, i)) => nearest(hits@) == Some((t, i as int)) && is_nearest(hits@, i as int)
                && hits@[i as int] == Some(t),
            None => nearest(hits@) is None && forall|j: int| !candidate(hits@, j),
        },
{
    let mut best: Option<(Scalar, usize)> = None;
    let mut i: usize = 0;
    while i < hits.len()
        invariant
            i <= hits.len(),
            match best {
                Some((t, k)) => nearest(hits@.take(i as int)) == Some((t, k as int)),
                None => nearest(hits@.take(i as int)) is None,
            },
        decreases hits.len() - i,
    {
        proof {
            assert(hits@.take(i + 1).drop_last() =~= hits@.take(i as int));
            assert(hits@.take(i + 1)[i as int] == hits@[i as int]);
        }
        match hits[i] {
            Some(t) => {
                if t.is_finite() {
                    let nearer: bool = match best {
                        Some((b, _)) => t.lt(b),
                        None => true,
                    };
                    proof {
                        if best is Some {
                            lemma_nearest(hits@.take(i as int));
                        }
                    }
                    if nearer {
                        best = Some((t, i));
                    }
                }
            },
            None => {},
        }
        i = i + 1;
    }
    proof {
        assert(hits@.take(i as int) =~= hits@);
        lemma_nearest(hits@);
    }
    best
}

/// Where one ray meets each object of a scene. `probes[i]` is what the ray
/// yields against object `i`; an object without a probe is not met.
pub open spec fn scene_hits(objects: Seq<Object2>, probes: Seq<Probe>, epsilon: Scalar) -> Seq<
    Option<Scalar>,
> {
    Seq::new(
        objects.len(),
        |i: int|
            if i < probes.len() {
                shape_hit(objects[i].shape, probes[i], epsilon)
            } else {
                None
            },
    )
}

fn hits_of(probes: &Vec<Probe>, scene: &Scene, epsilon: Scalar) -> (r: Vec<Option<Scalar>>)
    ensures
        r@ == scene_hits(scene.object_list(), probes@, epsilon),
{
    let objects = scene.objects();
    let mut hits: Vec<Option<Scalar>> = Vec::new();
    let mut i: usize = 0;
    while i < objects.len()
        invariant
            i <= objects.len(),
            objects@ == scene.object_list(),
            hits@.len() == i,
            forall|k: int|
                0 <= k < i ==> hits@[k] == #[trigger] scene_hits(
                    scene.object_list(),
                    probes@,
                    epsilon,
                )[k],
        decreases objects.len() - i,
    {
        let hit = if i < probes.len() {
            objects[i].closest_intersection(&probes[i], epsilon)
        } else {
            None
        };
        hits.push(hit);
        i = i + 1;
    }
    assert(hits@ =~= scene_hits(scene.object_list(), probes@, epsilon));
    hits
}

/// The object of the scene that a ray meets first, with the distance to it:
/// every object is asked by the rule of its shape, and the smallest finite
/// distance wins, the first object in the scene's order where several are
/// equally near. Nothing is returned where the ray meets no object.
pub fn closest_intersect(probes: &Vec<Probe>, scene: &Scene, epsilon: Scalar) -> (r: Option<
    (Scalar, usize),
>)
    ensures
        match r {
            Some((t, i)) => {
                let hits = scene_hits(scene.object_list(), probes@, epsilon);
                &&& nearest(hits) == Some((t, i as int))
                &&& is_nearest(hits, i as int)
                &&& i < scene.object_list().len()
                &&& hits[i as int] == Some(t)
                &&& epsilon.below(t)
            },
            None => {
                let hits = scene_hits(scene.object_list(), probes@, epsilon);
                nearest(hits) is None && forall|j: int| !candidate(hits, j)
            },
        },
{
    let hits = hits_of(probes, scene, epsilon);
    let r = nearest_hit(&hits);
    proof {
        if let Some((t, i)) = r {
            let objects = scene.object_list();
            assert(hits@[i as int] == shape_hit(objects[i as int].shape, probes@[i as int], epsilon));
            lemma_hit_is_ahead(objects[i as int].shape, probes@[i as int], epsilon);
        }
    }
    r
}

/// A distance at which a shape is met lies beyond `epsilon`.
pub proof fn lemma_hit_is_ahead(shape: crate::shapes::Shape, probe: Probe, epsilon: Scalar)
    ensures
        match shape_hit(shape, probe, epsilon) {
            Some(t) => epsilon.below(t),
            None => true,
        },
{
    match (shape, probe) {
        (crate::shapes::Shape::Cuboid(_), Probe::Cuboid(crossings)) => {
            lemma_nearest(crate::shapes::cuboid::triangle_hits(crossings@, epsilon));
        },
        _ => {},
    }
}

/// Something stands between a point and a light: along the ray from the
/// point towards the light an object is met at a distance smaller than the
/// distance to the light.
pub open spec fn occluded(hits: Seq<Option<Scalar>>, light_distance: Scalar) -> bool {
    exists|i: int| blocks(hits, light_distance, i)
}

/// Object `i` is met before the light is reached.
pub open spec fn blocks(hits: Seq<Option<Scalar>>, light_distance: Scalar, i: int) -> bool {
    0 <= i < hits.len() && hits[i] is Some && hits[i].unwrap().below(light_distance)
}

/// Whether a point lies in the shadow of an object with respect to a light.
/// `probes` belong to the ray from the point towards the light, and
/// `light_distance` is the distance from the point to the light. An object
/// that is met farther away than the light, or as far, casts no shadow.
pub fn trace_shadow(
    probes: &Vec<Probe>,
    scene: &Scene,
    light_distance: Scalar,
    epsilon: Scalar,
) -> (r: bool)
    ensures
        r == occluded(scene_hits(scene.object_list(), probes@, epsilon), light_distance),
{
    let hits = hits_of(probes, scene, epsilon);
    let mut i: usize = 0;
    while i < hits.len()
        invariant
            i <= hits.len(),
            hits@ == scene_hits(scene.object_list(), probes@, epsilon),
            forall|k: int| 0 <= k < i ==> !blocks(hits@, light_distance, k),
        decreases hits.len() - i,
    {
        match hits[i] {
            Some(t) => {
                if t.lt(light_distance) {
                    assert(blocks(hits@, light_distance, i as int));
                    return true;
                }
            },
            None => {},
        }
        i = i + 1;
    }
    false
}

/// What a light adds to the brightness of a point: nothing where the point
/// lies in shadow, and the whole of `term` where it does not. `term` is the
/// light's diffuse or specular term as the caller has computed it for an
/// unblocked light.
pub open spec fn lit_term(shadowed: bool, term: Scalar) -> Scalar {
    if shadowed {
        Scalar { bits: 0 }
    } else {
        term
    }
}

/// The diffuse or specular term of one light at one point; see [`lit_term`].
pub fn light_term(shadowed: bool, term: Scalar) -> (r: Scalar)
    ensures
        r == lit_term(shadowed, term),
{
    if shadowed {
        Scalar::zero()
    } else {
        term
    }
}

/// A light behind an object adds exactly zero, and a light that is nearer
/// than every object on the way to it adds its whole term.
pub proof fn lemma_shadow(hits: Seq<Option<Scalar>>, light_distance: Scalar, term: Scalar)
    ensures
        (exists|i: int|
            0 <= i < hits.len() && hits[i] is Some && (#[trigger] hits[i]).unwrap().below(
                light_distance,
            )) ==> lit_term(occluded(hits, light_distance), term) == (Scalar { bits: 0 }),
        (forall|i: int|
            0 <= i < hits.len() && (#[trigger] hits[i]) is Some ==> light_distance.below(
                hits[i].unwrap(),
            )) ==> lit_term(occluded(hits, light_distance), term) == term,
{
    if exists|i: int|
        0 <= i < hits.len() && hits[i] is Some && (#[trigger] hits[i]).unwrap().below(
            light_distance,
        ) {
        let i = choose|i: int|
            0 <= i < hits.len() && hits[i] is Some && (#[trigger] hits[i]).unwrap().below(
                light_distance,
            );
        assert(blocks(hits, light_distance, i));
    }
    if forall|i: int|
        0 <= i < hits.len() && (#[trigger] hits[i]) is Some ==> light_distance.below(
            hits[i].unwrap(),
        ) {
        if occluded(hits, light_distance) {
            let i = choose|i: int| blocks(hits, light_distance, i);
            assert(light_distance.below(hits[i].unwrap()));
        }
    }
}

/// How the colour of one ray comes about.
#[derive(Clone, Copy, Debug, PartialEq, Eq, Structural)]
pub enum Traced {
    /// The ray meets nothing, or it is deeper than the render allows: its
    /// colour is this one, the background colour.
    Background(Color),
    /// The ray meets `object` at `distance`, and its colour is the object's
    /// own shaded colour.
    Diffuse { object: usize, distance: Scalar },
    /// The ray meets `object` at `distance`. Its colour is `portion` times
    /// the colour of the mirrored ray, which is to be traced at `depth`, plus
    /// `1 - portion` times the object's own shaded colour.
    Reflective { object: usize, distance: Scalar, portion: Scalar, depth: u32 },
    /// The ray meets `object` at `distance`, and texture number `texture`
    /// gives its colour, to which the object's ambient colour is added.
    Textured { object: usize, distance: Scalar, texture: usize },
}

/// What [`trace`] decides for a ray at `depth` that meets the objects at the
/// distances `hits`.
pub open spec fn traced(
    hits: Seq<Option<Scalar>>,
    objects: Seq<Object2>,
    depth: u32,
    config: Config,
) -> Traced {
    if depth > config.max_depth || depth == u32::MAX {
        Traced::Background(config.background)
    } else {
        match nearest(hits) {
            None => Traced::Background(config.background),
            Some((t, i)) => match objects[i].surface {
                Surface::Diffuse => Traced::Diffuse { object: i as usize, distance: t },
                Surface::Reflective(portion) => Traced::Reflective {
                    object: i as usize,
                    distance: t,
                    portion,
                    depth: (depth + 1) as u32,
                },
                Surface::Textured(texture) => Traced::Textured {
                    object: i as usize,
                    distance: t,
                    texture,
                },
            },
        }
    }
}

/// One level of the trace of a ray. `probes[i]` is what the ray yields
/// against object `i` of the scene, and `depth` counts the mirrors that lie
/// behind the ray, 0 for a ray from the camera.
///
/// A ray deeper than `config.max_depth` has the background colour whatever it
/// meets (and so has one at the largest depth that can be counted), and so
/// has a ray that meets nothing. Any other ray takes its
/// colour from the nearest object by the rule of that object's surface. Only
/// a reflective surface asks for another ray, one level deeper, so a trace
/// ends after at most `config.max_depth + 1` levels.
pub fn trace(probes: &Vec<Probe>, scene: &Scene, depth: u32, config: &Config) -> (r: Traced)
    ensures
        r == traced(
            scene_hits(scene.object_list(), probes@, config.epsilon),
            scene.object_list(),
            depth,
            *config,
        ),
        depth > config.max_depth ==> r == Traced::Background(config.background),
        (forall|j: int|
            !candidate(scene_hits(scene.object_list(), probes@, config.epsilon), j)) ==> r
            == Traced::Background(config.background),
        match r {
            Traced::Background(color) => color == config.background,
            Traced::Diffuse { object, distance } => object < scene.object_list().len()
                && config.epsilon.below(distance),
            Traced::Reflective { object, distance, portion, depth: next } => {
                &&& object < scene.object_list().len()
                &&& config.epsilon.below(distance)
                &&& depth <= config.max_depth
                &&& next == depth + 1
            },
            Traced::Textured { object, distance, texture } => object < scene.object_list().len()
                && config.epsilon.below(distance),
        },
{
    if depth > config.max_depth || depth == u32::MAX {
        return Traced::Background(config.background);
    }
    proof {
        lemma_nearest(scene_hits(scene.object_list(), probes@, config.epsilon));
    }
    match closest_intersect(probes, scene, config.epsilon) {
        None => Traced::Background(config.background),
        Some((t, i)) => {
            let objects = scene.objects();
            match objects[i].surface {
                Surface::Diffuse => Traced::Diffuse { object: i, distance: t },
                Surface::Reflective(portion) => Traced::Reflective {
                    object: i,
                    distance: t,
                    portion,
                    depth: depth + 1,
                },
                Surface::Textured(texture) => Traced::Textured { object: i, distance: t, texture },
            }
        },
    }
}

/// The colour of a point on a reflective surface: `portion` times the colour
/// of the mirrored ray plus `1 - portion` times the surface's own shaded
/// colour. A surface that reflects everything (`portion` is 1) has the
/// colour of the mirrored ray itself and nothing of its own, one that
/// reflects nothing (`portion` is 0) has its own colour; for any other
/// portion the colour is `blend`, the sum as the caller has computed it.
pub open spec fn mixed(portion: Scalar, reflected: Color, base: Color, blend: Color) -> Color {
    if portion.same_number(Scalar { bits: crate::scalar::ONE_BITS }) {
        reflected
    } else if portion.same_number(Scalar { bits: 0 }) {
        base
    } else {
        blend
    }
}

/// The colour of a ray that meets a reflective surface; see [`mixed`].
pub fn reflective_color(portion: Scalar, reflected: Color, base: Color, blend: Color) -> (r: Color)
    ensures
        r == mixed(portion, reflected, base, blend),
        portion == (Scalar { bits: crate::scalar::ONE_BITS }) ==> r == reflected,
{
    if portion.same(Scalar::one()) {
        reflected
    } else if portion.same(Scalar::zero()) {
        base
    } else {
        blend
    }
}

/// How many mirrors a trace passes that starts at `depth`, where the ray of
/// each further level meets the objects at the distances `levels[0]`,
/// `levels[1]` and so on.
pub open spec fn reflections(
    levels: Seq<Seq<Option<Scalar>>>,
    objects: Seq<Object2>,
    depth: u32,
    config: Config,
) -> nat
    decreases levels.len(),
{
    if levels.len() == 0 {
        0
    } else {
        match traced(levels[0], objects, depth, config) {
            Traced::Reflective { object, distance, portion, depth: next } => 1 + reflections(
                levels.drop_first(),
                objects,
                next,
                config,
            ),
            _ => 0,
        }
    }
}

/// A trace ends: however many mirrors face each other, a trace that starts
/// at `depth` passes at most `max_depth + 1 - depth` of them, and the ray
/// behind the last of these has the background colour.
pub proof fn lemma_trace_ends(
    levels: Seq<Seq<Option<Scalar>>>,
    objects: Seq<Object2>,
    depth: u32,
    config: Config,
)
    ensures
        depth <= config.max_depth ==> reflections(levels, objects, depth, config)
            <= config.max_depth + 1 - depth,
        depth > config.max_depth ==> reflections(levels, objects, depth, config) == 0,
        forall|hits: Seq<Option<Scalar>>|
            depth > config.max_depth ==> #[trigger] traced(hits, objects, depth, config)
                == Traced::Background(config.background),
    decreases levels.len(),
{
    if levels.len() > 0 {
        match traced(levels[0], objects, depth, config) {
            Traced::Reflective { object, distance, portion, depth: next } => {
                assert(depth <= config.max_depth);
                assert(next == depth + 1);
                lemma_trace_ends(levels.drop_first(), objects, next, config);
            },
            _ => {},
        }
    }
}

} // verus!
