use raytracer::scalar::Scalar;
use raytracer::scene::{make_cube, Scene, VERTEX_ORDER};
use raytracer::shapes::sphere::Sphere;
use raytracer::shapes::{Light, Object2, Shape, Surface};
use raytracer::types::V3;

fn s(x: f32) -> Scalar {
    Scalar::from_bits(x.to_bits())
}

fn v3(x: f32, y: f32, z: f32) -> V3 {
    V3::new(s(x), s(y), s(z))
}

fn corners() -> [V3; 8] {
    let mut c = [v3(0.0, 0.0, 0.0); 8];
    for i in 0..8 {
        c[i] = v3(i as f32, 10.0 + i as f32, -(i as f32));
    }
    c
}

fn triangle_of(object: &Object2) -> [V3; 3] {
    match &object.shape {
        Shape::Triangle(t) => *t.vertices(),
        _ => panic!("a cube is made of triangles"),
    }
}

#[test]
fn scene_keeps_objects_and_lights_in_order() {
    let a = Object2 {
        color: v3(1.0, 0.0, 0.0),
        surface: Surface::Diffuse,
        shape: Shape::Sphere(Sphere { center: v3(0.0, 0.0, -5.0), radius: s(1.0) }),
        shininess: s(10.0),
    };
    let b = Object2 {
        color: v3(0.0, 1.0, 0.0),
        surface: Surface::Reflective(s(0.5)),
        shape: Shape::Sphere(Sphere { center: v3(0.0, 0.0, -9.0), radius: s(2.0) }),
        shininess: s(20.0),
    };
    let light = Light { position: v3(6.0, -6.0, 0.0), brightness: s(10.0) };
    let scene = Scene::new(vec![a, b], vec![light]);
    assert_eq!(scene.objects().len(), 2);
    assert_eq!(scene.objects()[0].color, a.color);
    assert_eq!(scene.objects()[1].color, b.color);
    assert_eq!(scene.objects()[1].surface, Surface::Reflective(s(0.5)));
    assert_eq!(scene.lights().len(), 1);
    assert_eq!(scene.lights()[0], light);
    let empty = Scene::new(vec![], vec![]);
    assert!(empty.objects().is_empty());
    assert!(empty.lights().is_empty());
}

#[test]
fn closed_cube_has_twelve_faces_along_the_strip() {
    let c = corners();
    let color = v3(0.9, 0.5, 0.0);
    let cube = make_cube(false, color, Surface::Diffuse, &c);
    assert_eq!(cube.len(), 12);
    for i in 0..12 {
        let flip = i == 2 || i == 9;
        let odd = (i % 2 == 1) != flip;
        let idx = &VERTEX_ORDER[i..i + 3];
        let expected = if odd {
            [c[idx[0]], c[idx[1]], c[idx[2]]]
        } else {
            [c[idx[0]], c[idx[2]], c[idx[1]]]
        };
        assert_eq!(triangle_of(&cube[i]), expected, "face {}", i);
        assert_eq!(cube[i].color, color);
        assert_eq!(cube[i].surface, Surface::Diffuse);
        assert_eq!(cube[i].shininess, s(20.0));
    }
}

#[test]
fn open_cube_lacks_the_lid() {
    let c = corners();
    let closed = make_cube(false, v3(0.1, 0.2, 0.3), Surface::Textured(1), &c);
    let open = make_cube(true, v3(0.1, 0.2, 0.3), Surface::Textured(1), &c);
    assert_eq!(open.len(), 10);
    let kept = [0usize, 1, 2, 5, 6, 7, 8, 9, 10, 11];
    for k in 0..10 {
        assert_eq!(triangle_of(&open[k]), triangle_of(&closed[kept[k]]));
        assert_eq!(open[k].surface, Surface::Textured(1));
    }
}

#[test]
fn first_faces_of_the_strip() {
    let c = corners();
    let cube = make_cube(false, v3(0.0, 0.0, 0.0), Surface::Diffuse, &c);
    // 7 5 1: even, second and third change places
    assert_eq!(triangle_of(&cube[0]), [c[7], c[1], c[5]]);
    // 5 1 3: odd, as given
    assert_eq!(triangle_of(&cube[1]), [c[5], c[1], c[3]]);
    // 1 3 2: even but turned over, as given
    assert_eq!(triangle_of(&cube[2]), [c[1], c[3], c[2]]);
    // 1 0 2: odd but turned over
    assert_eq!(triangle_of(&cube[9]), [c[1], c[2], c[0]]);
}
