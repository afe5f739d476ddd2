use ray_tracer::camera::Camera;
use ray_tracer::fx::Fx;
use ray_tracer::image::{Colour, Pixel, Resolution};
use ray_tracer::intersection::find_closest_intersection;
use ray_tracer::light::Light;
use ray_tracer::material::{Material, MaterialError};
use ray_tracer::matrix::{AffineMatrix, AffineTransformation, Rotation};
use ray_tracer::object::{Object, ObjectShape, TexturedObject};
use ray_tracer::ray::{Hit, Ray};
use ray_tracer::scene::Scene;
use ray_tracer::vector::HVector;

const S: i64 = 65536;

fn fx(raw: i64) -> Fx {
    Fx { raw }
}

fn v3(x: i64, y: i64, z: i64) -> HVector {
    HVector::new([fx(x), fx(y), fx(z)])
}

fn identity_rotation() -> Rotation {
    Rotation { sin: fx(0), cos: fx(S) }
}

fn translation(x: i64, y: i64, z: i64) -> AffineTransformation {
    AffineTransformation {
        scale: [fx(S), fx(S), fx(S)],
        position: [fx(x), fx(y), fx(z)],
        orientation: (identity_rotation(), identity_rotation()),
    }
}

#[test]
fn it_works() {
    assert_eq!(2 + 2, 4);
}

#[test]
fn sphere_hit_straight_on() {
    // A ray from (0,0,-5) toward (0,0,1) against the unit sphere hits at
    // (0,0,-1) with outward normal (0,0,-1).
    let ray = Ray { from: v3(0, 0, -5 * S), direction: v3(0, 0, S) };
    let hit = ObjectShape::Sphere.intersection(&ray).expect("must hit");
    assert_eq!(hit.normal.from.x.raw, 0);
    assert_eq!(hit.normal.from.y.raw, 0);
    assert_eq!(hit.normal.from.z.raw, -S);
    assert_eq!(hit.normal.direction.z.raw, -S);
    // spherical texture coordinates: u = 0.5 + atan2(0,-1)/(2 pi) is 1.0
    // less one raw unit of rounding, v = 0.5 + asin(0)/pi is 0.5 exactly
    assert_eq!(hit.texture_coordinates, (fx(65535), fx(32768)));
    assert!(hit.material.is_none());
}

#[test]
fn sphere_missed_at_distance_two() {
    let ray = Ray { from: v3(2 * S, 0, -5 * S), direction: v3(0, 0, S) };
    assert!(ObjectShape::Sphere.intersection(&ray).is_none());
}

#[test]
fn triangle_hit_barycentric() {
    // Vertices (0,0,0),(1,0,0),(0,1,0); a ray from (0.25,0.25,-1) along
    // +z hits with barycentric u = v = 0.25 at distance 1.
    let shape = ObjectShape::Triangle(v3(0, 0, 0), v3(S, 0, 0), v3(0, S, 0));
    let ray = Ray { from: v3(S / 4, S / 4, -S), direction: v3(0, 0, S) };
    let hit = shape.intersection(&ray).expect("must hit");
    assert_eq!(hit.texture_coordinates, (fx(S / 4), fx(S / 4)));
    assert_eq!(hit.normal.from.x.raw, S / 4);
    assert_eq!(hit.normal.from.y.raw, S / 4);
    assert_eq!(hit.normal.from.z.raw, 0);
    assert_eq!(hit.normal.direction.z.raw, S);
}

#[test]
fn triangle_missed_outside() {
    let shape = ObjectShape::Triangle(v3(0, 0, 0), v3(S, 0, 0), v3(0, S, 0));
    let ray = Ray { from: v3(2 * S, 2 * S, -S), direction: v3(0, 0, S) };
    assert!(shape.intersection(&ray).is_none());
}

#[test]
fn material_validation() {
    // Reflectances summing to 1.5 are rejected; 0.5 + 0.3 + 0.2 passes.
    let colour = Colour::white();
    let bad = Material::new(fx(32768), fx(32768), fx(32768), fx(46284), colour);
    assert_eq!(bad.unwrap_err(), MaterialError::NotEnergyConserving);
    let good = Material::new(fx(32768), fx(19661), fx(13107), fx(46284), colour);
    let m = good.expect("energy conserving");
    assert_eq!(m.ambient.raw, 32768);
    assert_eq!(m.diffuse.raw, 19661);
    assert_eq!(m.specular.raw, 13107);
}

#[test]
fn subtracting_self_has_zero_magnitude() {
    let v = v3(12345, -678, 91011);
    let d = v.sub(v);
    assert_eq!(d.magnitude().raw, 0);
}

#[test]
fn adding_reverse_has_zero_magnitude() {
    let v = v3(12345, -678, 91011);
    let sum = v.add(v.reverse());
    assert_eq!(sum.magnitude().raw, 0);
}

#[test]
fn normalized_vector_has_unit_magnitude() {
    // A 3-4-5 vector: the normalized magnitude lands on 1.0 within the
    // fixed-point grid.
    let v = v3(3 * S, 4 * S, 0);
    assert_eq!(v.magnitude().raw, 5 * S);
    let n = v.normalized();
    let m = n.magnitude().raw;
    assert!((m - S).abs() <= 2, "magnitude {m}");
}

#[test]
fn reflecting_twice_restores_direction() {
    let v = v3(1234, -5678, 4321);
    let n = v3(0, S, 0);
    let r = v.reflect(&n);
    assert_eq!((r.x.raw, r.y.raw, r.z.raw), (1234, 5678, 4321));
    let rr = r.reflect(&n);
    assert_eq!((rr.x.raw, rr.y.raw, rr.z.raw), (1234, -5678, 4321));
}

#[test]
fn shift_unshift_translation_round_trip() {
    let matrix = AffineMatrix::new(translation(3 * S, -2 * S, 7 * S));
    let p = v3(12345, -67890, 424242);
    let there = matrix.shift_point(&p);
    let back = matrix.unshift_point(&there);
    assert_eq!((back.x.raw, back.y.raw, back.z.raw, back.w.raw), (12345, -67890, 424242, S));
}

#[test]
fn closest_hit_independent_of_order() {
    // Two spheres along one ray: the nearer one wins whatever the order.
    let ray = Ray { from: v3(0, 0, 0), direction: v3(0, 0, -S) };
    let near = || Object::new(ObjectShape::Sphere, Some(translation(0, 0, 5 * S)), None);
    let far = || Object::new(ObjectShape::Sphere, Some(translation(0, 0, 7 * S)), None);
    let one = vec![near(), far()];
    let two = vec![far(), near()];
    let h1 = find_closest_intersection(&one, &ray).expect("hit");
    let h2 = find_closest_intersection(&two, &ray).expect("hit");
    assert_eq!(h1.normal.from.z.raw, -4 * S);
    assert_eq!(h2.normal.from.z.raw, -4 * S);
}

#[test]
fn render_sphere_scene() {
    // One unit sphere five units ahead, one point light, camera at the
    // origin: the centre pixel is lit, the corners stay black.
    let sphere = Object::new(ObjectShape::Sphere, Some(translation(0, 0, 5 * S)), None);
    let light = Light::new([fx(-3 * S), fx(20 * S), fx(S)]);
    let scene = Scene::new(vec![sphere], vec![light]);
    let camera = Camera::new([fx(0), fx(0), fx(0)], Resolution { width: 9, height: 9 });
    let image = camera.generate_image(&scene, 0);
    let centre = image.get(4, 4);
    assert!(centre.red.raw > 0 && centre.green.raw > 0 && centre.blue.raw > 0);
    for &(r, c) in &[(0usize, 0usize), (0, 8), (8, 0), (8, 8)] {
        let corner = image.get(r, c);
        assert_eq!((corner.red.raw, corner.green.raw, corner.blue.raw), (0, 0, 0));
    }
}

#[test]
fn backlit_surface_still_gets_specular() {
    // The diffuse and specular guards are independent: a light behind
    // the surface (negative diffuse factor) contributes no diffuse term,
    // but its specular term is still added when the reflection faces the
    // viewer.
    let m = Material::default();
    let hit = Hit {
        normal: Ray { from: v3(0, 0, 0), direction: v3(0, 0, S) },
        texture_coordinates: (fx(0), fx(0)),
        material: Some(m),
    };
    // stored location (0,0,-5): below the surface whose normal is +z
    let light = Light::new([fx(0), fx(0), fx(5 * S)]);
    let scene = Scene::new(vec![], vec![light]);
    let direction = v3(0, 0, -S);
    let colour = scene.get_colour(&direction, &hit, 0);
    // ambient (21845) plus the specular term (21845), no diffuse
    assert_eq!(colour.red.raw, 2 * m.ambient.raw);
    assert_eq!(colour.green.raw, 2 * m.ambient.raw);
    assert_eq!(colour.blue.raw, 2 * m.ambient.raw);
}

#[test]
fn empty_light_list_gives_ambient_only() {
    // With no lights the division by the light count is never taken:
    // a hit resolves to the ambient term alone.
    let sphere = Object::new(ObjectShape::Sphere, Some(translation(0, 0, 5 * S)), None);
    let scene = Scene::new(vec![sphere], vec![]);
    let ray = Ray { from: v3(0, 0, 0), direction: v3(0, 0, -S) };
    let colour = scene.trace(&ray, 0);
    let m = Material::default();
    // ambient = white * ambient reflectance
    assert_eq!(colour.red.raw, m.ambient.raw);
    assert_eq!(colour.green.raw, m.ambient.raw);
    assert_eq!(colour.blue.raw, m.ambient.raw);
}

#[test]
fn parallel_ray_misses_triangle() {
    let shape = ObjectShape::Triangle(v3(0, 0, 0), v3(S, 0, 0), v3(0, S, 0));
    // a ray running inside the triangle's plane is a miss, not an error
    let ray = Ray { from: v3(0, 0, S), direction: v3(S, 0, 0) };
    assert!(shape.intersection(&ray).is_none());
}

#[test]
fn intersection_behind_origin_is_a_miss() {
    // the sphere lies behind the ray origin: both roots are negative
    let ray = Ray { from: v3(0, 0, 5 * S), direction: v3(0, 0, S) };
    assert!(ObjectShape::Sphere.intersection(&ray).is_none());
}

#[test]
fn grouped_mesh_inherits_child_material() {
    let child_material =
        Material::new(fx(32768), fx(19661), fx(13107), fx(S), Colour::white()).unwrap();
    let child = TexturedObject::new(ObjectShape::Sphere, Some(child_material));
    let group = ObjectShape::GroupedMesh(vec![child]);
    let ray = Ray { from: v3(0, 0, -5 * S), direction: v3(0, 0, S) };
    let hit = group.intersection(&ray).expect("must hit");
    // the child's own material is attached to the hit
    assert_eq!(hit.material.unwrap().ambient.raw, 32768);
    assert_eq!(hit.normal.from.z.raw, -S);
}

#[test]
fn pixel_text_form() {
    let p = Pixel { red: 12, green: 0, blue: 255 };
    assert_eq!(p.to_string(), "12 0 255");
}

#[test]
fn colour_quantisation() {
    let c = Colour { red: fx(S), green: fx(32768), blue: fx(-100) };
    let p = c.to_pixel();
    assert_eq!((p.red, p.green, p.blue), (255, 127, 0));
    let over = Colour { red: fx(3 * S), green: fx(0), blue: fx(300) };
    let q = over.to_pixel();
    assert_eq!((q.red, q.green, q.blue), (255, 0, 1));
}

#[test]
fn plain_text_raster_form() {
    let mut image = ray_tracer::image::Image::new(&Resolution { height: 1, width: 2 });
    image.set(0, 1, Colour { red: fx(S), green: fx(32768), blue: fx(0) });
    assert_eq!(image.to_ppm(), "P3\n2 1\n255\n0 0 0\t255 127 0\t\n");
}

#[test]
fn default_material_conserves_energy() {
    let m = Material::default();
    let sum = m.ambient.raw + m.diffuse.raw + m.specular.raw;
    assert!((sum - S).abs() <= 2);
}
