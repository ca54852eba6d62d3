use tracer_core::SCALE;
use tracer_core::actor::Actor;
use tracer_core::color::Color;
use tracer_core::emitter::RayEmitter;
use tracer_core::material::ColorMaterial;
use tracer_core::material::MaterialType;
use tracer_core::plane::Plane;
use tracer_core::ray::Ray;
use tracer_core::ray::RayType;
use tracer_core::sphere::Sphere;
use tracer_core::vec3::Vec3;

fn units(x: i64, y: i64, z: i64) -> Vec3 {
    Vec3::new(x * SCALE, y * SCALE, z * SCALE)
}

fn white() -> MaterialType {
    MaterialType::Color(ColorMaterial::new(Color::new(SCALE, SCALE, SCALE, SCALE)))
}

#[test]
fn sphere_test_success_intersect() {
    let ray = Ray::new(&units(0, 2, 0), &units(1, -1, 0));
    let sphere = Sphere::new(&units(2, 1, 0), SCALE, white());
    assert!(sphere.intersect(&ray, &RayType::Camera) != None);

    let ray = Ray::new(&units(0, 2, 0), &units(-1, -1, 0));
    let sphere = Sphere::new(&units(-2, 1, 0), SCALE, white());
    assert!(sphere.intersect(&ray, &RayType::Camera) != None);
}

#[test]
fn test_failure_intersect() {
    let ray = Ray::new(&units(0, 2, 0), &units(1, 1, 0));
    let sphere = Sphere::new(&units(-2, 1, 0), SCALE, white());
    assert_eq!(sphere.intersect(&ray, &RayType::Camera), None);

    let ray = Ray::new(&units(0, 2, 0), &units(-1, 1, 0));
    let sphere = Sphere::new(&units(-2, 1, 0), SCALE, white());
    assert_eq!(sphere.intersect(&ray, &RayType::Camera), None);
}

#[test]
fn plane_test_success_intersect() {
    let ray = Ray::new(&units(0, 2, 0), &units(1, -1, 0));
    let plane = Plane::new(&units(2, 1, 0), &units(2, 1, 0), white());
    assert!(plane.intersect(&ray, &RayType::Camera) != None);
}

// A direction lying inside the plane never reports a crossing, whatever
// the origin.
#[test]
fn plane_parallel_direction_misses() {
    let plane = Plane::new(&units(0, -100, 0), &Vec3::new(0, SCALE, 0), white());
    let flat = Vec3::new(SCALE, 0, 0);
    assert_eq!(
        plane.intersect(&Ray::new(&units(0, 5, 0), &flat), &RayType::Camera),
        None
    );
    assert_eq!(
        plane.intersect(&Ray::new(&units(7, -100, 3), &flat), &RayType::Camera),
        None
    );
    assert_eq!(
        plane.intersect(&Ray::new(&units(0, 5, 0), &flat), &RayType::Light),
        None
    );
}

// The camera interval starts strictly past one direction length: a root
// at exactly the unit offset is rejected, the exit root is taken instead.
#[test]
fn sphere_near_clip_takes_far_root() {
    let ray = Ray::new(&units(0, 2, 0), &units(1, -1, 0));
    let sphere = Sphere::new(&units(2, 1, 0), SCALE, white());
    let (t, p) = sphere.intersect(&ray, &RayType::Camera).unwrap();
    assert_eq!(t, 2 * SCALE);
    assert_eq!(p, units(2, 0, 0));
}

// Shadow rays accept only the open-closed interval up to the light.
#[test]
fn sphere_light_interval() {
    let sphere = Sphere::new(&units(0, 50, 0), 10 * SCALE, white());
    // The segment from the origin to (0, 100, 0) passes through the sphere.
    let toward = Ray::new(&units(0, 0, 0), &units(0, 100, 0));
    assert!(sphere.intersect(&toward, &RayType::Light) != None);
    // A segment that stops well short of the sphere does not reach it.
    let short = Ray::new(&units(0, 0, 0), &units(0, 20, 0));
    assert_eq!(sphere.intersect(&short, &RayType::Light), None);
}

#[test]
fn sphere_surface_normal_is_unit_scaled() {
    let sphere = Sphere::new(&units(0, 0, 0), 50 * SCALE, white());
    let n = sphere.get_surface_normal(&units(0, 0, -50));
    assert_eq!(n, Vec3::new(0, 0, -SCALE));
}

#[test]
fn test_success_translate() {
    let final_position = units(1, 1, 1);
    let mut actor = Actor::default();
    actor.set_location(&final_position);

    let location = actor.get_location();
    assert_eq!(location.x, final_position.x);
    assert_eq!(location.y, final_position.y);
    assert_eq!(location.z, final_position.z);
}

#[test]
fn test_success_calculate_rays() {
    let position = units(0, 0, 0);
    let direction = units(1, 0, 0);

    let emitter = RayEmitter::new(position, direction, 2, 2);

    assert_eq!(emitter.rays.len(), 4);

    let expected = [
        units(0, 0, 0),
        units(-1, 0, 0),
        units(0, -1, 0),
        units(-1, -1, 0),
    ];
    for (k, origin) in expected.iter().enumerate() {
        assert_eq!(emitter.rays[k], Ray::new(origin, &direction));
    }
}
