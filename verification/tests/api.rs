use tracer_core::SCALE;
use tracer_core::actor::Actor;
use tracer_core::actor::ActorTrait;
use tracer_core::actor::DirectionalActor;
use tracer_core::actor::DirectionalActorTrait;
use tracer_core::color::Color;
use tracer_core::geometry::ActorWithGeometry;
use tracer_core::geometry::GeometryType;
use tracer_core::geometry::MaterialBound;
use tracer_core::material::ColorMaterial;
use tracer_core::material::ColorMaterialTrait;
use tracer_core::material::DiffuseMaterial;
use tracer_core::material::DiffuseMaterialTrait;
use tracer_core::material::MaterialType;
use tracer_core::material::ReflectiveMaterial;
use tracer_core::material::ReflectiveMaterialTrait;
use tracer_core::material::SpecularMaterial;
use tracer_core::material::SpecularMaterialTrait;
use tracer_core::plane::Plane;
use tracer_core::ray::Ray;
use tracer_core::ray::RayType;
use tracer_core::scene::Scene;
use tracer_core::sphere::Sphere;
use tracer_core::vec3::Vec3;

fn white() -> MaterialType {
    MaterialType::Color(ColorMaterial::new(Color::new(SCALE, SCALE, SCALE, SCALE)))
}

#[test]
fn actors_carry_position_and_direction() {
    let p = Vec3::new(1, 2, 3);
    let d = Vec3::new(4, 5, 6);
    let actor = Actor::new(&p);
    assert_eq!(actor.get_position(), p);

    let dir_actor = DirectionalActor::new(&p, &d);
    assert_eq!(dir_actor.get_position(), p);
    assert_eq!(dir_actor.get_direction(), d);

    let ray = Ray::new(&p, &d);
    assert_eq!(ray.get_position(), p);
    assert_eq!(ray.get_direction(), d);
}

#[test]
fn material_constructors_hand_back_their_coefficients() {
    let tint = Color::new(1, 2, 3, 4);
    assert_eq!(ColorMaterial::new(tint).get_color(), tint);
    assert_eq!(DiffuseMaterial::new(123).get_diffuse_coef(), 123);
    let s = SpecularMaterial::new(77, 9);
    assert_eq!(s.get_specular_coef(), 77);
    assert_eq!(s.get_shininess_coef(), 9);
    let r = ReflectiveMaterial::new(55, 4);
    assert_eq!(r.get_reflection_coef(), 55);
    assert_eq!(r.get_max_depth(), 4);
}

fn material_of<T: MaterialBound>(thing: &T) -> &MaterialType {
    thing.get_material()
}

fn position_of<T: ActorWithGeometry>(thing: &T) -> Vec3 {
    thing.get_position()
}

#[test]
fn geometry_carries_placement_and_material() {
    let center = Vec3::new(7 * SCALE, 0, 0);
    let sphere = Sphere::new(&center, SCALE, white());
    assert_eq!(position_of(&sphere), center);
    assert!(matches!(material_of(&sphere), MaterialType::Color(_)));

    let point = Vec3::new(0, -SCALE, 0);
    let normal = Vec3::new(0, SCALE, 0);
    let plane = Plane::new(&point, &normal, white());
    assert_eq!(position_of(&plane), point);
    assert_eq!(plane.get_direction(), normal);

    let wrapped = GeometryType::Plane(plane);
    assert_eq!(wrapped.get_position(), point);
    assert!(matches!(material_of(&wrapped), MaterialType::Color(_)));
}

#[test]
fn scene_setup_is_observable() {
    let ambient = Color::new(1, 2, 3, 4);
    let mut scene = Scene::new(&ambient);
    assert_eq!(scene.ambient, ambient);
    assert_eq!(scene.get_renderables().len(), 0);

    scene.renderables.push(GeometryType::Sphere(Sphere::new(
        &Vec3::new(0, 0, 0),
        SCALE,
        white(),
    )));
    assert_eq!(scene.get_renderables().len(), 1);

    scene.add_renderable(GeometryType::Sphere(Sphere::new(
        &Vec3::new(SCALE, 0, 0),
        SCALE,
        white(),
    )));
    assert_eq!(scene.get_renderables().len(), 2);

    let darker = Color::new(0, 0, 0, SCALE);
    scene.set_ambient(&darker);
    assert_eq!(scene.ambient, darker);
}

#[test]
fn rays_compare_by_fields() {
    let a = Ray::new(&Vec3::new(1, 2, 3), &Vec3::new(4, 5, 6));
    let b = Ray::new(&Vec3::new(1, 2, 3), &Vec3::new(4, 5, 6));
    let c = Ray::new(&Vec3::new(1, 2, 3), &Vec3::new(4, 5, 7));
    assert_eq!(a, b);
    assert_ne!(a, c);
    let _ = RayType::Camera;
    let _ = RayType::Light;
}
