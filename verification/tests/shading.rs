use tracer_core::SCALE;
use tracer_core::color::Color;
use tracer_core::geometry::GeometryType;
use tracer_core::light::Light;
use tracer_core::material::ColorMaterial;
use tracer_core::material::DiffuseMaterial;
use tracer_core::material::MaterialMixer;
use tracer_core::material::MaterialType;
use tracer_core::material::ReflectiveMaterial;
use tracer_core::material::SpecularMaterial;
use tracer_core::plane::Plane;
use tracer_core::ray::Ray;
use tracer_core::ray::RayType;
use tracer_core::scene::Scene;
use tracer_core::sphere::Sphere;
use tracer_core::vec3::Vec3;

fn units(x: i64, y: i64, z: i64) -> Vec3 {
    Vec3::new(x * SCALE, y * SCALE, z * SCALE)
}

fn black() -> Color {
    Color::new(0, 0, 0, 0)
}

fn green() -> Color {
    Color::new(0, SCALE, 0, SCALE)
}

fn default_light() -> Light {
    Light::new(
        &units(200, 200, 50),
        &Vec3::new(0, -SCALE, 0),
        50 * SCALE,
        Color::new(0, SCALE, SCALE, SCALE),
    )
}

fn green_sphere_scene() -> Scene {
    let mut scene = Scene::new(&black());
    let sphere = Sphere::new(
        &units(0, 0, 0),
        50 * SCALE,
        MaterialType::Color(ColorMaterial::new(green())),
    );
    scene.renderables.push(GeometryType::Sphere(sphere));
    scene
}

// A camera ray aimed at the sphere returns the green tint; one that
// misses returns exactly the black ambient.
#[test]
fn end_to_end_green_sphere() {
    let scene = green_sphere_scene();
    let light = default_light();

    let aimed = Ray::new(&units(0, 0, -200), &Vec3::new(0, 0, SCALE));
    let hit_color = scene.render(&aimed, &light, &RayType::Camera, 0);
    assert_eq!(hit_color, green());
    assert!(hit_color.g > 0);

    let astray = Ray::new(&units(0, 0, -200), &Vec3::new(0, 0, -SCALE));
    let miss_color = scene.render(&astray, &light, &RayType::Camera, 0);
    assert_eq!(miss_color, black());
}

// An occluder between the hit point and the light zeroes the whole
// shaded contribution.
#[test]
fn occluder_blackens_hit() {
    let mut scene = green_sphere_scene();
    let blocker = Sphere::new(
        &units(0, 100, -50),
        20 * SCALE,
        MaterialType::Color(ColorMaterial::new(green())),
    );
    scene.renderables.push(GeometryType::Sphere(blocker));
    let light = Light::new(
        &units(0, 200, -50),
        &Vec3::new(0, -SCALE, 0),
        50 * SCALE,
        Color::new(0, SCALE, SCALE, SCALE),
    );

    let aimed = Ray::new(&units(0, 0, -200), &Vec3::new(0, 0, SCALE));
    let color = scene.render(&aimed, &light, &RayType::Camera, 0);
    assert_eq!(color, black());
}

// Moving the light further along the same direction from an unoccluded
// point leaves the rendered color unchanged.
#[test]
fn shadow_state_stable_under_further_light() {
    let scene = green_sphere_scene();
    let aimed = Ray::new(&units(0, 0, -200), &Vec3::new(0, 0, SCALE));

    let near = Light::new(
        &units(100, 100, 25),
        &Vec3::new(0, -SCALE, 0),
        50 * SCALE,
        Color::new(0, SCALE, SCALE, SCALE),
    );
    // Twice as far from the hit point (0, 0, -50), along the same line.
    let far = Light::new(
        &units(200, 200, 100),
        &Vec3::new(0, -SCALE, 0),
        50 * SCALE,
        Color::new(0, SCALE, SCALE, SCALE),
    );

    let c_near = scene.render(&aimed, &near, &RayType::Camera, 0);
    let c_far = scene.render(&aimed, &far, &RayType::Camera, 0);
    assert_eq!(c_near, c_far);
}

// The diffuse term scales the incoming color by the alignment of light
// direction and normal: full when aligned, zero when perpendicular or
// facing away.
#[test]
fn diffuse_alignment_scales_color() {
    let scene = Scene::new(&black());
    let light = default_light();
    let normal = Vec3::new(0, 0, SCALE);
    let view = Ray::new(&units(0, 0, -10), &Vec3::new(0, 0, SCALE));
    let start = Color::new(SCALE, SCALE, SCALE, SCALE);
    let m = MaterialType::Diffuse(DiffuseMaterial::new(SCALE));

    let aligned = Ray::new(&units(0, 0, 0), &Vec3::new(0, 0, SCALE));
    let c = m.calculate_illumination(&scene, &normal, &view, &light, &aligned, &start, 0);
    assert_eq!(c, Color::new(SCALE, SCALE, SCALE, SCALE));

    let sideways = Ray::new(&units(0, 0, 0), &Vec3::new(SCALE, 0, 0));
    let c = m.calculate_illumination(&scene, &normal, &view, &light, &sideways, &start, 0);
    assert_eq!(c, black());

    let away = Ray::new(&units(0, 0, 0), &Vec3::new(0, 0, -SCALE));
    let c = m.calculate_illumination(&scene, &normal, &view, &light, &away, &start, 0);
    assert_eq!(c, black());
}

// Raising the alignment of light direction and normal never darkens the
// diffuse output.
#[test]
fn diffuse_brightness_is_monotone_in_alignment() {
    let scene = Scene::new(&black());
    let light = default_light();
    let normal = Vec3::new(0, 0, SCALE);
    let view = Ray::new(&units(0, 0, -10), &Vec3::new(0, 0, SCALE));
    let start = Color::new(SCALE, SCALE, SCALE, SCALE);
    let m = MaterialType::Diffuse(DiffuseMaterial::new(SCALE));

    let sideways = Ray::new(&units(0, 0, 0), &Vec3::new(SCALE, 0, 0));
    let slanted = Ray::new(&units(0, 0, 0), &Vec3::new(0, SCALE, SCALE));
    let aligned = Ray::new(&units(0, 0, 0), &Vec3::new(0, 0, SCALE));

    let lo = m.calculate_illumination(&scene, &normal, &view, &light, &sideways, &start, 0);
    let mid = m.calculate_illumination(&scene, &normal, &view, &light, &slanted, &start, 0);
    let hi = m.calculate_illumination(&scene, &normal, &view, &light, &aligned, &start, 0);
    assert!(lo.g <= mid.g && mid.g <= hi.g);
    assert!(lo.g < hi.g);
    assert!(mid.g > 0 && mid.g < SCALE);
}

// A half-coefficient halves every channel, rounding down.
#[test]
fn diffuse_half_coefficient() {
    let scene = Scene::new(&black());
    let light = default_light();
    let normal = Vec3::new(0, 0, SCALE);
    let view = Ray::new(&units(0, 0, -10), &Vec3::new(0, 0, SCALE));
    let start = Color::new(SCALE, SCALE / 2, 0, SCALE);
    let m = MaterialType::Diffuse(DiffuseMaterial::new(SCALE / 2));

    let aligned = Ray::new(&units(0, 0, 0), &Vec3::new(0, 0, SCALE));
    let c = m.calculate_illumination(&scene, &normal, &view, &light, &aligned, &start, 0);
    assert_eq!(c, Color::new(SCALE / 2, SCALE / 4, 0, SCALE / 2));
}

// A mirror-aligned highlight adds the full specular coefficient onto
// the incoming color.
#[test]
fn specular_full_alignment_adds_boost() {
    let scene = Scene::new(&black());
    let light = Light::new(
        &units(0, 0, 100),
        &Vec3::new(0, -SCALE, 0),
        50 * SCALE,
        Color::new(SCALE, SCALE, SCALE, SCALE),
    );
    let normal = Vec3::new(0, 0, SCALE);
    // Light falls straight down the normal; the view looks straight at
    // the surface, so the reflected light runs straight back to it.
    let view = Ray::new(&units(0, 0, 100), &Vec3::new(0, 0, -SCALE));
    let light_ray = Ray::new(&units(0, 0, 0), &units(0, 0, 100));
    let k: i64 = SCALE / 2;
    let m = MaterialType::Specular(SpecularMaterial::new(k, 5));

    let c = m.calculate_illumination(&scene, &normal, &view, &light, &light_ray, &black(), 0);
    assert_eq!(c, Color::new(k, k, k, k));
}

// Once the recursion depth reaches the material's cap, the reflective
// stage passes the color through unchanged.
#[test]
fn reflective_stops_at_max_depth() {
    let scene = green_sphere_scene();
    let light = default_light();
    let normal = Vec3::new(0, 0, SCALE);
    let view = Ray::new(&units(0, 0, -200), &Vec3::new(0, 0, SCALE));
    let light_ray = Ray::new(&units(0, 0, -50), &units(0, 100, 0));
    let start = Color::new(123, 456, 789, SCALE);
    let m = MaterialType::Reflective(ReflectiveMaterial::new(SCALE / 2, 3));

    let c = m.calculate_illumination(&scene, &normal, &view, &light, &light_ray, &start, 3);
    assert_eq!(c, start);
    let c = m.calculate_illumination(&scene, &normal, &view, &light, &light_ray, &start, 7);
    assert_eq!(c, start);
}

// Two mutually reflective planes still give a defined, in-range color.
#[test]
fn mirror_hall_returns_defined_color() {
    let mirror = || {
        let mut mixer = MaterialMixer::new();
        mixer
            .materials
            .push(MaterialType::Color(ColorMaterial::new(green())));
        mixer
            .materials
            .push(MaterialType::Reflective(ReflectiveMaterial::new(
                SCALE / 2,
                8,
            )));
        MaterialType::Mixer(mixer)
    };
    let mut scene = Scene::new(&black());
    scene.renderables.push(GeometryType::Plane(Plane::new(
        &units(0, -100, 0),
        &Vec3::new(0, SCALE, 0),
        mirror(),
    )));
    scene.renderables.push(GeometryType::Plane(Plane::new(
        &units(0, 100, 0),
        &Vec3::new(0, -SCALE, 0),
        mirror(),
    )));
    let light = default_light();

    let ray = Ray::new(&units(0, 0, 0), &Vec3::new(SCALE / 10, -SCALE, 0));
    let c = scene.render(&ray, &light, &RayType::Camera, 0);
    for ch in [c.r, c.g, c.b, c.a] {
        assert!(0 <= ch && ch <= SCALE);
    }
}

// A mixer threads the color through its stages in order: the tint first,
// then a diffuse stage that zeroes it when the light is perpendicular.
#[test]
fn mixer_applies_stages_in_order() {
    let scene = Scene::new(&black());
    let light = default_light();
    let normal = Vec3::new(0, 0, SCALE);
    let view = Ray::new(&units(0, 0, -10), &Vec3::new(0, 0, SCALE));
    let sideways = Ray::new(&units(0, 0, 0), &Vec3::new(SCALE, 0, 0));

    let mut mixer = MaterialMixer::new();
    mixer
        .materials
        .push(MaterialType::Color(ColorMaterial::new(green())));
    mixer
        .materials
        .push(MaterialType::Diffuse(DiffuseMaterial::new(SCALE)));
    let m = MaterialType::Mixer(mixer);

    let c = m.calculate_illumination(&scene, &normal, &view, &light, &sideways, &green(), 0);
    assert_eq!(c, black());

    let empty = MaterialType::Mixer(MaterialMixer::new());
    let c = empty.calculate_illumination(&scene, &normal, &view, &light, &sideways, &green(), 0);
    assert_eq!(c, green());
}

// The first renderable in iteration order wins an exact distance tie.
#[test]
fn nearest_hit_first_seen_wins_ties() {
    let mut scene = Scene::new(&black());
    let first = Sphere::new(
        &units(0, 0, 0),
        50 * SCALE,
        MaterialType::Color(ColorMaterial::new(green())),
    );
    let second = Sphere::new(
        &units(0, 0, 0),
        50 * SCALE,
        MaterialType::Color(ColorMaterial::new(Color::new(SCALE, 0, 0, SCALE))),
    );
    scene.renderables.push(GeometryType::Sphere(first));
    scene.renderables.push(GeometryType::Sphere(second));
    let light = default_light();

    let aimed = Ray::new(&units(0, 0, -200), &Vec3::new(0, 0, SCALE));
    let nearest = scene.find_nearest(&aimed, &RayType::Camera).unwrap();
    assert_eq!(nearest.0, 0);
}
