use tracer_core::SCALE;
use tracer_core::color::Color;
use tracer_core::filter::apply_msaa;
use tracer_core::filter::apply_msaa_2d;
use tracer_core::filter::apply_msaa_3x3;
use tracer_core::filter::apply_msaa_3x3_serial;
use tracer_core::frame::channel_byte;
use tracer_core::frame::render_frame;
use tracer_core::geometry::GeometryType;
use tracer_core::light::Light;
use tracer_core::material::ColorMaterial;
use tracer_core::material::MaterialType;
use tracer_core::math::clamp01;
use tracer_core::math::div_floor;
use tracer_core::math::isqrt;
use tracer_core::math::pow_frac;
use tracer_core::ray::Ray;
use tracer_core::ray::RayType;
use tracer_core::scene::Scene;
use tracer_core::sphere::Sphere;
use tracer_core::vec3::Vec3;

fn units(x: i64, y: i64, z: i64) -> Vec3 {
    Vec3::new(x * SCALE, y * SCALE, z * SCALE)
}

#[test]
fn isqrt_exact_and_floor_values() {
    assert_eq!(isqrt(0), 0);
    assert_eq!(isqrt(1), 1);
    assert_eq!(isqrt(15), 3);
    assert_eq!(isqrt(16), 4);
    assert_eq!(isqrt(2_500_000_000_000_000_000_000_000_000), 50_000_000_000_000);
    assert_eq!(isqrt(u128::MAX), 18_446_744_073_709_551_615);
}

#[test]
fn div_floor_rounds_toward_negative_infinity() {
    assert_eq!(div_floor(7, 2), 3);
    assert_eq!(div_floor(-7, 2), -4);
    assert_eq!(div_floor(-8, 2), -4);
    assert_eq!(div_floor(0, 9), 0);
}

#[test]
fn clamp01_pins_the_color_range() {
    assert_eq!(clamp01(-5), 0);
    assert_eq!(clamp01(0), 0);
    assert_eq!(clamp01(123), 123);
    assert_eq!(clamp01((SCALE as i128) + 1), SCALE);
}

#[test]
fn pow_frac_squares_a_half() {
    assert_eq!(pow_frac(SCALE, 9), SCALE);
    assert_eq!(pow_frac(SCALE / 2, 1), SCALE / 2);
    assert_eq!(pow_frac(SCALE / 2, 2), SCALE / 4);
    assert_eq!(pow_frac(0, 3), 0);
    assert_eq!(pow_frac(123_456, 0), SCALE);
}

#[test]
fn normalize_three_four_five() {
    let v = units(3, 4, 0);
    let n = v.normalize();
    assert_eq!(n, Vec3::new(600_000, 800_000, 0));
    let zero = Vec3::new(0, 0, 0);
    assert_eq!(zero.normalize(), zero);
}

#[test]
fn color_scale_and_add_clamp() {
    let c = Color::new(SCALE, SCALE / 2, 0, SCALE);
    let half = c.scale_frac(SCALE / 2);
    assert_eq!(half, Color::new(SCALE / 2, SCALE / 4, 0, SCALE / 2));
    let sum = c.plus_clamp(&half);
    assert_eq!(sum, Color::new(SCALE, SCALE / 2 + SCALE / 4, 0, SCALE));
}

#[test]
fn light_body_visible_along_ray() {
    let light = Light::new(
        &units(0, 0, 0),
        &Vec3::new(0, 0, -SCALE),
        50 * SCALE,
        Color::new(SCALE, SCALE / 2, 0, SCALE),
    );
    // The unit segment from z = -200 reaches into the light's body, and
    // the ray's heading agrees exactly with the light's own pose.
    let ray = Ray::new(&units(0, 0, -200), &units(0, 0, 180));
    let seen = light.intersect(&ray, &light);
    assert_eq!(seen, Color::new(SCALE, SCALE / 2, 0, SCALE));

    // A segment pointing away never reaches the body.
    let away = Ray::new(&units(0, 0, -200), &units(0, 0, -180));
    assert_eq!(away.dir_actor.direction.z, -180 * SCALE);
    let missed = light.intersect(&away, &light);
    assert_eq!(missed, Color::new(0, 0, 0, 0));
}

#[test]
fn frame_packs_one_pixel() {
    let mut scene = Scene::new(&Color::new(0, 0, 0, 0));
    let sphere = Sphere::new(
        &units(0, 0, 0),
        50 * SCALE,
        MaterialType::Color(ColorMaterial::new(Color::new(0, SCALE, 0, SCALE))),
    );
    scene.renderables.push(GeometryType::Sphere(sphere));
    let light = Light::new(
        &units(200, 200, 50),
        &Vec3::new(0, -SCALE, 0),
        50 * SCALE,
        Color::new(0, SCALE, SCALE, SCALE),
    );
    let rays = vec![
        Ray::new(&units(0, 0, -200), &Vec3::new(0, 0, SCALE)),
        Ray::new(&units(0, 0, -200), &Vec3::new(0, 0, -SCALE)),
    ];
    let buffer = render_frame(&scene, &light, &rays);
    assert_eq!(buffer, vec![0, 255, 0, 255, 0, 0, 0, 0]);
}

#[test]
fn channel_byte_scales_to_255() {
    assert_eq!(channel_byte(0), 0);
    assert_eq!(channel_byte(SCALE), 255);
    assert_eq!(channel_byte(SCALE / 2), 127);
}

#[test]
fn blur_averages_single_spike() {
    // Screen two pixels wide: each row is 8 bytes. One bright byte in
    // the interior spreads to the cells whose 3x3 window contains it.
    let mut buffer = vec![0u8; 32];
    buffer[16] = 90;
    apply_msaa_3x3(2, &mut buffer);
    let mut expected = vec![0u8; 32];
    expected[12] = 20;
    expected[16] = 10;
    assert_eq!(buffer, expected);
}

#[test]
fn blur_keeps_constant_buffer() {
    let mut buffer = vec![7u8; 40];
    apply_msaa_3x3(2, &mut buffer);
    assert_eq!(buffer, vec![7u8; 40]);

    let mut buffer = vec![9u8; 40];
    apply_msaa_3x3_serial(2, &mut buffer);
    assert_eq!(buffer, vec![9u8; 40]);
}

#[test]
fn blur_strided_matches_3x3() {
    let mut one = vec![0u8; 32];
    one[16] = 90;
    let mut other = one.clone();
    apply_msaa_3x3(2, &mut one);
    apply_msaa(2, &mut other, (1, 1));
    assert_eq!(one, other);

    let mut third = vec![0u8; 32];
    third[16] = 90;
    apply_msaa_2d(2, &mut third, (1, 1));
    assert_eq!(one, third);
}

#[test]
fn blur_zero_window_is_identity() {
    let mut buffer = vec![3u8, 50, 200, 9, 1, 2, 3, 4, 5, 6, 7, 8, 9, 10, 11, 12];
    let before = buffer.clone();
    apply_msaa(1, &mut buffer, (0, 0));
    assert_eq!(buffer, before);
}
