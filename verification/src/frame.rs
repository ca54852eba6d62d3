//! Filling a frame: one render call per camera ray, each resulting color
//! packed into four bytes of an RGBA buffer. Window management and
//! presentation stay outside the core; this is the computation they wrap.

use vstd::prelude::*;
use crate::color::Color;
use crate::light::Light;
use crate::math::SCALE;
use crate::math::div_floor;
use crate::math::lemma_div_bound_abs;
use crate::ray::Ray;
use crate::ray::RayType;
use crate::scene::Scene;
use crate::scene::spec_render;
use crate::vec3::lemma_product_bound;
use vstd::arithmetic::div_mod::lemma_div_pos_is_pos;

verus! {

/// A color channel in `[0, SCALE]` mapped to a byte in `[0, 255]`.
pub open spec fn spec_channel_byte(c: int) -> int {
    c * 255 / (SCALE as int)
}

/// Convert one fixed-point channel to its byte value.
pub fn channel_byte(c: i64) -> (b: u8)
    requires
        0 <= c <= SCALE,
    ensures
        b == spec_channel_byte(c as int),
{
    proof {
        lemma_product_bound(c as int, 255, SCALE as int, 255);
        lemma_div_bound_abs(c as int * 255, SCALE as int, 255);
        assert(c as int * 255 >= 0) by (nonlinear_arith)
            requires
                c >= 0,
        ;
        lemma_div_pos_is_pos(c as int * 255, SCALE as int);
    }
    div_floor((c as i128) * 255, SCALE as i128) as u8
}

/// The four bytes a rendered color contributes to the frame buffer.
pub open spec fn spec_pixel_bytes(c: Color) -> Seq<u8> {
    seq![
        spec_channel_byte(c.r as int) as u8,
        spec_channel_byte(c.g as int) as u8,
        spec_channel_byte(c.b as int) as u8,
        spec_channel_byte(c.a as int) as u8,
    ]
}

/// Render one frame: cast every camera ray through the scene and pack
/// the resulting colors into an RGBA byte buffer, four bytes per ray.
pub fn render_frame(scene: &Scene, light: &Light, rays: &Vec<Ray>) -> (buffer: Vec<u8>)
    requires
        scene.wf(),
        light.wf(),
        forall|k: int| 0 <= k < rays@.len() ==> (#[trigger] rays@[k]).wf(),
        rays@.len() * 4 <= 0xFFFF_FFFF,
    ensures
        buffer@.len() == rays@.len() * 4,
        forall|k: int|
            0 <= k < rays@.len() ==> buffer@.subrange(4 * k, 4 * k + 4) == spec_pixel_bytes(
                #[trigger] spec_render(*scene, rays@[k], *light, RayType::Camera, 0),
            ),
{
    let n: usize = rays.len();
    let mut buffer: Vec<u8> = Vec::new();
    let mut k: usize = 0;
    while k < n
        invariant
            scene.wf(),
            light.wf(),
            forall|m: int| 0 <= m < rays@.len() ==> (#[trigger] rays@[m]).wf(),
            n == rays@.len(),
            n * 4 <= 0xFFFF_FFFF,
            k <= n,
            buffer@.len() == k * 4,
            forall|m: int|
                0 <= m < k ==> buffer@.subrange(4 * m, 4 * m + 4) == spec_pixel_bytes(
                    #[trigger] spec_render(*scene, rays@[m], *light, RayType::Camera, 0),
                ),
        decreases n - k,
    {
        let c: Color = scene.render(&rays[k], light, &RayType::Camera, 0);
        proof {
            lemma_product_bound(k as int + 1, 4, 0xFFFF_FFFF, 4);
            assert((k + 1) * 4 == k * 4 + 4 && k * 4 <= n * 4) by (nonlinear_arith)
                requires
                    0 <= k < n,
            ;
        }
        let ghost prev = buffer@;
        buffer.push(channel_byte(c.r));
        buffer.push(channel_byte(c.g));
        buffer.push(channel_byte(c.b));
        buffer.push(channel_byte(c.a));
        proof {
            assert forall|m: int|
                0 <= m < k + 1 implies buffer@.subrange(4 * m, 4 * m + 4) == spec_pixel_bytes(
                #[trigger] spec_render(*scene, rays@[m], *light, RayType::Camera, 0),
            ) by {
                if m < k {
                    assert(buffer@.subrange(4 * m, 4 * m + 4) =~= prev.subrange(4 * m, 4 * m + 4));
                } else {
                    assert(buffer@.subrange(4 * m, 4 * m + 4) =~= spec_pixel_bytes(
                        spec_render(*scene, rays@[m], *light, RayType::Camera, 0),
                    ));
                }
            }
        }
        k = k + 1;
    }
    proof {
        assert(n * 4 == 4 * n) by (nonlinear_arith);
    }
    buffer
}

} // verus!
