//! The scene's light: a placed, directed sphere with a color. Shadow rays
//! aim at its position; its own intersection test renders the light body
//! directly, for visibility checks and scene debugging.

use vstd::prelude::*;
use crate::actor::ActorTrait;
use crate::actor::DirectionalActor;
use crate::actor::DirectionalActorTrait;
use crate::color::Color;
use crate::color::black;
use crate::math::SCALE;
use crate::math::WORLD;
use crate::math::div_floor;
use crate::math::isqrt;
use crate::math::lemma_div_quotient_bound;
use crate::math::spec_clamp01;
use crate::math::spec_isqrt;
use crate::math::clamp01;
use crate::ray::Ray;
use crate::vec3::Vec3;
use crate::vec3::lemma_dot_bound;
use crate::vec3::lemma_dot_self_nonneg;
use crate::vec3::lemma_product_bound;
use crate::vec3::sdot;
use crate::vec3::spec_normalize;

verus! {

/// A point light with a spherical body.
pub struct Light {
    pub dir_actor: DirectionalActor,
    pub radius: i64,
    pub color: Color,
}

/// One clamped channel of the light body's rendered color: the channel
/// scaled by the alignment `product` (a fraction of `SCALE`).
pub open spec fn spec_light_channel(c: int, product: int) -> int {
    spec_clamp01(c * product / (SCALE as int))
}

/// The color a camera ray sees of the light body itself: black when the
/// unit segment along the ray misses the body, else the light's color
/// scaled by how far the ray and the light's own pose point the same way.
pub open spec fn spec_light_intersect(l: Light, ray: Ray, toward: Light) -> Color {
    let f = Vec3 {
        x: (ray.origin().x - l.dir_actor.actor.position.x) as i64,
        y: (ray.origin().y - l.dir_actor.actor.position.y) as i64,
        z: (ray.origin().z - l.dir_actor.actor.position.z) as i64,
    };
    let d = ray.direction();
    let a = sdot(d, d);
    if a == 0 {
        black()
    } else {
        let hb = sdot(f, d);
        let c = sdot(f, f) - l.radius * l.radius;
        let disc = hb * hb - a * c;
        if disc < 0 {
            black()
        } else {
            let sq = spec_isqrt(disc);
            let t1 = (-hb - sq) * SCALE / a;
            let t2 = (-hb + sq) * SCALE / a;
            if (0 <= t1 <= SCALE) || (0 <= t2 <= SCALE) || (t1 < 0 && t2 > SCALE) {
                let ray_vec = spec_normalize(
                    Vec3 {
                        x: (ray.origin().x + d.x) as i64,
                        y: (ray.origin().y + d.y) as i64,
                        z: (ray.origin().z + d.z) as i64,
                    },
                );
                let light_vec = spec_normalize(
                    Vec3 {
                        x: (toward.dir_actor.actor.position.x + toward.dir_actor.direction.x) as i64,
                        y: (toward.dir_actor.actor.position.y + toward.dir_actor.direction.y) as i64,
                        z: (toward.dir_actor.actor.position.z + toward.dir_actor.direction.z) as i64,
                    },
                );
                let product = sdot(ray_vec, light_vec) / (SCALE as int);
                Color {
                    r: spec_light_channel(l.color.r as int, product) as i64,
                    g: spec_light_channel(l.color.g as int, product) as i64,
                    b: spec_light_channel(l.color.b as int, product) as i64,
                    a: spec_light_channel(l.color.a as int, product) as i64,
                }
            } else {
                black()
            }
        }
    }
}

impl Light {
    /// A valid light: pose inside the world bounds, a non-negative radius
    /// no larger than the world, and a well-formed color.
    pub open spec fn wf(self) -> bool {
        self.dir_actor.actor.position.in_world() && self.dir_actor.direction.in_world() && 0
            <= self.radius <= WORLD && self.color.wf()
    }

    pub fn new(position: &Vec3, direction: &Vec3, radius: i64, color: Color) -> (l: Light)
        ensures
            l.dir_actor.actor.position == *position,
            l.dir_actor.direction == *direction,
            l.radius == radius,
            l.color == color,
    {
        Light { dir_actor: DirectionalActor::new(position, direction), radius, color }
    }

    /// Render the light body as seen along `ray`, aimed toward `light`.
    pub fn intersect(&self, ray: &Ray, light: &Light) -> (r: Color)
        requires
            self.wf(),
            light.wf(),
            ray.wf(),
        ensures
            r == spec_light_intersect(*self, *ray, *light),
            r.wf(),
    {
        let o = &ray.dir_actor.actor.position;
        let d = ray.dir_actor.direction;
        let f = o.minus(&self.dir_actor.actor.position);
        let a: i128 = d.dot(&d);
        proof {
            lemma_dot_self_nonneg(d);
        }
        if a == 0 {
            return Color { r: 0, g: 0, b: 0, a: 0 };
        }
        let hb: i128 = f.dot(&d);
        let ff: i128 = f.dot(&f);
        proof {
            lemma_dot_bound(f, d, 1_000_000_000);
            lemma_dot_bound(f, f, 1_000_000_000);
            lemma_dot_bound(d, d, 1_000_000_000);
            lemma_product_bound(self.radius as int, self.radius as int, WORLD as int, WORLD as int);
        }
        let rr: i128 = (self.radius as i128) * (self.radius as i128);
        let c: i128 = ff - rr;
        proof {
            lemma_product_bound(
                hb as int,
                hb as int,
                3_000_000_000_000_000_000,
                3_000_000_000_000_000_000,
            );
            lemma_product_bound(
                a as int,
                c as int,
                3_000_000_000_000_000_000,
                3_250_000_000_000_000_000,
            );
        }
        let disc: i128 = hb * hb - a * c;
        if disc < 0 {
            return Color { r: 0, g: 0, b: 0, a: 0 };
        }
        let sq: u128 = isqrt(disc as u128);
        let num1: i128 = -hb - (sq as i128);
        let num2: i128 = -hb + (sq as i128);
        proof {
            lemma_product_bound(num1 as int, SCALE as int, 22_000_000_000_000_000_000, SCALE as int);
            lemma_product_bound(num2 as int, SCALE as int, 22_000_000_000_000_000_000, SCALE as int);
            lemma_div_quotient_bound(
                num1 as int * SCALE as int,
                a as int,
                22_000_000_000_000_000_000_000_000,
            );
            lemma_div_quotient_bound(
                num2 as int * SCALE as int,
                a as int,
                22_000_000_000_000_000_000_000_000,
            );
        }
        let t1: i128 = div_floor(num1 * (SCALE as i128), a);
        let t2: i128 = div_floor(num2 * (SCALE as i128), a);
        let s: i128 = SCALE as i128;
        if (0 <= t1 && t1 <= s) || (0 <= t2 && t2 <= s) || (t1 < 0 && t2 > s) {
            let ray_vec = o.plus(&d).normalize();
            let lp = &light.dir_actor.actor.position;
            let light_vec = lp.plus(&light.dir_actor.direction).normalize();
            let dot_n: i128 = ray_vec.dot(&light_vec);
            proof {
                lemma_dot_bound(ray_vec, light_vec, SCALE as int);
            }
            let product: i128 = div_floor(dot_n, s);
            proof {
                lemma_div_quotient_bound(dot_n as int, SCALE as int, 3_000_000_000_000);
                lemma_product_bound(
                    self.color.r as int,
                    product as int,
                    SCALE as int,
                    3_000_000_000_000,
                );
                lemma_product_bound(
                    self.color.g as int,
                    product as int,
                    SCALE as int,
                    3_000_000_000_000,
                );
                lemma_product_bound(
                    self.color.b as int,
                    product as int,
                    SCALE as int,
                    3_000_000_000_000,
                );
                lemma_product_bound(
                    self.color.a as int,
                    product as int,
                    SCALE as int,
                    3_000_000_000_000,
                );
            }
            Color {
                r: clamp01(div_floor((self.color.r as i128) * product, s)),
                g: clamp01(div_floor((self.color.g as i128) * product, s)),
                b: clamp01(div_floor((self.color.b as i128) * product, s)),
                a: clamp01(div_floor((self.color.a as i128) * product, s)),
            }
        } else {
            Color { r: 0, g: 0, b: 0, a: 0 }
        }
    }
}

impl ActorTrait for Light {
    fn get_position(&self) -> (p: Vec3)
        ensures
            p == self.dir_actor.actor.position,
    {
        self.dir_actor.actor.position
    }
}

impl DirectionalActorTrait for Light {
    fn get_direction(&self) -> (d: Vec3)
        ensures
            d == self.dir_actor.direction,
    {
        self.dir_actor.direction
    }
}

} // verus!
