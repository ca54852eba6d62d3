//! Spheres: closed-form ray intersection through the quadratic
//! `a*t^2 + 2*hb*t + c = 0` and the surface normal `(p - center) / radius`.

use vstd::prelude::*;
use crate::actor::Actor;
use crate::actor::ActorTrait;
use crate::material::MaterialType;
use crate::material::mat_wf;
use crate::math::SCALE;
use crate::math::WORLD;
use crate::math::div_floor;
use crate::math::isqrt;
use crate::math::lemma_div_quotient_bound;
use crate::math::spec_isqrt;
use crate::ray::Ray;
use crate::ray::RayType;
use crate::ray::spec_try_hit;
use crate::ray::try_hit;
use crate::vec3::Vec3;
use crate::vec3::lemma_dot_bound;
use crate::vec3::lemma_dot_self_nonneg;
use crate::vec3::lemma_product_bound;
use crate::vec3::sdot;

verus! {

/// A spherical renderable: a placed center, a radius and a material.
pub struct Sphere {
    pub actor: Actor,
    pub radius: i64,
    pub material: MaterialType,
}

/// The quadratic's roots for a sphere, turned into the first accepted hit.
/// `f` is the origin relative to the center, `a = d.d`, `hb = f.d`,
/// `c = f.f - r^2`; a negative discriminant, like a zero direction, is a
/// miss, and of the two roots the smaller is tried first.
pub open spec fn spec_sphere_intersect(s: Sphere, ray: Ray, rt: RayType) -> Option<(i64, Vec3)> {
    let f = Vec3 {
        x: (ray.origin().x - s.actor.position.x) as i64,
        y: (ray.origin().y - s.actor.position.y) as i64,
        z: (ray.origin().z - s.actor.position.z) as i64,
    };
    let d = ray.direction();
    let a = sdot(d, d);
    if a == 0 {
        None
    } else {
        let hb = sdot(f, d);
        let c = sdot(f, f) - s.radius * s.radius;
        let disc = hb * hb - a * c;
        if disc < 0 {
            None
        } else {
            let sq = spec_isqrt(disc);
            let t0 = (-hb - sq) * SCALE / a;
            let t1 = (-hb + sq) * SCALE / a;
            if spec_try_hit(ray, t0, rt) is Some {
                spec_try_hit(ray, t0, rt)
            } else {
                spec_try_hit(ray, t1, rt)
            }
        }
    }
}

/// The surface normal at `p`: `(p - center) * SCALE / radius`, a unit
/// direction whenever `p` lies on the surface.
pub open spec fn spec_sphere_normal(s: Sphere, p: Vec3) -> Vec3 {
    Vec3 {
        x: ((p.x - s.actor.position.x) * SCALE / (s.radius as int)) as i64,
        y: ((p.y - s.actor.position.y) * SCALE / (s.radius as int)) as i64,
        z: ((p.z - s.actor.position.z) * SCALE / (s.radius as int)) as i64,
    }
}

impl Sphere {
    /// A valid sphere: center in the world box, a positive radius no
    /// larger than the world, and a well-formed material.
    pub open spec fn wf(self) -> bool {
        self.actor.position.in_world() && 0 < self.radius <= WORLD && mat_wf(self.material)
    }

    pub fn new(position: &Vec3, radius: i64, material: MaterialType) -> (s: Sphere)
        ensures
            s.actor.position == *position,
            s.radius == radius,
            s.material == material,
    {
        Sphere { actor: Actor::new(position), radius, material }
    }

    pub fn get_material(&self) -> (m: &MaterialType)
        ensures
            *m == self.material,
    {
        &self.material
    }

    /// The nearest accepted hit of a ray with this sphere, if any.
    pub fn intersect(&self, ray: &Ray, ray_type: &RayType) -> (r: Option<(i64, Vec3)>)
        requires
            self.wf(),
            ray.wf(),
        ensures
            r == spec_sphere_intersect(*self, *ray, *ray_type),
    {
        let o = &ray.dir_actor.actor.position;
        let d = ray.dir_actor.direction;
        let f = o.minus(&self.actor.position);
        let a: i128 = d.dot(&d);
        proof {
            lemma_dot_self_nonneg(d);
        }
        if a == 0 {
            return None;
        }
        let hb: i128 = f.dot(&d);
        let ff: i128 = f.dot(&f);
        proof {
            lemma_dot_bound(f, d, 1_000_000_000);
            lemma_dot_bound(f, f, 1_000_000_000);
            lemma_dot_bound(d, d, 1_000_000_000);
            lemma_product_bound(self.radius as int, self.radius as int, WORLD as int, WORLD as int);
        }
        let rr: i128 = (self.radius as i128) * (self.radius as i128);
        let c: i128 = ff - rr;
        proof {
            lemma_product_bound(hb as int, hb as int, 3_000_000_000_000_000_000, 3_000_000_000_000_000_000);
            lemma_product_bound(a as int, c as int, 3_000_000_000_000_000_000, 3_250_000_000_000_000_000);
        }
        let disc: i128 = hb * hb - a * c;
        if disc < 0 {
            return None;
        }
        let sq: u128 = isqrt(disc as u128);
        let num0: i128 = -hb - (sq as i128);
        let num1: i128 = -hb + (sq as i128);
        proof {
            lemma_product_bound(num0 as int, SCALE as int, 22_000_000_000_000_000_000, SCALE as int);
            lemma_product_bound(num1 as int, SCALE as int, 22_000_000_000_000_000_000, SCALE as int);
            lemma_div_quotient_bound(
                num0 as int * SCALE as int,
                a as int,
                22_000_000_000_000_000_000_000_000,
            );
            lemma_div_quotient_bound(
                num1 as int * SCALE as int,
                a as int,
                22_000_000_000_000_000_000_000_000,
            );
        }
        let t0: i128 = div_floor(num0 * (SCALE as i128), a);
        let t1: i128 = div_floor(num1 * (SCALE as i128), a);
        match try_hit(ray, t0, ray_type) {
            Some(hit) => Some(hit),
            None => try_hit(ray, t1, ray_type),
        }
    }

    /// The unit surface normal at a point of the sphere's surface.
    pub fn get_surface_normal(&self, point: &Vec3) -> (n: Vec3)
        requires
            self.wf(),
            point.in_world(),
        ensures
            n == spec_sphere_normal(*self, *point),
            n.bounded_by(1_000_000_000_000_000),
    {
        proof {
            lemma_product_bound(
                point.x - self.actor.position.x,
                SCALE as int,
                1_000_000_000,
                SCALE as int,
            );
            lemma_product_bound(
                point.y - self.actor.position.y,
                SCALE as int,
                1_000_000_000,
                SCALE as int,
            );
            lemma_product_bound(
                point.z - self.actor.position.z,
                SCALE as int,
                1_000_000_000,
                SCALE as int,
            );
            lemma_div_quotient_bound(
                (point.x - self.actor.position.x) * SCALE,
                self.radius as int,
                1_000_000_000_000_000,
            );
            lemma_div_quotient_bound(
                (point.y - self.actor.position.y) * SCALE,
                self.radius as int,
                1_000_000_000_000_000,
            );
            lemma_div_quotient_bound(
                (point.z - self.actor.position.z) * SCALE,
                self.radius as int,
                1_000_000_000_000_000,
            );
        }
        let nx: i128 = div_floor(
            ((point.x - self.actor.position.x) as i128) * (SCALE as i128),
            self.radius as i128,
        );
        let ny: i128 = div_floor(
            ((point.y - self.actor.position.y) as i128) * (SCALE as i128),
            self.radius as i128,
        );
        let nz: i128 = div_floor(
            ((point.z - self.actor.position.z) as i128) * (SCALE as i128),
            self.radius as i128,
        );
        Vec3 { x: nx as i64, y: ny as i64, z: nz as i64 }
    }
}

/// The ray's origin relative to the sphere's center, as the intersection
/// algebra sees it.
pub open spec fn spec_sphere_rel(s: Sphere, ray: Ray) -> Vec3 {
    Vec3 {
        x: (ray.origin().x - s.actor.position.x) as i64,
        y: (ray.origin().y - s.actor.position.y) as i64,
        z: (ray.origin().z - s.actor.position.z) as i64,
    }
}

/// The squared distance of the ray's closest approach to the center,
/// scaled by `d.d`: the line through `o` along `d` passes the center at
/// squared distance `(f.f - (f.d)^2 / d.d)`.
pub open spec fn spec_closest_sq_scaled(s: Sphere, ray: Ray) -> int {
    let f = spec_sphere_rel(s, ray);
    let d = ray.direction();
    sdot(d, d) * sdot(f, f) - sdot(f, d) * sdot(f, d)
}

/// The sphere's squared radius under the same scaling.
pub open spec fn spec_radius_sq_scaled(s: Sphere, ray: Ray) -> int {
    let d = ray.direction();
    s.radius * s.radius * sdot(d, d)
}

/// The discriminant of the intersection quadratic.
pub open spec fn spec_sphere_disc(s: Sphere, ray: Ray) -> int {
    let f = spec_sphere_rel(s, ray);
    let d = ray.direction();
    sdot(f, d) * sdot(f, d) - sdot(d, d) * (sdot(f, f) - s.radius * s.radius)
}

/// The larger root of the quadratic, in fixed-point `t`.
pub open spec fn spec_sphere_far_root(s: Sphere, ray: Ray) -> int {
    let f = spec_sphere_rel(s, ray);
    let d = ray.direction();
    (-sdot(f, d) + spec_isqrt(spec_sphere_disc(s, ray))) * SCALE / sdot(d, d)
}

/// The discriminant's sign is exactly the comparison of the closest
/// approach against the radius.
proof fn lemma_disc_is_closest_comparison(s: Sphere, ray: Ray)
    ensures
        spec_sphere_disc(s, ray) == spec_radius_sq_scaled(s, ray) - spec_closest_sq_scaled(s, ray),
{
    let f = spec_sphere_rel(s, ray);
    let d = ray.direction();
    assert(sdot(d, d) * (sdot(f, f) - s.radius * s.radius) == sdot(d, d) * sdot(f, f) - sdot(d, d)
        * (s.radius * s.radius)) by (nonlinear_arith);
    assert(s.radius * s.radius * sdot(d, d) == sdot(d, d) * (s.radius * s.radius))
        by (nonlinear_arith);
}

/// A camera ray that passes the center strictly further away than the
/// radius reports no intersection.
pub proof fn lemma_sphere_far_approach_misses(s: Sphere, ray: Ray, rt: RayType)
    requires
        spec_closest_sq_scaled(s, ray) > spec_radius_sq_scaled(s, ray),
    ensures
        spec_sphere_intersect(s, ray, rt) is None,
{
    lemma_disc_is_closest_comparison(s, ray);
    let d = ray.direction();
    if sdot(d, d) != 0 {
        assert(spec_sphere_disc(s, ray) < 0);
    }
}

/// A ray that passes the center strictly closer than the radius reports
/// an intersection, provided the far crossing is itself accepted (the
/// sphere is not behind the ray or outside the world).
pub proof fn lemma_sphere_close_approach_hits(s: Sphere, ray: Ray, rt: RayType)
    requires
        sdot(ray.direction(), ray.direction()) != 0,
        spec_closest_sq_scaled(s, ray) < spec_radius_sq_scaled(s, ray),
        spec_try_hit(ray, spec_sphere_far_root(s, ray), rt) is Some,
    ensures
        spec_sphere_intersect(s, ray, rt) is Some,
{
    lemma_disc_is_closest_comparison(s, ray);
    assert(spec_sphere_disc(s, ray) > 0);
}

impl ActorTrait for Sphere {
    fn get_position(&self) -> (p: Vec3)
        ensures
            p == self.actor.position,
    {
        self.actor.position
    }
}

} // verus!
