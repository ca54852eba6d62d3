//! Planes: a placed point with a normal direction. A ray close to parallel
//! with the plane is a miss; otherwise the single crossing parameter is
//! `((point - origin) . n) / (direction . n)`.

use vstd::prelude::*;
use crate::actor::ActorTrait;
use crate::actor::DirectionalActor;
use crate::actor::DirectionalActorTrait;
use crate::material::MaterialType;
use crate::material::mat_wf;
use crate::math::PARALLEL_EPS;
use crate::math::SCALE;
use crate::math::div_floor;
use crate::math::lemma_div_quotient_bound;
use crate::ray::Ray;
use crate::ray::RayType;
use crate::ray::spec_try_hit;
use crate::ray::try_hit;
use crate::vec3::Vec3;
use crate::vec3::lemma_dot_bound;
use crate::vec3::lemma_product_bound;
use crate::vec3::sdot;

verus! {

/// A planar renderable: a placed point, the plane's normal, a material.
pub struct Plane {
    pub dir_actor: DirectionalActor,
    pub material: MaterialType,
}

/// The single crossing of a ray with a plane, turned into a hit: a miss
/// when the direction is within the parallel threshold of the plane,
/// otherwise `t = ((p - o) . n) * SCALE / (d . n)` rounded down.
pub open spec fn spec_plane_intersect(pl: Plane, ray: Ray, rt: RayType) -> Option<(i64, Vec3)> {
    let n = pl.dir_actor.direction;
    let den = sdot(ray.direction(), n);
    if -PARALLEL_EPS < den < PARALLEL_EPS {
        None
    } else {
        let diff = Vec3 {
            x: (pl.dir_actor.actor.position.x - ray.origin().x) as i64,
            y: (pl.dir_actor.actor.position.y - ray.origin().y) as i64,
            z: (pl.dir_actor.actor.position.z - ray.origin().z) as i64,
        };
        let num = sdot(diff, n);
        let t = if den > 0 {
            num * SCALE / den
        } else {
            (-num) * SCALE / (-den)
        };
        spec_try_hit(ray, t, rt)
    }
}

impl Plane {
    /// A valid plane: point and normal inside the world bounds and a
    /// well-formed material.
    pub open spec fn wf(self) -> bool {
        self.dir_actor.actor.position.in_world() && self.dir_actor.direction.in_world() && mat_wf(
            self.material,
        )
    }

    pub fn new(position: &Vec3, direction: &Vec3, material: MaterialType) -> (p: Plane)
        ensures
            p.dir_actor.actor.position == *position,
            p.dir_actor.direction == *direction,
            p.material == material,
    {
        Plane { dir_actor: DirectionalActor::new(position, direction), material }
    }

    pub fn get_material(&self) -> (m: &MaterialType)
        ensures
            *m == self.material,
    {
        &self.material
    }

    /// The accepted hit of a ray with this plane, if any.
    pub fn intersect(&self, ray: &Ray, ray_type: &RayType) -> (r: Option<(i64, Vec3)>)
        requires
            self.wf(),
            ray.wf(),
        ensures
            r == spec_plane_intersect(*self, *ray, *ray_type),
    {
        let n = self.dir_actor.direction;
        let d = ray.dir_actor.direction;
        let den: i128 = d.dot(&n);
        proof {
            lemma_dot_bound(d, n, 1_000_000_000);
        }
        if -(PARALLEL_EPS as i128) < den && den < PARALLEL_EPS as i128 {
            return None;
        }
        let diff = self.dir_actor.actor.position.minus(&ray.dir_actor.actor.position);
        let num: i128 = diff.dot(&n);
        proof {
            lemma_dot_bound(diff, n, 1_000_000_000);
            lemma_product_bound(num as int, SCALE as int, 3_000_000_000_000_000_000, SCALE as int);
            lemma_div_quotient_bound(
                num as int * SCALE as int,
                if den > 0 { den as int } else { -(den as int) },
                3_000_000_000_000_000_000_000_000,
            );
            lemma_div_quotient_bound(
                -(num as int) * SCALE as int,
                if den > 0 { den as int } else { -(den as int) },
                3_000_000_000_000_000_000_000_000,
            );
        }
        let t: i128 = if den > 0 {
            div_floor(num * (SCALE as i128), den)
        } else {
            div_floor(-num * (SCALE as i128), -den)
        };
        try_hit(ray, t, ray_type)
    }

    /// The plane's normal, the same everywhere on the surface.
    pub fn get_surface_normal(&self, _point: &Vec3) -> (n: Vec3)
        ensures
            n == self.dir_actor.direction,
    {
        self.dir_actor.direction
    }
}

/// A ray whose direction is exactly perpendicular to the plane's normal
/// reports no intersection, whatever its origin.
pub proof fn lemma_plane_parallel_no_hit(pl: Plane, ray: Ray, rt: RayType)
    requires
        sdot(ray.direction(), pl.dir_actor.direction) == 0,
    ensures
        spec_plane_intersect(pl, ray, rt) is None,
{
}

impl ActorTrait for Plane {
    fn get_position(&self) -> (p: Vec3)
        ensures
            p == self.dir_actor.actor.position,
    {
        self.dir_actor.actor.position
    }
}

impl DirectionalActorTrait for Plane {
    fn get_direction(&self) -> (d: Vec3)
        ensures
            d == self.dir_actor.direction,
    {
        self.dir_actor.direction
    }
}

} // verus!
