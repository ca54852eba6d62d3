//! Rays and their purpose tag: the accepted intersection interval differs
//! between camera rays and shadow (light) rays.

use vstd::prelude::*;
use crate::actor::ActorTrait;
use crate::actor::DirectionalActor;
use crate::actor::DirectionalActorTrait;
use crate::math::DIR_BOUND;
use crate::math::EPS_T;
use crate::math::SCALE;
use crate::math::T_MAX;
use crate::math::WORLD;
use crate::math::div_floor;
use crate::math::lemma_div_bound_abs;
use crate::vec3::Vec3;
use crate::vec3::lemma_product_bound;

verus! {

/// What a ray is cast for; the purpose picks the accepted parameter range.
#[derive(Clone, Copy, PartialEq, Eq, Structural, Debug)]
pub enum RayType {
    /// A primary or reflection ray: hits strictly past the unit offset count.
    Camera,
    /// A shadow ray, parametrized so `t == SCALE` is exactly at the light.
    Light,
}

/// A ray: an origin and a direction.
#[derive(Clone, Copy, PartialEq, Eq, Structural, Debug)]
pub struct Ray {
    pub dir_actor: DirectionalActor,
}

/// The parameter interval a purpose accepts, over fixed-point `t`
/// (`t == SCALE` is one direction length along the ray).
pub open spec fn spec_accepts(rt: RayType, t: int) -> bool {
    match rt {
        RayType::Camera => SCALE < t <= T_MAX,
        RayType::Light => EPS_T < t <= SCALE,
    }
}

impl Ray {
    /// The origin must sit in the world box and the direction must be a
    /// bounded direction, so that the intersection algebra stays exact.
    pub open spec fn wf(self) -> bool {
        self.dir_actor.actor.position.in_world() && self.dir_actor.direction.bounded_dir()
    }

    pub open spec fn origin(self) -> Vec3 {
        self.dir_actor.actor.position
    }

    pub open spec fn direction(self) -> Vec3 {
        self.dir_actor.direction
    }

    pub fn new(position: &Vec3, direction: &Vec3) -> (r: Ray)
        ensures
            r.origin() == *position,
            r.direction() == *direction,
    {
        Ray { dir_actor: DirectionalActor::new(position, direction) }
    }
}

/// The point `t` direction lengths along a ray, componentwise and rounded
/// down.
pub open spec fn spec_point_at(ray: Ray, t: int) -> (int, int, int) {
    (
        ray.origin().x + t * ray.direction().x / (SCALE as int),
        ray.origin().y + t * ray.direction().y / (SCALE as int),
        ray.origin().z + t * ray.direction().z / (SCALE as int),
    )
}

/// An intersection parameter turns into a hit when the purpose accepts it
/// and the hit point still lies inside the world box; hits outside the box
/// count as misses.
pub open spec fn spec_try_hit(ray: Ray, t: int, rt: RayType) -> Option<(i64, Vec3)> {
    if spec_accepts(rt, t) {
        let (px, py, pz) = spec_point_at(ray, t);
        if -WORLD <= px <= WORLD && -WORLD <= py <= WORLD && -WORLD <= pz <= WORLD {
            Some((t as i64, Vec3 { x: px as i64, y: py as i64, z: pz as i64 }))
        } else {
            None
        }
    } else {
        None
    }
}

/// Turn a candidate parameter into a hit, or reject it.
pub fn try_hit(ray: &Ray, t: i128, rt: &RayType) -> (r: Option<(i64, Vec3)>)
    requires
        ray.wf(),
        -1_000_000_000_000_000_000_000_000_000_000 < t < 1_000_000_000_000_000_000_000_000_000_000,
    ensures
        r == spec_try_hit(*ray, t as int, *rt),
{
    let accepted: bool = match rt {
        RayType::Camera => (SCALE as i128) < t && t <= T_MAX as i128,
        RayType::Light => (EPS_T as i128) < t && t <= SCALE as i128,
    };
    if !accepted {
        return None;
    }
    let o = &ray.dir_actor.actor.position;
    let d = &ray.dir_actor.direction;
    let px: i128 = (o.x as i128) + point_step(t, d.x);
    let py: i128 = (o.y as i128) + point_step(t, d.y);
    let pz: i128 = (o.z as i128) + point_step(t, d.z);
    let w: i128 = WORLD as i128;
    if -w <= px && px <= w && -w <= py && py <= w && -w <= pz && pz <= w {
        Some((t as i64, Vec3 { x: px as i64, y: py as i64, z: pz as i64 }))
    } else {
        None
    }
}

/// One coordinate of the offset `t * d / SCALE`.
fn point_step(t: i128, d: i64) -> (r: i128)
    requires
        0 < t <= T_MAX,
        -DIR_BOUND <= d <= DIR_BOUND,
    ensures
        r == t as int * d as int / (SCALE as int),
        -1_000_000_000_000_000_000 <= r <= 1_000_000_000_000_000_000,
{
    proof {
        lemma_product_bound(t as int, d as int, T_MAX as int, DIR_BOUND as int);
        lemma_div_bound_abs(
            t as int * d as int,
            SCALE as int,
            1_000_000_000_000_000_000,
        );
    }
    div_floor(t * (d as i128), SCALE as i128)
}

impl ActorTrait for Ray {
    fn get_position(&self) -> (p: Vec3)
        ensures
            p == self.origin(),
    {
        self.dir_actor.actor.position
    }
}

impl DirectionalActorTrait for Ray {
    fn get_direction(&self) -> (d: Vec3)
        ensures
            d == self.direction(),
    {
        self.dir_actor.direction
    }
}

} // verus!
