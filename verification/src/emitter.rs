//! The camera-ray emitter: one ray per pixel of the target, all sharing
//! the camera's direction, their origins laid out on a unit grid centered
//! on the emitter's position. The ray list is kept in reverse grid order,
//! as the presentation stage expects it.

use vstd::prelude::*;
use crate::actor::Actor;
use crate::actor::DirectionalActor;
use crate::math::SCALE;
use crate::ray::Ray;
use crate::vec3::Vec3;
use crate::vec3::lemma_product_bound;

verus! {

/// Half a world unit in raw steps.
pub const HALF_SCALE: i64 = 500_000;

/// A grid of rays, one per pixel.
pub struct RayEmitter {
    pub dir_actor: DirectionalActor,
    pub resolution_x: u32,
    pub resolution_y: u32,
    pub rays: Vec<Ray>,
}

/// The origin of the grid ray at `(row, col)`: the screen spans half the
/// resolution to each side of the emitter's position, one unit per pixel.
pub open spec fn spec_grid_origin(pos: Vec3, rx: int, ry: int, row: int, col: int) -> Vec3 {
    Vec3 {
        x: (pos.x - rx * HALF_SCALE + SCALE * col) as i64,
        y: (pos.y - ry * HALF_SCALE + SCALE * row) as i64,
        z: pos.z,
    }
}

/// The `k`-th stored ray: the grid is walked row-major and then reversed.
pub open spec fn spec_emitter_ray(pos: Vec3, dir: Vec3, rx: int, ry: int, k: int) -> Ray {
    let j = rx * ry - 1 - k;
    Ray {
        dir_actor: DirectionalActor {
            actor: Actor { position: spec_grid_origin(pos, rx, ry, j / rx, j % rx) },
            direction: dir,
        },
    }
}

impl RayEmitter {
    /// The stored rays are exactly the reversed pixel grid.
    pub open spec fn wf(self) -> bool {
        &&& self.rays@.len() == (self.resolution_x as int) * (self.resolution_y as int)
        &&& forall|k: int|
            0 <= k < self.rays@.len() ==> #[trigger] self.rays@[k] == spec_emitter_ray(
                self.dir_actor.actor.position,
                self.dir_actor.direction,
                self.resolution_x as int,
                self.resolution_y as int,
                k,
            )
    }

    /// Build the emitter and lay out its rays.
    pub fn new(position: Vec3, direction: Vec3, resolution_x: u32, resolution_y: u32) -> (e:
        RayEmitter)
        requires
            position.in_world(),
            (resolution_x as int) * (resolution_y as int) <= 0xFFFF_FFFF,
        ensures
            e.dir_actor.actor.position == position,
            e.dir_actor.direction == direction,
            e.resolution_x == resolution_x,
            e.resolution_y == resolution_y,
            e.wf(),
    {
        let mut new_emitter = RayEmitter {
            dir_actor: DirectionalActor::new(&position, &direction),
            resolution_x,
            resolution_y,
            rays: Vec::new(),
        };
        new_emitter.calculate_rays();
        new_emitter
    }

    /// Fill the ray list: one ray per pixel, row-major and reversed, all
    /// with the emitter's direction.
    fn calculate_rays(&mut self)
        requires
            old(self).dir_actor.actor.position.in_world(),
            (old(self).resolution_x as int) * (old(self).resolution_y as int) <= 0xFFFF_FFFF,
        ensures
            final(self).dir_actor == old(self).dir_actor,
            final(self).resolution_x == old(self).resolution_x,
            final(self).resolution_y == old(self).resolution_y,
            final(self).wf(),
    {
        let rx: u32 = self.resolution_x;
        let ry: u32 = self.resolution_y;
        let pos = self.dir_actor.actor.position;
        let dir = self.dir_actor.direction;
        proof {
            lemma_product_bound(rx as int, ry as int, 0x1_0000_0000, 0x1_0000_0000);
        }
        let n: usize = (rx as usize) * (ry as usize);
        let mut rays: Vec<Ray> = Vec::new();
        let mut k: usize = 0;
        while k < n
            invariant
                n == (rx as int) * (ry as int),
                n <= 0xFFFF_FFFF,
                pos.in_world(),
                k <= n,
                rays@.len() == k,
                forall|m: int|
                    0 <= m < k ==> #[trigger] rays@[m] == spec_emitter_ray(
                        pos,
                        dir,
                        rx as int,
                        ry as int,
                        m,
                    ),
            decreases n - k,
        {
            proof {
                assert(rx > 0) by (nonlinear_arith)
                    requires
                        n == (rx as int) * (ry as int),
                        k < n,
                ;
            }
            let j: usize = n - 1 - k;
            let row: usize = j / (rx as usize);
            let col: usize = j % (rx as usize);
            proof {
                lemma_product_bound(rx as int, HALF_SCALE as int, 0x1_0000_0000, HALF_SCALE as int);
                lemma_product_bound(ry as int, HALF_SCALE as int, 0x1_0000_0000, HALF_SCALE as int);
                lemma_product_bound(SCALE as int, col as int, SCALE as int, 0x1_0000_0000);
                lemma_product_bound(SCALE as int, row as int, SCALE as int, 0x1_0000_0000);
                assert(col < rx) by (nonlinear_arith)
                    requires
                        rx > 0,
                        col == (j as int) % (rx as int),
                ;
                assert(row <= j);
            }
            let ox: i64 = pos.x - (rx as i64) * HALF_SCALE + SCALE * (col as i64);
            let oy: i64 = pos.y - (ry as i64) * HALF_SCALE + SCALE * (row as i64);
            let origin = Vec3 { x: ox, y: oy, z: pos.z };
            rays.push(Ray::new(&origin, &dir));
            k = k + 1;
        }
        self.rays = rays;
    }
}

} // verus!
