//! The scene: an ordered set of renderables and an ambient color. Finding
//! the nearest hit, testing occlusion toward the light, and the render
//! entry point that ties intersection, shadowing and shading together.

use vstd::prelude::*;
use vstd::arithmetic::div_mod::lemma_div_is_ordered;
use crate::actor::Actor;
use crate::actor::DirectionalActor;
use crate::color::Color;
use crate::color::black;
use crate::color::spec_channel_scale;
use crate::color::lemma_channel_scale_bounds;
use crate::color::lemma_channel_scale_monotone;
use crate::color::channel_scale;
use crate::geometry::GeometryType;
use crate::geometry::spec_geom_intersect;
use crate::geometry::spec_geom_normal;
use crate::light::Light;
use crate::material::ColorMaterial;
use crate::material::ColorMaterialTrait;
use crate::material::DiffuseMaterial;
use crate::material::DiffuseMaterialTrait;
use crate::material::MaterialType;
use crate::material::ReflectiveMaterial;
use crate::material::ReflectiveMaterialTrait;
use crate::material::SpecularMaterial;
use crate::material::SpecularMaterialTrait;
use crate::material::lemma_mats_element;
use crate::material::mat_size;
use crate::material::mat_wf;
use crate::material::mats_size;
use crate::math::DEPTH_CAP;
use crate::math::SCALE;
use crate::math::SURF_EPS;
use crate::math::WORLD;
use crate::math::div_floor;
use crate::math::lemma_div_bound_abs;
use crate::math::lemma_div_quotient_bound;
use crate::math::spec_clamp01;
use crate::math::spec_pow_frac;
use crate::math::clamp01;
use crate::math::pow_frac;
use crate::ray::Ray;
use crate::ray::RayType;
use crate::vec3::Vec3;
use crate::vec3::lemma_dot_bound;
use crate::vec3::lemma_product_bound;
use crate::vec3::reflect;
use crate::vec3::sdot;
use crate::vec3::spec_normalize;
use crate::vec3::spec_reflect;

verus! {

/// The scene's composition: renderables in iteration order, plus the
/// ambient color returned on a total miss.
pub struct Scene {
    pub renderables: Vec<GeometryType>,
    pub ambient: Color,
}

/// The nearest accepted hit among the first `n` renderables: scanned in
/// order, a later hit replaces the best one only when strictly nearer, so
/// the first-seen renderable wins equal distances.
pub open spec fn spec_nearest_prefix(
    rens: Seq<GeometryType>,
    ray: Ray,
    rt: RayType,
    n: int,
) -> Option<(int, i64, Vec3)>
    decreases n,
{
    if n <= 0 {
        None
    } else {
        let prev = spec_nearest_prefix(rens, ray, rt, n - 1);
        match spec_geom_intersect(rens[n - 1], ray, rt) {
            None => prev,
            Some((t, p)) => match prev {
                None => Some((n - 1, t, p)),
                Some((i0, t0, p0)) => if t < t0 {
                    Some((n - 1, t, p))
                } else {
                    prev
                },
            },
        }
    }
}

/// The nearest accepted hit over the whole scene.
pub open spec fn spec_nearest(rens: Seq<GeometryType>, ray: Ray, rt: RayType) -> Option<
    (int, i64, Vec3),
> {
    spec_nearest_prefix(rens, ray, rt, rens.len() as int)
}

/// Whether any renderable other than the one at `skip` blocks the shadow
/// ray: occlusion is present or absent, never graded by occluder count.
pub open spec fn spec_occluded(rens: Seq<GeometryType>, skip: int, light_ray: Ray) -> bool {
    exists|j: int|
        0 <= j < rens.len() && j != skip && spec_geom_intersect(
            rens[j],
            light_ray,
            RayType::Light,
        ) is Some
}

impl Scene {
    /// A valid scene: a well-formed ambient color and well-formed
    /// renderables throughout.
    pub open spec fn wf(self) -> bool {
        self.ambient.wf() && forall|i: int|
            0 <= i < self.renderables@.len() ==> (#[trigger] self.renderables@[i]).wf()
    }

    pub fn new(ambient: &Color) -> (s: Scene)
        ensures
            s.renderables@.len() == 0,
            s.ambient == *ambient,
    {
        Scene { renderables: Vec::new(), ambient: *ambient }
    }

    pub fn get_renderables(&self) -> (r: &Vec<GeometryType>)
        ensures
            r == &self.renderables,
    {
        &self.renderables
    }

    /// Append one renderable; used only by setup code between frames.
    pub fn add_renderable(&mut self, renderable: GeometryType)
        ensures
            final(self).renderables@ == old(self).renderables@.push(renderable),
            final(self).ambient == old(self).ambient,
    {
        self.renderables.push(renderable);
    }

    /// Replace the ambient color; used only by setup code between frames.
    pub fn set_ambient(&mut self, ambient: &Color)
        ensures
            final(self).ambient == *ambient,
            final(self).renderables == old(self).renderables,
    {
        self.ambient = *ambient;
    }

    /// Scan every renderable and keep the strictly nearest accepted hit,
    /// together with the index of the renderable that produced it.
    pub fn find_nearest(&self, ray: &Ray, ray_type: &RayType) -> (r: Option<(usize, i64, Vec3)>)
        requires
            self.wf(),
            ray.wf(),
        ensures
            match r {
                None => spec_nearest(self.renderables@, *ray, *ray_type) is None,
                Some((i, t, p)) => spec_nearest(self.renderables@, *ray, *ray_type) == Some(
                    (i as int, t, p),
                ) && i < self.renderables@.len(),
            },
    {
        let mut best: Option<(usize, i64, Vec3)> = None;
        let mut j: usize = 0;
        let n = self.renderables.len();
        while j < n
            invariant
                self.wf(),
                ray.wf(),
                j <= n,
                n == self.renderables@.len(),
                match best {
                    None => spec_nearest_prefix(self.renderables@, *ray, *ray_type, j as int)
                        is None,
                    Some((i, t, p)) => spec_nearest_prefix(
                        self.renderables@,
                        *ray,
                        *ray_type,
                        j as int,
                    ) == Some((i as int, t, p)) && i < j,
                },
            decreases n - j,
        {
            match self.renderables[j].intersect(ray, ray_type) {
                None => {},
                Some((t, p)) => {
                    match best {
                        None => {
                            best = Some((j, t, p));
                        },
                        Some((bi, bt, bp)) => {
                            if t < bt {
                                best = Some((j, t, p));
                            }
                        },
                    }
                },
            }
            j = j + 1;
        }
        best
    }

    /// Iterate the scene's renderables and compute the final color one
    /// camera or shadow ray sees: the ambient color on a total miss,
    /// black when the hit point is shadowed, and the hit material's
    /// illumination otherwise. Always returns a defined color.
    pub fn render(&self, ray: &Ray, light: &Light, ray_type: &RayType, current_depth: usize) -> (c:
        Color)
        requires
            self.wf(),
            ray.wf(),
            light.wf(),
        ensures
            c == spec_render(*self, *ray, *light, *ray_type, current_depth as nat),
            c.wf(),
        decreases depth_left(current_depth as nat), 1nat, 0nat,
    {
        match self.find_nearest(ray, ray_type) {
            None => self.ambient,
            Some((i, t, p)) => {
                proof {
                    lemma_nearest_in_world(self.renderables@, *ray, *ray_type);
                }
                let ldir = light.dir_actor.actor.position.minus(&p);
                let light_ray = Ray::new(&p, &ldir);
                if self.is_occluded(i, &light_ray) {
                    Color { r: 0, g: 0, b: 0, a: 0 }
                } else {
                    let raw_normal = self.renderables[i].get_surface_normal(&p);
                    let normal = raw_normal.normalize();
                    let material = self.renderables[i].get_material();
                    proof {
                        self.renderables@[i as int].lemma_wf_material();
                    }
                    material.calculate_illumination(
                        self,
                        &normal,
                        ray,
                        light,
                        &light_ray,
                        &self.ambient,
                        current_depth,
                    )
                }
            },
        }
    }

    /// Whether any renderable except the one at `skip` blocks the shadow
    /// ray toward the light.
    pub fn is_occluded(&self, skip: usize, light_ray: &Ray) -> (b: bool)
        requires
            self.wf(),
            light_ray.wf(),
        ensures
            b == spec_occluded(self.renderables@, skip as int, *light_ray),
    {
        let mut j: usize = 0;
        let n = self.renderables.len();
        while j < n
            invariant
                self.wf(),
                light_ray.wf(),
                j <= n,
                n == self.renderables@.len(),
                forall|k: int|
                    0 <= k < j && k != skip ==> spec_geom_intersect(
                        #[trigger] self.renderables@[k],
                        *light_ray,
                        RayType::Light,
                    ) is None,
            decreases n - j,
        {
            if j != skip {
                match self.renderables[j].intersect(light_ray, &RayType::Light) {
                    Some(_) => {
                        return true;
                    },
                    None => {},
                }
            }
            j = j + 1;
        }
        false
    }
}

/// What every shading stage offers: an illumination computation over one
/// shaded point.
pub trait MaterialTrait {
    /// The stage's own well-formedness: what `calculate_illumination`
    /// needs of it.
    spec fn mat_ok(&self) -> bool;

    fn calculate_illumination(
        &self,
        scene: &Scene,
        surface_normal: &Vec3,
        ray: &Ray,
        light: &Light,
        light_ray: &Ray,
        start_color: &Color,
        current_depth: usize,
    ) -> Color
        requires
            self.mat_ok(),
            scene.wf(),
            surface_normal.bounded_by(SCALE as int),
            ray.wf(),
            light.wf(),
            light_ray.wf(),
            start_color.wf(),
    ;
}

impl MaterialTrait for MaterialType {
    open spec fn mat_ok(&self) -> bool {
        mat_wf(*self)
    }

    fn calculate_illumination(
        &self,
        scene: &Scene,
        surface_normal: &Vec3,
        ray: &Ray,
        light: &Light,
        light_ray: &Ray,
        start_color: &Color,
        current_depth: usize,
    ) -> (c: Color)
        ensures
            c == spec_illum(
                *self,
                *scene,
                *surface_normal,
                *ray,
                *light,
                *light_ray,
                *start_color,
                current_depth as nat,
            ),
            c.wf(),
    {
        MaterialType::calculate_illumination(
            self,
            scene,
            surface_normal,
            ray,
            light,
            light_ray,
            start_color,
            current_depth,
        )
    }
}

impl MaterialTrait for ColorMaterial {
    open spec fn mat_ok(&self) -> bool {
        mat_wf(MaterialType::Color(*self))
    }

    fn calculate_illumination(
        &self,
        scene: &Scene,
        surface_normal: &Vec3,
        ray: &Ray,
        light: &Light,
        light_ray: &Ray,
        start_color: &Color,
        current_depth: usize,
    ) -> (c: Color)
        ensures
            c == spec_illum(
                MaterialType::Color(*self),
                *scene,
                *surface_normal,
                *ray,
                *light,
                *light_ray,
                *start_color,
                current_depth as nat,
            ),
            c.wf(),
    {
        let m = MaterialType::Color(*self);
        MaterialType::calculate_illumination(
            &m,
            scene,
            surface_normal,
            ray,
            light,
            light_ray,
            start_color,
            current_depth,
        )
    }
}

impl MaterialTrait for DiffuseMaterial {
    open spec fn mat_ok(&self) -> bool {
        mat_wf(MaterialType::Diffuse(*self))
    }

    fn calculate_illumination(
        &self,
        scene: &Scene,
        surface_normal: &Vec3,
        ray: &Ray,
        light: &Light,
        light_ray: &Ray,
        start_color: &Color,
        current_depth: usize,
    ) -> (c: Color)
        ensures
            c == spec_illum(
                MaterialType::Diffuse(*self),
                *scene,
                *surface_normal,
                *ray,
                *light,
                *light_ray,
                *start_color,
                current_depth as nat,
            ),
            c.wf(),
    {
        let m = MaterialType::Diffuse(*self);
        MaterialType::calculate_illumination(
            &m,
            scene,
            surface_normal,
            ray,
            light,
            light_ray,
            start_color,
            current_depth,
        )
    }
}

impl MaterialTrait for SpecularMaterial {
    open spec fn mat_ok(&self) -> bool {
        mat_wf(MaterialType::Specular(*self))
    }

    fn calculate_illumination(
        &self,
        scene: &Scene,
        surface_normal: &Vec3,
        ray: &Ray,
        light: &Light,
        light_ray: &Ray,
        start_color: &Color,
        current_depth: usize,
    ) -> (c: Color)
        ensures
            c == spec_illum(
                MaterialType::Specular(*self),
                *scene,
                *surface_normal,
                *ray,
                *light,
                *light_ray,
                *start_color,
                current_depth as nat,
            ),
            c.wf(),
    {
        let m = MaterialType::Specular(*self);
        MaterialType::calculate_illumination(
            &m,
            scene,
            surface_normal,
            ray,
            light,
            light_ray,
            start_color,
            current_depth,
        )
    }
}

impl MaterialTrait for ReflectiveMaterial {
    open spec fn mat_ok(&self) -> bool {
        mat_wf(MaterialType::Reflective(*self))
    }

    fn calculate_illumination(
        &self,
        scene: &Scene,
        surface_normal: &Vec3,
        ray: &Ray,
        light: &Light,
        light_ray: &Ray,
        start_color: &Color,
        current_depth: usize,
    ) -> (c: Color)
        ensures
            c == spec_illum(
                MaterialType::Reflective(*self),
                *scene,
                *surface_normal,
                *ray,
                *light,
                *light_ray,
                *start_color,
                current_depth as nat,
            ),
            c.wf(),
    {
        let m = MaterialType::Reflective(*self);
        MaterialType::calculate_illumination(
            &m,
            scene,
            surface_normal,
            ray,
            light,
            light_ray,
            start_color,
            current_depth,
        )
    }
}

/// What a whole scene offers: a color for every ray.
pub trait Renderable {
    /// What the renderer needs of the scene.
    spec fn renderable_wf(&self) -> bool;

    fn render(&self, ray: &Ray, light: &Light, ray_type: &RayType, current_depth: usize) -> Color
        requires
            self.renderable_wf(),
            ray.wf(),
            light.wf(),
    ;
}

impl Renderable for Scene {
    open spec fn renderable_wf(&self) -> bool {
        self.wf()
    }

    fn render(&self, ray: &Ray, light: &Light, ray_type: &RayType, current_depth: usize) -> (c:
        Color)
        ensures
            c == spec_render(*self, *ray, *light, *ray_type, current_depth as nat),
            c.wf(),
    {
        Scene::render(self, ray, light, ray_type, current_depth)
    }
}

/// How much recursion room is left under the hard depth cap.
pub open spec fn depth_left(depth: nat) -> nat {
    if depth >= DEPTH_CAP {
        0
    } else {
        (DEPTH_CAP - depth) as nat
    }
}

/// The nearest hit, when there is one, names a renderable of the scene
/// and a point inside the world box.
pub proof fn lemma_nearest_prefix_in_world(rens: Seq<GeometryType>, ray: Ray, rt: RayType, n: int)
    requires
        n <= rens.len(),
    ensures
        match spec_nearest_prefix(rens, ray, rt, n) {
            Some((i, t, p)) => 0 <= i < n && p.in_world(),
            None => true,
        },
    decreases n,
{
    if n > 0 {
        lemma_nearest_prefix_in_world(rens, ray, rt, n - 1);
        match spec_geom_intersect(rens[n - 1], ray, rt) {
            Some((t, p)) => {
                match rens[n - 1] {
                    GeometryType::Plane(pl) => {
                        lemma_plane_hit_in_world(pl, ray, rt);
                    },
                    GeometryType::Sphere(sp) => {
                        lemma_sphere_hit_in_world(sp, ray, rt);
                    },
                }
            },
            None => {},
        }
    }
}

/// A sphere's accepted hit point lies inside the world box.
pub proof fn lemma_sphere_hit_in_world(s: crate::sphere::Sphere, ray: Ray, rt: RayType)
    ensures
        match crate::sphere::spec_sphere_intersect(s, ray, rt) {
            Some((t, p)) => p.in_world(),
            None => true,
        },
{
}

/// A plane's accepted hit point lies inside the world box.
pub proof fn lemma_plane_hit_in_world(p: crate::plane::Plane, ray: Ray, rt: RayType)
    ensures
        match crate::plane::spec_plane_intersect(p, ray, rt) {
            Some((t, pt)) => pt.in_world(),
            None => true,
        },
{
}

/// As `lemma_nearest_prefix_in_world`, over the whole scene.
pub proof fn lemma_nearest_in_world(rens: Seq<GeometryType>, ray: Ray, rt: RayType)
    ensures
        match spec_nearest(rens, ray, rt) {
            Some((i, t, p)) => 0 <= i < rens.len() && p.in_world(),
            None => true,
        },
{
    lemma_nearest_prefix_in_world(rens, ray, rt, rens.len() as int);
}

/// The Lambertian stage: the incoming color scaled by the clamped
/// alignment of the (defensively normalized) light direction with the
/// surface normal, and by the diffuse coefficient.
pub open spec fn spec_diffuse_illum(k: i64, normal: Vec3, light_ray: Ray, start: Color) -> Color {
    let ln = spec_normalize(light_ray.direction());
    let d = spec_clamp01(sdot(ln, normal) / (SCALE as int));
    Color {
        r: spec_channel_scale(spec_channel_scale(start.r as int, d), k as int) as i64,
        g: spec_channel_scale(spec_channel_scale(start.g as int, d), k as int) as i64,
        b: spec_channel_scale(spec_channel_scale(start.b as int, d), k as int) as i64,
        a: spec_channel_scale(spec_channel_scale(start.a as int, d), k as int) as i64,
    }
}

/// The highlight stage: the incoming light direction mirrored about the
/// normal, its alignment with the view direction clamped non-negative and
/// raised to `shininess`, scaled by `k` and added onto the incoming color.
pub open spec fn spec_specular_illum(
    k: i64,
    shininess: u32,
    normal: Vec3,
    ray: Ray,
    light: Light,
    light_ray: Ray,
    start: Color,
) -> Color {
    let income = Vec3 {
        x: (light_ray.origin().x - light.dir_actor.actor.position.x) as i64,
        y: (light_ray.origin().y - light.dir_actor.actor.position.y) as i64,
        z: (light_ray.origin().z - light.dir_actor.actor.position.z) as i64,
    };
    let inc_n = spec_normalize(income);
    let refl_n = spec_normalize(spec_reflect(inc_n, normal));
    let view_n = spec_normalize(ray.direction());
    let align = spec_clamp01((-sdot(refl_n, view_n)) / (SCALE as int));
    let power = spec_pow_frac(align, shininess as nat);
    Color {
        r: spec_clamp01(start.r + spec_channel_scale(k as int, power)) as i64,
        g: spec_clamp01(start.g + spec_channel_scale(k as int, power)) as i64,
        b: spec_clamp01(start.b + spec_channel_scale(k as int, power)) as i64,
        a: spec_clamp01(start.a + spec_channel_scale(k as int, power)) as i64,
    }
}

/// What one material stage makes of the incoming color. Reflective stages
/// re-enter `spec_render` one level deeper; mixers thread the color
/// through their stages in order.
pub open spec fn spec_illum(
    m: MaterialType,
    scene: Scene,
    normal: Vec3,
    ray: Ray,
    light: Light,
    light_ray: Ray,
    start: Color,
    depth: nat,
) -> Color
    decreases depth_left(depth), 0nat, mat_size(m),
        when mat_wf(m)
{
    match m {
        MaterialType::Color(c) => c.spec_color(),
        MaterialType::Diffuse(d) => spec_diffuse_illum(d.spec_diffuse(), normal, light_ray, start),
        MaterialType::Specular(s) => spec_specular_illum(
            s.spec_specular(),
            s.spec_shininess(),
            normal,
            ray,
            light,
            light_ray,
            start,
        ),
        MaterialType::Reflective(r) => {
            if depth >= r.spec_max_depth() {
                start
            } else {
                let dir = spec_normalize(spec_reflect(ray.direction(), normal));
                let origin = Vec3 {
                    x: (light_ray.origin().x + normal.x * SURF_EPS / (SCALE as int)) as i64,
                    y: (light_ray.origin().y + normal.y * SURF_EPS / (SCALE as int)) as i64,
                    z: (light_ray.origin().z + normal.z * SURF_EPS / (SCALE as int)) as i64,
                };
                if !origin.in_world() {
                    start
                } else {
                    let reflection_ray = Ray {
                        dir_actor: DirectionalActor {
                            actor: Actor { position: origin },
                            direction: dir,
                        },
                    };
                    let c = spec_render(scene, reflection_ray, light, RayType::Camera, depth + 1);
                    let att = (SCALE as int) * (depth + 1);
                    Color {
                        r: spec_clamp01(start.r + r.spec_reflect() * c.r / att) as i64,
                        g: spec_clamp01(start.g + r.spec_reflect() * c.g / att) as i64,
                        b: spec_clamp01(start.b + r.spec_reflect() * c.b / att) as i64,
                        a: spec_clamp01(start.a + r.spec_reflect() * c.a / att) as i64,
                    }
                }
            }
        },
        MaterialType::Mixer(mx) => spec_illum_seq(
            mx.materials@,
            scene,
            normal,
            ray,
            light,
            light_ray,
            start,
            depth,
        ),
    }
}

/// Thread a color through a pipeline of stages, front to back.
pub open spec fn spec_illum_seq(
    s: Seq<MaterialType>,
    scene: Scene,
    normal: Vec3,
    ray: Ray,
    light: Light,
    light_ray: Ray,
    start: Color,
    depth: nat,
) -> Color
    decreases depth_left(depth), 0nat, mats_size(s),
{
    if s.len() == 0 {
        start
    } else {
        spec_illum_seq(
            s.drop_first(),
            scene,
            normal,
            ray,
            light,
            light_ray,
            spec_illum(s[0], scene, normal, ray, light, light_ray, start, depth),
            depth,
        )
    }
}

/// The color one ray sees of the scene: ambient on a total miss, black in
/// shadow, and otherwise the hit material's illumination of the ambient
/// color, with the surface normal defensively normalized.
pub open spec fn spec_render(
    scene: Scene,
    ray: Ray,
    light: Light,
    rt: RayType,
    depth: nat,
) -> Color
    decreases depth_left(depth), 1nat, 0nat,
{
    match spec_nearest(scene.renderables@, ray, rt) {
        None => scene.ambient,
        Some((i, t, p)) => {
            let light_ray = Ray {
                dir_actor: DirectionalActor {
                    actor: Actor { position: p },
                    direction: Vec3 {
                        x: (light.dir_actor.actor.position.x - p.x) as i64,
                        y: (light.dir_actor.actor.position.y - p.y) as i64,
                        z: (light.dir_actor.actor.position.z - p.z) as i64,
                    },
                },
            };
            if spec_occluded(scene.renderables@, i, light_ray) {
                black()
            } else {
                let normal = spec_normalize(spec_geom_normal(scene.renderables@[i], p));
                spec_illum(
                    scene.renderables@[i].spec_material(),
                    scene,
                    normal,
                    ray,
                    light,
                    light_ray,
                    scene.ambient,
                    depth,
                )
            }
        },
    }
}

impl MaterialType {
    /// Compute this material's contribution for one shaded point. Pure in
    /// its inputs; a reflective stage re-enters the scene renderer with
    /// `current_depth + 1`, and stops contributing at its maximum depth.
    pub fn calculate_illumination(
        &self,
        scene: &Scene,
        surface_normal: &Vec3,
        ray: &Ray,
        light: &Light,
        light_ray: &Ray,
        start_color: &Color,
        current_depth: usize,
    ) -> (c: Color)
        requires
            mat_wf(*self),
            scene.wf(),
            surface_normal.bounded_by(SCALE as int),
            ray.wf(),
            light.wf(),
            light_ray.wf(),
            start_color.wf(),
        ensures
            c == spec_illum(
                *self,
                *scene,
                *surface_normal,
                *ray,
                *light,
                *light_ray,
                *start_color,
                current_depth as nat,
            ),
            c.wf(),
        decreases depth_left(current_depth as nat), 0nat, mat_size(*self),
    {
        match self {
            MaterialType::Color(cm) => cm.get_color(),
            MaterialType::Diffuse(dm) => {
                let ln = light_ray.dir_actor.direction.normalize();
                let dd: i128 = ln.dot(surface_normal);
                proof {
                    lemma_dot_bound(ln, *surface_normal, SCALE as int);
                    lemma_div_quotient_bound(dd as int, SCALE as int, 3_000_000_000_000);
                }
                let d: i64 = clamp01(div_floor(dd, SCALE as i128));
                let k = dm.get_diffuse_coef();
                Color {
                    r: channel_scale(channel_scale(start_color.r, d), k),
                    g: channel_scale(channel_scale(start_color.g, d), k),
                    b: channel_scale(channel_scale(start_color.b, d), k),
                    a: channel_scale(channel_scale(start_color.a, d), k),
                }
            },
            MaterialType::Specular(sm) => {
                let income = light_ray.dir_actor.actor.position.minus(
                    &light.dir_actor.actor.position,
                );
                let inc_n = income.normalize();
                let refl_n = reflect(&inc_n, surface_normal).normalize();
                let view_n = ray.dir_actor.direction.normalize();
                let al: i128 = refl_n.dot(&view_n);
                proof {
                    lemma_dot_bound(refl_n, view_n, SCALE as int);
                    lemma_div_quotient_bound(-al as int, SCALE as int, 3_000_000_000_000);
                }
                let align: i64 = clamp01(div_floor(-al, SCALE as i128));
                let power = pow_frac(align, sm.get_shininess_coef());
                let k = sm.get_specular_coef();
                let boost = channel_scale(k, power);
                Color {
                    r: clamp01(start_color.r as i128 + boost as i128),
                    g: clamp01(start_color.g as i128 + boost as i128),
                    b: clamp01(start_color.b as i128 + boost as i128),
                    a: clamp01(start_color.a as i128 + boost as i128),
                }
            },
            MaterialType::Reflective(rm) => {
                if current_depth >= rm.get_max_depth() {
                    *start_color
                } else {
                    let dir = reflect(&ray.dir_actor.direction, surface_normal).normalize();
                    let hp = &light_ray.dir_actor.actor.position;
                    proof {
                        lemma_offset_bounds(*surface_normal, *hp);
                    }
                    let ox: i128 = (hp.x as i128) + div_floor(
                        (surface_normal.x as i128) * (SURF_EPS as i128),
                        SCALE as i128,
                    );
                    let oy: i128 = (hp.y as i128) + div_floor(
                        (surface_normal.y as i128) * (SURF_EPS as i128),
                        SCALE as i128,
                    );
                    let oz: i128 = (hp.z as i128) + div_floor(
                        (surface_normal.z as i128) * (SURF_EPS as i128),
                        SCALE as i128,
                    );
                    let origin = Vec3 { x: ox as i64, y: oy as i64, z: oz as i64 };
                    let w = WORLD;
                    if !(-w <= origin.x && origin.x <= w && -w <= origin.y && origin.y <= w && -w
                        <= origin.z && origin.z <= w) {
                        *start_color
                    } else {
                        let reflection_ray = Ray::new(&origin, &dir);
                        let c = scene.render(
                            &reflection_ray,
                            light,
                            &RayType::Camera,
                            current_depth + 1,
                        );
                        let k = rm.get_reflection_coef();
                        let att: i128 = (SCALE as i128) * ((current_depth as i128) + 1);
                        proof {
                            lemma_attenuation_bounds(
                                k as int,
                                c,
                                current_depth as int,
                            );
                        }
                        Color {
                            r: clamp01(
                                start_color.r as i128 + div_floor((k as i128) * (c.r as i128), att),
                            ),
                            g: clamp01(
                                start_color.g as i128 + div_floor((k as i128) * (c.g as i128), att),
                            ),
                            b: clamp01(
                                start_color.b as i128 + div_floor((k as i128) * (c.b as i128), att),
                            ),
                            a: clamp01(
                                start_color.a as i128 + div_floor((k as i128) * (c.a as i128), att),
                            ),
                        }
                    }
                }
            },
            MaterialType::Mixer(mx) => {
                let mut result: Color = *start_color;
                let mut k: usize = 0;
                let n = mx.materials.len();
                proof {
                    assert(mx.materials@.subrange(0, n as int) =~= mx.materials@);
                }
                while k < n
                    invariant
                        mat_wf(*self),
                        self is Mixer,
                        mx == self->Mixer_0,
                        scene.wf(),
                        surface_normal.bounded_by(SCALE as int),
                        ray.wf(),
                        light.wf(),
                        light_ray.wf(),
                        result.wf(),
                        k <= n,
                        n == mx.materials@.len(),
                        spec_illum_seq(
                            mx.materials@,
                            *scene,
                            *surface_normal,
                            *ray,
                            *light,
                            *light_ray,
                            *start_color,
                            current_depth as nat,
                        ) == spec_illum_seq(
                            mx.materials@.subrange(k as int, n as int),
                            *scene,
                            *surface_normal,
                            *ray,
                            *light,
                            *light_ray,
                            result,
                            current_depth as nat,
                        ),
                    decreases n - k,
                {
                    proof {
                        lemma_mats_element(mx.materials@, k as int);
                        assert(mx.materials@.subrange(k as int, n as int)[0] == mx.materials@[
                            k as int]);
                        assert(mx.materials@.subrange(k as int, n as int).drop_first()
                            =~= mx.materials@.subrange(k as int + 1, n as int));
                    }
                    result = mx.materials[k].calculate_illumination(
                        scene,
                        surface_normal,
                        ray,
                        light,
                        light_ray,
                        &result,
                        current_depth,
                    );
                    k = k + 1;
                }
                proof {
                    assert(mx.materials@.subrange(n as int, n as int).len() == 0);
                }
                result
            },
        }
    }
}

/// Shadow-test stability: from an unoccluded point, moving the light
/// further along the same direction does not change the reported
/// occlusion state, as long as no renderable crosses the moved shadow
/// segment.
pub proof fn lemma_shadow_stability(
    rens: Seq<GeometryType>,
    skip: int,
    near_ray: Ray,
    far_ray: Ray,
    c: int,
)
    requires
        near_ray.origin() == far_ray.origin(),
        c >= 1,
        far_ray.direction().x == c * near_ray.direction().x,
        far_ray.direction().y == c * near_ray.direction().y,
        far_ray.direction().z == c * near_ray.direction().z,
        !spec_occluded(rens, skip, near_ray),
        forall|j: int|
            0 <= j < rens.len() && j != skip ==> spec_geom_intersect(
                #[trigger] rens[j],
                far_ray,
                RayType::Light,
            ) is None,
    ensures
        spec_occluded(rens, skip, far_ray) == spec_occluded(rens, skip, near_ray),
{
}

/// Reflective-material termination: once the recursion depth has reached
/// a reflective stage's own maximum, the stage passes the accumulated
/// color through unchanged.
pub proof fn lemma_reflection_stops_at_depth(
    r: ReflectiveMaterial,
    scene: Scene,
    normal: Vec3,
    ray: Ray,
    light: Light,
    light_ray: Ray,
    start: Color,
    depth: nat,
)
    requires
        mat_wf(MaterialType::Reflective(r)),
        depth >= r.spec_max_depth(),
    ensures
        spec_illum(MaterialType::Reflective(r), scene, normal, ray, light, light_ray, start, depth)
            == start,
{
}

/// Diffuse monotonicity: raising the alignment of the light direction
/// with the surface normal never darkens any channel of the diffuse
/// stage's output, everything else held fixed.
pub proof fn lemma_diffuse_monotone(k: i64, normal: Vec3, lr1: Ray, lr2: Ray, start: Color)
    requires
        0 <= k <= SCALE,
        start.wf(),
        sdot(spec_normalize(lr1.direction()), normal) <= sdot(
            spec_normalize(lr2.direction()),
            normal,
        ),
    ensures
        spec_diffuse_illum(k, normal, lr1, start).r <= spec_diffuse_illum(k, normal, lr2, start).r,
        spec_diffuse_illum(k, normal, lr1, start).g <= spec_diffuse_illum(k, normal, lr2, start).g,
        spec_diffuse_illum(k, normal, lr1, start).b <= spec_diffuse_illum(k, normal, lr2, start).b,
        spec_diffuse_illum(k, normal, lr1, start).a <= spec_diffuse_illum(k, normal, lr2, start).a,
{
    let dot1 = sdot(spec_normalize(lr1.direction()), normal);
    let dot2 = sdot(spec_normalize(lr2.direction()), normal);
    lemma_div_is_ordered(dot1, dot2, SCALE as int);
    let d1 = spec_clamp01(dot1 / (SCALE as int));
    let d2 = spec_clamp01(dot2 / (SCALE as int));
    assert(0 <= d1 <= d2 <= SCALE);
    lemma_channel_monotone_chain(start.r as int, d1, d2, k as int);
    lemma_channel_monotone_chain(start.g as int, d1, d2, k as int);
    lemma_channel_monotone_chain(start.b as int, d1, d2, k as int);
    lemma_channel_monotone_chain(start.a as int, d1, d2, k as int);
}

/// One diffuse channel is monotone in the alignment fraction.
proof fn lemma_channel_monotone_chain(ch: int, d1: int, d2: int, k: int)
    requires
        0 <= ch <= SCALE,
        0 <= d1 <= d2 <= SCALE,
        0 <= k <= SCALE,
    ensures
        spec_channel_scale(spec_channel_scale(ch, d1), k) <= spec_channel_scale(
            spec_channel_scale(ch, d2),
            k,
        ),
        0 <= spec_channel_scale(spec_channel_scale(ch, d1), k) <= SCALE,
        0 <= spec_channel_scale(spec_channel_scale(ch, d2), k) <= SCALE,
{
    lemma_channel_scale_bounds(ch, d1);
    lemma_channel_scale_bounds(ch, d2);
    lemma_channel_scale_monotone(ch, d1, ch, d2);
    lemma_channel_scale_monotone(spec_channel_scale(ch, d1), k, spec_channel_scale(ch, d2), k);
    lemma_channel_scale_bounds(spec_channel_scale(ch, d1), k);
    lemma_channel_scale_bounds(spec_channel_scale(ch, d2), k);
}

/// The epsilon offset along a unit-scale normal moves each coordinate by
/// at most `SURF_EPS` raw steps.
proof fn lemma_offset_bounds(normal: Vec3, hp: Vec3)
    requires
        normal.bounded_by(SCALE as int),
        hp.in_world(),
    ensures
        -SURF_EPS <= normal.x * SURF_EPS / (SCALE as int) <= SURF_EPS,
        -SURF_EPS <= normal.y * SURF_EPS / (SCALE as int) <= SURF_EPS,
        -SURF_EPS <= normal.z * SURF_EPS / (SCALE as int) <= SURF_EPS,
{
    lemma_product_bound(normal.x as int, SURF_EPS as int, SCALE as int, SURF_EPS as int);
    lemma_product_bound(normal.y as int, SURF_EPS as int, SCALE as int, SURF_EPS as int);
    lemma_product_bound(normal.z as int, SURF_EPS as int, SCALE as int, SURF_EPS as int);
    lemma_div_bound_abs(normal.x * SURF_EPS, SCALE as int, SURF_EPS as int);
    lemma_div_bound_abs(normal.y * SURF_EPS, SCALE as int, SURF_EPS as int);
    lemma_div_bound_abs(normal.z * SURF_EPS, SCALE as int, SURF_EPS as int);
}

/// The depth-attenuated reflected contribution stays in a small range.
proof fn lemma_attenuation_bounds(k: int, c: Color, depth: int)
    requires
        0 <= k <= SCALE,
        c.wf(),
        0 <= depth,
    ensures
        -SCALE <= k * c.r / ((SCALE as int) * (depth + 1)) <= SCALE,
        -SCALE <= k * c.g / ((SCALE as int) * (depth + 1)) <= SCALE,
        -SCALE <= k * c.b / ((SCALE as int) * (depth + 1)) <= SCALE,
        -SCALE <= k * c.a / ((SCALE as int) * (depth + 1)) <= SCALE,
        (SCALE as int) * (depth + 1) >= SCALE,
        -(SCALE as int) * (SCALE as int) <= k * c.r <= (SCALE as int) * (SCALE as int),
        -(SCALE as int) * (SCALE as int) <= k * c.g <= (SCALE as int) * (SCALE as int),
        -(SCALE as int) * (SCALE as int) <= k * c.b <= (SCALE as int) * (SCALE as int),
        -(SCALE as int) * (SCALE as int) <= k * c.a <= (SCALE as int) * (SCALE as int),
{
    assert((SCALE as int) * (depth + 1) >= SCALE) by (nonlinear_arith)
        requires
            depth >= 0,
            SCALE == 1_000_000,
    ;
    lemma_product_bound(k, c.r as int, SCALE as int, SCALE as int);
    lemma_product_bound(k, c.g as int, SCALE as int, SCALE as int);
    lemma_product_bound(k, c.b as int, SCALE as int, SCALE as int);
    lemma_product_bound(k, c.a as int, SCALE as int, SCALE as int);
    assert(forall|x: int|
        -(SCALE as int) * (SCALE as int) <= x <= (SCALE as int) * (SCALE as int)
            ==> -SCALE <= #[trigger] (x / ((SCALE as int) * (depth + 1))) <= SCALE) by {
        assert forall|x: int|
            -(SCALE as int) * (SCALE as int) <= x <= (SCALE as int) * (SCALE as int)
                implies -SCALE <= #[trigger] (x / ((SCALE as int) * (depth + 1))) <= SCALE by {
            assert(-((SCALE as int) * (depth + 1)) * SCALE <= x <= ((SCALE as int) * (depth + 1))
                * SCALE) by (nonlinear_arith)
                requires
                    depth >= 0,
                    SCALE == 1_000_000,
                    -(SCALE as int) * (SCALE as int) <= x <= (SCALE as int) * (SCALE as int),
            ;
            lemma_div_bound_abs(x, (SCALE as int) * (depth + 1), SCALE as int);
        }
    }
}

} // verus!
