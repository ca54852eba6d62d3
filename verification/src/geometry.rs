//! The closed set of geometry variants and the traits every placed,
//! renderable thing shares.

use vstd::prelude::*;
use crate::actor::ActorTrait;
use crate::material::MaterialType;
use crate::material::mat_wf;
use crate::plane::Plane;
use crate::plane::spec_plane_intersect;
use crate::ray::Ray;
use crate::ray::RayType;
use crate::sphere::Sphere;
use crate::sphere::spec_sphere_normal;
use crate::sphere::spec_sphere_intersect;
use crate::vec3::Vec3;

verus! {

/// What every geometry primitive offers: an intersection test and a
/// surface normal.
pub trait Geometry {
    /// The primitive's own well-formedness: what its geometry methods
    /// need of it.
    spec fn geo_wf(&self) -> bool;

    fn intersect(&self, ray: &Ray, ray_type: &RayType) -> Option<(i64, Vec3)>
        requires
            self.geo_wf(),
            ray.wf(),
    ;

    fn get_surface_normal(&self, point: &Vec3) -> Vec3
        requires
            self.geo_wf(),
            point.in_world(),
    ;
}

/// Something that both stands somewhere and has a shape.
pub trait ActorWithGeometry: Geometry + ActorTrait {

}

/// Something that carries a material.
pub trait MaterialBound {
    fn get_material(&self) -> &MaterialType;
}

/// The closed set of geometry variants, dispatched by tag.
pub enum GeometryType {
    Plane(Plane),
    Sphere(Sphere),
}

/// Intersection of a ray with either geometry variant.
pub open spec fn spec_geom_intersect(g: GeometryType, ray: Ray, rt: RayType) -> Option<
    (i64, Vec3),
> {
    match g {
        GeometryType::Plane(p) => spec_plane_intersect(p, ray, rt),
        GeometryType::Sphere(s) => spec_sphere_intersect(s, ray, rt),
    }
}

/// Surface normal of either geometry variant at a point.
pub open spec fn spec_geom_normal(g: GeometryType, point: Vec3) -> Vec3 {
    match g {
        GeometryType::Plane(p) => p.dir_actor.direction,
        GeometryType::Sphere(s) => spec_sphere_normal(s, point),
    }
}

impl GeometryType {
    /// Well-formedness of the underlying variant.
    pub open spec fn wf(self) -> bool {
        match self {
            GeometryType::Plane(p) => p.wf(),
            GeometryType::Sphere(s) => s.wf(),
        }
    }

    /// The material of the underlying variant.
    pub open spec fn spec_material(self) -> MaterialType {
        match self {
            GeometryType::Plane(p) => p.material,
            GeometryType::Sphere(s) => s.material,
        }
    }

    /// The placement position of the underlying variant.
    pub open spec fn spec_position(self) -> Vec3 {
        match self {
            GeometryType::Plane(p) => p.dir_actor.actor.position,
            GeometryType::Sphere(s) => s.actor.position,
        }
    }

    /// The nearest accepted hit of a ray with this renderable, if any.
    pub fn intersect(&self, ray: &Ray, ray_type: &RayType) -> (r: Option<(i64, Vec3)>)
        requires
            self.wf(),
            ray.wf(),
        ensures
            r == spec_geom_intersect(*self, *ray, *ray_type),
    {
        match self {
            GeometryType::Plane(p) => p.intersect(ray, ray_type),
            GeometryType::Sphere(s) => s.intersect(ray, ray_type),
        }
    }

    /// The surface normal at a point; bounded, but in general only close
    /// to unit length, so consumers normalize it defensively.
    pub fn get_surface_normal(&self, point: &Vec3) -> (n: Vec3)
        requires
            self.wf(),
            point.in_world(),
        ensures
            n == spec_geom_normal(*self, *point),
            n.bounded_by(1_000_000_000_000_000),
    {
        match self {
            GeometryType::Plane(p) => p.get_surface_normal(point),
            GeometryType::Sphere(s) => s.get_surface_normal(point),
        }
    }

    /// The material of this renderable.
    pub fn get_material(&self) -> (m: &MaterialType)
        ensures
            *m == self.spec_material(),
    {
        match self {
            GeometryType::Plane(p) => p.get_material(),
            GeometryType::Sphere(s) => s.get_material(),
        }
    }

    /// A well-formed renderable has a well-formed material.
    pub proof fn lemma_wf_material(self)
        requires
            self.wf(),
        ensures
            mat_wf(self.spec_material()),
    {
    }
}

impl Geometry for Sphere {
    open spec fn geo_wf(&self) -> bool {
        self.wf()
    }

    fn intersect(&self, ray: &Ray, ray_type: &RayType) -> (r: Option<(i64, Vec3)>)
        ensures
            r == spec_sphere_intersect(*self, *ray, *ray_type),
    {
        Sphere::intersect(self, ray, ray_type)
    }

    fn get_surface_normal(&self, point: &Vec3) -> (n: Vec3)
        ensures
            n == spec_sphere_normal(*self, *point),
    {
        Sphere::get_surface_normal(self, point)
    }
}

impl Geometry for Plane {
    open spec fn geo_wf(&self) -> bool {
        self.wf()
    }

    fn intersect(&self, ray: &Ray, ray_type: &RayType) -> (r: Option<(i64, Vec3)>)
        ensures
            r == spec_plane_intersect(*self, *ray, *ray_type),
    {
        Plane::intersect(self, ray, ray_type)
    }

    fn get_surface_normal(&self, point: &Vec3) -> (n: Vec3)
        ensures
            n == self.dir_actor.direction,
    {
        Plane::get_surface_normal(self, point)
    }
}

impl ActorWithGeometry for Sphere {

}

impl ActorWithGeometry for Plane {

}

impl ActorTrait for GeometryType {
    fn get_position(&self) -> (p: Vec3)
        ensures
            p == self.spec_position(),
    {
        match self {
            GeometryType::Plane(p) => p.dir_actor.actor.position,
            GeometryType::Sphere(s) => s.actor.position,
        }
    }
}

impl MaterialBound for Sphere {
    fn get_material(&self) -> (m: &MaterialType)
        ensures
            *m == self.material,
    {
        &self.material
    }
}

impl MaterialBound for Plane {
    fn get_material(&self) -> (m: &MaterialType)
        ensures
            *m == self.material,
    {
        &self.material
    }
}

impl MaterialBound for GeometryType {
    fn get_material(&self) -> (m: &MaterialType)
        ensures
            *m == self.spec_material(),
    {
        GeometryType::get_material(self)
    }
}

} // verus!
