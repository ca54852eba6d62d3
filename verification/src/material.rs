//! The material model: a closed set of shading stages. `Color` is a flat
//! tint, `Diffuse` a Lambertian term, `Specular` a highlight, `Reflective`
//! re-enters the scene renderer up to a per-material depth, and `Mixer`
//! threads a color through an ordered pipeline of stages.

use vstd::prelude::*;
use crate::color::Color;
use crate::math::DEPTH_CAP;
use crate::math::SCALE;

verus! {

/// A flat tint: ignores the geometry and the light entirely.
#[derive(Clone, Copy, Debug)]
pub struct ColorMaterial {
    color: Color,
}

pub trait ColorMaterialTrait {
    fn get_color(&self) -> Color;
}

impl ColorMaterial {
    pub fn new(color: Color) -> (m: ColorMaterial)
        ensures
            m.spec_color() == color,
    {
        ColorMaterial { color }
    }

    /// The stored tint, visible to specifications.
    pub closed spec fn spec_color(self) -> Color {
        self.color
    }
}

impl ColorMaterialTrait for ColorMaterial {
    fn get_color(&self) -> (c: Color)
        ensures
            c == self.spec_color(),
    {
        self.color
    }
}

/// A Lambertian stage: scales the incoming color by the (non-negative)
/// alignment of the light direction with the surface normal.
#[derive(Clone, Copy, Debug)]
pub struct DiffuseMaterial {
    diffuse: i64,
}

pub trait DiffuseMaterialTrait {
    fn get_diffuse_coef(&self) -> i64;
}

impl DiffuseMaterial {
    pub fn new(diffuse: i64) -> (m: DiffuseMaterial)
        ensures
            m.spec_diffuse() == diffuse,
    {
        DiffuseMaterial { diffuse }
    }

    pub closed spec fn spec_diffuse(self) -> i64 {
        self.diffuse
    }
}

impl DiffuseMaterialTrait for DiffuseMaterial {
    fn get_diffuse_coef(&self) -> (k: i64)
        ensures
            k == self.spec_diffuse(),
    {
        self.diffuse
    }
}

/// A highlight stage: reflects the incoming light about the normal, raises
/// its alignment with the view direction to `shininess`, and adds the
/// result scaled by the specular coefficient.
#[derive(Clone, Copy, Debug)]
pub struct SpecularMaterial {
    specular_reflection_coef: i64,
    shininess: u32,
}

pub trait SpecularMaterialTrait {
    fn get_specular_coef(&self) -> i64;
    fn get_shininess_coef(&self) -> u32;
}

impl SpecularMaterial {
    pub fn new(specular_reflection_coef: i64, shininess: u32) -> (m: SpecularMaterial)
        ensures
            m.spec_specular() == specular_reflection_coef,
            m.spec_shininess() == shininess,
    {
        SpecularMaterial { specular_reflection_coef, shininess }
    }

    pub closed spec fn spec_specular(self) -> i64 {
        self.specular_reflection_coef
    }

    pub closed spec fn spec_shininess(self) -> u32 {
        self.shininess
    }
}

impl SpecularMaterialTrait for SpecularMaterial {
    fn get_specular_coef(&self) -> (k: i64)
        ensures
            k == self.spec_specular(),
    {
        self.specular_reflection_coef
    }

    fn get_shininess_coef(&self) -> (s: u32)
        ensures
            s == self.spec_shininess(),
    {
        self.shininess
    }
}

/// A mirror stage: casts a reflected camera ray back through the scene,
/// up to its own maximum recursion depth.
#[derive(Clone, Copy, Debug)]
pub struct ReflectiveMaterial {
    reflect_coef: i64,
    max_depth: usize,
}

pub trait ReflectiveMaterialTrait {
    fn get_reflection_coef(&self) -> i64;
    fn get_max_depth(&self) -> usize;
}

impl ReflectiveMaterial {
    pub fn new(reflect_coef: i64, max_depth: usize) -> (m: ReflectiveMaterial)
        ensures
            m.spec_reflect() == reflect_coef,
            m.spec_max_depth() == max_depth,
    {
        ReflectiveMaterial { reflect_coef, max_depth }
    }

    pub closed spec fn spec_reflect(self) -> i64 {
        self.reflect_coef
    }

    pub closed spec fn spec_max_depth(self) -> usize {
        self.max_depth
    }
}

impl ReflectiveMaterialTrait for ReflectiveMaterial {
    fn get_reflection_coef(&self) -> (k: i64)
        ensures
            k == self.spec_reflect(),
    {
        self.reflect_coef
    }

    fn get_max_depth(&self) -> (d: usize)
        ensures
            d == self.spec_max_depth(),
    {
        self.max_depth
    }
}

/// An ordered pipeline of stages: each stage consumes the previous
/// stage's output color.
#[derive(Debug)]
pub struct MaterialMixer {
    pub materials: Vec<MaterialType>,
}

impl MaterialMixer {
    pub fn new() -> (m: MaterialMixer)
        ensures
            m.materials@.len() == 0,
    {
        MaterialMixer { materials: Vec::new() }
    }
}

/// The closed set of material variants, dispatched by tag.
#[derive(Debug)]
pub enum MaterialType {
    Color(ColorMaterial),
    Diffuse(DiffuseMaterial),
    Specular(SpecularMaterial),
    Reflective(ReflectiveMaterial),
    Mixer(MaterialMixer),
}

/// Well-formedness of one material: coefficients are fractions in
/// `[0, SCALE]`, recursion depths stay under the hard cap, and a mixer's
/// stages are all well formed.
pub open spec fn mat_wf(m: MaterialType) -> bool
    decreases m,
{
    match m {
        MaterialType::Color(c) => c.spec_color().wf(),
        MaterialType::Diffuse(d) => 0 <= d.spec_diffuse() <= SCALE,
        MaterialType::Specular(s) => 0 <= s.spec_specular() <= SCALE,
        MaterialType::Reflective(r) => 0 <= r.spec_reflect() <= SCALE && r.spec_max_depth()
            <= DEPTH_CAP,
        MaterialType::Mixer(mx) => mats_wf(mx.materials@),
    }
}

/// Well-formedness of a pipeline of stages.
pub open spec fn mats_wf(s: Seq<MaterialType>) -> bool
    decreases s,
{
    if s.len() == 0 {
        true
    } else {
        mat_wf(s[0]) && mats_wf(s.drop_first())
    }
}

/// Structural size of a material, used as a termination measure when
/// walking a mixer's stages.
pub open spec fn mat_size(m: MaterialType) -> nat
    decreases m,
{
    match m {
        MaterialType::Mixer(mx) => 1 + mats_size(mx.materials@),
        _ => 1,
    }
}

/// Structural size of a pipeline of stages.
pub open spec fn mats_size(s: Seq<MaterialType>) -> nat
    decreases s,
{
    if s.len() == 0 {
        0
    } else {
        1 + mat_size(s[0]) + mats_size(s.drop_first())
    }
}

/// Every stage of a well-formed pipeline is well formed, strictly smaller
/// than the pipeline, and asks for no deeper recursion.
pub proof fn lemma_mats_element(s: Seq<MaterialType>, i: int)
    requires
        0 <= i < s.len(),
    ensures
        mats_wf(s) ==> mat_wf(s[i]),
        mat_size(s[i]) < mats_size(s),
    decreases s.len(),
{
    if i == 0 {
    } else {
        lemma_mats_element(s.drop_first(), i - 1);
        assert(s.drop_first()[i - 1] == s[i]);
    }
}

} // verus!
