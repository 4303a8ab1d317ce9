//! What a surface does with a ray that reaches it: the decisions of the
//! diffuse, metal and glass materials, and the orientation of the normal.
use vstd::prelude::*;
use crate::key::ONE;

verus! {

/// Key of `1e-8`, below which a direction component counts as zero.
pub const NEAR_ZERO: i64 = 0x3e45_798e_e230_8c3a;

/// True when every component key lies strictly inside `(-NEAR_ZERO, NEAR_ZERO)`.
pub open spec fn near_zero(x: int, y: int, z: int) -> bool {
    &&& -NEAR_ZERO < x < NEAR_ZERO
    &&& -NEAR_ZERO < y < NEAR_ZERO
    &&& -NEAR_ZERO < z < NEAR_ZERO
}

/// Whether a direction with component keys `x`, `y`, `z` is too short to
/// scatter along; a diffuse surface then scatters along its normal instead.
pub fn is_near_zero(x: i64, y: i64, z: i64) -> (r: bool)
    ensures
        r == near_zero(x as int, y as int, z as int),
{
    -NEAR_ZERO < x && x < NEAR_ZERO && -NEAR_ZERO < y && y < NEAR_ZERO && -NEAR_ZERO < z && z
        < NEAR_ZERO
}

/// Whether a ray meets the front face of a surface, given the key of the dot
/// product of its direction with the outward normal. On the back face the
/// normal handed on is the negated outward normal.
pub fn faces_front(dot: i64) -> (r: bool)
    ensures
        r == (dot < 0),
{
    dot < 0
}

/// Key of the dot product of the ray direction with the normal handed on,
/// from the key `dot` of its dot product with the outward normal: negating
/// the normal negates the product and so its key.
pub open spec fn facing_dot(dot: int) -> int {
    if dot < 0 {
        dot
    } else {
        -dot
    }
}

/// The normal handed on with a hit never points along the ray.
pub proof fn lemma_normal_faces_ray(dot: int)
    ensures
        facing_dot(dot) <= 0,
{
}

/// Whether a metal surface keeps its reflected ray, given the key of the dot
/// product of that ray with the normal: a ray that does not leave the surface
/// is absorbed.
pub fn metal_scatters(dot: i64) -> (r: bool)
    ensures
        r == (dot > 0),
{
    dot > 0
}

/// What a glass surface does with a ray.
#[derive(Clone, Copy, Debug, PartialEq, Eq, Structural)]
pub enum Glass {
    Reflect,
    Refract,
}

/// True when refraction is impossible: `bend` is the key of the refraction
/// ratio times the sine of the angle of incidence, and it exceeds one.
pub open spec fn total_internal_reflection(bend: int) -> bool {
    bend > ONE
}

/// The glass decision: reflect under total internal reflection, else reflect
/// when the reflectance exceeds the uniform draw, else refract.
pub open spec fn glass(bend: int, reflectance: int, draw: int) -> Glass {
    if total_internal_reflection(bend) || reflectance > draw {
        Glass::Reflect
    } else {
        Glass::Refract
    }
}

/// Whether the glass decision for `bend` depends on a random draw.
pub fn glass_needs_draw(bend: i64) -> (r: bool)
    ensures
        r == !total_internal_reflection(bend as int),
{
    bend <= ONE
}

/// What a glass surface does, from the keys of the bend, of the reflectance
/// and of the uniform draw (which is ignored when refraction is impossible).
pub fn glass_bounce(bend: i64, reflectance: i64, draw: i64) -> (r: Glass)
    ensures
        r == glass(bend as int, reflectance as int, draw as int),
{
    if bend > ONE || reflectance > draw {
        Glass::Reflect
    } else {
        Glass::Refract
    }
}

/// Under total internal reflection glass reflects, whatever the draw.
pub proof fn lemma_total_internal_reflection_reflects(bend: int, reflectance: int, draw: int)
    requires
        total_internal_reflection(bend),
    ensures
        glass(bend, reflectance, draw) == Glass::Reflect,
{
}

/// Whether a point drawn in the cube `[-1, 1)^3` (or the square, for a disk)
/// is kept by rejection sampling, given the key of its squared length.
pub fn inside_unit(length_squared: i64) -> (r: bool)
    ensures
        r == (length_squared < ONE),
{
    length_squared < ONE
}

} // verus!
