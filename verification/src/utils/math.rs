//! Distances and contact between spheres.

use vstd::prelude::*;
use crate::utils::fixed::{sat_add, Fixed};
use crate::utils::vector::{v_add, v_length, v_normalized, v_scale, v_sub, Vec3};

verus! {

/// Distance between two centres.
pub fn calculate_distance(pos1: Vec3, pos2: Vec3) -> (r: Fixed)
    ensures
        r@ == v_length(v_sub(pos2@, pos1@)),
{
    pos2.sub(pos1).length()
}

/// Whether two spheres overlap: their centres are closer than the sum of
/// their radii.
pub fn are_particles_colliding(pos1: Vec3, radius1: Fixed, pos2: Vec3, radius2: Fixed) -> (r: bool)
    ensures
        r == (v_length(v_sub(pos2@, pos1@)) < sat_add(radius1@, radius2@)),
{
    calculate_distance(pos1, pos2).lt(radius1.add(radius2))
}

/// The point on the surface of the first sphere that faces the centre of
/// the second. The radius of the second sphere plays no part.
pub fn calculate_contact_point(pos1: Vec3, radius1: Fixed, pos2: Vec3, radius2: Fixed) -> (r: Vec3)
    ensures
        r@ == v_add(pos1@, v_scale(v_normalized(v_sub(pos2@, pos1@)), radius1@)),
{
    let direction = pos2.sub(pos1).normalize();
    pos1.add(direction.scale(radius1))
}

} // verus!
