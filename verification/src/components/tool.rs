//! The rigid manipulator that pushes particles around.

use vstd::prelude::*;
use crate::utils::quaternion::{lemma_identity_is_unit, near_unit, q_identity, Quat, Q4};
use crate::utils::vector::{v_zero, Vec3, V3};

verus! {

/// The mathematical content of a tool, in raw units.
pub struct ToolModel {
    pub position: V3,
    pub rotation: Q4,
    pub velocity: V3,
    pub forces: V3,
    pub torque: V3,
}

/// A box-shaped rigid body moved by the operator.
#[derive(Clone, Copy, Debug, PartialEq, Eq, Structural)]
pub struct Tool {
    /// Centre of the box.
    pub position: Vec3,
    /// Orientation of the box.
    pub rotation: Quat,
    /// Velocity against which contact damping is measured.
    pub velocity: Vec3,
    /// Load from all contacting particles, rebuilt on every contact pass.
    pub forces: Vec3,
    /// Moment of that load about the centre, rebuilt likewise.
    pub torque: Vec3,
}

impl View for Tool {
    type V = ToolModel;

    open spec fn view(&self) -> ToolModel {
        ToolModel {
            position: self.position@,
            rotation: self.rotation@,
            velocity: self.velocity@,
            forces: self.forces@,
            torque: self.torque@,
        }
    }
}

impl Tool {
    /// A tool at rest at `position`, unrotated and unloaded.
    pub fn new(position: Vec3) -> (r: Tool)
        ensures
            r@ == (ToolModel {
                position: position@,
                rotation: q_identity(),
                velocity: v_zero(),
                forces: v_zero(),
                torque: v_zero(),
            }),
            near_unit(r@.rotation),
    {
        proof {
            lemma_identity_is_unit();
        }
        Tool {
            position,
            rotation: Quat::identity(),
            velocity: Vec3::zero(),
            forces: Vec3::zero(),
            torque: Vec3::zero(),
        }
    }
}

} // verus!
