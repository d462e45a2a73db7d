//! Numbers, vectors and small geometric helpers.

pub mod fixed;
pub mod math;
pub mod quaternion;
pub mod trig;
pub mod vector;
