//! The physics of one frame: integration, bones, lines, joints.

pub mod advance_frame;
pub mod bone_physics;
pub mod entity_physics;
pub mod line_physics;
