//! Verified kernel of a 2D rope-swinging prototype: given two world-space
//! attachment points, synthesize a chain of rigid segments and ball joints
//! that tiles the straight line between them, pick the nearest of a set of
//! fixed anchors, and drive the attach/detach lifecycle from trigger edges.
//!
//! World coordinates are integers (the host chooses the unit scale); the
//! physics engine that owns the actual rigid bodies is driven by the host,
//! which executes the actions this kernel decides on.

pub mod chain;
pub mod geometry;
pub mod lifecycle;
pub mod selector;
