//! Input-action suppression and scene-hierarchy utilities.
//!
//! - [`freeze`]: a reference-counted counter that nested callers use to suppress input.
//! - [`actions`]: the action catalog, its binding tables, and the per-frame suppression pass.
//! - [`vector`]: vectors whose components are IEEE-754 single-precision bit patterns,
//!   with dead-zone tests and axis-plane projections.
//! - [`hierarchy`]: discovery of mesh-bearing descendants in a scene tree.

use vstd::prelude::*;

pub mod actions;
pub mod freeze;
pub mod hierarchy;
pub mod vector;

verus! {

} // verus!
