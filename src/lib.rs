//! A verified core for turning an editing timeline into rendered frames and
//! audio: the composition model, timeline resolution, keyframe evaluation,
//! frame compositing with effects and transitions, audio mixing, validation,
//! and the life cycle of render jobs.
//!
//! Decoding, encoding, files and the user interface stay outside: the
//! library says which frames and sample windows a step needs, and computes
//! the step from the decoded values it is handed.
use vstd::prelude::*;

pub mod catalog;
pub mod compositor;
pub mod error;
pub mod filters;
pub mod keyframe;
pub mod media;
pub mod mixer;
pub mod model;
pub mod project;
pub mod render;
pub mod scene;
pub mod timeline;

pub use error::Error;

verus! {

} // verus!
