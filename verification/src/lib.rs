//! Line boil: the hand-drawn "boiling line" look, produced by jittering vertices
//! at a fixed frame rate.
//!
//! A [`settings::LineBoil`] marker placed on a node of a [`scene::Scene`] asks for
//! the effect on every mesh beneath that node. Once per frame the stages of
//! [`plugin::LineBoilPlugin`] walk the marked subtrees, replace each base material
//! by a composed material that carries the marker's settings, drop base material
//! references that reappear on nodes already converted, and stamp the elapsed
//! time into every composed material.

pub mod cleanup;
pub mod descent;
pub mod laws;
pub mod materials;
pub mod model;
pub mod plugin;
pub mod runs;
pub mod scene;
pub mod settings;
pub mod time;
pub mod traversal;

