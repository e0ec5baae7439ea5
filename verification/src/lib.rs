//! Renders deployment resource templates for the deployable steps of a
//! delivery pipeline document.
//!
//! The document lists ordered steps; a step whose process tag is one of the
//! two recognized microservice values and which carries a configuration is
//! deployable. Its configuration holds exactly one environment mapping, whose
//! values get a build-version token substituted, and that mapping drives the
//! rendering of every template file of a source directory into a per-step
//! output directory.

pub mod driver;
pub mod model;
pub mod render;
pub mod resolve;
pub mod select;
pub mod text;
