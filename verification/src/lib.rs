//! Effective dependency sets of Maven project descriptors.
//!
//! A descriptor is read into a [`analyze::producers::maven::maven_file::MavenFile`],
//! registered in a [`analyze::producers::maven::context::MavenProducerContext`],
//! and resolved against its ancestors into the dependencies that are concrete
//! enough to be listed in a bill of materials.

pub mod analyze;
pub mod model;
pub mod sbom;
pub mod utils;
