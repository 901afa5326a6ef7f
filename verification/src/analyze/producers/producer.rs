//! What every producer of dependencies offers.

use crate::model::dependency::Dependency;
use vstd::prelude::*;

verus! {

/// What a producer is told about the run.
pub struct SbomProducerConfiguration {
    /// Whether to report progress.
    pub use_debug: bool,
    /// The directory that all paths of the run are seen from.
    pub base_path: String,
}

/// A producer of dependencies: it picks the files it reads, and finds the
/// dependencies that the descriptors read from them declare.
pub trait SbomProducer {
    /// What the producer reads a file into.
    type Descriptor;

    /// Whether the file at `path` is one the producer reads.
    fn use_file(&self, path: &str, configuration: &SbomProducerConfiguration) -> bool;

    /// The dependencies that the descriptors declare, in the order of the
    /// descriptors.
    fn find_dependencies(
        &self,
        descriptors: &Vec<Self::Descriptor>,
        configuration: &SbomProducerConfiguration,
    ) -> Vec<Dependency>;
}

} // verus!
