//! The words of a descriptor that the library knows.

use vstd::prelude::*;

verus! {

/// The tag that holds an artifact's name.
pub const ARTIFACT_ID: &'static str = "artifactId";

/// The tag that holds a group's name.
pub const GROUP_ID: &'static str = "groupId";

/// The tag that holds a version.
pub const VERSION: &'static str = "version";

/// The tag that holds a scope.
pub const SCOPE: &'static str = "scope";

/// The tag that holds a type.
pub const TYPE: &'static str = "type";

/// The tag that holds the path that leads to a parent.
pub const RELATIVE_PATH: &'static str = "relativePath";

/// The property that stands for a project's own version.
pub const PROJECT_VERSION: &'static str = "project.version";

/// The name a descriptor's file has by convention.
pub const DESCRIPTOR_FILE_NAME: &'static str = "pom.xml";

} // verus!
