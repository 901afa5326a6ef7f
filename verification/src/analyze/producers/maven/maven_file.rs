//! What one descriptor declares: its coordinate, its properties, its
//! dependencies and its parent.

use crate::analyze::producers::maven::model::{MavenDependencyScope, MavenDependencyType};
use crate::analyze::producers::maven::placeholder::{
    contains_marker, has_marker, split_placeholder, substitute,
};
use crate::analyze::producers::maven::properties::Properties;
use crate::model::dependency::{
    clone_dependency_location_option, clone_text_option, dependency_location_option_view,
    get_package_url, package_url, text_option_view, Dependency, DependencyLocation, DependencyLocationView, DependencyType,
    DependencyView,
};
use crate::analyze::producers::maven::constants::DESCRIPTOR_FILE_NAME;
use crate::utils::path::{directory, directory_of, relative, relative_to, resolve, resolve_from};
use crate::utils::text::{ends_with, is_suffix, join, to_chars};
use vstd::prelude::*;

verus! {

/// The text of `s` with its first placeholder resolved against `properties`.
pub fn enrich_string_with_properties(s: &str, properties: &Properties) -> (r: String)
    ensures
        r@ == substitute(s@, properties@),
{
    match split_placeholder(s) {
        Some(m) => match properties.get(m.name.as_str()) {
            Some(value) => {
                let mut out = m.before;
                out.append(value.as_str());
                out.append(m.after.as_str());
                out
            },
            None => s.to_owned(),
        },
        None => s.to_owned(),
    }
}

/// The coordinate of a project: the key under which a descriptor is found.
#[derive(Debug)]
pub struct MavenProjectInfo {
    pub group_id: Option<String>,
    pub artifact_id: String,
    pub version: Option<String>,
}

/// What a [`MavenProjectInfo`] holds.
pub struct MavenProjectInfoView {
    pub group_id: Option<Seq<char>>,
    pub artifact_id: Seq<char>,
    pub version: Option<Seq<char>>,
}

impl View for MavenProjectInfo {
    type V = MavenProjectInfoView;

    open spec fn view(&self) -> MavenProjectInfoView {
        MavenProjectInfoView {
            group_id: text_option_view(self.group_id),
            artifact_id: self.artifact_id@,
            version: text_option_view(self.version),
        }
    }
}

impl Clone for MavenProjectInfo {
    fn clone(&self) -> (r: Self)
        ensures
            r == *self,
    {
        MavenProjectInfo {
            group_id: clone_text_option(&self.group_id),
            artifact_id: self.artifact_id.clone(),
            version: clone_text_option(&self.version),
        }
    }
}

impl Default for MavenProjectInfo {
    fn default() -> (r: Self)
        ensures
            r.group_id.is_none(),
            r@.artifact_id.len() == 0,
            r.version.is_none(),
    {
        MavenProjectInfo { group_id: None, artifact_id: String::new(), version: None }
    }
}

/// One declared dependency.
#[derive(Debug)]
pub struct MavenDependency {
    pub group_id: String,
    pub artifact_id: String,
    pub version: Option<String>,
    pub kind: Option<MavenDependencyType>,
    pub scope: Option<MavenDependencyScope>,
    pub location: Option<DependencyLocation>,
}

/// What a [`MavenDependency`] holds.
pub struct MavenDependencyView {
    pub group_id: Seq<char>,
    pub artifact_id: Seq<char>,
    pub version: Option<Seq<char>>,
    pub kind: Option<MavenDependencyType>,
    pub scope: Option<MavenDependencyScope>,
    pub location: Option<DependencyLocationView>,
}

impl View for MavenDependency {
    type V = MavenDependencyView;

    open spec fn view(&self) -> MavenDependencyView {
        MavenDependencyView {
            group_id: self.group_id@,
            artifact_id: self.artifact_id@,
            version: text_option_view(self.version),
            kind: self.kind,
            scope: self.scope,
            location: dependency_location_option_view(self.location),
        }
    }
}

impl Clone for MavenDependency {
    fn clone(&self) -> (r: Self)
        ensures
            r == *self,
    {
        MavenDependency {
            group_id: self.group_id.clone(),
            artifact_id: self.artifact_id.clone(),
            version: clone_text_option(&self.version),
            kind: self.kind,
            scope: self.scope,
            location: clone_dependency_location_option(&self.location),
        }
    }
}

/// A text that may be absent, after one substitution.
pub open spec fn substitute_option(
    text: Option<Seq<char>>,
    properties: Map<Seq<char>, Seq<char>>,
) -> Option<Seq<char>> {
    match text {
        Some(t) => Some(substitute(t, properties)),
        None => None,
    }
}

impl MavenDependencyView {
    /// The dependency with its group, its artifact and its version after one
    /// substitution each; the rest as it was.
    pub open spec fn enrich(self, properties: Map<Seq<char>, Seq<char>>) -> MavenDependencyView {
        MavenDependencyView {
            group_id: substitute(self.group_id, properties),
            artifact_id: substitute(self.artifact_id, properties),
            version: substitute_option(self.version, properties),
            kind: self.kind,
            scope: self.scope,
            location: self.location,
        }
    }

    /// The dependency can be listed: it has a version, and neither its group,
    /// its artifact nor its version still holds the opening of a placeholder.
    pub open spec fn is_valid_for_sbom(self) -> bool {
        &&& self.version matches Some(version)
        &&& !has_marker(version)
        &&& !has_marker(self.group_id)
        &&& !has_marker(self.artifact_id)
    }

    /// The name under which the dependency is listed.
    pub open spec fn name(self) -> Seq<char> {
        self.group_id + ":"@ + self.artifact_id
    }

    /// The record that lists the dependency.
    pub open spec fn to_dependency(self) -> DependencyView {
        DependencyView {
            kind: DependencyType::Library,
            name: self.name(),
            version: self.version,
            purl: package_url(self.name(), self.version),
            location: self.location,
        }
    }
}

impl MavenDependency {
    /// A dependency of the given group and artifact, with nothing else said.
    pub fn new(group_id: String, artifact_id: String) -> (r: MavenDependency)
        ensures
            r.group_id == group_id,
            r.artifact_id == artifact_id,
            r.version.is_none(),
            r.kind.is_none(),
            r.scope.is_none(),
            r.location.is_none(),
    {
        MavenDependency {
            group_id,
            artifact_id,
            version: None,
            kind: None,
            scope: None,
            location: None,
        }
    }

    /// The dependency with its first placeholders resolved against
    /// `properties`, in the group, the artifact and the version.
    pub fn enrich(&self, properties: &Properties) -> (r: MavenDependency)
        ensures
            r@ == self@.enrich(properties@),
    {
        MavenDependency {
            group_id: enrich_string_with_properties(self.group_id.as_str(), properties),
            artifact_id: enrich_string_with_properties(self.artifact_id.as_str(), properties),
            version: match &self.version {
                Some(version) => Some(enrich_string_with_properties(version.as_str(), properties)),
                None => None,
            },
            kind: self.kind,
            scope: self.scope,
            location: clone_dependency_location_option(&self.location),
        }
    }

    /// Whether the dependency can be listed.
    pub fn is_valid_for_sbom(&self) -> (r: bool)
        ensures
            r == self@.is_valid_for_sbom(),
    {
        match &self.version {
            Some(version) => !contains_marker(version.as_str()) && !contains_marker(
                self.group_id.as_str(),
            ) && !contains_marker(self.artifact_id.as_str()),
            None => false,
        }
    }

    /// The record that lists the dependency: its name is the group and the
    /// artifact with a colon between them, its package URL that of the name
    /// and the version.
    pub fn to_dependency(&self) -> (r: Dependency)
        ensures
            r@ == self@.to_dependency(),
    {
        let mut name = join(self.group_id.as_str(), ":");
        name.append(self.artifact_id.as_str());
        let purl = get_package_url(name.as_str(), &self.version);
        Dependency {
            kind: DependencyType::Library,
            name,
            version: clone_text_option(&self.version),
            purl,
            location: clone_dependency_location_option(&self.location),
        }
    }
}

impl From<&MavenDependency> for Dependency {
    /// The record that lists the dependency.
    fn from(value: &MavenDependency) -> (r: Dependency)
        ensures
            r@ == value@.to_dependency(),
    {
        value.to_dependency()
    }
}

impl vstd::std_specs::convert::FromSpecImpl<&MavenDependency> for Dependency {
    open spec fn obeys_from_spec() -> bool {
        false
    }

    open spec fn from_spec(v: &MavenDependency) -> Dependency {
        arbitrary()
    }
}

/// How a descriptor names its parent.
#[derive(Debug)]
pub struct MavenFileParent {
    pub relative_path: Option<String>,
    pub group_id: Option<String>,
    pub artifact_id: Option<String>,
    pub version: Option<String>,
}

/// What a [`MavenFileParent`] holds.
pub struct MavenFileParentView {
    pub relative_path: Option<Seq<char>>,
    pub group_id: Option<Seq<char>>,
    pub artifact_id: Option<Seq<char>>,
    pub version: Option<Seq<char>>,
}

impl MavenFileParentView {
    /// A parent is named by a relative path alone, by a whole coordinate
    /// alone, or by both.
    pub open spec fn wf(self) -> bool {
        let whole = self.group_id.is_some() && self.artifact_id.is_some() && self.version.is_some();
        let none = self.group_id.is_none() && self.artifact_id.is_none() && self.version.is_none();
        (self.relative_path.is_some() && (none || whole)) || (self.relative_path.is_none()
            && whole)
    }

    /// The coordinate under which the parent is looked for, where the
    /// reference gives one.
    pub open spec fn coordinate(self) -> Option<MavenProjectInfoView> {
        match (self.group_id, self.artifact_id, self.version) {
            (Some(group_id), Some(artifact_id), Some(version)) => Some(
                MavenProjectInfoView {
                    group_id: Some(group_id),
                    artifact_id,
                    version: Some(version),
                },
            ),
            _ => None,
        }
    }
}

impl View for MavenFileParent {
    type V = MavenFileParentView;

    open spec fn view(&self) -> MavenFileParentView {
        MavenFileParentView {
            relative_path: text_option_view(self.relative_path),
            group_id: text_option_view(self.group_id),
            artifact_id: text_option_view(self.artifact_id),
            version: text_option_view(self.version),
        }
    }
}

impl Clone for MavenFileParent {
    fn clone(&self) -> (r: Self)
        ensures
            r == *self,
    {
        MavenFileParent {
            relative_path: clone_text_option(&self.relative_path),
            group_id: clone_text_option(&self.group_id),
            artifact_id: clone_text_option(&self.artifact_id),
            version: clone_text_option(&self.version),
        }
    }
}

impl Default for MavenFileParent {
    fn default() -> (r: Self)
        ensures
            r.relative_path.is_none(),
            r.group_id.is_none(),
            r.artifact_id.is_none(),
            r.version.is_none(),
    {
        MavenFileParent { relative_path: None, group_id: None, artifact_id: None, version: None }
    }
}

/// The views of a list of dependencies, in order.
pub open spec fn dependencies_view(dependencies: Seq<MavenDependency>) -> Seq<MavenDependencyView> {
    dependencies.map_values(|d: MavenDependency| d@)
}

/// A copy of a list of dependencies.
pub fn clone_dependencies(dependencies: &Vec<MavenDependency>) -> (r: Vec<MavenDependency>)
    ensures
        r@ == dependencies@,
{
    let mut out: Vec<MavenDependency> = Vec::new();
    let mut i: usize = 0;
    while i < dependencies.len()
        invariant
            i <= dependencies@.len(),
            out@ == dependencies@.take(i as int),
        decreases dependencies@.len() - i,
    {
        out.push(dependencies[i].clone());
        proof {
            assert(dependencies@.take(i + 1) == dependencies@.take(i as int).push(
                dependencies@[i as int],
            ));
        }
        i += 1;
    }
    proof {
        assert(dependencies@.take(dependencies@.len() as int) == dependencies@);
    }
    out
}

/// The view of a parent reference that may be absent.
pub open spec fn parent_option_view(parent: Option<MavenFileParent>) -> Option<MavenFileParentView> {
    match parent {
        Some(p) => Some(p@),
        None => None,
    }
}

/// One descriptor, as it was read.
#[derive(Debug)]
pub struct MavenFile {
    /// The coordinate of the project.
    pub project_info: MavenProjectInfo,
    /// Where the descriptor lies.
    pub path: String,
    /// The properties the descriptor declares itself.
    pub properties: Properties,
    /// The dependencies it manages for its descendants, in the order declared.
    pub dependency_management: Vec<MavenDependency>,
    /// The dependencies it declares, in the order declared.
    pub dependencies: Vec<MavenDependency>,
    /// How it names its parent, if it names one.
    pub parent: Option<MavenFileParent>,
    /// Where the relative path of the parent reference leads, as seen from
    /// the base directory; absent until it was located, and where it leads
    /// nowhere.
    pub parent_path: Option<String>,
}

/// What a [`MavenFile`] holds.
pub struct MavenFileView {
    pub project_info: MavenProjectInfoView,
    pub path: Seq<char>,
    pub properties: Map<Seq<char>, Seq<char>>,
    pub dependency_management: Seq<MavenDependencyView>,
    pub dependencies: Seq<MavenDependencyView>,
    pub parent: Option<MavenFileParentView>,
    pub parent_path: Option<Seq<char>>,
}

impl View for MavenFile {
    type V = MavenFileView;

    open spec fn view(&self) -> MavenFileView {
        MavenFileView {
            project_info: self.project_info@,
            path: self.path@,
            properties: self.properties@,
            dependency_management: dependencies_view(self.dependency_management@),
            dependencies: dependencies_view(self.dependencies@),
            parent: parent_option_view(self.parent),
            parent_path: text_option_view(self.parent_path),
        }
    }
}

impl Clone for MavenFile {
    fn clone(&self) -> (r: Self)
        ensures
            r@ == self@,
    {
        MavenFile {
            project_info: self.project_info.clone(),
            path: self.path.clone(),
            properties: self.properties.clone(),
            dependency_management: clone_dependencies(&self.dependency_management),
            dependencies: clone_dependencies(&self.dependencies),
            parent: match &self.parent {
                Some(p) => Some(p.clone()),
                None => None,
            },
            parent_path: clone_text_option(&self.parent_path),
        }
    }
}

impl Default for MavenFile {
    fn default() -> (r: Self)
        ensures
            r@.properties == Map::<Seq<char>, Seq<char>>::empty(),
            r@.dependency_management.len() == 0,
            r@.dependencies.len() == 0,
            r@.parent.is_none(),
            r@.parent_path.is_none(),
            r@.path.len() == 0,
    {
        MavenFile {
            project_info: MavenProjectInfo::default(),
            path: String::new(),
            properties: Properties::new(),
            dependency_management: Vec::new(),
            dependencies: Vec::new(),
            parent: None,
            parent_path: None,
        }
    }
}

/// Where a parent descriptor lies, as seen from the base directory: the place
/// that the relative path leads to, and in it the descriptor's file where the
/// relative path does not name that file itself. `None` where the place does
/// not lie under the base directory.
pub open spec fn parent_key(relative_path: Seq<char>, target: Seq<char>, base: Seq<char>) -> Option<
    Seq<char>,
> {
    match relative_to(target, base) {
        Some(rel) => Some(
            if is_suffix(relative_path, DESCRIPTOR_FILE_NAME@) {
                rel
            } else {
                resolve_from(rel, DESCRIPTOR_FILE_NAME@)
            },
        ),
        None => None,
    }
}

impl MavenFileView {
    /// The relative path by which the descriptor names its parent.
    pub open spec fn relative_parent_path(self) -> Option<Seq<char>> {
        match self.parent {
            Some(parent) => parent.relative_path,
            None => None,
        }
    }

    /// The path that the parent reference leads to, as it is written: the
    /// relative path seen from the directory of the descriptor.
    pub open spec fn parent_target(self) -> Option<Seq<char>> {
        match self.relative_parent_path() {
            Some(relative_path) => Some(resolve_from(directory_of(self.path), relative_path)),
            None => None,
        }
    }

    /// The descriptor with its parent located: `canonical_target` is the
    /// canonical form of [`Self::parent_target`], `canonical_base` that of the
    /// base directory.
    pub open spec fn with_parent_at(
        self,
        canonical_target: Seq<char>,
        canonical_base: Seq<char>,
    ) -> MavenFileView {
        MavenFileView {
            parent_path: match self.relative_parent_path() {
                Some(relative_path) => parent_key(relative_path, canonical_target, canonical_base),
                None => None,
            },
            ..self
        }
    }

    /// The path under which the parent is looked for: the located path, where
    /// the descriptor names its parent by a relative path.
    pub open spec fn parent_file_path(self) -> Option<Seq<char>> {
        match self.relative_parent_path() {
            Some(_) => self.parent_path,
            None => None,
        }
    }

    /// The coordinate under which the parent is looked for.
    pub open spec fn parent_coordinate(self) -> Option<MavenProjectInfoView> {
        match self.parent {
            Some(parent) => parent.coordinate(),
            None => None,
        }
    }
}

impl MavenFile {
    /// The path that the parent reference leads to, as it is written. Its
    /// canonical form is what [`MavenFile::with_parent_at`] takes.
    pub fn parent_target(&self) -> (r: Option<String>)
        ensures
            text_option_view(r) == self@.parent_target(),
    {
        match &self.parent {
            Some(parent) => match &parent.relative_path {
                Some(relative_path) => {
                    let dir = directory(self.path.as_str());
                    Some(resolve(dir.as_str(), relative_path.as_str()))
                },
                None => None,
            },
            None => None,
        }
    }

    /// The descriptor with its parent located on disk.
    pub fn with_parent_at(self, canonical_target: &str, canonical_base: &str) -> (r: MavenFile)
        ensures
            r@ == self@.with_parent_at(canonical_target@, canonical_base@),
    {
        let parent_path = match &self.parent {
            Some(parent) => match &parent.relative_path {
                Some(relative_path) => get_parent_key(
                    relative_path.as_str(),
                    canonical_target,
                    canonical_base,
                ),
                None => None,
            },
            None => None,
        };
        MavenFile { parent_path, ..self }
    }

    /// The path under which the parent is looked for.
    pub fn get_parent_file_path(&self) -> (r: Option<&String>)
        ensures
            match r {
                Some(path) => self@.parent_file_path() == Some(path@),
                None => self@.parent_file_path().is_none(),
            },
    {
        match &self.parent {
            Some(parent) => match &parent.relative_path {
                Some(_) => match &self.parent_path {
                    Some(path) => Some(path),
                    None => None,
                },
                None => None,
            },
            None => None,
        }
    }
}

/// Where a parent descriptor lies, as seen from the base directory.
pub fn get_parent_key(relative_path: &str, target: &str, base: &str) -> (r: Option<String>)
    ensures
        text_option_view(r) == parent_key(relative_path@, target@, base@),
{
    match relative(target, base) {
        Some(rel) => {
            let name = to_chars(DESCRIPTOR_FILE_NAME);
            let written = to_chars(relative_path);
            if ends_with(&written, &name) {
                Some(rel)
            } else {
                Some(resolve(rel.as_str(), DESCRIPTOR_FILE_NAME))
            }
        },
        None => None,
    }
}

} // verus!
