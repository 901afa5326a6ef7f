//! Reading a descriptor: from the matches of the structural queries to a
//! [`MavenFile`].

use crate::analyze::producers::maven::constants::{
    ARTIFACT_ID, GROUP_ID, PROJECT_VERSION, RELATIVE_PATH, SCOPE, TYPE, VERSION,
};
use crate::analyze::producers::maven::maven_file::{
    MavenDependency, MavenDependencyView, MavenFile, MavenFileParent, MavenFileParentView,
    MavenFileView, MavenProjectInfo, MavenProjectInfoView, dependencies_view,
    parent_option_view,
};
use crate::analyze::producers::maven::model::{MavenDependencyScope, MavenDependencyType};
use crate::analyze::producers::maven::properties::Properties;
use crate::analyze::producers::maven::query::{
    matches_view, run_query, xml_matches, Capture, CaptureView, QueryMatch,
    TREE_SITTER_PARENT_INFORMATION, TREE_SITTER_PROJECT_METADATA,
    TREE_SITTER_PROJECT_PROPERTIES, TREE_SITTER_QUERY_DEPENDENCIES,
    TREE_SITTER_QUERY_DEPENDENCY_MANAGEMENT,
};
use crate::model::dependency::{
    dependency_location_option_view, text_option_view, DependencyLocation,
    DependencyLocationView,
};
use crate::model::location::{location_option_view, Location, LocationView};
use crate::model::position::{get_position_in_string, position_of};
use crate::utils::text::{lowercase_of, same_text};
use vstd::prelude::*;
use vstd::string::StringSliceAdditionalSpecFns;

verus! {

/// Why a descriptor could not be read.
#[derive(Clone, Copy, Debug, PartialEq, Eq, Structural)]
pub enum ParseError {
    /// The content gave no tree to query.
    MalformedContent,
    /// The project names no artifact.
    MissingIdentity,
}

/// The slot of the key in a match of the query for the project's identity.
pub const METADATA_KEY: usize = 1;

/// The slot of the key in a match of the query for the properties, and of
/// that for the parent reference.
pub const ENTRY_KEY: usize = 2;

/// The slot that a dependency's child tags fill.
pub const DEPENDENCY_TAG: u32 = 3;

/// The slot that a dependency's whole element fills.
pub const DEPENDENCY_ELEMENT: u32 = 5;

/// The slot that a managed dependency's child tags fill.
pub const MANAGED_TAG: u32 = 4;

/// The slot that a managed dependency's whole element fills.
pub const MANAGED_ELEMENT: u32 = 6;

/// The text that a match binds to `key`: the text of the capture behind the
/// one at `at`, where that one reads `key`.
pub open spec fn keyed_value(captures: Seq<CaptureView>, at: int, key: Seq<char>) -> Option<
    Seq<char>,
> {
    if 0 <= at && at + 1 < captures.len() && captures[at].text == key {
        Some(captures[at + 1].text)
    } else {
        None
    }
}

/// The text that the last of the matches which bind `key` binds to it.
pub open spec fn last_value(matches: Seq<Seq<CaptureView>>, at: int, key: Seq<char>) -> Option<
    Seq<char>,
>
    decreases matches.len(),
{
    if matches.len() == 0 {
        None
    } else {
        match keyed_value(matches.last(), at, key) {
            Some(value) => Some(value),
            None => last_value(matches.drop_last(), at, key),
        }
    }
}

/// The coordinate that the matches of the identity query give; none where
/// they name no artifact.
pub open spec fn project_info_of(metadata: Seq<Seq<CaptureView>>) -> Option<MavenProjectInfoView> {
    match last_value(metadata, METADATA_KEY as int, ARTIFACT_ID@) {
        Some(artifact_id) => Some(
            MavenProjectInfoView {
                group_id: last_value(metadata, METADATA_KEY as int, GROUP_ID@),
                artifact_id,
                version: last_value(metadata, METADATA_KEY as int, VERSION@),
            },
        ),
        None => None,
    }
}

/// `initial` with the binding of every match, in order: the text at `at`
/// bound to the text behind it.
pub open spec fn with_bindings(
    initial: Map<Seq<char>, Seq<char>>,
    matches: Seq<Seq<CaptureView>>,
    at: int,
) -> Map<Seq<char>, Seq<char>>
    decreases matches.len(),
{
    if matches.len() == 0 {
        initial
    } else {
        let before = with_bindings(initial, matches.drop_last(), at);
        let captures = matches.last();
        if 0 <= at && at + 1 < captures.len() {
            before.insert(captures[at].text, captures[at + 1].text)
        } else {
            before
        }
    }
}

/// The properties that a descriptor declares: its own version under
/// `project.version`, where it has one, and then each declared property.
pub open spec fn variables_of(
    metadata: Seq<Seq<CaptureView>>,
    properties: Seq<Seq<CaptureView>>,
) -> Map<Seq<char>, Seq<char>> {
    let initial = match last_value(metadata, METADATA_KEY as int, VERSION@) {
        Some(version) => Map::<Seq<char>, Seq<char>>::empty().insert(PROJECT_VERSION@, version),
        None => Map::<Seq<char>, Seq<char>>::empty(),
    };
    with_bindings(initial, properties, ENTRY_KEY as int)
}

/// The parent reference that the matches of the parent query give: none
/// unless it has one of the three shapes of a reference.
pub open spec fn parent_of(matches: Seq<Seq<CaptureView>>) -> Option<MavenFileParentView> {
    let parent = MavenFileParentView {
        relative_path: last_value(matches, ENTRY_KEY as int, RELATIVE_PATH@),
        group_id: last_value(matches, ENTRY_KEY as int, GROUP_ID@),
        artifact_id: last_value(matches, ENTRY_KEY as int, ARTIFACT_ID@),
        version: last_value(matches, ENTRY_KEY as int, VERSION@),
    };
    if parent.wf() {
        Some(parent)
    } else {
        None
    }
}

/// The capture that holds the value of the child tag `tag`: the one behind
/// the last capture before `upto` that fills `slot` and reads `tag`.
pub open spec fn tagged(captures: Seq<CaptureView>, slot: u32, tag: Seq<char>, upto: int) -> Option<
    CaptureView,
>
    decreases upto,
{
    if upto <= 0 {
        None
    } else if upto < captures.len() && captures[upto - 1].index == slot && captures[upto - 1].text
        == tag {
        Some(captures[upto])
    } else {
        tagged(captures, slot, tag, upto - 1)
    }
}

/// The capture that holds the value of the child tag `tag` of a dependency.
pub open spec fn tag_value(captures: Seq<CaptureView>, slot: u32, tag: Seq<char>) -> Option<
    CaptureView,
> {
    tagged(captures, slot, tag, captures.len() - 1)
}

/// The first capture from `from` on that fills `slot`.
pub open spec fn first_in_slot(captures: Seq<CaptureView>, slot: u32, from: int) -> Option<
    CaptureView,
>
    decreases captures.len() - from,
{
    if from < 0 || from >= captures.len() {
        None
    } else if captures[from].index == slot {
        Some(captures[from])
    } else {
        first_in_slot(captures, slot, from + 1)
    }
}

/// The location of a span of the content; none where its start or its end has
/// no position.
pub open spec fn span_location(path: Seq<char>, bytes: Seq<u8>, start: int, end: int) -> Option<
    LocationView,
> {
    match (position_of(bytes, start), position_of(bytes, end)) {
        (Ok(start), Ok(end)) => Some(LocationView { file: path, start, end }),
        _ => None,
    }
}

/// The location of a capture that may be absent.
pub open spec fn capture_location(path: Seq<char>, bytes: Seq<u8>, capture: Option<CaptureView>) -> Option<
    LocationView,
> {
    match capture {
        Some(c) => span_location(path, bytes, c.start_byte as int, c.end_byte as int),
        None => None,
    }
}

/// The text of a capture that may be absent.
pub open spec fn capture_text(capture: Option<CaptureView>) -> Option<Seq<char>> {
    match capture {
        Some(c) => Some(c.text),
        None => None,
    }
}

/// Where the children of a dependency are found in a match, and whether its
/// type is read.
pub struct DependencySlots {
    pub tag: u32,
    pub element: u32,
    pub with_type: bool,
}

/// Where a dependency is declared: the span of its element, of its artifact
/// and of its version; none where the element or the artifact has no location.
pub open spec fn dependency_location_of(
    captures: Seq<CaptureView>,
    path: Seq<char>,
    bytes: Seq<u8>,
    slots: DependencySlots,
) -> Option<DependencyLocationView> {
    let block = capture_location(path, bytes, first_in_slot(captures, slots.element, 0));
    let name = capture_location(path, bytes, tag_value(captures, slots.tag, ARTIFACT_ID@));
    let version = capture_location(path, bytes, tag_value(captures, slots.tag, VERSION@));
    match (block, name) {
        (Some(block), Some(name)) => Some(DependencyLocationView { block, name, version }),
        _ => None,
    }
}

/// The scope that a capture names.
pub open spec fn scope_of(capture: Option<CaptureView>) -> Option<MavenDependencyScope> {
    match capture {
        Some(c) => MavenDependencyScope::named(lowercase_of(c.text)),
        None => None,
    }
}

/// The type that a capture names.
pub open spec fn type_of(capture: Option<CaptureView>) -> Option<MavenDependencyType> {
    match capture {
        Some(c) => MavenDependencyType::named(lowercase_of(c.text)),
        None => None,
    }
}

/// The dependency that one match declares; none where it names no group or no
/// artifact.
pub open spec fn dependency_of(
    captures: Seq<CaptureView>,
    path: Seq<char>,
    bytes: Seq<u8>,
    slots: DependencySlots,
) -> Option<MavenDependencyView> {
    match (
        tag_value(captures, slots.tag, GROUP_ID@),
        tag_value(captures, slots.tag, ARTIFACT_ID@),
    ) {
        (Some(group), Some(artifact)) => Some(
            MavenDependencyView {
                group_id: group.text,
                artifact_id: artifact.text,
                version: capture_text(tag_value(captures, slots.tag, VERSION@)),
                kind: if slots.with_type {
                    type_of(tag_value(captures, slots.tag, TYPE@))
                } else {
                    None
                },
                scope: scope_of(tag_value(captures, slots.tag, SCOPE@)),
                location: dependency_location_of(captures, path, bytes, slots),
            },
        ),
        _ => None,
    }
}

/// The dependencies that the matches declare, in order.
pub open spec fn dependencies_of(
    matches: Seq<Seq<CaptureView>>,
    path: Seq<char>,
    bytes: Seq<u8>,
    slots: DependencySlots,
) -> Seq<MavenDependencyView>
    decreases matches.len(),
{
    if matches.len() == 0 {
        Seq::empty()
    } else {
        let before = dependencies_of(matches.drop_last(), path, bytes, slots);
        match dependency_of(matches.last(), path, bytes, slots) {
            Some(dependency) => before.push(dependency),
            None => before,
        }
    }
}

/// The slots of a declared dependency.
pub open spec fn declared_slots() -> DependencySlots {
    DependencySlots { tag: DEPENDENCY_TAG, element: DEPENDENCY_ELEMENT, with_type: false }
}

/// The slots of a managed dependency.
pub open spec fn managed_slots() -> DependencySlots {
    DependencySlots { tag: MANAGED_TAG, element: MANAGED_ELEMENT, with_type: true }
}

/// The text that the last of the matches which bind `key` binds to it.
pub fn find_last_value(matches: &Vec<QueryMatch>, at: usize, key: &str) -> (r: Option<String>)
    ensures
        text_option_view(r) == last_value(matches_view(matches@), at as int, key@),
{
    let mut n: usize = matches.len();
    let ghost views = matches_view(matches@);
    proof {
        assert(views.take(n as int) == views);
    }
    while n > 0
        invariant
            n <= matches@.len(),
            views == matches_view(matches@),
            last_value(views, at as int, key@) == last_value(views.take(n as int), at as int, key@),
        decreases n,
    {
        let captures = &matches[n - 1].captures;
        proof {
            assert(views.take(n as int).drop_last() == views.take(n - 1));
            assert(views.take(n as int).last() == matches@[n - 1]@);
        }
        if at < captures.len() && captures.len() - at > 1 && same_text(
            captures[at].text.as_str(),
            key,
        ) {
            return Some(captures[at + 1].text.clone());
        }
        n -= 1;
    }
    None
}

/// The coordinate of the project, from the matches of the identity query.
pub fn get_project_info(metadata: &Vec<QueryMatch>) -> (r: Option<MavenProjectInfo>)
    ensures
        match r {
            Some(info) => project_info_of(matches_view(metadata@)) == Some(info@),
            None => project_info_of(matches_view(metadata@)).is_none(),
        },
{
    match find_last_value(metadata, METADATA_KEY, ARTIFACT_ID) {
        Some(artifact_id) => Some(
            MavenProjectInfo {
                group_id: find_last_value(metadata, METADATA_KEY, GROUP_ID),
                artifact_id,
                version: find_last_value(metadata, METADATA_KEY, VERSION),
            },
        ),
        None => None,
    }
}

/// The properties that the descriptor declares, from the matches of the
/// identity query and of the properties query.
pub fn get_variables(metadata: &Vec<QueryMatch>, properties: &Vec<QueryMatch>) -> (r: Properties)
    ensures
        r@ == variables_of(matches_view(metadata@), matches_view(properties@)),
{
    let mut variables = Properties::new();
    if let Some(version) = find_last_value(metadata, METADATA_KEY, VERSION) {
        variables.insert(PROJECT_VERSION.to_owned(), version);
    }
    let ghost initial = variables@;
    let ghost views = matches_view(properties@);
    let mut i: usize = 0;
    proof {
        assert(views.take(0) =~= Seq::empty());
    }
    while i < properties.len()
        invariant
            i <= properties@.len(),
            views == matches_view(properties@),
            variables@ == with_bindings(initial, views.take(i as int), ENTRY_KEY as int),
        decreases properties@.len() - i,
    {
        let captures = &properties[i].captures;
        proof {
            assert(views.take(i + 1).drop_last() == views.take(i as int));
            assert(views.take(i + 1).last() == properties@[i as int]@);
        }
        if captures.len() > ENTRY_KEY + 1 {
            variables.insert(captures[ENTRY_KEY].text.clone(), captures[ENTRY_KEY + 1].text.clone());
        }
        i += 1;
    }
    proof {
        assert(views.take(properties@.len() as int) == views);
    }
    variables
}

/// The parent reference of the descriptor, from the matches of the parent
/// query. A reference that has none of the three shapes counts as none.
pub fn get_parent_information(matches: &Vec<QueryMatch>) -> (r: Option<MavenFileParent>)
    ensures
        parent_option_view(r) == parent_of(matches_view(matches@)),
{
    let relative_path = find_last_value(matches, ENTRY_KEY, RELATIVE_PATH);
    let group_id = find_last_value(matches, ENTRY_KEY, GROUP_ID);
    let artifact_id = find_last_value(matches, ENTRY_KEY, ARTIFACT_ID);
    let version = find_last_value(matches, ENTRY_KEY, VERSION);
    let whole = group_id.is_some() && artifact_id.is_some() && version.is_some();
    let none = group_id.is_none() && artifact_id.is_none() && version.is_none();
    if (relative_path.is_some() && (none || whole)) || (relative_path.is_none() && whole) {
        Some(MavenFileParent { relative_path, group_id, artifact_id, version })
    } else {
        None
    }
}

/// The view of a capture that may be absent.
pub open spec fn capture_option_view(capture: Option<&Capture>) -> Option<CaptureView> {
    match capture {
        Some(c) => Some(c@),
        None => None,
    }
}

/// The capture that holds the value of the child tag `tag` of a dependency.
pub fn find_tagged<'a>(captures: &'a Vec<Capture>, slot: u32, tag: &str) -> (r: Option<
    &'a Capture,
>)
    ensures
        capture_option_view(r) == tag_value(captures@.map_values(|c: Capture| c@), slot, tag@),
{
    if captures.len() == 0 {
        return None;
    }
    let ghost views = captures@.map_values(|c: Capture| c@);
    let mut n: usize = captures.len() - 1;
    while n > 0
        invariant
            n < captures@.len(),
            views == captures@.map_values(|c: Capture| c@),
            tag_value(views, slot, tag@) == tagged(views, slot, tag@, n as int),
        decreases n,
    {
        if captures[n - 1].index == slot && same_text(captures[n - 1].text.as_str(), tag) {
            return Some(&captures[n]);
        }
        n -= 1;
    }
    None
}

/// The first capture that fills `slot`.
pub fn find_in_slot<'a>(captures: &'a Vec<Capture>, slot: u32) -> (r: Option<&'a Capture>)
    ensures
        capture_option_view(r) == first_in_slot(captures@.map_values(|c: Capture| c@), slot, 0),
{
    let ghost views = captures@.map_values(|c: Capture| c@);
    let mut i: usize = 0;
    while i < captures.len()
        invariant
            i <= captures@.len(),
            views == captures@.map_values(|c: Capture| c@),
            first_in_slot(views, slot, 0) == first_in_slot(views, slot, i as int),
        decreases captures@.len() - i,
    {
        if captures[i].index == slot {
            return Some(&captures[i]);
        }
        i += 1;
    }
    None
}

/// The location of the span of a capture, where it has one.
pub fn get_location(path: &str, content: &str, capture: Option<&Capture>) -> (r: Option<Location>)
    ensures
        location_option_view(r) == capture_location(
            path@,
            content.spec_bytes(),
            capture_option_view(capture),
        ),
{
    match capture {
        Some(c) => {
            let start = get_position_in_string(content, c.start_byte);
            let end = get_position_in_string(content, c.end_byte);
            match (start, end) {
                (Ok(start), Ok(end)) => Some(Location { file: path.to_owned(), start, end }),
                _ => None,
            }
        },
        None => None,
    }
}

/// The dependency that one match declares.
pub fn read_dependency(
    found: &QueryMatch,
    path: &str,
    content: &str,
    tag_slot: u32,
    element_slot: u32,
    with_type: bool,
) -> (r: Option<MavenDependency>)
    ensures
        match r {
            Some(dependency) => dependency_of(
                found@,
                path@,
                content.spec_bytes(),
                DependencySlots { tag: tag_slot, element: element_slot, with_type },
            ) == Some(dependency@),
            None => dependency_of(
                found@,
                path@,
                content.spec_bytes(),
                DependencySlots { tag: tag_slot, element: element_slot, with_type },
            ).is_none(),
        },
{
    let captures = &found.captures;
    let group = find_tagged(captures, tag_slot, GROUP_ID);
    let artifact = find_tagged(captures, tag_slot, ARTIFACT_ID);
    match (group, artifact) {
        (Some(group), Some(artifact)) => {
            let version = find_tagged(captures, tag_slot, VERSION);
            let block = get_location(path, content, find_in_slot(captures, element_slot));
            let name = get_location(path, content, Some(artifact));
            let version_location = get_location(path, content, version);
            let location = match (block, name) {
                (Some(block), Some(name)) => Some(
                    DependencyLocation { block, name, version: version_location },
                ),
                _ => None,
            };
            let kind = if with_type {
                match find_tagged(captures, tag_slot, TYPE) {
                    Some(c) => MavenDependencyType::parse(c.text.as_str()),
                    None => None,
                }
            } else {
                None
            };
            let scope = match find_tagged(captures, tag_slot, SCOPE) {
                Some(c) => MavenDependencyScope::parse(c.text.as_str()),
                None => None,
            };
            Some(
                MavenDependency {
                    group_id: group.text.clone(),
                    artifact_id: artifact.text.clone(),
                    version: match version {
                        Some(c) => Some(c.text.clone()),
                        None => None,
                    },
                    kind,
                    scope,
                    location,
                },
            )
        },
        _ => None,
    }
}

/// The dependencies that the matches declare, in order.
pub fn read_dependencies(
    matches: &Vec<QueryMatch>,
    path: &str,
    content: &str,
    tag_slot: u32,
    element_slot: u32,
    with_type: bool,
) -> (r: Vec<MavenDependency>)
    ensures
        dependencies_view(r@) == dependencies_of(
            matches_view(matches@),
            path@,
            content.spec_bytes(),
            DependencySlots { tag: tag_slot, element: element_slot, with_type },
        ),
{
    let mut dependencies: Vec<MavenDependency> = Vec::new();
    let ghost views = matches_view(matches@);
    let ghost slots = DependencySlots { tag: tag_slot, element: element_slot, with_type };
    let mut i: usize = 0;
    proof {
        assert(views.take(0) =~= Seq::empty());
        assert(dependencies_view(dependencies@) =~= Seq::empty());
    }
    while i < matches.len()
        invariant
            i <= matches@.len(),
            views == matches_view(matches@),
            slots == (DependencySlots { tag: tag_slot, element: element_slot, with_type }),
            dependencies_view(dependencies@) == dependencies_of(
                views.take(i as int),
                path@,
                content.spec_bytes(),
                slots,
            ),
        decreases matches@.len() - i,
    {
        proof {
            assert(views.take(i + 1).drop_last() == views.take(i as int));
            assert(views.take(i + 1).last() == matches@[i as int]@);
        }
        let ghost before = dependencies@;
        match read_dependency(&matches[i], path, content, tag_slot, element_slot, with_type) {
            Some(dependency) => {
                dependencies.push(dependency);
                proof {
                    assert(dependencies_view(dependencies@) =~= dependencies_view(before).push(
                        dependency@,
                    ));
                }
            },
            None => {},
        }
        i += 1;
    }
    proof {
        assert(views.take(matches@.len() as int) == views);
    }
    dependencies
}

/// The dependencies that a descriptor declares, from the matches of the
/// dependencies query.
pub fn get_dependencies(matches: &Vec<QueryMatch>, path: &str, content: &str) -> (r: Vec<
    MavenDependency,
>)
    ensures
        dependencies_view(r@) == dependencies_of(
            matches_view(matches@),
            path@,
            content.spec_bytes(),
            declared_slots(),
        ),
{
    read_dependencies(matches, path, content, DEPENDENCY_TAG, DEPENDENCY_ELEMENT, false)
}

/// The dependencies that a descriptor manages, from the matches of the
/// dependency-management query.
pub fn get_dependencies_from_dependency_management(
    matches: &Vec<QueryMatch>,
    path: &str,
    content: &str,
) -> (r: Vec<MavenDependency>)
    ensures
        dependencies_view(r@) == dependencies_of(
            matches_view(matches@),
            path@,
            content.spec_bytes(),
            managed_slots(),
        ),
{
    read_dependencies(matches, path, content, MANAGED_TAG, MANAGED_ELEMENT, true)
}

/// The matches of the five queries that read a descriptor.
#[derive(Debug)]
pub struct DescriptorMatches {
    pub metadata: Vec<QueryMatch>,
    pub properties: Vec<QueryMatch>,
    pub parent: Vec<QueryMatch>,
    pub dependencies: Vec<QueryMatch>,
    pub dependency_management: Vec<QueryMatch>,
}

/// What a [`DescriptorMatches`] holds.
pub struct DescriptorMatchesView {
    pub metadata: Seq<Seq<CaptureView>>,
    pub properties: Seq<Seq<CaptureView>>,
    pub parent: Seq<Seq<CaptureView>>,
    pub dependencies: Seq<Seq<CaptureView>>,
    pub dependency_management: Seq<Seq<CaptureView>>,
}

impl View for DescriptorMatches {
    type V = DescriptorMatchesView;

    open spec fn view(&self) -> DescriptorMatchesView {
        DescriptorMatchesView {
            metadata: matches_view(self.metadata@),
            properties: matches_view(self.properties@),
            parent: matches_view(self.parent@),
            dependencies: matches_view(self.dependencies@),
            dependency_management: matches_view(self.dependency_management@),
        }
    }
}

/// What is read from the matches of the five queries over the content of the
/// descriptor at `path`.
pub open spec fn parsed(path: Seq<char>, bytes: Seq<u8>, matches: DescriptorMatchesView) -> Result<
    MavenFileView,
    ParseError,
> {
    match project_info_of(matches.metadata) {
        Some(project_info) => Ok(
            MavenFileView {
                project_info,
                path,
                properties: variables_of(matches.metadata, matches.properties),
                dependency_management: dependencies_of(
                    matches.dependency_management,
                    path,
                    bytes,
                    managed_slots(),
                ),
                dependencies: dependencies_of(matches.dependencies, path, bytes, declared_slots()),
                parent: parent_of(matches.parent),
                parent_path: None,
            },
        ),
        None => Err(ParseError::MissingIdentity),
    }
}

/// The matches of the five queries in `content`, as [`xml_matches`] names
/// them; none where one of them is none.
pub open spec fn descriptor_matches(content: Seq<char>) -> Option<DescriptorMatchesView> {
    match (
        xml_matches(content, TREE_SITTER_PROJECT_METADATA@),
        xml_matches(content, TREE_SITTER_PROJECT_PROPERTIES@),
        xml_matches(content, TREE_SITTER_PARENT_INFORMATION@),
        xml_matches(content, TREE_SITTER_QUERY_DEPENDENCIES@),
        xml_matches(content, TREE_SITTER_QUERY_DEPENDENCY_MANAGEMENT@),
    ) {
        (
            Some(metadata),
            Some(properties),
            Some(parent),
            Some(dependencies),
            Some(dependency_management),
        ) => Some(
            DescriptorMatchesView {
                metadata,
                properties,
                parent,
                dependencies,
                dependency_management,
            },
        ),
        _ => None,
    }
}

/// The view of what reading a descriptor gave.
pub open spec fn parse_result_view(r: Result<MavenFile, ParseError>) -> Result<
    MavenFileView,
    ParseError,
> {
    match r {
        Ok(file) => Ok(file@),
        Err(e) => Err(e),
    }
}

/// The matches of the five queries in `content`.
pub fn read_matches(content: &str) -> (r: Option<DescriptorMatches>)
    ensures
        match r {
            Some(matches) => descriptor_matches(content@) == Some(matches@),
            None => descriptor_matches(content@).is_none(),
        },
{
    let metadata = run_query(content, TREE_SITTER_PROJECT_METADATA);
    let properties = run_query(content, TREE_SITTER_PROJECT_PROPERTIES);
    let parent = run_query(content, TREE_SITTER_PARENT_INFORMATION);
    let dependencies = run_query(content, TREE_SITTER_QUERY_DEPENDENCIES);
    let dependency_management = run_query(content, TREE_SITTER_QUERY_DEPENDENCY_MANAGEMENT);
    match (metadata, properties, parent, dependencies, dependency_management) {
        (
            Some(metadata),
            Some(properties),
            Some(parent),
            Some(dependencies),
            Some(dependency_management),
        ) => Some(
            DescriptorMatches { metadata, properties, parent, dependencies, dependency_management },
        ),
        _ => None,
    }
}

impl MavenFile {
    /// The descriptor at `path` with the given content, read from the matches
    /// of the five queries over that content. It fails where the matches name
    /// no artifact for the project. The parent is not located yet.
    pub fn from_matches(path: &str, content: &str, matches: &DescriptorMatches) -> (r: Result<
        MavenFile,
        ParseError,
    >)
        ensures
            parse_result_view(r) == parsed(path@, content.spec_bytes(), matches@),
    {
        match get_project_info(&matches.metadata) {
            Some(project_info) => Ok(
                MavenFile {
                    project_info,
                    path: path.to_owned(),
                    properties: get_variables(&matches.metadata, &matches.properties),
                    dependency_management: get_dependencies_from_dependency_management(
                        &matches.dependency_management,
                        path,
                        content,
                    ),
                    dependencies: get_dependencies(&matches.dependencies, path, content),
                    parent: get_parent_information(&matches.parent),
                    parent_path: None,
                },
            ),
            None => Err(ParseError::MissingIdentity),
        }
    }

    /// The descriptor at `path` with the given content. It fails where the
    /// content gives no tree to query, and where the project names no
    /// artifact.
    pub fn new(path: &str, content: &str) -> (r: Result<MavenFile, ParseError>)
        ensures
            parse_result_view(r) == match descriptor_matches(content@) {
                Some(matches) => parsed(path@, content.spec_bytes(), matches),
                None => Err(ParseError::MalformedContent),
            },
    {
        match read_matches(content) {
            Some(matches) => MavenFile::from_matches(path, content, &matches),
            None => Err(ParseError::MalformedContent),
        }
    }
}

} // verus!
