//! Resolution: from a descriptor and the registry to the dependencies that
//! can be listed.
//!
//! A descriptor inherits from its parent, the parent from its own, and so on.
//! The descriptor and its ancestors, nearest first, are its lineage. The
//! properties and the managed dependencies of a descriptor are merged over its
//! lineage; its own dependencies are then resolved against both.

use crate::analyze::producers::maven::context::{MavenProducerContext, RegistryView};
use crate::analyze::producers::maven::maven_file::{
    dependencies_view, MavenDependency, MavenDependencyView, MavenFile, MavenFileView,
    MavenProjectInfo,
};
use crate::analyze::producers::maven::properties::{substitute_once, Properties};
use crate::utils::text::same_text;
use vstd::prelude::*;

verus! {

/// Why a descriptor could not be resolved.
#[derive(Clone, Copy, Debug, PartialEq, Eq, Structural)]
pub enum ResolveError {
    /// The parents of the descriptor lead back to one of them: the walk up
    /// did not end within as many steps as the registry has descriptors.
    CyclicParentChain,
}

/// Where the registry holds the parent of a descriptor.
pub enum ParentPlace {
    /// Under the located path of the parent reference.
    ByPath(int),
    /// Under the coordinate of the parent reference.
    ByCoordinate(int),
    /// Nowhere: the descriptor is resolved as one without a parent.
    Nowhere,
}

/// The parent of a descriptor, as the registry holds it.
pub enum ParentLookup<'a> {
    /// Found under the located path of the parent reference.
    FoundByPath(&'a MavenFile),
    /// Found under the coordinate of the parent reference.
    FoundByCoordinate(&'a MavenFile),
    /// Not found.
    NotFound,
}

impl<'a> ParentLookup<'a> {
    /// The descriptor that was found.
    pub open spec fn found(self) -> Option<MavenFileView> {
        match self {
            ParentLookup::FoundByPath(file) => Some(file@),
            ParentLookup::FoundByCoordinate(file) => Some(file@),
            ParentLookup::NotFound => None,
        }
    }

    /// The descriptor that was found, if one was.
    pub fn file(&self) -> (r: Option<&'a MavenFile>)
        ensures
            match r {
                Some(file) => self.found() == Some(file@),
                None => self.found().is_none(),
            },
    {
        match self {
            ParentLookup::FoundByPath(file) => Some(*file),
            ParentLookup::FoundByCoordinate(file) => Some(*file),
            ParentLookup::NotFound => None,
        }
    }
}

/// `rest` behind `front`, where there is a rest.
pub open spec fn prepend(front: Seq<MavenFileView>, rest: Option<Seq<MavenFileView>>) -> Option<
    Seq<MavenFileView>,
> {
    match rest {
        Some(rest) => Some(front + rest),
        None => None,
    }
}

impl RegistryView {
    /// Where the parent of `file` is: under the located path, if the
    /// reference has one and a descriptor is registered there; else under the
    /// coordinate, if the reference has one and it is registered; else
    /// nowhere.
    pub open spec fn locate_parent(self, file: MavenFileView) -> ParentPlace {
        let by_path = match file.parent_file_path() {
            Some(path) => self.find_path(path),
            None => None,
        };
        match by_path {
            Some(i) => ParentPlace::ByPath(i),
            None => match file.parent_coordinate() {
                Some(coordinate) => match self.find_coordinate(coordinate) {
                    Some(i) => ParentPlace::ByCoordinate(i),
                    None => ParentPlace::Nowhere,
                },
                None => ParentPlace::Nowhere,
            },
        }
    }

    /// The parent of `file`, where the registry holds it.
    pub open spec fn parent_of(self, file: MavenFileView) -> Option<MavenFileView> {
        match self.locate_parent(file) {
            ParentPlace::ByPath(i) => Some(self.files[i]),
            ParentPlace::ByCoordinate(i) => Some(self.files[i]),
            ParentPlace::Nowhere => None,
        }
    }

    /// `file` and its ancestors, nearest first, where the walk up ends within
    /// `steps` steps.
    pub open spec fn lineage_within(self, file: MavenFileView, steps: nat) -> Option<
        Seq<MavenFileView>,
    >
        decreases steps,
    {
        match self.parent_of(file) {
            None => Some(seq![file]),
            Some(parent) => if steps == 0 {
                None
            } else {
                prepend(seq![file], self.lineage_within(parent, (steps - 1) as nat))
            },
        }
    }

    /// `file` and its ancestors, nearest first. `None` where the walk up does
    /// not end within as many steps as the registry has descriptors: then a
    /// descriptor stands twice on the way, and the walk would never end.
    pub open spec fn lineage(self, file: MavenFileView) -> Option<Seq<MavenFileView>> {
        self.lineage_within(file, self.files.len())
    }

    /// The properties that hold in `file`.
    pub open spec fn effective_properties(self, file: MavenFileView) -> Option<
        Map<Seq<char>, Seq<char>>,
    > {
        match self.lineage(file) {
            Some(lineage) => Some(inherited_properties(lineage)),
            None => None,
        }
    }

    /// The dependencies that are managed for `file`.
    pub open spec fn effective_dependency_management(self, file: MavenFileView) -> Option<
        Seq<MavenDependencyView>,
    > {
        match self.lineage(file) {
            Some(lineage) => Some(managed_dependencies(lineage)),
            None => None,
        }
    }

    /// The dependencies of `file` that can be listed.
    pub open spec fn dependencies_for_sbom(self, file: MavenFileView) -> Option<
        Seq<MavenDependencyView>,
    > {
        match self.lineage(file) {
            Some(lineage) => Some(
                emitted(
                    file.dependencies,
                    inherited_properties(lineage),
                    managed_dependencies(lineage),
                ),
            ),
            None => None,
        }
    }
}

/// The properties that hold in the first descriptor of a lineage: those that
/// hold in its parent, overlaid with its own, after one pass of substitution.
pub open spec fn inherited_properties(lineage: Seq<MavenFileView>) -> Map<Seq<char>, Seq<char>>
    decreases lineage.len(),
{
    if lineage.len() == 0 {
        Map::empty()
    } else {
        substitute_once(
            inherited_properties(lineage.drop_first()).union_prefer_right(lineage[0].properties),
        )
    }
}

/// The dependencies managed for the first descriptor of a lineage: those
/// managed for its parent, then its own. Nothing is left out.
pub open spec fn managed_dependencies(lineage: Seq<MavenFileView>) -> Seq<MavenDependencyView>
    decreases lineage.len(),
{
    if lineage.len() == 0 {
        Seq::empty()
    } else {
        managed_dependencies(lineage.drop_first()) + lineage[0].dependency_management
    }
}

/// The first managed dependency from `from` on that has the given group and
/// artifact.
pub open spec fn first_managed(
    management: Seq<MavenDependencyView>,
    group_id: Seq<char>,
    artifact_id: Seq<char>,
    from: int,
) -> Option<MavenDependencyView>
    decreases management.len() - from,
{
    if from < 0 || from >= management.len() {
        None
    } else if management[from].artifact_id == artifact_id && management[from].group_id
        == group_id {
        Some(management[from])
    } else {
        first_managed(management, group_id, artifact_id, from + 1)
    }
}

/// What is resolved for one dependency: the dependency itself where it has a
/// version, else the first managed dependency of its group and artifact.
pub open spec fn candidate(
    dependency: MavenDependencyView,
    management: Seq<MavenDependencyView>,
) -> Option<MavenDependencyView> {
    if dependency.version.is_some() {
        Some(dependency)
    } else {
        first_managed(management, dependency.group_id, dependency.artifact_id, 0)
    }
}

/// What one dependency gives to the list: its candidate after substitution,
/// where that can be listed.
pub open spec fn resolved(
    dependency: MavenDependencyView,
    properties: Map<Seq<char>, Seq<char>>,
    management: Seq<MavenDependencyView>,
) -> Option<MavenDependencyView> {
    match candidate(dependency, management) {
        Some(found) => if found.enrich(properties).is_valid_for_sbom() {
            Some(found.enrich(properties))
        } else {
            None
        },
        None => None,
    }
}

/// What a list of dependencies gives to the list, in order.
pub open spec fn emitted(
    dependencies: Seq<MavenDependencyView>,
    properties: Map<Seq<char>, Seq<char>>,
    management: Seq<MavenDependencyView>,
) -> Seq<MavenDependencyView>
    decreases dependencies.len(),
{
    if dependencies.len() == 0 {
        Seq::empty()
    } else {
        let before = emitted(dependencies.drop_last(), properties, management);
        match resolved(dependencies.last(), properties, management) {
            Some(dependency) => before.push(dependency),
            None => before,
        }
    }
}

/// The views of a list of descriptors, in order.
pub open spec fn files_view(files: Seq<&MavenFile>) -> Seq<MavenFileView> {
    files.map_values(|f: &MavenFile| f@)
}

/// The first managed dependency that has the group and the artifact of
/// `dependency`.
pub fn find_managed<'a>(management: &'a Vec<MavenDependency>, dependency: &MavenDependency) -> (r:
    Option<&'a MavenDependency>)
    ensures
        match r {
            Some(found) => first_managed(
                dependencies_view(management@),
                dependency@.group_id,
                dependency@.artifact_id,
                0,
            ) == Some(found@),
            None => first_managed(
                dependencies_view(management@),
                dependency@.group_id,
                dependency@.artifact_id,
                0,
            ).is_none(),
        },
{
    let mut i: usize = 0;
    while i < management.len()
        invariant
            i <= management@.len(),
            first_managed(
                dependencies_view(management@),
                dependency@.group_id,
                dependency@.artifact_id,
                0,
            ) == first_managed(
                dependencies_view(management@),
                dependency@.group_id,
                dependency@.artifact_id,
                i as int,
            ),
        decreases management@.len() - i,
    {
        let entry = &management[i];
        if same_text(entry.artifact_id.as_str(), dependency.artifact_id.as_str()) && same_text(
            entry.group_id.as_str(),
            dependency.group_id.as_str(),
        ) {
            return Some(entry);
        }
        i += 1;
    }
    None
}

/// The dependencies among `dependencies` that can be listed, each resolved
/// against `properties` and `management`.
pub fn resolve_dependencies(
    dependencies: &Vec<MavenDependency>,
    properties: &Properties,
    management: &Vec<MavenDependency>,
) -> (r: Vec<MavenDependency>)
    ensures
        dependencies_view(r@) == emitted(
            dependencies_view(dependencies@),
            properties@,
            dependencies_view(management@),
        ),
{
    let mut res: Vec<MavenDependency> = Vec::new();
    let mut i: usize = 0;
    proof {
        assert(dependencies_view(dependencies@).take(0) =~= Seq::empty());
        assert(dependencies_view(res@) =~= Seq::empty());
    }
    while i < dependencies.len()
        invariant
            i <= dependencies@.len(),
            dependencies_view(res@) == emitted(
                dependencies_view(dependencies@).take(i as int),
                properties@,
                dependencies_view(management@),
            ),
        decreases dependencies@.len() - i,
    {
        let dependency = &dependencies[i];
        let ghost before = res@;
        let ghost upto = dependencies_view(dependencies@).take(i + 1);
        proof {
            assert(upto.drop_last() == dependencies_view(dependencies@).take(i as int));
            assert(upto.last() == dependency@);
        }
        let found = if dependency.version.is_none() {
            find_managed(management, dependency)
        } else {
            Some(dependency)
        };
        match found {
            Some(chosen) => {
                let enriched = chosen.enrich(properties);
                if enriched.is_valid_for_sbom() {
                    res.push(enriched);
                    proof {
                        assert(dependencies_view(res@) =~= dependencies_view(before).push(
                            enriched@,
                        ));
                    }
                }
            },
            None => {},
        }
        i += 1;
    }
    proof {
        assert(dependencies_view(dependencies@).take(dependencies@.len() as int)
            == dependencies_view(dependencies@));
    }
    res
}

impl MavenProducerContext {
    /// The parent of `file`: looked for under the located path of its parent
    /// reference first, then under the coordinate of that reference.
    pub fn locate_parent<'a>(&'a self, file: &MavenFile) -> (r: ParentLookup<'a>)
        ensures
            self@.wf(),
            r.found() == self@.parent_of(file@),
            match self@.locate_parent(file@) {
                ParentPlace::ByPath(i) => r is FoundByPath,
                ParentPlace::ByCoordinate(i) => r is FoundByCoordinate,
                ParentPlace::Nowhere => r is NotFound,
            },
    {
        if self.len() == 0 {
            return ParentLookup::NotFound;
        }
        let by_path = match file.get_parent_file_path() {
            Some(path) => self.get_maven_file_by_path(path.as_str()),
            None => None,
        };
        if let Some(parent) = by_path {
            return ParentLookup::FoundByPath(parent);
        }
        let by_coordinate = file.get_parent_by_project_info(self);
        match by_coordinate {
            Some(parent) => ParentLookup::FoundByCoordinate(parent),
            None => ParentLookup::NotFound,
        }
    }
}

/// What was merged over a lineage.
pub struct Inheritance {
    /// The properties that hold in the descriptor.
    pub properties: Properties,
    /// The dependencies that are managed for it.
    pub dependency_management: Vec<MavenDependency>,
}

/// The properties and the managed dependencies of the first descriptor of a
/// lineage.
pub fn inherit(lineage: &Vec<&MavenFile>) -> (r: Inheritance)
    ensures
        r.properties@ == inherited_properties(files_view(lineage@)),
        dependencies_view(r.dependency_management@) == managed_dependencies(files_view(lineage@)),
{
    let mut properties = Properties::new();
    let mut management: Vec<MavenDependency> = Vec::new();
    let mut n: usize = lineage.len();
    let ghost views = files_view(lineage@);
    proof {
        assert(views.skip(n as int) =~= Seq::empty());
        assert(dependencies_view(management@) =~= Seq::empty());
    }
    while n > 0
        invariant
            n <= lineage@.len(),
            views == files_view(lineage@),
            properties@ == inherited_properties(views.skip(n as int)),
            dependencies_view(management@) == managed_dependencies(views.skip(n as int)),
        decreases n,
    {
        n -= 1;
        let file = lineage[n];
        proof {
            assert(views.skip(n as int).drop_first() == views.skip(n + 1));
            assert(views.skip(n as int)[0] == file@);
        }
        properties.extend(&file.properties);
        properties = properties.substituted();
        let mut i: usize = 0;
        let ghost inherited = management@;
        while i < file.dependency_management.len()
            invariant
                i <= file.dependency_management@.len(),
                dependencies_view(management@) == dependencies_view(inherited) + dependencies_view(
                    file.dependency_management@,
                ).take(i as int),
            decreases file.dependency_management@.len() - i,
        {
            let ghost before = management@;
            management.push(file.dependency_management[i].clone());
            proof {
                assert(dependencies_view(management@) =~= dependencies_view(before).push(
                    file.dependency_management@[i as int]@,
                ));
                assert(dependencies_view(file.dependency_management@).take(i + 1)
                    =~= dependencies_view(file.dependency_management@).take(i as int).push(
                    file.dependency_management@[i as int]@,
                ));
            }
            i += 1;
        }
        proof {
            assert(dependencies_view(file.dependency_management@).take(
                file.dependency_management@.len() as int,
            ) == dependencies_view(file.dependency_management@));
        }
    }
    proof {
        assert(views.skip(0) == views);
    }
    Inheritance { properties, dependency_management: management }
}

impl MavenFile {
    /// The parent of the descriptor as the registry holds it under the
    /// coordinate of the parent reference.
    pub fn get_parent_by_project_info<'a>(&self, context: &'a MavenProducerContext) -> (r: Option<
        &'a MavenFile,
    >)
        ensures
            match self@.parent_coordinate() {
                Some(coordinate) => match context@.find_coordinate(coordinate) {
                    Some(i) => r.is_some() && r.unwrap()@ == context@.files[i],
                    None => r.is_none(),
                },
                None => r.is_none(),
            },
    {
        match &self.parent {
            Some(parent) => match (&parent.group_id, &parent.artifact_id, &parent.version) {
                (Some(group_id), Some(artifact_id), Some(version)) => {
                    let key = MavenProjectInfo {
                        group_id: Some(group_id.clone()),
                        artifact_id: artifact_id.clone(),
                        version: Some(version.clone()),
                    };
                    context.get_maven_file_by_project_info(&key)
                },
                _ => None,
            },
            None => None,
        }
    }

    /// The descriptor and its ancestors, nearest first.
    pub fn lineage<'a>(&'a self, context: &'a MavenProducerContext) -> (r: Result<
        Vec<&'a MavenFile>,
        ResolveError,
    >)
        ensures
            match context@.lineage(self@) {
                Some(lineage) => r.is_ok() && files_view(r.unwrap()@) == lineage,
                None => r == Err::<Vec<&'a MavenFile>, ResolveError>(
                    ResolveError::CyclicParentChain,
                ),
            },
    {
        let mut chain: Vec<&'a MavenFile> = Vec::new();
        let mut current: &'a MavenFile = self;
        let mut steps: usize = context.len();
        proof {
            assert(files_view(chain@) =~= Seq::empty());
            assert(Seq::<MavenFileView>::empty() + seq![self@] =~= seq![self@]);
            lemma_prepend_nothing(context@.lineage_within(current@, steps as nat));
        }
        loop
            invariant
                context@.wf(),
                steps <= context@.files.len(),
                context@.lineage(self@) == prepend(
                    files_view(chain@),
                    context@.lineage_within(current@, steps as nat),
                ),
            decreases steps,
        {
            let ghost front = files_view(chain@);
            let lookup = context.locate_parent(current);
            chain.push(current);
            proof {
                assert(files_view(chain@) =~= front.push(current@));
                assert(front.push(current@) =~= front + seq![current@]);
            }
            match lookup.file() {
                Some(parent) => {
                    if steps == 0 {
                        return Err(ResolveError::CyclicParentChain);
                    }
                    proof {
                        lemma_prepend_twice(
                            front,
                            seq![current@],
                            context@.lineage_within(parent@, (steps - 1) as nat),
                        );
                    }
                    current = parent;
                    steps -= 1;
                },
                None => {
                    return Ok(chain);
                },
            }
        }
    }

    /// The properties that hold in the descriptor: those of its ancestors,
    /// overlaid with its own, each level after one pass of substitution.
    pub fn get_all_properties(&self, context: &MavenProducerContext) -> (r: Result<
        Properties,
        ResolveError,
    >)
        ensures
            match context@.effective_properties(self@) {
                Some(properties) => r.is_ok() && r.unwrap()@ == properties,
                None => r.is_err() && r.unwrap_err() == ResolveError::CyclicParentChain,
            },
    {
        match self.lineage(context) {
            Ok(lineage) => Ok(inherit(&lineage).properties),
            Err(e) => Err(e),
        }
    }

    /// The dependencies that are managed for the descriptor: those managed for
    /// its parent first, then its own.
    pub fn get_all_dependencies_from_dependency_management(
        &self,
        context: &MavenProducerContext,
    ) -> (r: Result<Vec<MavenDependency>, ResolveError>)
        ensures
            match context@.effective_dependency_management(self@) {
                Some(management) => r.is_ok() && dependencies_view(r.unwrap()@) == management,
                None => r.is_err() && r.unwrap_err() == ResolveError::CyclicParentChain,
            },
    {
        match self.lineage(context) {
            Ok(lineage) => Ok(inherit(&lineage).dependency_management),
            Err(e) => Err(e),
        }
    }

    /// The dependencies of the descriptor that can be listed, in the order in
    /// which it declares them. A dependency with a version is resolved as it
    /// stands; one without, as the first managed dependency of its group and
    /// artifact. What has no version after that, or still holds the opening of
    /// a placeholder, is left out.
    pub fn get_dependencies_for_sbom(&self, context: &MavenProducerContext) -> (r: Result<
        Vec<MavenDependency>,
        ResolveError,
    >)
        ensures
            match context@.dependencies_for_sbom(self@) {
                Some(dependencies) => r.is_ok() && dependencies_view(r.unwrap()@) == dependencies,
                None => r.is_err() && r.unwrap_err() == ResolveError::CyclicParentChain,
            },
            r matches Ok(dependencies) ==> forall|i: int|
                0 <= i < dependencies@.len() ==> (#[trigger] dependencies@[i])@.is_valid_for_sbom(),
    {
        match self.lineage(context) {
            Ok(lineage) => {
                let inheritance = inherit(&lineage);
                let res = resolve_dependencies(
                    &self.dependencies,
                    &inheritance.properties,
                    &inheritance.dependency_management,
                );
                proof {
                    lemma_emitted_are_valid(
                        dependencies_view(self.dependencies@),
                        inheritance.properties@,
                        dependencies_view(inheritance.dependency_management@),
                    );
                    assert forall|i: int| 0 <= i < res@.len() implies (#[trigger] res@[i])@.is_valid_for_sbom() by {
                        assert(dependencies_view(res@)[i] == res@[i]@);
                    }
                }
                Ok(res)
            },
            Err(e) => Err(e),
        }
    }
}

/// Nothing in front of a lineage leaves it as it is.
proof fn lemma_prepend_nothing(rest: Option<Seq<MavenFileView>>)
    ensures
        prepend(Seq::empty(), rest) == rest,
{
    if let Some(r) = rest {
        assert(Seq::<MavenFileView>::empty() + r =~= r);
    }
}

/// Two fronts, one behind the other, are one front.
proof fn lemma_prepend_twice(
    front: Seq<MavenFileView>,
    middle: Seq<MavenFileView>,
    rest: Option<Seq<MavenFileView>>,
)
    ensures
        prepend(front, prepend(middle, rest)) == prepend(front + middle, rest),
{
    if let Some(r) = rest {
        assert(front + (middle + r) =~= (front + middle) + r);
    }
}

/// Every dependency that resolution lets through can be listed.
pub proof fn lemma_emitted_are_valid(
    dependencies: Seq<MavenDependencyView>,
    properties: Map<Seq<char>, Seq<char>>,
    management: Seq<MavenDependencyView>,
)
    ensures
        forall|i: int|
            0 <= i < emitted(dependencies, properties, management).len() ==> (#[trigger] emitted(
                dependencies,
                properties,
                management,
            )[i]).is_valid_for_sbom(),
    decreases dependencies.len(),
{
    if dependencies.len() > 0 {
        lemma_emitted_are_valid(dependencies.drop_last(), properties, management);
        let before = emitted(dependencies.drop_last(), properties, management);
        let all = emitted(dependencies, properties, management);
        assert forall|i: int| 0 <= i < all.len() implies (#[trigger] all[i]).is_valid_for_sbom() by {
            if i < before.len() {
                assert(all[i] == before[i]);
            }
        }
    }
}

} // verus!
