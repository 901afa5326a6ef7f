//! The producer for Maven descriptors.

use crate::analyze::producers::maven::constants::DESCRIPTOR_FILE_NAME;
use crate::analyze::producers::maven::context::{MavenProducerContext, RegistryView};
use crate::analyze::producers::maven::maven_file::{
    dependencies_view, MavenDependency, MavenDependencyView, MavenFile, MavenFileView,
};
use crate::analyze::producers::maven::placeholder::{has_marker, marker_at};
use crate::analyze::producers::producer::{SbomProducer, SbomProducerConfiguration};
use crate::model::dependency::{Dependency, DependencyView};
use crate::utils::path::{
    eq_ignore_ascii_case, file_name, file_name_of, lemma_current_at_the_end,
    lemma_separator_at_the_end, same_ignoring_ascii_case, SEPARATOR,
};
use crate::utils::text::to_chars;
use vstd::prelude::*;

verus! {

/// The producer for Maven descriptors.
#[derive(Clone, Copy, Debug, Default)]
pub struct MavenProducer {}

/// The path is that of a descriptor: its last component is the conventional
/// name, whatever the case of its letters.
pub open spec fn is_descriptor_path(path: Seq<char>) -> bool {
    file_name_of(path) matches Some(name) && same_ignoring_ascii_case(
        name,
        DESCRIPTOR_FILE_NAME@,
    )
}

/// Separators at the end of a path do not change whether it is that of a
/// descriptor, nor does a component `.` at its end.
pub proof fn lemma_descriptor_path_ignores_its_end(path: Seq<char>)
    requires
        path.len() > 0,
    ensures
        is_descriptor_path(path.push(SEPARATOR)) == is_descriptor_path(path),
        is_descriptor_path(path.push(SEPARATOR).push('.')) == is_descriptor_path(path),
{
    lemma_separator_at_the_end(path);
    lemma_current_at_the_end(path);
}

/// The views of a list of descriptors, in order.
pub open spec fn descriptors_view(files: Seq<MavenFile>) -> Seq<MavenFileView> {
    files.map_values(|f: MavenFile| f@)
}

/// The views of a list of records, in order.
pub open spec fn records_view(records: Seq<Dependency>) -> Seq<DependencyView> {
    records.map_values(|d: Dependency| d@)
}

/// The registry of the descriptors under `base_path`, added in order. A
/// descriptor that does not lie under the base directory is left out.
pub open spec fn registered(base_path: Seq<char>, files: Seq<MavenFileView>) -> RegistryView
    decreases files.len(),
{
    if files.len() == 0 {
        RegistryView::empty(base_path)
    } else {
        let before = registered(base_path, files.drop_last());
        if before.accepts(files.last()) {
            before.add(files.last())
        } else {
            before
        }
    }
}

/// The records that list the given dependencies, in order.
pub open spec fn listed(dependencies: Seq<MavenDependencyView>) -> Seq<DependencyView> {
    dependencies.map_values(|d: MavenDependencyView| d.to_dependency())
}

/// The records of the first `upto` descriptors of a registry, each resolved
/// against the whole registry, in order. A descriptor that cannot be resolved
/// gives none.
pub open spec fn found_in(registry: RegistryView, upto: int) -> Seq<DependencyView>
    decreases upto,
{
    if upto <= 0 {
        Seq::empty()
    } else {
        let before = found_in(registry, upto - 1);
        match registry.dependencies_for_sbom(registry.files[upto - 1]) {
            Some(dependencies) => before + listed(dependencies),
            None => before,
        }
    }
}

/// The paths of those among the first `upto` descriptors of a registry that
/// cannot be resolved, in order.
pub open spec fn unresolved_in(registry: RegistryView, upto: int) -> Seq<Seq<char>>
    decreases upto,
{
    if upto <= 0 {
        Seq::empty()
    } else {
        let before = unresolved_in(registry, upto - 1);
        match registry.dependencies_for_sbom(registry.files[upto - 1]) {
            Some(_) => before,
            None => before.push(registry.files[upto - 1].path),
        }
    }
}

/// The records that a run over the given descriptors finds.
pub open spec fn found(base_path: Seq<char>, files: Seq<MavenFileView>) -> Seq<DependencyView> {
    let registry = registered(base_path, files);
    found_in(registry, registry.files.len() as int)
}

/// A record is concrete: it has a version, and neither its name nor its
/// version holds the opening of a placeholder.
pub open spec fn is_concrete(record: DependencyView) -> bool {
    &&& !has_marker(record.name)
    &&& record.version matches Some(version)
    &&& !has_marker(version)
}

/// The record of a dependency that can be listed is concrete.
pub proof fn lemma_listed_is_concrete(dependency: MavenDependencyView)
    requires
        dependency.is_valid_for_sbom(),
    ensures
        is_concrete(dependency.to_dependency()),
{
    reveal_strlit(":");
    let group = dependency.group_id;
    let artifact = dependency.artifact_id;
    let name = dependency.name();
    assert(":"@ =~= seq![':']);
    if has_marker(name) {
        let i = choose|i: int| marker_at(name, i);
        if i + 1 < group.len() {
            assert(marker_at(group, i));
        } else if i > group.len() {
            assert(name[i] == artifact[i - group.len() - 1]);
            assert(name[i + 1] == artifact[i - group.len()]);
            assert(marker_at(artifact, i - group.len() - 1));
        } else if i == group.len() {
            assert(name[i] == ':');
        } else {
            assert(name[i + 1] == ':');
        }
    }
}

impl MavenProducer {
    /// The registry of the given descriptors under `base_path`.
    pub fn register(files: &Vec<MavenFile>, base_path: &str) -> (r: MavenProducerContext)
        ensures
            r@ == registered(base_path@, descriptors_view(files@)),
            r@.wf(),
    {
        let mut context = MavenProducerContext::new(base_path.to_owned());
        let ghost views = descriptors_view(files@);
        let mut i: usize = 0;
        proof {
            assert(views.take(0) =~= Seq::empty());
        }
        while i < files.len()
            invariant
                i <= files@.len(),
                views == descriptors_view(files@),
                context@ == registered(base_path@, views.take(i as int)),
                context@.base_path == base_path@,
                context@.wf(),
            decreases files@.len() - i,
        {
            proof {
                assert(views.take(i + 1).drop_last() == views.take(i as int));
                assert(views.take(i + 1).last() == files@[i as int]@);
            }
            if context.accepts(files[i].path.as_str()) {
                context.add_maven_file(&files[i]);
            }
            i += 1;
        }
        proof {
            assert(views.take(files@.len() as int) == views);
        }
        context
    }

    /// The records of every descriptor of a registry, each resolved against
    /// the whole registry.
    pub fn find_in_registry(context: &MavenProducerContext) -> (r: Vec<Dependency>)
        ensures
            records_view(r@) == found_in(context@, context@.files.len() as int),
            forall|i: int| 0 <= i < r@.len() ==> is_concrete(#[trigger] r@[i]@),
    {
        let files = context.get_all_files();
        let mut result: Vec<Dependency> = Vec::new();
        let mut i: usize = 0;
        proof {
            assert(records_view(result@) =~= Seq::empty());
        }
        while i < files.len()
            invariant
                i <= files@.len(),
                files@.map_values(|f: MavenFile| f@) == context@.files,
                records_view(result@) == found_in(context@, i as int),
                forall|k: int| 0 <= k < result@.len() ==> is_concrete(#[trigger] result@[k]@),
            decreases files@.len() - i,
        {
            let file = &files[i];
            proof {
                assert(context@.files[i as int] == file@);
            }
            match file.get_dependencies_for_sbom(context) {
                Ok(dependencies) => {
                    let ghost before = result@;
                    let mut k: usize = 0;
                    proof {
                        assert(listed(dependencies_view(dependencies@)).take(0) =~= Seq::empty());
                        assert(records_view(before) + Seq::<DependencyView>::empty()
                            =~= records_view(before));
                    }
                    while k < dependencies.len()
                        invariant
                            k <= dependencies@.len(),
                            records_view(result@) == records_view(before) + listed(
                                dependencies_view(dependencies@),
                            ).take(k as int),
                            forall|j: int|
                                0 <= j < dependencies@.len() ==> (
                                #[trigger] dependencies@[j])@.is_valid_for_sbom(),
                            forall|j: int|
                                0 <= j < result@.len() ==> is_concrete(#[trigger] result@[j]@),
                        decreases dependencies@.len() - k,
                    {
                        let ghost so_far = result@;
                        let record = dependencies[k].to_dependency();
                        proof {
                            lemma_listed_is_concrete(dependencies@[k as int]@);
                        }
                        result.push(record);
                        proof {
                            let all = listed(dependencies_view(dependencies@));
                            assert(all[k as int] == record@);
                            assert(all.take(k + 1) =~= all.take(k as int).push(record@));
                            assert(records_view(result@) =~= records_view(so_far).push(record@));
                            assert(records_view(result@) =~= records_view(before) + all.take(
                                k + 1,
                            ));
                        }
                        k += 1;
                    }
                    proof {
                        let all = listed(dependencies_view(dependencies@));
                        assert(all.take(dependencies@.len() as int) == all);
                    }
                },
                Err(_) => {},
            }
            i += 1;
        }
        result
    }
}

impl MavenProducer {
    /// The paths of the descriptors of a registry that cannot be resolved,
    /// because their parents lead back to one of them. A run gives no record
    /// for them, and goes on with the others.
    pub fn find_unresolved(context: &MavenProducerContext) -> (r: Vec<String>)
        ensures
            r@.map_values(|p: String| p@) == unresolved_in(context@, context@.files.len() as int),
    {
        let files = context.get_all_files();
        let mut result: Vec<String> = Vec::new();
        let mut i: usize = 0;
        proof {
            assert(result@.map_values(|p: String| p@) =~= Seq::empty());
        }
        while i < files.len()
            invariant
                i <= files@.len(),
                files@.map_values(|f: MavenFile| f@) == context@.files,
                result@.map_values(|p: String| p@) == unresolved_in(context@, i as int),
            decreases files@.len() - i,
        {
            let file = &files[i];
            proof {
                assert(context@.files[i as int] == file@);
            }
            if file.lineage(context).is_err() {
                let ghost before = result@;
                result.push(file.path.clone());
                proof {
                    assert(result@.map_values(|p: String| p@) =~= before.map_values(
                        |p: String| p@,
                    ).push(file.path@));
                }
            }
            i += 1;
        }
        result
    }
}

impl SbomProducer for MavenProducer {
    type Descriptor = MavenFile;

    /// Whether the file at `path` is a descriptor.
    fn use_file(&self, path: &str, _configuration: &SbomProducerConfiguration) -> (r: bool)
        ensures
            r == is_descriptor_path(path@),
    {
        match file_name(path) {
            Some(name) => {
                let name = to_chars(name.as_str());
                let expected = to_chars(DESCRIPTOR_FILE_NAME);
                eq_ignore_ascii_case(&name, &expected)
            },
            None => false,
        }
    }

    /// The records of all the descriptors that lie under the base directory.
    /// First every descriptor is registered, then each is resolved against
    /// the whole registry. Every record is concrete.
    fn find_dependencies(
        &self,
        descriptors: &Vec<MavenFile>,
        configuration: &SbomProducerConfiguration,
    ) -> (r: Vec<Dependency>)
        ensures
            records_view(r@) == found(configuration.base_path@, descriptors_view(descriptors@)),
            forall|i: int| 0 <= i < r@.len() ==> is_concrete(#[trigger] r@[i]@),
    {
        let context = MavenProducer::register(descriptors, configuration.base_path.as_str());
        MavenProducer::find_in_registry(&context)
    }
}

} // verus!
