//! What holds of every resolution, proved from the definitions.

use crate::analyze::producers::maven::context::{
    lemma_last_with_coordinate, lemma_last_with_path, RegistryView,
};
use crate::analyze::producers::maven::maven_file::{MavenDependencyView, MavenFileView};
use crate::analyze::producers::maven::maven_producer::{
    found, found_in, is_concrete, lemma_listed_is_concrete, listed,
};
use crate::analyze::producers::maven::placeholder::{
    has_marker, has_placeholder, lemma_placeholder_has_marker, single_reference, substitute,
};
use crate::analyze::producers::maven::properties::{resolve_value, substitute_once};
use crate::analyze::producers::maven::resolve::{
    emitted, inherited_properties, lemma_emitted_are_valid, managed_dependencies, resolved,
    ParentPlace,
};
use crate::model::dependency::DependencyView;
use crate::utils::path::normal_form;
use vstd::prelude::*;

verus! {

/// A text that does not hold the opening of a placeholder is left as it is by
/// substitution, whatever the properties.
pub proof fn lemma_concrete_text_is_kept(s: Seq<char>, properties: Map<Seq<char>, Seq<char>>)
    requires
        !has_marker(s),
    ensures
        substitute(s, properties) == s,
{
    if has_placeholder(s) {
        lemma_placeholder_has_marker(s);
    }
}

/// A dependency that declares a version without the opening of a placeholder
/// keeps that version: where it is listed, it is listed with the version that
/// it declares.
pub proof fn lemma_concrete_version_is_kept(
    dependency: MavenDependencyView,
    properties: Map<Seq<char>, Seq<char>>,
    management: Seq<MavenDependencyView>,
)
    requires
        dependency.version matches Some(version) && !has_marker(version),
    ensures
        dependency.enrich(properties).version == dependency.version,
        resolved(dependency, properties, management) matches Some(listed) ==> listed.version
            == dependency.version,
{
    lemma_concrete_text_is_kept(dependency.version.unwrap(), properties);
}

/// A dependency that can be listed is settled: substitution leaves it as it
/// is, whatever the properties, so resolving what was resolved changes
/// nothing.
pub proof fn lemma_listed_is_settled(
    dependency: MavenDependencyView,
    properties: Map<Seq<char>, Seq<char>>,
)
    requires
        dependency.is_valid_for_sbom(),
    ensures
        dependency.enrich(properties) == dependency,
        dependency.enrich(properties).is_valid_for_sbom(),
{
    lemma_concrete_text_is_kept(dependency.group_id, properties);
    lemma_concrete_text_is_kept(dependency.artifact_id, properties);
    lemma_concrete_text_is_kept(dependency.version.unwrap(), properties);
}

/// Resolution is a function of the registry and the descriptor: two runs over
/// the same registry and the same descriptor, each giving what
/// [`RegistryView::dependencies_for_sbom`] states, give the same list.
pub proof fn lemma_resolution_repeats(
    registry: RegistryView,
    file: MavenFileView,
    first: Option<Seq<MavenDependencyView>>,
    second: Option<Seq<MavenDependencyView>>,
)
    requires
        first == registry.dependencies_for_sbom(file),
        second == registry.dependencies_for_sbom(file),
    ensures
        first == second,
{
}

/// A whole run is a function of the base directory and the descriptors: two
/// runs over the same descriptors, each giving what [`found`] states, give the
/// same records.
pub proof fn lemma_run_repeats(
    base_path: Seq<char>,
    files: Seq<MavenFileView>,
    first: Seq<DependencyView>,
    second: Seq<DependencyView>,
)
    requires
        first == found(base_path, files),
        second == found(base_path, files),
    ensures
        first == second,
{
}

/// Every dependency that resolution lists has a version, and neither its name
/// nor its version holds the opening of a placeholder.
pub proof fn lemma_listed_are_concrete(registry: RegistryView, file: MavenFileView)
    ensures
        registry.dependencies_for_sbom(file) matches Some(dependencies) ==> forall|i: int|
            0 <= i < dependencies.len() ==> (#[trigger] dependencies[i]).is_valid_for_sbom()
                && is_concrete(dependencies[i].to_dependency()),
{
    if let Some(lineage) = registry.lineage(file) {
        let properties = inherited_properties(lineage);
        let management = managed_dependencies(lineage);
        lemma_emitted_are_valid(file.dependencies, properties, management);
        let dependencies = emitted(file.dependencies, properties, management);
        assert forall|i: int| 0 <= i < dependencies.len() implies (
        #[trigger] dependencies[i]).is_valid_for_sbom() && is_concrete(
            dependencies[i].to_dependency(),
        ) by {
            lemma_listed_is_concrete(dependencies[i]);
        }
    }
}

/// Every record that a whole run finds is concrete.
pub proof fn lemma_found_are_concrete(registry: RegistryView, upto: int)
    ensures
        forall|i: int|
            0 <= i < found_in(registry, upto).len() ==> is_concrete(
                #[trigger] found_in(registry, upto)[i],
            ),
    decreases upto,
{
    if upto > 0 {
        lemma_found_are_concrete(registry, upto - 1);
        let before = found_in(registry, upto - 1);
        let file = registry.files[upto - 1];
        lemma_listed_are_concrete(registry, file);
        if let Some(dependencies) = registry.dependencies_for_sbom(file) {
            let all = found_in(registry, upto);
            assert forall|i: int| 0 <= i < all.len() implies is_concrete(#[trigger] all[i]) by {
                if i < before.len() {
                    assert(all[i] == before[i]);
                } else {
                    assert(all[i] == listed(dependencies)[i - before.len()]);
                    assert(listed(dependencies)[i - before.len()] == dependencies[i
                        - before.len()].to_dependency());
                }
            }
        }
    }
}

/// The descriptor as it would be without a parent reference.
pub open spec fn without_parent(file: MavenFileView) -> MavenFileView {
    MavenFileView { parent: None, parent_path: None, ..file }
}

/// A descriptor whose parent the registry does not hold is resolved as one
/// without a parent: the walk up ends at once, its own properties hold after
/// one pass of substitution, its own managed dependencies are all that is
/// managed, and what is listed is what would be listed without the reference.
pub proof fn lemma_unregistered_parent(registry: RegistryView, file: MavenFileView)
    requires
        registry.locate_parent(file) is Nowhere,
    ensures
        registry.lineage(file) == Some(seq![file]),
        registry.effective_properties(file) == Some(substitute_once(file.properties)),
        registry.effective_dependency_management(file) == Some(file.dependency_management),
        registry.dependencies_for_sbom(file).is_some(),
        registry.dependencies_for_sbom(file) == registry.dependencies_for_sbom(
            without_parent(file),
        ),
{
    let alone = without_parent(file);
    assert(registry.locate_parent(alone) is Nowhere);
    lemma_lineage_of_one(file);
    lemma_lineage_of_one(alone);
}

/// What is merged over a lineage of one descriptor is that descriptor's own.
pub proof fn lemma_lineage_of_one(file: MavenFileView)
    ensures
        inherited_properties(seq![file]) == substitute_once(file.properties),
        managed_dependencies(seq![file]) == file.dependency_management,
{
    let lineage = seq![file];
    assert(lineage.drop_first() =~= Seq::empty());
    assert(inherited_properties(lineage.drop_first()) == Map::<Seq<char>, Seq<char>>::empty());
    assert(Map::<Seq<char>, Seq<char>>::empty().union_prefer_right(file.properties)
        =~= file.properties);
    assert(managed_dependencies(lineage.drop_first()) == Seq::<MavenDependencyView>::empty());
    assert(Seq::<MavenDependencyView>::empty() + file.dependency_management
        =~= file.dependency_management);
}

/// A property is inherited: where the registry holds the parent of a
/// descriptor, the parent has no parent there and binds `name` to a text that
/// is no placeholder as a whole, and the descriptor does not bind `name`
/// itself, the text holds in the descriptor too.
pub proof fn lemma_property_is_inherited(
    registry: RegistryView,
    file: MavenFileView,
    name: Seq<char>,
)
    requires
        registry.wf(),
        registry.parent_of(file) matches Some(parent) && registry.parent_of(parent).is_none()
            && parent.properties.contains_key(name) && single_reference(
            parent.properties[name],
        ).is_none(),
        !file.properties.contains_key(name),
    ensures
        registry.effective_properties(file) matches Some(properties) && properties.contains_key(
            name,
        ) && properties[name] == registry.parent_of(file).unwrap().properties[name],
{
    let parent = registry.parent_of(file).unwrap();
    let value = parent.properties[name];
    let steps = registry.files.len();
    lemma_parent_is_registered(registry, file);
    assert(registry.lineage_within(parent, (steps - 1) as nat) == Some(seq![parent]));
    assert(seq![file] + seq![parent] =~= seq![file, parent]);
    let lineage = seq![file, parent];
    assert(registry.lineage(file) == Some(lineage));
    assert(lineage.drop_first() =~= seq![parent]);
    lemma_lineage_of_one(parent);
    let above = substitute_once(parent.properties);
    assert(above.contains_key(name) && above[name] == value);
    let merged = above.union_prefer_right(file.properties);
    assert(merged.contains_key(name) && merged[name] == value);
    assert(inherited_properties(lineage) == substitute_once(merged));
    assert(resolve_value(merged, value) == value);
}

/// The place of the parent of `file` in the registry.
pub open spec fn parent_index(registry: RegistryView, file: MavenFileView) -> Option<int> {
    match registry.locate_parent(file) {
        ParentPlace::ByPath(i) => Some(i),
        ParentPlace::ByCoordinate(i) => Some(i),
        ParentPlace::Nowhere => None,
    }
}

/// A parent is one of the descriptors of the registry.
pub proof fn lemma_parent_is_registered(registry: RegistryView, file: MavenFileView)
    requires
        registry.wf(),
    ensures
        parent_index(registry, file) matches Some(i) ==> 0 <= i < registry.files.len()
            && registry.parent_of(file) == Some(registry.files[i]),
        parent_index(registry, file).is_none() ==> registry.parent_of(file).is_none(),
{
    if let Some(path) = file.parent_file_path() {
        lemma_last_with_path(registry.paths, normal_form(path), registry.paths.len() as int);
    }
    if let Some(coordinate) = file.parent_coordinate() {
        lemma_last_with_coordinate(registry.files, coordinate, registry.files.len() as int);
    }
}

/// A walk that ends within some steps ends the same within more.
pub proof fn lemma_more_steps_change_nothing(
    registry: RegistryView,
    file: MavenFileView,
    steps: nat,
    more: nat,
)
    requires
        steps <= more,
        registry.lineage_within(file, steps).is_some(),
    ensures
        registry.lineage_within(file, more) == registry.lineage_within(file, steps),
    decreases steps,
{
    if let Some(parent) = registry.parent_of(file) {
        lemma_more_steps_change_nothing(registry, parent, (steps - 1) as nat, (more - 1) as nat);
    }
}

/// The shape of a lineage: it starts with the descriptor, each of the others
/// is the parent of the one before it, the last has no parent, and what
/// follows any of them is its own lineage, walked in as many steps as follow.
pub proof fn lemma_lineage_shape(registry: RegistryView, file: MavenFileView, steps: nat)
    requires
        registry.lineage_within(file, steps).is_some(),
    ensures
        ({
            let lineage = registry.lineage_within(file, steps).unwrap();
            &&& 1 <= lineage.len() <= steps + 1
            &&& lineage[0] == file
            &&& forall|t: int|
                0 <= t < lineage.len() ==> #[trigger] registry.lineage_within(
                    lineage[t],
                    (lineage.len() - 1 - t) as nat,
                ) == Some(lineage.skip(t))
            &&& forall|t: int|
                0 <= t < lineage.len() - 1 ==> #[trigger] registry.parent_of(lineage[t]) == Some(
                    lineage[t + 1],
                )
        }),
    decreases steps,
{
    let lineage = registry.lineage_within(file, steps).unwrap();
    match registry.parent_of(file) {
        None => {
            assert(lineage.skip(0) =~= lineage);
        },
        Some(parent) => {
            let above = registry.lineage_within(parent, (steps - 1) as nat).unwrap();
            lemma_lineage_shape(registry, parent, (steps - 1) as nat);
            assert(lineage == seq![file] + above);
            assert forall|t: int| 0 <= t < lineage.len() implies #[trigger] registry.lineage_within(
                lineage[t],
                (lineage.len() - 1 - t) as nat,
            ) == Some(lineage.skip(t)) by {
                if t == 0 {
                    assert(registry.lineage_within(above[0], (above.len() - 1 - 0) as nat) == Some(
                        above.skip(0),
                    ));
                    assert(above.skip(0) =~= above);
                    assert(lineage.len() - 1 - 0 > 0);
                    assert(lineage.skip(0) =~= lineage);
                } else {
                    assert(lineage[t] == above[t - 1]);
                    assert(registry.lineage_within(above[t - 1], (above.len() - 1 - (t - 1)) as nat)
                        == Some(above.skip(t - 1)));
                    assert(lineage.skip(t) =~= above.skip(t - 1));
                }
            }
            assert forall|t: int| 0 <= t < lineage.len() - 1 implies #[trigger] registry.parent_of(
                lineage[t],
            ) == Some(lineage[t + 1]) by {
                if t > 0 {
                    assert(lineage[t] == above[t - 1]);
                    assert(registry.parent_of(above[t - 1]) == Some(above[t]));
                }
            }
        },
    }
}

/// Among more places than the registry has descriptors, two are the same.
proof fn lemma_two_places_are_the_same(places: Seq<int>, count: nat)
    requires
        places.len() > count,
        forall|t: int| 0 <= t < places.len() ==> 0 <= #[trigger] places[t] < count,
    ensures
        exists|j: int, k: int| 0 <= j < k < places.len() && places[j] == places[k],
{
    if places.no_duplicates() {
        places.unique_seq_to_set();
        vstd::set_lib::lemma_int_range(0, count as int);
        assert(places.to_set().subset_of(vstd::set_lib::set_int_range(0, count as int))) by {
            assert forall|x: int| places.to_set().contains(x) implies vstd::set_lib::set_int_range(
                0,
                count as int,
            ).contains(x) by {
                let t = choose|t: int| 0 <= t < places.len() && places[t] == x;
                assert(0 <= places[t] < count);
            }
        }
        vstd::set_lib::lemma_len_subset(
            places.to_set(),
            vstd::set_lib::set_int_range(0, count as int),
        );
        assert(false);
    } else {
        let (i, j) = choose|i: int, j: int|
            0 <= i < places.len() && 0 <= j < places.len() && i != j && places[i] == places[j];
        if i < j {
            assert(0 <= i < j < places.len() && places[i] == places[j]);
        } else {
            assert(0 <= j < i < places.len() && places[j] == places[i]);
        }
    }
}

/// A walk that ends has no more ancestors than the registry has descriptors.
pub proof fn lemma_lineage_is_short(registry: RegistryView, file: MavenFileView, steps: nat)
    requires
        registry.wf(),
        registry.lineage_within(file, steps).is_some(),
    ensures
        registry.lineage_within(file, steps).unwrap().len() <= registry.files.len() + 1,
{
    let lineage = registry.lineage_within(file, steps).unwrap();
    let count = registry.files.len();
    lemma_lineage_shape(registry, file, steps);
    if lineage.len() > count + 1 {
        let places = Seq::new(
            (lineage.len() - 1) as nat,
            |t: int| parent_index(registry, lineage[t]).unwrap(),
        );
        assert forall|t: int| 0 <= t < places.len() implies 0 <= #[trigger] places[t] < count
            && registry.files[places[t]] == lineage[t + 1] by {
            lemma_parent_is_registered(registry, lineage[t]);
            assert(registry.parent_of(lineage[t]) == Some(lineage[t + 1]));
        }
        lemma_two_places_are_the_same(places, count);
        let (j, k) = choose|j: int, k: int| 0 <= j < k < places.len() && places[j] == places[k];
        let twice = lineage[j + 1];
        assert(registry.files[places[j]] == lineage[j + 1]);
        assert(registry.files[places[k]] == lineage[k + 1]);
        assert(lineage[k + 1] == twice);
        let far = (lineage.len() - 1 - (j + 1)) as nat;
        let near = (lineage.len() - 1 - (k + 1)) as nat;
        assert(registry.lineage_within(lineage[j + 1], far) == Some(lineage.skip(j + 1)));
        assert(registry.lineage_within(lineage[k + 1], near) == Some(lineage.skip(k + 1)));
        lemma_more_steps_change_nothing(registry, twice, near, far);
        assert(lineage.skip(j + 1).len() == lineage.skip(k + 1).len());
        assert(false);
    }
}

/// A circle is a circle: where the walk up from a descriptor does not end
/// within as many steps as the registry has descriptors, it ends within no
/// number of steps.
pub proof fn lemma_cycle_never_ends(registry: RegistryView, file: MavenFileView, steps: nat)
    requires
        registry.wf(),
        registry.lineage(file).is_none(),
    ensures
        registry.lineage_within(file, steps).is_none(),
{
    if registry.lineage_within(file, steps).is_some() {
        let lineage = registry.lineage_within(file, steps).unwrap();
        lemma_lineage_shape(registry, file, steps);
        lemma_lineage_is_short(registry, file, steps);
        let needed = (lineage.len() - 1) as nat;
        assert(registry.lineage_within(lineage[0], (lineage.len() - 1 - 0) as nat) == Some(
            lineage.skip(0),
        ));
        lemma_more_steps_change_nothing(registry, file, needed, registry.files.len());
        assert(false);
    }
}

} // verus!
