//! The registry: every descriptor of one run, found by path or by coordinate.

use crate::analyze::producers::maven::maven_file::{
    MavenFile, MavenFileView, MavenProjectInfo, MavenProjectInfoView,
};
use crate::model::dependency::text_option_view;
use crate::utils::path::{normal, normal_form, relative, relative_to};
use crate::utils::text::same_text;
use vstd::hash_map::StringHashMap;
use vstd::prelude::*;

verus! {

/// The last place before `upto` at which `paths` holds `path`.
pub open spec fn last_with_path(paths: Seq<Seq<char>>, path: Seq<char>, upto: int) -> Option<int>
    decreases upto,
{
    if upto <= 0 {
        None
    } else if paths[upto - 1] == path {
        Some(upto - 1)
    } else {
        last_with_path(paths, path, upto - 1)
    }
}

/// The last place before `upto` at which `files` holds a descriptor of the
/// given coordinate.
pub open spec fn last_with_coordinate(
    files: Seq<MavenFileView>,
    coordinate: MavenProjectInfoView,
    upto: int,
) -> Option<int>
    decreases upto,
{
    if upto <= 0 {
        None
    } else if files[upto - 1].project_info == coordinate {
        Some(upto - 1)
    } else {
        last_with_coordinate(files, coordinate, upto - 1)
    }
}

/// What a registry holds: the base directory, the descriptors in the order in
/// which they were added, and for each the path under which it is found.
pub struct RegistryView {
    pub base_path: Seq<char>,
    pub files: Seq<MavenFileView>,
    pub paths: Seq<Seq<char>>,
}

impl RegistryView {
    /// Each descriptor has its path.
    pub open spec fn wf(self) -> bool {
        self.paths.len() == self.files.len()
    }

    /// The registry of a base directory, with no descriptor yet.
    pub open spec fn empty(base_path: Seq<char>) -> RegistryView {
        RegistryView { base_path, files: Seq::empty(), paths: Seq::empty() }
    }

    /// The descriptor can be added: it lies under the base directory.
    pub open spec fn accepts(self, file: MavenFileView) -> bool {
        relative_to(file.path, self.base_path).is_some()
    }

    /// The registry with one descriptor more, found under its path as seen
    /// from the base directory.
    pub open spec fn add(self, file: MavenFileView) -> RegistryView {
        RegistryView {
            base_path: self.base_path,
            files: self.files.push(file),
            paths: self.paths.push(relative_to(file.path, self.base_path).unwrap()),
        }
    }

    /// Which descriptor is found under `path`: the last that was added under
    /// a path that reads the same.
    pub open spec fn find_path(self, path: Seq<char>) -> Option<int> {
        last_with_path(self.paths, normal_form(path), self.paths.len() as int)
    }

    /// Which descriptor is found under `coordinate`: the last that was added
    /// with it.
    pub open spec fn find_coordinate(self, coordinate: MavenProjectInfoView) -> Option<int> {
        last_with_coordinate(self.files, coordinate, self.files.len() as int)
    }
}

/// A place found by [`last_with_path`] lies before `upto` and holds the path.
pub proof fn lemma_last_with_path(paths: Seq<Seq<char>>, path: Seq<char>, upto: int)
    requires
        upto <= paths.len(),
    ensures
        last_with_path(paths, path, upto) matches Some(i) ==> 0 <= i < upto && paths[i] == path,
        last_with_path(paths, path, upto).is_none() ==> forall|i: int|
            0 <= i < upto ==> paths[i] != path,
    decreases upto,
{
    if upto > 0 && paths[upto - 1] != path {
        lemma_last_with_path(paths, path, upto - 1);
    }
}

/// A place found by [`last_with_coordinate`] lies before `upto` and holds the
/// coordinate.
pub proof fn lemma_last_with_coordinate(
    files: Seq<MavenFileView>,
    coordinate: MavenProjectInfoView,
    upto: int,
)
    requires
        upto <= files.len(),
    ensures
        last_with_coordinate(files, coordinate, upto) matches Some(i) ==> 0 <= i < upto
            && files[i].project_info == coordinate,
        last_with_coordinate(files, coordinate, upto).is_none() ==> forall|i: int|
            0 <= i < upto ==> files[i].project_info != coordinate,
    decreases upto,
{
    if upto > 0 && files[upto - 1].project_info != coordinate {
        lemma_last_with_coordinate(files, coordinate, upto - 1);
    }
}

/// Whether two texts that may be absent are the same.
pub fn same_text_option(a: &Option<String>, b: &Option<String>) -> (r: bool)
    ensures
        r == (text_option_view(*a) == text_option_view(*b)),
{
    match (a, b) {
        (Some(x), Some(y)) => same_text(x.as_str(), y.as_str()),
        (None, None) => true,
        _ => false,
    }
}

/// Whether two coordinates are the same.
pub fn same_coordinate(a: &MavenProjectInfo, b: &MavenProjectInfo) -> (r: bool)
    ensures
        r == (a@ == b@),
{
    same_text(a.artifact_id.as_str(), b.artifact_id.as_str()) && same_text_option(
        &a.group_id,
        &b.group_id,
    ) && same_text_option(&a.version, &b.version)
}

/// The place that an index by path holds for `key`.
pub open spec fn index_of(index: Map<Seq<char>, usize>, key: Seq<char>) -> Option<int> {
    if index.contains_key(key) {
        Some(index[key] as int)
    } else {
        None
    }
}

/// The places that an index by artifact holds for `artifact`, in the order in
/// which they were added.
pub open spec fn bucket_of(index: Map<Seq<char>, Vec<usize>>, artifact: Seq<char>) -> Seq<usize> {
    if index.contains_key(artifact) {
        index[artifact]@
    } else {
        Seq::empty()
    }
}

/// The last of the first `upto` places of a bucket at which `files` holds a
/// descriptor of the given coordinate.
pub open spec fn last_in_bucket(
    files: Seq<MavenFileView>,
    coordinate: MavenProjectInfoView,
    bucket: Seq<usize>,
    upto: int,
) -> Option<int>
    decreases upto,
{
    if upto <= 0 {
        None
    } else if bucket[upto - 1] < files.len() && files[bucket[upto - 1] as int].project_info
        == coordinate {
        Some(bucket[upto - 1] as int)
    } else {
        last_in_bucket(files, coordinate, bucket, upto - 1)
    }
}

/// The index by path holds, for every path, the last place of that path.
pub open spec fn indexes_paths(index: Map<Seq<char>, usize>, paths: Seq<Seq<char>>) -> bool {
    forall|key: Seq<char>| #[trigger]
        index_of(index, key) == last_with_path(paths, key, paths.len() as int)
}

/// The index by artifact holds only places of the registry, and in the bucket
/// of its artifact the last place of every coordinate.
pub open spec fn indexes_coordinates(
    index: Map<Seq<char>, Vec<usize>>,
    files: Seq<MavenFileView>,
) -> bool {
    &&& forall|artifact: Seq<char>, j: int|
        0 <= j < bucket_of(index, artifact).len() ==> (#[trigger] bucket_of(index, artifact)[j])
            < files.len()
    &&& forall|coordinate: MavenProjectInfoView| #[trigger]
        last_with_coordinate(files, coordinate, files.len() as int) == last_in_bucket(
            files,
            coordinate,
            bucket_of(index, coordinate.artifact_id),
            bucket_of(index, coordinate.artifact_id).len() as int,
        )
}

/// What is found among the first places does not depend on what follows them.
proof fn lemma_last_with_path_of_the_first(
    paths: Seq<Seq<char>>,
    longer: Seq<Seq<char>>,
    key: Seq<char>,
    upto: int,
)
    requires
        upto <= paths.len() <= longer.len(),
        forall|i: int| 0 <= i < paths.len() ==> paths[i] == longer[i],
    ensures
        last_with_path(longer, key, upto) == last_with_path(paths, key, upto),
    decreases upto,
{
    if upto > 0 {
        lemma_last_with_path_of_the_first(paths, longer, key, upto - 1);
    }
}

/// What is found among the first places does not depend on what follows them.
proof fn lemma_last_with_coordinate_of_the_first(
    files: Seq<MavenFileView>,
    longer: Seq<MavenFileView>,
    coordinate: MavenProjectInfoView,
    upto: int,
)
    requires
        upto <= files.len() <= longer.len(),
        forall|i: int| 0 <= i < files.len() ==> files[i] == longer[i],
    ensures
        last_with_coordinate(longer, coordinate, upto) == last_with_coordinate(
            files,
            coordinate,
            upto,
        ),
    decreases upto,
{
    if upto > 0 {
        lemma_last_with_coordinate_of_the_first(files, longer, coordinate, upto - 1);
    }
}

/// What is found in the first places of a bucket does not depend on what
/// follows them, nor on the descriptors behind those that the bucket names.
proof fn lemma_last_in_bucket_of_the_first(
    files: Seq<MavenFileView>,
    longer: Seq<MavenFileView>,
    coordinate: MavenProjectInfoView,
    bucket: Seq<usize>,
    more: Seq<usize>,
    upto: int,
)
    requires
        upto <= bucket.len() <= more.len(),
        files.len() <= longer.len(),
        forall|i: int| 0 <= i < files.len() ==> files[i] == longer[i],
        forall|j: int| 0 <= j < bucket.len() ==> bucket[j] == more[j] && bucket[j] < files.len(),
    ensures
        last_in_bucket(longer, coordinate, more, upto) == last_in_bucket(
            files,
            coordinate,
            bucket,
            upto,
        ),
    decreases upto,
{
    if upto > 0 {
        lemma_last_in_bucket_of_the_first(files, longer, coordinate, bucket, more, upto - 1);
    }
}

/// A descriptor that is added is from then on the last of its path.
proof fn lemma_paths_after_add(
    index: Map<Seq<char>, usize>,
    paths: Seq<Seq<char>>,
    key: Seq<char>,
    place: usize,
)
    requires
        indexes_paths(index, paths),
        place == paths.len(),
    ensures
        indexes_paths(index.insert(key, place), paths.push(key)),
{
    let after = paths.push(key);
    assert forall|k: Seq<char>| #[trigger]
        index_of(index.insert(key, place), k) == last_with_path(
            after,
            k,
            after.len() as int,
        ) by {
        lemma_last_with_path_of_the_first(paths, after, k, paths.len() as int);
        assert(index_of(index, k) == last_with_path(paths, k, paths.len() as int));
    }
}

/// A descriptor that is added is from then on the last of its coordinate.
proof fn lemma_coordinates_after_add(
    index: Map<Seq<char>, Vec<usize>>,
    files: Seq<MavenFileView>,
    file: MavenFileView,
    bucket: Vec<usize>,
    place: usize,
)
    requires
        indexes_coordinates(index, files),
        place == files.len(),
        bucket@ == bucket_of(index, file.project_info.artifact_id).push(place),
    ensures
        indexes_coordinates(index.insert(file.project_info.artifact_id, bucket), files.push(file)),
{
    let artifact = file.project_info.artifact_id;
    let after_index = index.insert(artifact, bucket);
    let after = files.push(file);
    let old_bucket = bucket_of(index, artifact);
    assert forall|a: Seq<char>, j: int| 0 <= j < bucket_of(after_index, a).len() implies (
    #[trigger] bucket_of(after_index, a)[j]) < after.len() by {
        if a == artifact {
            if j < old_bucket.len() {
                assert(bucket_of(index, a)[j] < files.len());
            }
        } else {
            assert(bucket_of(after_index, a) == bucket_of(index, a));
            assert(bucket_of(index, a)[j] < files.len());
        }
    }
    assert forall|c: MavenProjectInfoView| #[trigger]
        last_with_coordinate(after, c, after.len() as int) == last_in_bucket(
            after,
            c,
            bucket_of(after_index, c.artifact_id),
            bucket_of(after_index, c.artifact_id).len() as int,
        ) by {
        lemma_last_with_coordinate_of_the_first(files, after, c, files.len() as int);
        assert(last_with_coordinate(files, c, files.len() as int) == last_in_bucket(
            files,
            c,
            bucket_of(index, c.artifact_id),
            bucket_of(index, c.artifact_id).len() as int,
        ));
        let was = bucket_of(index, c.artifact_id);
        assert forall|j: int| 0 <= j < was.len() implies was[j] < files.len() by {
            assert(bucket_of(index, c.artifact_id)[j] < files.len());
        }
        if c.artifact_id == artifact {
            assert(bucket_of(after_index, artifact) == bucket@);
            lemma_last_in_bucket_of_the_first(files, after, c, was, bucket@, was.len() as int);
            assert(after[place as int] == file);
        } else {
            assert(bucket_of(after_index, c.artifact_id) == was);
            lemma_last_in_bucket_of_the_first(files, after, c, was, was, was.len() as int);
            assert(after[files.len() as int].project_info != c);
        }
    }
}

/// Every descriptor of one run. Descriptors are added, never taken out; one
/// is found by its path as seen from the base directory, or by its coordinate.
/// Two indexes say where: one holds the last place of every path, the other,
/// for every artifact, the places of the descriptors of that artifact.
pub struct MavenProducerContext {
    base_path: String,
    maven_files: Vec<MavenFile>,
    relative_paths: Vec<String>,
    by_path: StringHashMap<usize>,
    by_artifact: StringHashMap<Vec<usize>>,
}

impl View for MavenProducerContext {
    type V = RegistryView;

    closed spec fn view(&self) -> RegistryView {
        RegistryView {
            base_path: self.base_path@,
            files: self.maven_files@.map_values(|f: MavenFile| f@),
            paths: self.relative_paths@.map_values(|p: String| p@),
        }
    }
}

impl MavenProducerContext {
    #[verifier::type_invariant]
    spec fn indexes_hold(self) -> bool {
        &&& self.relative_paths@.len() == self.maven_files@.len()
        &&& indexes_paths(self.by_path@, self@.paths)
        &&& indexes_coordinates(self.by_artifact@, self@.files)
    }

    /// A registry for the descriptors under `bp`, with none in it yet.
    pub fn new(bp: String) -> (r: MavenProducerContext)
        ensures
            r@ == RegistryView::empty(bp@),
    {
        let files: Vec<MavenFile> = Vec::new();
        let paths: Vec<String> = Vec::new();
        proof {
            assert(files@.map_values(|f: MavenFile| f@) =~= Seq::empty());
            assert(paths@.map_values(|p: String| p@) =~= Seq::empty());
        }
        MavenProducerContext {
            base_path: bp,
            maven_files: files,
            relative_paths: paths,
            by_path: StringHashMap::new(),
            by_artifact: StringHashMap::new(),
        }
    }

    /// The base directory.
    pub fn base_path(&self) -> (r: &String)
        ensures
            r@ == self@.base_path,
    {
        &self.base_path
    }

    /// Whether a descriptor at `path` can be added: whether it lies under the
    /// base directory.
    pub fn accepts(&self, path: &str) -> (r: bool)
        ensures
            r == relative_to(path@, self@.base_path).is_some(),
    {
        relative(path, self.base_path.as_str()).is_some()
    }

    /// Adds a copy of a descriptor. From now on it is the one found under its
    /// path and under its coordinate.
    pub fn add_maven_file(&mut self, maven_file: &MavenFile)
        requires
            old(self)@.accepts(maven_file@),
        ensures
            final(self)@ == old(self)@.add(maven_file@),
            final(self)@.wf(),
    {
        proof {
            use_type_invariant(&*self);
        }
        let key = relative(maven_file.path.as_str(), self.base_path.as_str()).unwrap();
        let mut taken = MavenProducerContext::new(String::new());
        core::mem::swap(self, &mut taken);
        let MavenProducerContext {
            base_path,
            mut maven_files,
            mut relative_paths,
            mut by_path,
            mut by_artifact,
        } = taken;
        let ghost before = RegistryView {
            base_path: base_path@,
            files: maven_files@.map_values(|f: MavenFile| f@),
            paths: relative_paths@.map_values(|p: String| p@),
        };
        let ghost paths_before = by_path@;
        let ghost artifacts_before = by_artifact@;
        let place: usize = maven_files.len();
        let artifact = maven_file.project_info.artifact_id.clone();
        let mut bucket: Vec<usize> = Vec::new();
        match by_artifact.get(artifact.as_str()) {
            Some(places) => {
                let mut j: usize = 0;
                while j < places.len()
                    invariant
                        j <= places@.len(),
                        bucket@ == places@.take(j as int),
                    decreases places@.len() - j,
                {
                    bucket.push(places[j]);
                    proof {
                        assert(places@.take(j + 1) == places@.take(j as int).push(places@[j as int]));
                    }
                    j += 1;
                }
                proof {
                    assert(places@.take(places@.len() as int) == places@);
                }
            },
            None => {},
        }
        bucket.push(place);
        proof {
            lemma_paths_after_add(paths_before, before.paths, key@, place);
            lemma_coordinates_after_add(
                artifacts_before,
                before.files,
                maven_file@,
                bucket,
                place,
            );
        }
        by_artifact.insert(artifact, bucket);
        by_path.insert(key.clone(), place);
        maven_files.push(maven_file.clone());
        relative_paths.push(key);
        proof {
            assert(maven_files@.map_values(|f: MavenFile| f@) =~= before.add(maven_file@).files);
            assert(relative_paths@.map_values(|p: String| p@) =~= before.add(maven_file@).paths);
        }
        *self = MavenProducerContext {
            base_path,
            maven_files,
            relative_paths,
            by_path,
            by_artifact,
        };
    }

    /// The descriptor with the given coordinate, if one was added.
    pub fn get_maven_file_by_project_info(&self, project_info: &MavenProjectInfo) -> (r: Option<
        &MavenFile,
    >)
        ensures
            self@.wf(),
            match self@.find_coordinate(project_info@) {
                Some(i) => 0 <= i < self@.files.len() && r.is_some() && r.unwrap()@
                    == self@.files[i],
                None => r.is_none(),
            },
    {
        proof {
            use_type_invariant(self);
            assert(last_with_coordinate(
                self@.files,
                project_info@,
                self@.files.len() as int,
            ) == last_in_bucket(
                self@.files,
                project_info@,
                bucket_of(self.by_artifact@, project_info@.artifact_id),
                bucket_of(self.by_artifact@, project_info@.artifact_id).len() as int,
            ));
        }
        match self.by_artifact.get(project_info.artifact_id.as_str()) {
            Some(places) => {
                let mut n: usize = places.len();
                while n > 0
                    invariant
                        n <= places@.len(),
                        self@.wf(),
                        self@.files.len() == self.maven_files@.len(),
                        self@.files == self.maven_files@.map_values(|f: MavenFile| f@),
                        places@ == bucket_of(self.by_artifact@, project_info@.artifact_id),
                        forall|j: int| 0 <= j < places@.len() ==> places@[j] < self@.files.len(),
                        self@.find_coordinate(project_info@) == last_in_bucket(
                            self@.files,
                            project_info@,
                            places@,
                            n as int,
                        ),
                    decreases n,
                {
                    let place = places[n - 1];
                    if same_coordinate(&self.maven_files[place].project_info, project_info) {
                        return Some(&self.maven_files[place]);
                    }
                    n -= 1;
                }
                None
            },
            None => None,
        }
    }

    /// The descriptor at `path`, a path as seen from the base directory, if
    /// one was added.
    pub fn get_maven_file_by_path(&self, path: &str) -> (r: Option<&MavenFile>)
        ensures
            self@.wf(),
            match self@.find_path(path@) {
                Some(i) => 0 <= i < self@.files.len() && r.is_some() && r.unwrap()@
                    == self@.files[i],
                None => r.is_none(),
            },
    {
        let key = normal(path);
        proof {
            use_type_invariant(self);
            assert(index_of(self.by_path@, key@) == last_with_path(
                self@.paths,
                key@,
                self@.paths.len() as int,
            ));
            lemma_last_with_path(self@.paths, key@, self@.paths.len() as int);
        }
        match self.by_path.get(key.as_str()) {
            Some(place) => Some(&self.maven_files[*place]),
            None => None,
        }
    }

    /// Every descriptor, in the order in which they were added.
    pub fn get_all_files(&self) -> (r: &Vec<MavenFile>)
        ensures
            self@.wf(),
            r@.map_values(|f: MavenFile| f@) == self@.files,
    {
        proof {
            use_type_invariant(self);
        }
        &self.maven_files
    }

    /// How many descriptors were added.
    pub fn len(&self) -> (r: usize)
        ensures
            self@.wf(),
            r == self@.files.len(),
    {
        proof {
            use_type_invariant(self);
        }
        self.maven_files.len()
    }
}

impl Default for MavenProducerContext {
    fn default() -> (r: Self)
        ensures
            r@ == RegistryView::empty(Seq::<char>::empty()),
    {
        MavenProducerContext::new(String::new())
    }
}

} // verus!
