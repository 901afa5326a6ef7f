//! Where a published descriptor is fetched from.

use crate::utils::text::{from_chars, to_chars};
use vstd::prelude::*;

verus! {

/// The repository that published descriptors are fetched from.
pub const REPOSITORY: &'static str = "https://repo1.maven.org/maven2/";

/// A group's name as a path: each dot gives way to a slash.
pub open spec fn group_path(group_id: Seq<char>) -> Seq<char> {
    group_id.map_values(|c: char| if c == '.' { '/' } else { c })
}

/// The address of the descriptor of an artifact: under the repository, the
/// group as a path, the artifact, the version, and the file named after the
/// artifact and the version.
pub open spec fn url_of(group_id: Seq<char>, artifact_id: Seq<char>, version: Seq<char>) -> Seq<
    char,
> {
    REPOSITORY@ + group_path(group_id) + "/"@ + artifact_id + "/"@ + version + "/"@ + artifact_id
        + "-"@ + version + ".pom"@
}

/// The address of the descriptor of an artifact.
///
/// For the group `io.quarkus.platform`, the artifact `quarkus-bom` and the
/// version `3.14.1` it is
/// `https://repo1.maven.org/maven2/io/quarkus/platform/quarkus-bom/3.14.1/quarkus-bom-3.14.1.pom`.
pub fn get_url(group_id: &str, artifact_id: &str, version: &str) -> (r: String)
    ensures
        r@ == url_of(group_id@, artifact_id@, version@),
{
    let group = to_chars(group_id);
    let mut parts: Vec<char> = Vec::new();
    let mut i: usize = 0;
    while i < group.len()
        invariant
            i <= group@.len(),
            parts@ == group_path(group@).take(i as int),
        decreases group@.len() - i,
    {
        let c = group[i];
        parts.push(if c == '.' { '/' } else { c });
        proof {
            assert(group_path(group@).take(i + 1) =~= group_path(group@).take(i as int).push(
                group_path(group@)[i as int],
            ));
        }
        i += 1;
    }
    proof {
        assert(group_path(group@).take(group@.len() as int) =~= group_path(group@));
    }
    let mut url = REPOSITORY.to_owned();
    url.append(from_chars(&parts).as_str());
    url.append("/");
    url.append(artifact_id);
    url.append("/");
    url.append(version);
    url.append("/");
    url.append(artifact_id);
    url.append("-");
    url.append(version);
    url.append(".pom");
    url
}

} // verus!
