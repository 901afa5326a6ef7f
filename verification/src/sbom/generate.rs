//! What a bill of materials says of each dependency.

use crate::model::dependency::{
    get_package_url, package_url, text_option_view, Dependency, DependencyView,
};
use vstd::prelude::*;

verus! {

/// The format that the bill of materials is written in.
pub const BOM_FORMAT: &'static str = "CycloneDX";

/// The version of the format.
pub const SPEC_VERSION: &'static str = "1.6";

/// The version of the bill of materials itself.
pub const BOM_VERSION: i64 = 1;

/// The kind under which every dependency is listed.
pub const COMPONENT_TYPE: &'static str = "library";

/// One component of a bill of materials.
#[derive(Debug)]
pub struct Component {
    pub name: String,
    pub kind: String,
    pub version: Option<String>,
    pub purl: Option<String>,
}

/// What a [`Component`] holds.
pub struct ComponentView {
    pub name: Seq<char>,
    pub kind: Seq<char>,
    pub version: Option<Seq<char>>,
    pub purl: Option<Seq<char>>,
}

impl View for Component {
    type V = ComponentView;

    open spec fn view(&self) -> ComponentView {
        ComponentView {
            name: self.name@,
            kind: self.kind@,
            version: text_option_view(self.version),
            purl: text_option_view(self.purl),
        }
    }
}

/// The component that lists a record: a library of the record's name; where
/// the record has a version, the version and the package URL with it.
pub open spec fn component_for(record: DependencyView) -> ComponentView {
    ComponentView {
        name: record.name,
        kind: COMPONENT_TYPE@,
        version: record.version,
        purl: match record.version {
            Some(version) => Some(package_url(record.name, record.version)),
            None => None,
        },
    }
}

/// The component that lists a record.
pub fn component_of(record: &Dependency) -> (r: Component)
    ensures
        r@ == component_for(record@),
{
    let (version, purl) = match &record.version {
        Some(version) => (
            Some(version.clone()),
            Some(get_package_url(record.name.as_str(), &record.version)),
        ),
        None => (None, None),
    };
    Component { name: record.name.clone(), kind: COMPONENT_TYPE.to_owned(), version, purl }
}

/// The components that list the given records, in order.
pub fn components_of(records: &Vec<Dependency>) -> (r: Vec<Component>)
    ensures
        r@.len() == records@.len(),
        forall|i: int| 0 <= i < r@.len() ==> (#[trigger] r@[i])@ == component_for(records@[i]@),
{
    let mut out: Vec<Component> = Vec::new();
    let mut i: usize = 0;
    while i < records.len()
        invariant
            i <= records@.len(),
            out@.len() == i,
            forall|k: int| 0 <= k < i ==> (#[trigger] out@[k])@ == component_for(records@[k]@),
        decreases records@.len() - i,
    {
        out.push(component_of(&records[i]));
        i += 1;
    }
    out
}

} // verus!
