//! The records a bill of materials lists.

use crate::model::location::{clone_location_option, location_option_view, Location, LocationView};
use vstd::prelude::*;

verus! {

/// The kind of a listed component.
#[derive(Clone, Copy, Debug, PartialEq, Eq, Structural)]
pub enum DependencyType {
    Library,
}

impl Default for DependencyType {
    fn default() -> (r: Self)
        ensures
            r == DependencyType::Library,
    {
        DependencyType::Library
    }
}

/// Where a dependency is declared: the whole element, the value of its
/// artifact id and, where it has one, the value of its version.
#[derive(Debug)]
pub struct DependencyLocation {
    pub block: Location,
    pub name: Location,
    pub version: Option<Location>,
}

/// What a [`DependencyLocation`] holds.
pub struct DependencyLocationView {
    pub block: LocationView,
    pub name: LocationView,
    pub version: Option<LocationView>,
}

impl View for DependencyLocation {
    type V = DependencyLocationView;

    open spec fn view(&self) -> DependencyLocationView {
        DependencyLocationView {
            block: self.block@,
            name: self.name@,
            version: location_option_view(self.version),
        }
    }
}

impl Clone for DependencyLocation {
    fn clone(&self) -> (r: Self)
        ensures
            r == *self,
    {
        DependencyLocation {
            block: self.block.clone(),
            name: self.name.clone(),
            version: clone_location_option(&self.version),
        }
    }
}

impl Default for DependencyLocation {
    fn default() -> (r: Self)
        ensures
            r.version.is_none(),
    {
        DependencyLocation { block: Location::default(), name: Location::default(), version: None }
    }
}

/// The view of a dependency location that may be absent.
pub open spec fn dependency_location_option_view(l: Option<DependencyLocation>) -> Option<
    DependencyLocationView,
> {
    match l {
        Some(l) => Some(l@),
        None => None,
    }
}

/// A copy of a dependency location that may be absent.
pub fn clone_dependency_location_option(l: &Option<DependencyLocation>) -> (r: Option<
    DependencyLocation,
>)
    ensures
        r == *l,
{
    match l {
        Some(l) => Some(l.clone()),
        None => None,
    }
}

/// The view of a text that may be absent.
pub open spec fn text_option_view(t: Option<String>) -> Option<Seq<char>> {
    match t {
        Some(t) => Some(t@),
        None => None,
    }
}

/// A copy of a text that may be absent.
pub fn clone_text_option(t: &Option<String>) -> (r: Option<String>)
    ensures
        r == *t,
{
    match t {
        Some(t) => Some(t.clone()),
        None => None,
    }
}

/// What a package URL of a Maven artifact starts with.
pub const PACKAGE_URL_SCHEME: &'static str = "pkg:maven/";

/// The package URL of a dependency: the scheme, the name and, where there is
/// one, the version behind an at sign.
pub open spec fn package_url(name: Seq<char>, version: Option<Seq<char>>) -> Seq<char> {
    match version {
        Some(version) => PACKAGE_URL_SCHEME@ + name + "@"@ + version,
        None => PACKAGE_URL_SCHEME@ + name,
    }
}

/// The package URL of a dependency of the given name and version.
pub fn get_package_url(name: &str, version: &Option<String>) -> (r: String)
    ensures
        r@ == package_url(name@, text_option_view(*version)),
{
    let mut url = PACKAGE_URL_SCHEME.to_owned();
    url.append(name);
    match version {
        Some(version) => {
            url.append("@");
            url.append(version.as_str());
        },
        None => {},
    }
    url
}

/// One resolved dependency: `name` is the group and the artifact with a colon
/// between them, `purl` the package URL of that name and the version.
#[derive(Debug)]
pub struct Dependency {
    pub kind: DependencyType,
    pub name: String,
    pub version: Option<String>,
    pub purl: String,
    pub location: Option<DependencyLocation>,
}

/// What a [`Dependency`] holds.
pub struct DependencyView {
    pub kind: DependencyType,
    pub name: Seq<char>,
    pub version: Option<Seq<char>>,
    pub purl: Seq<char>,
    pub location: Option<DependencyLocationView>,
}

impl View for Dependency {
    type V = DependencyView;

    open spec fn view(&self) -> DependencyView {
        DependencyView {
            kind: self.kind,
            name: self.name@,
            version: text_option_view(self.version),
            purl: self.purl@,
            location: dependency_location_option_view(self.location),
        }
    }
}

impl Clone for Dependency {
    fn clone(&self) -> (r: Self)
        ensures
            r == *self,
    {
        Dependency {
            kind: self.kind,
            name: self.name.clone(),
            version: clone_text_option(&self.version),
            purl: self.purl.clone(),
            location: clone_dependency_location_option(&self.location),
        }
    }
}

impl Default for Dependency {
    fn default() -> (r: Self)
        ensures
            r.kind == DependencyType::Library,
            r@.name.len() == 0,
            r.version.is_none(),
            r@.purl.len() == 0,
            r.location.is_none(),
    {
        Dependency {
            kind: DependencyType::Library,
            name: String::new(),
            version: None,
            purl: String::new(),
            location: None,
        }
    }
}

} // verus!
