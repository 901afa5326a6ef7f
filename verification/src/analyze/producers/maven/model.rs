//! The words a dependency may carry for its type and its scope.

use crate::utils::text::{lowercase, lowercase_of, same_text};
use std::str::FromStr;
use vstd::prelude::*;

verus! {

/// The packaging a dependency asks for.
#[derive(Clone, Copy, Debug, PartialEq, Eq, Structural)]
pub enum MavenDependencyType {
    Pom,
}

/// The scope a dependency is declared for.
#[derive(Clone, Copy, Debug, PartialEq, Eq, Structural)]
pub enum MavenDependencyScope {
    Import,
    Test,
    Provided,
}

impl MavenDependencyType {
    /// The type that a word in lower case names.
    pub open spec fn named(lower: Seq<char>) -> Option<MavenDependencyType> {
        if lower == "pom"@ {
            Some(MavenDependencyType::Pom)
        } else {
            None
        }
    }

    /// What reading a word in lower case gives: the type that it names, or
    /// an error where it names none.
    pub open spec fn read(lower: Seq<char>) -> Result<MavenDependencyType, ()> {
        match Self::named(lower) {
            Some(t) => Ok(t),
            None => Err(()),
        }
    }

    /// The type that a word in lower case names, if it names one.
    pub fn from_lowercase(lower: &str) -> (r: Option<MavenDependencyType>)
        ensures
            r == Self::named(lower@),
    {
        if same_text(lower, "pom") {
            Some(MavenDependencyType::Pom)
        } else {
            None
        }
    }

    /// The type that a word names, whatever the case of its letters.
    pub fn parse(s: &str) -> (r: Option<MavenDependencyType>)
        ensures
            r == Self::named(lowercase_of(s@)),
    {
        let lower = lowercase(s);
        Self::from_lowercase(lower.as_str())
    }
}

impl FromStr for MavenDependencyType {
    type Err = ();

    /// The type that a word names, whatever the case of its letters; an
    /// error where it names none.
    fn from_str(s: &str) -> (r: Result<Self, ()>)
        ensures
            r == MavenDependencyType::read(lowercase_of(s@)),
    {
        match MavenDependencyType::parse(s) {
            Some(t) => Ok(t),
            None => Err(()),
        }
    }
}

impl MavenDependencyScope {
    /// The scope that a word in lower case names.
    pub open spec fn named(lower: Seq<char>) -> Option<MavenDependencyScope> {
        if lower == "import"@ {
            Some(MavenDependencyScope::Import)
        } else if lower == "test"@ {
            Some(MavenDependencyScope::Test)
        } else if lower == "provided"@ {
            Some(MavenDependencyScope::Provided)
        } else {
            None
        }
    }

    /// What reading a word in lower case gives: the scope that it names, or
    /// an error where it names none.
    pub open spec fn read(lower: Seq<char>) -> Result<MavenDependencyScope, ()> {
        match Self::named(lower) {
            Some(t) => Ok(t),
            None => Err(()),
        }
    }

    /// The scope that a word in lower case names, if it names one.
    pub fn from_lowercase(lower: &str) -> (r: Option<MavenDependencyScope>)
        ensures
            r == Self::named(lower@),
    {
        if same_text(lower, "import") {
            Some(MavenDependencyScope::Import)
        } else if same_text(lower, "test") {
            Some(MavenDependencyScope::Test)
        } else if same_text(lower, "provided") {
            Some(MavenDependencyScope::Provided)
        } else {
            None
        }
    }

    /// The scope that a word names, whatever the case of its letters.
    pub fn parse(s: &str) -> (r: Option<MavenDependencyScope>)
        ensures
            r == Self::named(lowercase_of(s@)),
    {
        let lower = lowercase(s);
        Self::from_lowercase(lower.as_str())
    }
}

impl FromStr for MavenDependencyScope {
    type Err = ();

    /// The scope that a word names, whatever the case of its letters; an
    /// error where it names none.
    fn from_str(s: &str) -> (r: Result<Self, ()>)
        ensures
            r == MavenDependencyScope::read(lowercase_of(s@)),
    {
        match MavenDependencyScope::parse(s) {
            Some(t) => Ok(t),
            None => Err(()),
        }
    }
}

} // verus!
