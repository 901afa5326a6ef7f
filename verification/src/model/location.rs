//! Spans of a file.

use crate::model::position::Position;
use vstd::prelude::*;

verus! {

/// A span of a file: from `start` to `end`.
#[derive(Debug)]
pub struct Location {
    pub file: String,
    pub start: Position,
    pub end: Position,
}

/// What a [`Location`] holds, with the file's path as characters.
pub struct LocationView {
    pub file: Seq<char>,
    pub start: Position,
    pub end: Position,
}

impl View for Location {
    type V = LocationView;

    open spec fn view(&self) -> LocationView {
        LocationView { file: self.file@, start: self.start, end: self.end }
    }
}

impl Clone for Location {
    fn clone(&self) -> (r: Self)
        ensures
            r == *self,
    {
        Location { file: self.file.clone(), start: self.start, end: self.end }
    }
}

impl Default for Location {
    fn default() -> (r: Self)
        ensures
            r@.file.len() == 0,
            r.start == (Position { line: 1, col: 1 }),
            r.end == (Position { line: 1, col: 1 }),
    {
        Location { file: String::new(), start: Position::default(), end: Position::default() }
    }
}

/// The view of a location that may be absent.
pub open spec fn location_option_view(l: Option<Location>) -> Option<LocationView> {
    match l {
        Some(l) => Some(l@),
        None => None,
    }
}

/// A copy of a location that may be absent.
pub fn clone_location_option(l: &Option<Location>) -> (r: Option<Location>)
    ensures
        r == *l,
{
    match l {
        Some(l) => Some(l.clone()),
        None => None,
    }
}

} // verus!
