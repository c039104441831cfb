//! Places in documents.

use vstd::prelude::*;

verus! {

/// A place in a document: a line, and a place in the line.
#[derive(Clone, Copy, Debug, PartialEq, Eq, Structural)]
pub struct Position {
    pub line: u32,
    pub character: u32,
}

/// The places from one up to another.
#[derive(Clone, Copy, Debug, PartialEq, Eq, Structural)]
pub struct Range {
    pub start: Position,
    pub end: Position,
}

/// A range of a document.
#[derive(Debug)]
pub struct Location {
    pub uri: String,
    pub range: Range,
}

/// What a [`Location`] says.
#[verifier::ext_equal]
pub ghost struct LocationModel {
    pub uri: Seq<char>,
    pub range: Range,
}

impl DeepView for Location {
    type V = LocationModel;

    open spec fn deep_view(&self) -> LocationModel {
        LocationModel { uri: self.uri@, range: self.range }
    }
}

impl Clone for Location {
    fn clone(&self) -> (r: Self)
        ensures
            r.deep_view() == self.deep_view(),
    {
        Location { uri: self.uri.clone(), range: self.range }
    }
}

/// The replacement of a range by a text.
#[derive(Debug)]
pub struct TextEdit {
    pub range: Range,
    pub new_text: String,
}

/// What a [`TextEdit`] says.
#[verifier::ext_equal]
pub ghost struct TextEditModel {
    pub range: Range,
    pub new_text: Seq<char>,
}

impl DeepView for TextEdit {
    type V = TextEditModel;

    open spec fn deep_view(&self) -> TextEditModel {
        TextEditModel { range: self.range, new_text: self.new_text@ }
    }
}

impl Position {
    /// Whether the place is not behind the other.
    pub open spec fn spec_not_behind(self, other: Position) -> bool {
        self.line < other.line || (self.line == other.line && self.character <= other.character)
    }

    /// Whether the place is not behind the other.
    pub fn not_behind(&self, other: &Position) -> (r: bool)
        ensures
            r == self.spec_not_behind(*other),
    {
        self.line < other.line || (self.line == other.line && self.character <= other.character)
    }
}

/// The range of a single place.
pub open spec fn spec_at(position: Position) -> Range {
    Range { start: position, end: position }
}

/// The range of a single place.
pub fn at(position: Position) -> (r: Range)
    ensures
        r == spec_at(position),
{
    Range { start: position, end: position }
}

} // verus!
