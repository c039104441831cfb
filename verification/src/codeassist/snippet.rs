//! Pieces of files.

use vstd::prelude::*;
use crate::codeassist::content::{snippet, with_document, ContentManager, DocumentModel};
use crate::codeassist::position::Range;
use crate::text::texts;

verus! {

/// A piece of text with what it is.
#[derive(Debug)]
pub struct SnippetInfo {
    pub description: String,
    pub snippet: String,
}

/// Holds the files from which pieces are taken.
#[derive(Debug)]
pub struct SnippetFetcher {
    pub content: ContentManager,
}

impl SnippetFetcher {
    /// The lines of the files, by address.
    pub open spec fn files(self) -> Map<Seq<char>, DocumentModel> {
        self.content.content()
    }

    /// Whether no file is held twice.
    pub open spec fn well_formed(self) -> bool {
        self.content.well_formed()
    }

    /// No file is held.
    pub fn new() -> (r: Self)
        ensures
            r.well_formed(),
            r.files() == Map::<Seq<char>, DocumentModel>::empty(),
    {
        SnippetFetcher { content: ContentManager::new() }
    }

    /// Whether a file is still to be read.
    pub fn is_wanted(&self, uri: &str) -> (r: bool)
        ensures
            r == !self.files().contains_key(uri@),
    {
        !self.content.has_document(uri)
    }

    /// Holds a file, unless it is held already.
    pub fn load_file(&mut self, uri: &str, lines: Vec<String>)
        requires
            old(self).well_formed(),
        ensures
            final(self).well_formed(),
            final(self).files() == (if old(self).files().contains_key(uri@) {
                old(self).files()
            } else {
                with_document(old(self).files(), uri@, texts(lines@), None)
            }),
    {
        self.content.maybe_load_file(uri, lines)
    }

    /// A line of a file.
    pub fn get_line(&self, uri: &str, line: usize) -> (r: Option<&str>)
        ensures
            match r {
                Some(text) => self.files().contains_key(uri@) && line < self.files()[uri@].lines.len()
                    && text@ == self.files()[uri@].lines[line as int],
                None => !(self.files().contains_key(uri@) && line < self.files()[uri@].lines.len()),
            },
    {
        self.content.get_line(uri, line)
    }

    /// Whether a range of a file is cut between whole characters.
    pub fn can_get_snippet(&self, uri: &str, range: &Range) -> (r: bool)
        ensures
            r == self.content.fits(uri@, *range),
    {
        self.content.can_get_snippet(uri, range)
    }

    /// A piece of a file. Nothing, if the file is not held or has no lines.
    pub fn get_snippet(&self, uri: &str, range: &Range) -> (r: Option<String>)
        requires
            self.content.fits(uri@, *range),
        ensures
            if self.files().contains_key(uri@) && self.files()[uri@].lines.len() > 0 {
                r.deep_view() == snippet(self.files()[uri@].lines, *range)
            } else {
                r is None
            },
    {
        self.content.get_snippet(uri, range)
    }

    /// The number of lines of a file.
    pub fn line_count(&self, uri: &str) -> (r: usize)
        ensures
            r == (if self.files().contains_key(uri@) {
                self.files()[uri@].lines.len()
            } else {
                0
            }),
    {
        self.content.line_count(uri)
    }
}

} // verus!
