//! The definitions of the types that the code to be completed speaks of.

use serde_json::Value;
use vstd::prelude::*;
use crate::codeassist::content::{snippet, ContentManager};
use crate::codeassist::position::{Location, LocationModel, Position, Range};
use crate::codeassist::symbols::{DescribedPosition, DescribedPositionModel};
use crate::json::{json, map_insert, new_map, no_members, null_value, object_value, text_value, Json};
use crate::text::{concat, join, join_with, same, starts_with, texts, trimmed};

verus! {

// ---------------------------------------------------------------------------------------------
// Locations.

/// Whether two locations are the same.
fn same_location(a: &Location, b: &Location) -> (r: bool)
    ensures
        r == (a.deep_view() == b.deep_view()),
{
    same(a.uri.as_str(), b.uri.as_str()) && a.range == b.range
}

/// The place of a definition, with the symbols that led there.
#[derive(Debug)]
pub struct DescribedLocation {
    pub location: Location,
    pub descriptions: Vec<String>,
}

/// What a [`DescribedLocation`] says.
#[verifier::ext_equal]
pub ghost struct DescribedLocationModel {
    pub location: LocationModel,
    pub descriptions: Seq<Seq<char>>,
}

impl DeepView for DescribedLocation {
    type V = DescribedLocationModel;

    open spec fn deep_view(&self) -> DescribedLocationModel {
        DescribedLocationModel {
            location: self.location.deep_view(),
            descriptions: self.descriptions.deep_view(),
        }
    }
}

/// The definitions with one more symbol that leads to a location. Each location stands once.
pub open spec fn with_symbol(
    definitions: Seq<DescribedLocationModel>,
    location: LocationModel,
    description: Seq<char>,
) -> Seq<DescribedLocationModel>
    decreases definitions.len(),
{
    if definitions.len() == 0 {
        seq![DescribedLocationModel { location, descriptions: seq![description] }]
    } else if definitions[0].location == location {
        definitions.update(
            0,
            DescribedLocationModel {
                location,
                descriptions: definitions[0].descriptions.push(description),
            },
        )
    } else {
        seq![definitions[0]] + with_symbol(definitions.drop_first(), location, description)
    }
}

/// Whether a document belongs to the project: whether its address begins with that of the project,
/// where there is one.
pub open spec fn is_in_project(uri: Seq<char>, root_uri: Option<Seq<char>>) -> bool {
    match root_uri {
        Some(root) => root.is_prefix_of(uri),
        None => true,
    }
}

/// The definitions with the locations to which one more symbol leads. Those outside the project do
/// not count.
pub open spec fn with_locations(
    definitions: Seq<DescribedLocationModel>,
    locations: Seq<LocationModel>,
    description: Seq<char>,
    root_uri: Option<Seq<char>>,
) -> Seq<DescribedLocationModel>
    decreases locations.len(),
{
    if locations.len() == 0 {
        definitions
    } else {
        let before = with_locations(definitions, locations.drop_last(), description, root_uri);
        if is_in_project(locations.last().uri, root_uri) {
            with_symbol(before, locations.last(), description)
        } else {
            before
        }
    }
}

/// The definitions to which symbols lead, with the locations of each of them.
pub open spec fn definitions_of(
    symbols: Seq<DescribedPositionModel>,
    locations: Seq<Seq<LocationModel>>,
    root_uri: Option<Seq<char>>,
) -> Seq<DescribedLocationModel>
    decreases symbols.len(),
{
    if symbols.len() == 0 {
        Seq::empty()
    } else {
        with_locations(
            definitions_of(symbols.drop_last(), locations, root_uri),
            locations[symbols.len() - 1],
            symbols.last().description,
            root_uri,
        )
    }
}

fn add_symbol(definitions: &mut Vec<DescribedLocation>, location: &Location, description: &str)
    ensures
        final(definitions).deep_view() == with_symbol(
            old(definitions).deep_view(),
            location.deep_view(),
            description@,
        ),
{
    let ghost all = definitions.deep_view();
    let ghost place = location.deep_view();
    let mut i: usize = 0;
    assert(all.skip(0) =~= all);
    assert(all.take(0) + with_symbol(all.skip(0), place, description@) =~= with_symbol(
        all,
        place,
        description@,
    ));
    while i < definitions.len()
        invariant
            i <= definitions@.len(),
            definitions.deep_view() == all,
            all == old(definitions).deep_view(),
            place == location.deep_view(),
            with_symbol(all, place, description@) == all.take(i as int) + with_symbol(
                all.skip(i as int),
                place,
                description@,
            ),
        decreases definitions.len() - i,
    {
        assert(all.skip(i as int)[0] == definitions@[i as int].deep_view());
        if same_location(&definitions[i].location, location) {
            let ghost earlier = definitions@[i as int].deep_view();
            definitions[i].descriptions.push(description.to_owned());
            assert(definitions@[i as int].descriptions.deep_view() =~= earlier.descriptions.push(
                description@,
            ));
            assert(definitions.deep_view() =~= all.take(i as int) + all.skip(i as int).update(
                0,
                DescribedLocationModel {
                    location: place,
                    descriptions: earlier.descriptions.push(description@),
                },
            ));
            return;
        }
        assert(all.skip(i as int).drop_first() =~= all.skip(i + 1));
        assert(all.take(i as int) + (seq![all.skip(i as int)[0]] + with_symbol(
            all.skip(i + 1),
            place,
            description@,
        )) =~= all.take(i + 1) + with_symbol(all.skip(i + 1), place, description@));
        i = i + 1;
    }
    let mut one: Vec<String> = Vec::new();
    one.push(description.to_owned());
    assert(one.deep_view() =~= seq![description@]);
    let ghost entry = DescribedLocationModel { location: place, descriptions: seq![description@] };
    definitions.push(DescribedLocation { location: location.clone(), descriptions: one });
    assert(all.skip(i as int).len() == 0);
    assert(definitions.deep_view() =~= all.take(i as int) + seq![entry]);
}

fn add_locations(
    definitions: &mut Vec<DescribedLocation>,
    locations: &Vec<Location>,
    description: &str,
    root_uri: &Option<String>,
)
    ensures
        final(definitions).deep_view() == with_locations(
            old(definitions).deep_view(),
            locations.deep_view(),
            description@,
            root_uri.deep_view(),
        ),
{
    let ghost given = definitions.deep_view();
    let ghost places = locations.deep_view();
    let mut i: usize = 0;
    assert(places.take(0) =~= Seq::<LocationModel>::empty());
    while i < locations.len()
        invariant
            i <= locations@.len(),
            given == old(definitions).deep_view(),
            places == locations.deep_view(),
            definitions.deep_view() == with_locations(
                given,
                places.take(i as int),
                description@,
                root_uri.deep_view(),
            ),
        decreases locations.len() - i,
    {
        assert(places.take(i + 1).drop_last() =~= places.take(i as int));
        assert(places.take(i + 1).last() == locations@[i as int].deep_view());
        let ours = match root_uri {
            Some(root) => starts_with(locations[i].uri.as_str(), root.as_str()),
            None => true,
        };
        if ours {
            add_symbol(definitions, &locations[i], description);
        }
        i = i + 1;
    }
    assert(places.take(places.len() as int) =~= places);
}

/// The definitions to which symbols lead, from the locations that the language server tells for each
/// of them.
pub fn get_type_definition_locations(
    symbols: &Vec<DescribedPosition>,
    locations: &Vec<Vec<Location>>,
    root_uri: &Option<String>,
) -> (r: Vec<DescribedLocation>)
    requires
        symbols@.len() == locations@.len(),
    ensures
        r.deep_view() == definitions_of(
            symbols.deep_view(),
            locations.deep_view(),
            root_uri.deep_view(),
        ),
{
    let ghost all = symbols.deep_view();
    let ghost places = locations.deep_view();
    let mut r: Vec<DescribedLocation> = Vec::new();
    let mut i: usize = 0;
    assert(all.take(0) =~= Seq::<DescribedPositionModel>::empty());
    assert(r.deep_view() =~= Seq::<DescribedLocationModel>::empty());
    while i < symbols.len()
        invariant
            i <= symbols@.len(),
            symbols@.len() == locations@.len(),
            all == symbols.deep_view(),
            places == locations.deep_view(),
            r.deep_view() == definitions_of(all.take(i as int), places, root_uri.deep_view()),
        decreases symbols.len() - i,
    {
        assert(all.take(i + 1).drop_last() =~= all.take(i as int));
        assert(all.take(i + 1).last() == symbols@[i as int].deep_view());
        assert(places[i as int] == locations@[i as int].deep_view());
        add_locations(&mut r, &locations[i], symbols[i].description.as_str(), root_uri);
        i = i + 1;
    }
    assert(all.take(all.len() as int) =~= all);
    r
}

// ---------------------------------------------------------------------------------------------
// Folding ranges.

/// The first and the last of the lines that can be folded together.
#[derive(Clone, Copy, Debug, PartialEq, Eq, Structural)]
pub struct SimpleFoldingRange {
    pub start_line: u32,
    pub end_line: u32,
}

/// The lines of one document that can be folded.
#[derive(Debug)]
pub struct FileFoldingRanges {
    pub uri: String,
    pub ranges: Vec<SimpleFoldingRange>,
}

/// The folding ranges of the documents for which the language server told them.
#[derive(Debug)]
pub struct FoldingRanges {
    pub files: Vec<FileFoldingRanges>,
}

/// The folding ranges of the first entry for a document.
pub open spec fn ranges_of(files: Seq<FileFoldingRanges>, uri: Seq<char>) -> Option<
    Seq<SimpleFoldingRange>,
>
    decreases files.len(),
{
    if files.len() == 0 {
        None
    } else if files[0].uri@ == uri {
        Some(files[0].ranges@)
    } else {
        ranges_of(files.drop_first(), uri)
    }
}

impl FoldingRanges {
    /// The folding ranges of a document, if they are known.
    pub open spec fn of(self, uri: Seq<char>) -> Option<Seq<SimpleFoldingRange>> {
        ranges_of(self.files@, uri)
    }

    /// No folding ranges.
    pub fn new() -> (r: Self)
        ensures
            forall|uri: Seq<char>| (#[trigger] r.of(uri)) is None,
    {
        FoldingRanges { files: Vec::new() }
    }

    fn find(&self, uri: &str) -> (r: Option<&Vec<SimpleFoldingRange>>)
        ensures
            match r {
                Some(ranges) => self.of(uri@) == Some(ranges@),
                None => self.of(uri@) is None,
            },
    {
        let mut i: usize = 0;
        assert(self.files@.skip(0) =~= self.files@);
        while i < self.files.len()
            invariant
                i <= self.files@.len(),
                self.of(uri@) == ranges_of(self.files@.skip(i as int), uri@),
            decreases self.files.len() - i,
        {
            assert(self.files@.skip(i as int)[0] == self.files@[i as int]);
            if same(self.files[i].uri.as_str(), uri) {
                return Some(&self.files[i].ranges);
            }
            assert(self.files@.skip(i as int).drop_first() =~= self.files@.skip(i + 1));
            i = i + 1;
        }
        None
    }

    /// Whether the language server is still to be asked for the folding ranges of a document.
    pub fn is_wanted(&self, uri: &str) -> (r: bool)
        ensures
            r == (self.of(uri@) is None),
    {
        self.find(uri).is_none()
    }

    /// Takes what the language server tells. A document of which it tells nothing stays wanted.
    pub fn receive(&mut self, uri: String, ranges: Option<Vec<SimpleFoldingRange>>)
        requires
            old(self).of(uri@) is None,
        ensures
            forall|other: Seq<char>|
                #![trigger final(self).of(other)]
                final(self).of(other) == (if other == uri@ && ranges is Some {
                    Some(ranges->0@)
                } else {
                    old(self).of(other)
                }),
    {
        if let Some(ranges) = ranges {
            let ghost before = self.files@;
            self.files.push(FileFoldingRanges { uri, ranges });
            let ghost entry = self.files@.last();
            assert(self.files@ =~= before.push(entry));
            assert forall|other: Seq<char>|
                #![trigger self.of(other)]
                self.of(other) == (if other == uri@ {
                    Some(ranges@)
                } else {
                    ranges_of(before, other)
                }) by {
                lemma_ranges_of_push(before, entry, other);
            }
        }
    }
}

proof fn lemma_ranges_of_push(files: Seq<FileFoldingRanges>, entry: FileFoldingRanges, uri: Seq<char>)
    ensures
        ranges_of(files.push(entry), uri) == (match ranges_of(files, uri) {
            Some(ranges) => Some(ranges),
            None => if entry.uri@ == uri {
                Some(entry.ranges@)
            } else {
                None
            },
        }),
    decreases files.len(),
{
    let after = files.push(entry);
    if files.len() == 0 {
        assert(after[0] == entry);
        assert(after.drop_first() =~= files);
    } else {
        assert(after[0] == files[0]);
        assert(after.drop_first() =~= files.drop_first().push(entry));
        lemma_ranges_of_push(files.drop_first(), entry, uri);
    }
}

/// The last of the lines that are folded with a line, if the line is the first of such.
pub open spec fn fold_end(ranges: Seq<SimpleFoldingRange>, line: int) -> Option<int>
    decreases ranges.len(),
{
    if ranges.len() == 0 {
        None
    } else if ranges[0].start_line == line {
        Some(ranges[0].end_line as int)
    } else {
        fold_end(ranges.drop_first(), line)
    }
}

fn end_of_fold(ranges: &Vec<SimpleFoldingRange>, line: usize) -> (r: Option<usize>)
    ensures
        match r {
            Some(end) => fold_end(ranges@, line as int) == Some(end as int),
            None => fold_end(ranges@, line as int) is None,
        },
{
    let mut i: usize = 0;
    assert(ranges@.skip(0) =~= ranges@);
    while i < ranges.len()
        invariant
            i <= ranges@.len(),
            fold_end(ranges@, line as int) == fold_end(ranges@.skip(i as int), line as int),
        decreases ranges.len() - i,
    {
        assert(ranges@.skip(i as int)[0] == ranges@[i as int]);
        if ranges[i].start_line as usize == line {
            return Some(ranges[i].end_line as usize);
        }
        assert(ranges@.skip(i as int).drop_first() =~= ranges@.skip(i + 1));
        i = i + 1;
    }
    None
}

// ---------------------------------------------------------------------------------------------
// The text of a definition.

/// Where a definition ends if it is found to end at a line: at the end of the lines that are folded
/// with it, or before a line without text.
pub open spec fn end_at(
    lines: Seq<Seq<char>>,
    ranges: Option<Seq<SimpleFoldingRange>>,
    line: int,
) -> Option<int> {
    let folded = match ranges {
        Some(ranges) => fold_end(ranges, line),
        None => None,
    };
    match folded {
        Some(end) => Some(end),
        None => if trimmed(lines[line]).len() == 0 {
            Some(if line > 0 {
                line - 1
            } else {
                0
            })
        } else {
            None
        },
    }
}

/// Where a definition ends that begins at a line or behind it, if an end is found.
pub open spec fn end_from(
    lines: Seq<Seq<char>>,
    ranges: Option<Seq<SimpleFoldingRange>>,
    line: int,
) -> Option<int>
    decreases lines.len() - line,
{
    if line >= lines.len() {
        None
    } else {
        match end_at(lines, ranges, line) {
            Some(end) => Some(end),
            None => end_from(lines, ranges, line + 1),
        }
    }
}

/// The whole lines of a definition: those of its location, and the lines up to its end.
pub open spec fn context_range(
    lines: Seq<Seq<char>>,
    ranges: Option<Seq<SimpleFoldingRange>>,
    range: Range,
) -> Range {
    let last = match end_from(lines, ranges, range.start.line as int) {
        Some(end) => if end > range.end.line {
            (end % 0x1_0000_0000) as u32
        } else {
            range.end.line
        },
        None => range.end.line,
    };
    Range {
        start: Position { line: range.start.line, character: 0 },
        end: Position { line: last, character: u32::MAX },
    }
}

/// The lines of a document, if it is known.
pub open spec fn lines_of(content: ContentManager, uri: Seq<char>) -> Seq<Seq<char>> {
    if content.content().contains_key(uri) {
        content.content()[uri].lines
    } else {
        Seq::empty()
    }
}

fn range_of_context(content: &ContentManager, location: &Location, folding_ranges: &FoldingRanges) -> (r:
    Range)
    ensures
        r == context_range(
            lines_of(*content, location.uri@),
            folding_ranges.of(location.uri@),
            location.range,
        ),
{
    let uri = location.uri.as_str();
    let ghost lines = lines_of(*content, uri@);
    let ghost ranges = folding_ranges.of(uri@);
    let known = folding_ranges.find(uri);
    let count: usize = content.line_count(uri);
    let first: usize = location.range.start.line as usize;
    let mut last: u32 = location.range.end.line;
    let mut line: usize = first;
    let mut found = false;
    while line < count && !found
        invariant
            count == lines.len(),
            lines == lines_of(*content, uri@),
            ranges == folding_ranges.of(uri@),
            uri@ == location.uri@,
            match known {
                Some(known) => ranges == Some(known@),
                None => ranges is None,
            },
            first == location.range.start.line,
            first <= line,
            line <= count || line == first,
            !found ==> last == location.range.end.line && end_from(lines, ranges, first as int) == end_from(
                lines,
                ranges,
                line as int,
            ),
            found ==> context_range(lines, ranges, location.range).end.line == last,
        decreases count - line + (if found { 0int } else { 1int }),
    {
        let mut new_end_line: Option<usize> = match known {
            Some(known) => end_of_fold(known, line),
            None => None,
        };
        if new_end_line.is_none() {
            match content.get_line(uri, line) {
                Some(text) => {
                    let kept = text.trim();
                    proof {
                        broadcast use vstd::string::group_string_axioms;

                    }
                    if kept.is_empty() {
                        new_end_line = Some(
                            if line > 0 {
                                line - 1
                            } else {
                                0
                            },
                        );
                    }
                },
                None => {},
            }
        }
        match new_end_line {
            Some(end) => {
                assert(end_from(lines, ranges, line as int) == Some(end as int));
                if end > last as usize {
                    let low: u64 = end as u64 % 0x1_0000_0000;
                    last = low as u32;
                }
                found = true;
            },
            None => {
                assert(end_at(lines, ranges, line as int) is None);
                line = line + 1;
            },
        }
    }
    Range {
        start: Position { line: location.range.start.line, character: 0 },
        end: Position { line: last, character: u32::MAX },
    }
}

// ---------------------------------------------------------------------------------------------
// Snippets.

/// A piece of text that is handed to the model for its information.
#[derive(Debug)]
pub struct ContextSnippet {
    pub descriptions: Option<String>,
    pub snippet: String,
}

/// What a [`ContextSnippet`] says.
#[verifier::ext_equal]
pub ghost struct ContextSnippetModel {
    pub descriptions: Option<Seq<char>>,
    pub snippet: Seq<char>,
}

impl DeepView for ContextSnippet {
    type V = ContextSnippetModel;

    open spec fn deep_view(&self) -> ContextSnippetModel {
        ContextSnippetModel { descriptions: self.descriptions.deep_view(), snippet: self.snippet@ }
    }
}

impl ContextSnippetModel {
    /// The snippet in JSON.
    pub open spec fn document(self) -> Json {
        Json::Object(
            no_members().insert(
                "descriptions"@,
                match self.descriptions {
                    Some(text) => Json::Text(text),
                    None => Json::Null,
                },
            ).insert("snippet"@, Json::Text(self.snippet)),
        )
    }
}

impl ContextSnippet {
    /// The snippet in JSON.
    pub fn to_value(&self) -> (r: Value)
        ensures
            json(r) == self.deep_view().document(),
    {
        let mut m = new_map();
        map_insert(
            &mut m,
            "descriptions".to_owned(),
            match &self.descriptions {
                Some(text) => text_value(text.clone()),
                None => null_value(),
            },
        );
        map_insert(&mut m, "snippet".to_owned(), text_value(self.snippet.clone()));
        object_value(m)
    }
}

/// The texts in quotation marks.
pub open spec fn quoted(descriptions: Seq<Seq<char>>) -> Seq<Seq<char>> {
    descriptions.map_values(|d: Seq<char>| "\""@ + d + "\""@)
}

fn quote(descriptions: &Vec<String>) -> (r: String)
    ensures
        r@ == join(quoted(descriptions.deep_view()), ", "@),
{
    let ghost wanted = quoted(descriptions.deep_view());
    let mut parts: Vec<String> = Vec::new();
    let mut i: usize = 0;
    assert(texts(parts@) =~= wanted.take(0));
    while i < descriptions.len()
        invariant
            i <= descriptions@.len(),
            wanted == quoted(descriptions.deep_view()),
            texts(parts@) == wanted.take(i as int),
        decreases descriptions.len() - i,
    {
        let opened = concat("\"", descriptions[i].as_str());
        let ghost earlier = texts(parts@);
        let part = concat(opened.as_str(), "\"");
        let ghost said = part@;
        parts.push(part);
        assert(texts(parts@) =~= earlier.push(said));
        assert(wanted.take(i + 1) =~= earlier.push(wanted[i as int]));
        i = i + 1;
    }
    assert(wanted.take(wanted.len() as int) =~= wanted);
    join_with(&parts, ", ")
}

/// The range of the text of a definition.
pub open spec fn definition_range(
    content: ContentManager,
    folding_ranges: FoldingRanges,
    definition: DescribedLocationModel,
) -> Range {
    context_range(
        lines_of(content, definition.location.uri),
        folding_ranges.of(definition.location.uri),
        definition.location.range,
    )
}

/// The text of a definition.
pub open spec fn definition_snippet(
    content: ContentManager,
    folding_ranges: FoldingRanges,
    definition: DescribedLocationModel,
) -> ContextSnippetModel {
    ContextSnippetModel {
        descriptions: Some(join(quoted(definition.descriptions), ", "@)),
        snippet: snippet(
            lines_of(content, definition.location.uri),
            definition_range(content, folding_ranges, definition),
        )->0,
    }
}

/// Whether the texts of all the definitions are cut between whole characters.
pub open spec fn definitions_fit(
    content: ContentManager,
    folding_ranges: FoldingRanges,
    definitions: Seq<DescribedLocationModel>,
) -> bool {
    forall|i: int|
        0 <= i < definitions.len() ==> content.fits(
            (#[trigger] definitions[i]).location.uri,
            definition_range(content, folding_ranges, definitions[i]),
        )
}

/// Whether the texts of all the definitions are cut between whole characters.
pub fn can_get_typedef_context_snippets(
    content: &ContentManager,
    folding_ranges: &FoldingRanges,
    definitions: &Vec<DescribedLocation>,
) -> (r: bool)
    ensures
        r == definitions_fit(*content, *folding_ranges, definitions.deep_view()),
{
    let ghost all = definitions.deep_view();
    let mut i: usize = 0;
    while i < definitions.len()
        invariant
            i <= definitions@.len(),
            all == definitions.deep_view(),
            forall|k: int|
                0 <= k < i ==> content.fits(
                    (#[trigger] all[k]).location.uri,
                    definition_range(*content, *folding_ranges, all[k]),
                ),
        decreases definitions.len() - i,
    {
        let range = range_of_context(content, &definitions[i].location, folding_ranges);
        assert(all[i as int] == definitions@[i as int].deep_view());
        assert(range == definition_range(*content, *folding_ranges, all[i as int]));
        if !content.can_get_snippet(definitions[i].location.uri.as_str(), &range) {
            return false;
        }
        i = i + 1;
    }
    true
}

/// Whether all the documents are known, and have lines.
pub open spec fn documents_known(content: ContentManager, definitions: Seq<DescribedLocationModel>) -> bool {
    forall|i: int|
        0 <= i < definitions.len() ==> lines_of(
            content,
            (#[trigger] definitions[i]).location.uri,
        ).len() > 0
}

/// The texts of the definitions. Nothing, where one of the documents is not known or has no lines.
pub fn get_typedef_context_snippets(
    content: &ContentManager,
    folding_ranges: &FoldingRanges,
    definitions: &Vec<DescribedLocation>,
) -> (r: Option<Vec<ContextSnippet>>)
    requires
        definitions_fit(*content, *folding_ranges, definitions.deep_view()),
    ensures
        if documents_known(*content, definitions.deep_view()) {
            r.deep_view() == Some(
                definitions.deep_view().map_values(
                    |d: DescribedLocationModel| definition_snippet(*content, *folding_ranges, d),
                ),
            )
        } else {
            r is None
        },
{
    let ghost all = definitions.deep_view();
    let ghost wanted = all.map_values(
        |d: DescribedLocationModel| definition_snippet(*content, *folding_ranges, d),
    );
    let mut r: Vec<ContextSnippet> = Vec::new();
    let mut i: usize = 0;
    assert(r.deep_view() =~= wanted.take(0));
    while i < definitions.len()
        invariant
            i <= definitions@.len(),
            all == definitions.deep_view(),
            wanted == all.map_values(
                |d: DescribedLocationModel| definition_snippet(*content, *folding_ranges, d),
            ),
            definitions_fit(*content, *folding_ranges, all),
            r.deep_view() == wanted.take(i as int),
            forall|k: int|
                0 <= k < i ==> lines_of(*content, (#[trigger] all[k]).location.uri).len() > 0,
        decreases definitions.len() - i,
    {
        let range = range_of_context(content, &definitions[i].location, folding_ranges);
        assert(all[i as int] == definitions@[i as int].deep_view());
        assert(range == definition_range(*content, *folding_ranges, all[i as int]));
        let descriptions = Some(quote(&definitions[i].descriptions));
        match content.get_snippet(definitions[i].location.uri.as_str(), &range) {
            Some(snippet) => {
                let ghost earlier = r.deep_view();
                r.push(ContextSnippet { descriptions, snippet });
                assert(r.deep_view() =~= earlier.push(wanted[i as int]));
                assert(wanted.take(i + 1) =~= earlier.push(wanted[i as int]));
            },
            None => {
                assert(lines_of(*content, all[i as int].location.uri).len() == 0);
                return None;
            },
        }
        i = i + 1;
    }
    assert(wanted.take(wanted.len() as int) =~= wanted);
    Some(r)
}

// ---------------------------------------------------------------------------------------------
// Laws.

/// Whether no location stands twice.
pub open spec fn stand_once(definitions: Seq<DescribedLocationModel>) -> bool {
    forall|i: int, j: int|
        0 <= i < j < definitions.len() ==> (#[trigger] definitions[i]).location != (
        #[trigger] definitions[j]).location
}

proof fn lemma_with_symbol(
    definitions: Seq<DescribedLocationModel>,
    location: LocationModel,
    description: Seq<char>,
)
    requires
        stand_once(definitions),
    ensures
        stand_once(with_symbol(definitions, location, description)),
        forall|i: int|
            0 <= i < with_symbol(definitions, location, description).len() ==> {
                let found = (#[trigger] with_symbol(definitions, location, description)[i]).location;
                found == location || exists|k: int|
                    0 <= k < definitions.len() && (#[trigger] definitions[k]).location == found
            },
    decreases definitions.len(),
{
    let after = with_symbol(definitions, location, description);
    if definitions.len() == 0 {
    } else if definitions[0].location == location {
        assert forall|i: int| 0 <= i < after.len() implies {
            let found = (#[trigger] after[i]).location;
            found == location || exists|k: int|
                0 <= k < definitions.len() && (#[trigger] definitions[k]).location == found
        } by {
            assert(definitions[i].location == after[i].location);
        }
        assert forall|i: int, j: int| 0 <= i < j < after.len() implies (#[trigger] after[i]).location
            != (#[trigger] after[j]).location by {
            assert(definitions[i].location == after[i].location);
            assert(definitions[j].location == after[j].location);
        }
    } else {
        let rest = definitions.drop_first();
        assert(stand_once(rest)) by {
            assert forall|i: int, j: int| 0 <= i < j < rest.len() implies (#[trigger] rest[i]).location
                != (#[trigger] rest[j]).location by {
                assert(rest[i] == definitions[i + 1]);
                assert(rest[j] == definitions[j + 1]);
            }
        }
        lemma_with_symbol(rest, location, description);
        let tail = with_symbol(rest, location, description);
        assert forall|i: int| 0 <= i < tail.len() implies (#[trigger] tail[i]).location
            != definitions[0].location && (tail[i].location == location || exists|k: int|
            0 <= k < definitions.len() && (#[trigger] definitions[k]).location == tail[i].location) by {
            if tail[i].location != location {
                let k = choose|k: int| 0 <= k < rest.len() && (#[trigger] rest[k]).location == tail[i].location;
                assert(rest[k] == definitions[k + 1]);
            }
        }
        assert forall|i: int| 0 <= i < after.len() implies {
            let found = (#[trigger] after[i]).location;
            found == location || exists|k: int|
                0 <= k < definitions.len() && (#[trigger] definitions[k]).location == found
        } by {
            if i > 0 {
                assert(after[i] == tail[i - 1]);
            } else {
                assert(after[0] == definitions[0]);
            }
        }
        assert forall|i: int, j: int| 0 <= i < j < after.len() implies (#[trigger] after[i]).location
            != (#[trigger] after[j]).location by {
            assert(after[j] == tail[j - 1]);
            if i > 0 {
                assert(after[i] == tail[i - 1]);
            }
        }
    }
}

proof fn lemma_with_locations(
    definitions: Seq<DescribedLocationModel>,
    locations: Seq<LocationModel>,
    description: Seq<char>,
    root_uri: Option<Seq<char>>,
)
    requires
        stand_once(definitions),
        forall|i: int|
            0 <= i < definitions.len() ==> is_in_project(
                (#[trigger] definitions[i]).location.uri,
                root_uri,
            ),
    ensures
        stand_once(with_locations(definitions, locations, description, root_uri)),
        forall|i: int|
            0 <= i < with_locations(definitions, locations, description, root_uri).len() ==> is_in_project(
                (#[trigger] with_locations(
                    definitions,
                    locations,
                    description,
                    root_uri,
                )[i]).location.uri,
                root_uri,
            ),
    decreases locations.len(),
{
    if locations.len() > 0 {
        lemma_with_locations(definitions, locations.drop_last(), description, root_uri);
        let before = with_locations(definitions, locations.drop_last(), description, root_uri);
        lemma_with_symbol(before, locations.last(), description);
    }
}

/// No location stands twice among the definitions, and all of them belong to the project.
pub proof fn law_definitions_stand_once(
    symbols: Seq<DescribedPositionModel>,
    locations: Seq<Seq<LocationModel>>,
    root_uri: Option<Seq<char>>,
)
    ensures
        stand_once(definitions_of(symbols, locations, root_uri)),
        forall|i: int|
            0 <= i < definitions_of(symbols, locations, root_uri).len() ==> is_in_project(
                (#[trigger] definitions_of(symbols, locations, root_uri)[i]).location.uri,
                root_uri,
            ),
    decreases symbols.len(),
{
    if symbols.len() > 0 {
        law_definitions_stand_once(symbols.drop_last(), locations, root_uri);
        lemma_with_locations(
            definitions_of(symbols.drop_last(), locations, root_uri),
            locations[symbols.len() - 1],
            symbols.last().description,
            root_uri,
        );
    }
}

/// The symbols that lead to a location.
pub open spec fn symbols_to(
    definitions: Seq<DescribedLocationModel>,
    location: LocationModel,
) -> Seq<Seq<char>>
    decreases definitions.len(),
{
    if definitions.len() == 0 {
        Seq::empty()
    } else if definitions[0].location == location {
        definitions[0].descriptions
    } else {
        symbols_to(definitions.drop_first(), location)
    }
}

/// A symbol is told with every location in the project to which it leads, behind the symbols that led
/// there before. Locations outside the project do not count, and nothing else changes.
pub proof fn law_symbols_are_told_with_their_definitions(
    definitions: Seq<DescribedLocationModel>,
    locations: Seq<LocationModel>,
    location: LocationModel,
    description: Seq<char>,
    root_uri: Option<Seq<char>>,
    other: LocationModel,
)
    requires
        other != location,
    ensures
        ({
            let before = with_locations(definitions, locations, description, root_uri);
            let after = with_locations(definitions, locations.push(location), description, root_uri);
            let in_project = match root_uri {
                Some(root) => root.is_prefix_of(location.uri),
                None => true,
            };
            &&& with_locations(definitions, Seq::empty(), description, root_uri) == definitions
            &&& in_project ==> symbols_to(after, location) == symbols_to(before, location).push(
                description,
            ) && symbols_to(after, other) == symbols_to(before, other)
            &&& !in_project ==> after == before
        }),
{
    assert(locations.push(location).drop_last() =~= locations);
    let before = with_locations(definitions, locations, description, root_uri);
    lemma_symbol_added(before, location, description, other);
}

proof fn lemma_symbol_added(
    definitions: Seq<DescribedLocationModel>,
    location: LocationModel,
    description: Seq<char>,
    other: LocationModel,
)
    requires
        other != location,
    ensures
        symbols_to(with_symbol(definitions, location, description), location) == symbols_to(
            definitions,
            location,
        ).push(description),
        symbols_to(with_symbol(definitions, location, description), other) == symbols_to(
            definitions,
            other,
        ),
    decreases definitions.len(),
{
    reveal_with_fuel(symbols_to, 2);
    let after = with_symbol(definitions, location, description);
    if definitions.len() == 0 {
        assert(after.drop_first() =~= Seq::empty());
        assert(symbols_to(definitions, location).push(description) =~= seq![description]);
    } else if definitions[0].location == location {
        assert(after.drop_first() =~= definitions.drop_first());
    } else {
        lemma_symbol_added(definitions.drop_first(), location, description, other);
        assert(after.drop_first() =~= with_symbol(definitions.drop_first(), location, description));
        assert(after[0] == definitions[0]);
    }
}

/// The symbols lead to definitions one after the other: the last to its own locations, on top of what
/// those before it led to.
pub proof fn law_each_symbol_leads_to_its_locations(
    symbols: Seq<DescribedPositionModel>,
    locations: Seq<Seq<LocationModel>>,
    symbol: DescribedPositionModel,
    more: Seq<LocationModel>,
    root_uri: Option<Seq<char>>,
)
    requires
        symbols.len() == locations.len(),
    ensures
        definitions_of(Seq::empty(), locations, root_uri).len() == 0,
        definitions_of(symbols.push(symbol), locations.push(more), root_uri) == with_locations(
            definitions_of(symbols, locations, root_uri),
            more,
            symbol.description,
            root_uri,
        ),
{
    assert(symbols.push(symbol).drop_last() =~= symbols);
    lemma_same_locations(symbols, locations, locations.push(more), root_uri);
}

proof fn lemma_same_locations(
    symbols: Seq<DescribedPositionModel>,
    a: Seq<Seq<LocationModel>>,
    b: Seq<Seq<LocationModel>>,
    root_uri: Option<Seq<char>>,
)
    requires
        symbols.len() <= a.len(),
        symbols.len() <= b.len(),
        forall|i: int| 0 <= i < symbols.len() ==> a[i] == #[trigger] b[i],
    ensures
        definitions_of(symbols, a, root_uri) == definitions_of(symbols, b, root_uri),
    decreases symbols.len(),
{
    if symbols.len() > 0 {
        lemma_same_locations(symbols.drop_last(), a, b, root_uri);
        assert(a[symbols.len() - 1] == b[symbols.len() - 1]);
    }
}

/// The text of a definition is made of whole lines. It begins where its location begins, holds all of
/// its location, and goes on to the end of the lines that are folded with its first line.
pub proof fn law_definition_holds_its_folded_lines(
    lines: Seq<Seq<char>>,
    ranges: Seq<SimpleFoldingRange>,
    fold: SimpleFoldingRange,
    range: Range,
)
    ensures
        ({
            let known = Some(seq![fold] + ranges);
            let found = context_range(lines, known, range);
            &&& found.start == (Position { line: range.start.line, character: 0 })
            &&& found.end.character == u32::MAX
            &&& fold.start_line == range.start.line && range.start.line < lines.len() ==> {
                &&& fold.end_line > range.end.line ==> found.end.line == fold.end_line
                &&& fold.end_line <= range.end.line ==> found.end.line == range.end.line
            }
        }),
{
    let known = seq![fold] + ranges;
    assert(known[0] == fold);
}

/// Without folded lines, a definition goes on to the line before the first line without text, and where
/// there is none it ends with its location.
pub proof fn law_definition_ends_before_an_empty_line(
    lines: Seq<Seq<char>>,
    range: Range,
    empty: int,
)
    requires
        range.start.line <= empty <= lines.len(),
        lines.len() <= u32::MAX,
        forall|i: int| range.start.line <= i < empty ==> trimmed(#[trigger] lines[i]).len() > 0,
        empty < lines.len() ==> trimmed(lines[empty]).len() == 0,
    ensures
        ({
            let found = context_range(lines, None, range);
            &&& empty < lines.len() && empty - 1 > range.end.line ==> found.end.line == empty - 1
            &&& empty == lines.len() || empty - 1 <= range.end.line ==> found.end.line == range.end.line
        }),
{
    lemma_end_from(lines, range.start.line as int, empty);
}

proof fn lemma_end_from(lines: Seq<Seq<char>>, line: int, empty: int)
    requires
        0 <= line <= empty <= lines.len(),
        forall|i: int| line <= i < empty ==> trimmed(#[trigger] lines[i]).len() > 0,
        empty < lines.len() ==> trimmed(lines[empty]).len() == 0,
    ensures
        empty == lines.len() ==> end_from(lines, None, line) is None,
        empty < lines.len() ==> end_from(lines, None, line) == Some(
            if empty > 0 {
                empty - 1
            } else {
                0
            },
        ),
    decreases empty - line,
{
    if line < empty {
        assert(trimmed(lines[line]).len() > 0);
        lemma_end_from(lines, line + 1, empty);
    }
}

/// The text of a definition is handed over with the symbols that led there, in quotation marks and in
/// order, and a piece of text that the user added without any.
pub proof fn law_snippets_are_written_with_their_symbols(
    snippet_of: ContextSnippetModel,
    descriptions: Seq<Seq<char>>,
    symbol: Seq<char>,
)
    ensures
        snippet_of.document().member("snippet"@) == Some(Json::Text(snippet_of.snippet)),
        snippet_of.descriptions matches Some(text) ==> snippet_of.document().member("descriptions"@)
            == Some(Json::Text(text)),
        snippet_of.descriptions is None ==> snippet_of.document().member("descriptions"@) == Some(
            Json::Null,
        ),
        join(quoted(seq![symbol]), ", "@) == seq!['"'] + symbol + seq!['"'],
        descriptions.len() > 0 ==> join(quoted(descriptions.push(symbol)), ", "@) == join(
            quoted(descriptions),
            ", "@,
        ) + seq![',', ' ', '"'] + symbol + seq!['"'],
{
    reveal_strlit("snippet");
    reveal_strlit("descriptions");
    reveal_strlit("\"");
    reveal_strlit(", ");
    assert("snippet"@.len() == 7 && "descriptions"@.len() == 12);
    assert("\""@ =~= seq!['"']);
    assert(", "@ =~= seq![',', ' ']);
    assert(quoted(seq![symbol]) =~= seq![seq!['"'] + symbol + seq!['"']]);
    let more = quoted(descriptions.push(symbol));
    assert(more.drop_last() =~= quoted(descriptions));
    assert(more.last() == seq!['"'] + symbol + seq!['"']);
    if descriptions.len() > 0 {
        assert(join(more, ", "@) =~= join(quoted(descriptions), ", "@) + seq![',', ' ', '"'] + symbol
            + seq!['"']);
    }
}

/// The definitions are handed over in order, each as the text of its whole lines, with the symbols that led
/// there; and not at all where a document is not known.
pub proof fn law_definitions_are_handed_over(
    content: ContentManager,
    folding_ranges: FoldingRanges,
    definitions: Vec<DescribedLocation>,
    r: Option<Vec<ContextSnippet>>,
    i: int,
)
    requires
        definitions_fit(content, folding_ranges, definitions.deep_view()),
        call_ensures(get_typedef_context_snippets, (&content, &folding_ranges, &definitions), r),
        0 <= i < definitions@.len(),
    ensures
        r is Some <==> documents_known(content, definitions.deep_view()),
        r matches Some(found) ==> {
            let definition = definitions@[i].deep_view();
            let lines = lines_of(content, definition.location.uri);
            let range = context_range(
                lines,
                folding_ranges.of(definition.location.uri),
                definition.location.range,
            );
            &&& found@.len() == definitions@.len()
            &&& found@[i].descriptions.deep_view() == Some(join(quoted(definition.descriptions), ", "@))
            &&& Some(found@[i].snippet@) == snippet(lines, range)
        },
{
    if let Some(found) = r {
        assert(found.deep_view().len() == found@.len());
        assert(found.deep_view()[i] == found@[i].deep_view());
        assert(definitions.deep_view()[i] == definitions@[i].deep_view());
        let definition = definitions@[i].deep_view();
        assert(documents_known(content, definitions.deep_view()));
        assert(lines_of(content, definitions.deep_view()[i].location.uri).len() > 0);
        assert(content.fits(
            definitions.deep_view()[i].location.uri,
            definition_range(content, folding_ranges, definitions.deep_view()[i]),
        ));
    }
}

} // verus!
