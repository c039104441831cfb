//! The documents that are open in the editor.

use url::Url;
use vstd::prelude::*;
use vstd::utf8::encode_utf8;
use crate::codeassist::position::{Position, Range};
use crate::json::{map_insert, new_map, no_members, object_value, text_value, Json};
use crate::protocol::{SessionPromptParameter, SessionPromptParameterModel};
use crate::text::{
    at_byte, byte_len, byte_slice, chars_of, concat, decimal, decimal_of, join, join_with,
    law_join_undoes_split, law_split_undoes_join, lemma_at_byte_ordered, lemma_byte_slice_whole,
    lemma_decimal, lemma_join_sum, lemma_split_nonempty, opt_text, same, size, slice, split, split_on,
    texts,
};

verus! {

/// The language of a document of which it is not known.
pub const UNKNOWN_LANG_ID: &'static str = "unknown";

// ---------------------------------------------------------------------------------------------
// Lines.

/// The smaller of two numbers.
pub open spec fn min(a: int, b: int) -> int {
    if a <= b {
        a
    } else {
        b
    }
}

/// The byte at which a snippet begins in its first line: not behind the last byte of the line.
pub open spec fn first_byte(line: Seq<char>, character: u32) -> nat {
    if byte_len(line) == 0 {
        0
    } else {
        min(character as int, byte_len(line) - 1) as nat
    }
}

/// The part of line `k` that belongs to the range from line `first` to line `last`, if the range
/// cuts it between whole characters.
pub open spec fn line_piece(
    lines: Seq<Seq<char>>,
    range: Range,
    first: int,
    last: int,
    k: int,
) -> Option<Seq<char>> {
    let line = lines[k];
    let from = if k == first {
        first_byte(line, range.start.character)
    } else {
        0
    };
    let to = if k == last {
        min(range.end.character as int, byte_len(line) as int) as nat
    } else {
        byte_len(line)
    };
    byte_slice(line, from, to)
}

/// The parts of the lines from `first` up to, and without, `upto`.
pub open spec fn line_pieces(
    lines: Seq<Seq<char>>,
    range: Range,
    first: int,
    last: int,
    upto: int,
) -> Option<Seq<Seq<char>>>
    decreases upto - first,
{
    if upto <= first {
        Some(Seq::empty())
    } else {
        match (
            line_pieces(lines, range, first, last, upto - 1),
            line_piece(lines, range, first, last, upto - 1),
        ) {
            (Some(pieces), Some(piece)) => Some(pieces.push(piece)),
            _ => None,
        }
    }
}

/// The text of a range of the lines. Lines behind the last stand for the last. Nothing, where the
/// range ends before it begins, or cuts a character.
pub open spec fn snippet(lines: Seq<Seq<char>>, range: Range) -> Option<Seq<char>> {
    let first = min(range.start.line as int, lines.len() - 1);
    let last = min(range.end.line as int, lines.len() - 1);
    if first > last + 1 {
        None
    } else {
        match line_pieces(lines, range, first, last, last + 1) {
            Some(pieces) => Some(join(pieces, "\n"@)),
            None => None,
        }
    }
}

/// The text of a range of a document, if the document is known and has lines.
pub open spec fn snippet_in(
    documents: Map<Seq<char>, DocumentModel>,
    uri: Seq<char>,
    range: Range,
) -> Option<Seq<char>> {
    if documents.contains_key(uri) && documents[uri].lines.len() > 0 {
        snippet(documents[uri].lines, range)
    } else {
        None
    }
}

proof fn lemma_pieces_fail(
    lines: Seq<Seq<char>>,
    range: Range,
    first: int,
    last: int,
    n: int,
    upto: int,
)
    requires
        n <= upto,
        line_pieces(lines, range, first, last, n) is None,
    ensures
        line_pieces(lines, range, first, last, upto) is None,
    decreases upto - n,
{
    if n < upto {
        lemma_pieces_fail(lines, range, first, last, n, upto - 1);
    }
}

/// The text of a range of the lines.
pub fn snippet_of(lines: &Vec<String>, range: &Range) -> (r: Option<String>)
    requires
        lines@.len() > 0,
    ensures
        r.deep_view() == snippet(texts(lines@), *range),
{
    let ghost all = texts(lines@);
    let n: usize = lines.len();
    let start_line: usize = range.start.line as usize;
    let end_line: usize = range.end.line as usize;
    let first: usize = if start_line < n {
        start_line
    } else {
        n - 1
    };
    let last: usize = if end_line < n {
        end_line
    } else {
        n - 1
    };
    if first > last + 1 {
        return None;
    }
    let mut pieces: Vec<String> = Vec::new();
    let mut k: usize = first;
    assert(texts(pieces@) =~= Seq::<Seq<char>>::empty());
    while k < last + 1
        invariant
            n == lines@.len(),
            all == texts(lines@),
            first <= k <= last + 1,
            last < n,
            first == min(range.start.line as int, n - 1),
            last == min(range.end.line as int, n - 1),
            line_pieces(all, *range, first as int, last as int, k as int) == Some(texts(pieces@)),
        decreases last + 1 - k,
    {
        let line = lines[k].as_str();
        assert(all[k as int] == line@);
        let len: usize = size(line);
        let from: usize = if k == first {
            if len == 0 {
                0
            } else if (range.start.character as usize) < len {
                range.start.character as usize
            } else {
                len - 1
            }
        } else {
            0
        };
        let to: usize = if k == last {
            if (range.end.character as usize) < len {
                range.end.character as usize
            } else {
                len
            }
        } else {
            len
        };
        match slice(line, from, to) {
            Some(piece) => {
                let ghost earlier = texts(pieces@);
                let ghost next = piece@;
                pieces.push(piece);
                assert(texts(pieces@) =~= earlier.push(next));
            },
            None => {
                proof {
                    lemma_pieces_fail(all, *range, first as int, last as int, k + 1, last + 1);
                }
                return None;
            },
        }
        k = k + 1;
    }
    Some(join_with(&pieces, "\n"))
}

/// The part of the line at which a patch begins that stays before it: nothing where the line does
/// not exist.
pub open spec fn kept_before(lines: Seq<Seq<char>>, start: Position) -> Option<Seq<char>> {
    if start.character > 0 && start.line < lines.len() {
        let line = lines[start.line as int];
        byte_slice(line, 0, min(start.character as int, byte_len(line) as int) as nat)
    } else {
        Some(Seq::empty())
    }
}

/// The part of the line at which a patch ends that stays behind it.
pub open spec fn kept_after(lines: Seq<Seq<char>>, end: Position) -> Option<Seq<char>> {
    if end.line < lines.len() && end.character < byte_len(lines[end.line as int]) {
        let line = lines[end.line as int];
        byte_slice(line, end.character as nat, byte_len(line))
    } else {
        Some(Seq::empty())
    }
}

/// The lines of a text with something before the first of them.
pub open spec fn with_prefix(lines: Seq<Seq<char>>, prefix: Seq<char>) -> Seq<Seq<char>> {
    lines.update(0, prefix + lines[0])
}

/// The lines of a text with something behind the last of them.
pub open spec fn with_suffix(lines: Seq<Seq<char>>, suffix: Seq<char>) -> Seq<Seq<char>> {
    lines.update(lines.len() - 1, lines.last() + suffix)
}

/// The lines after a range of them was replaced by a text. Nothing, where the range goes beyond the
/// lines, ends before it begins, or cuts a character.
pub open spec fn patched(lines: Seq<Seq<char>>, range: Range, text: Seq<char>) -> Option<Seq<Seq<char>>> {
    let first = range.start.line as int;
    let last = range.end.line as int;
    match (kept_before(lines, range.start), kept_after(lines, range.end)) {
        (Some(prefix), Some(suffix)) => if last < lines.len() && first <= last + 1 {
            Some(
                lines.take(first) + with_suffix(with_prefix(split(text, '\n'), prefix), suffix)
                    + lines.skip(last + 1),
            )
        } else {
            None
        },
        _ => None,
    }
}

/// The lines of a text.
pub fn split_text(text: &str) -> (r: Vec<String>)
    ensures
        texts(r@) == split(text@, '\n'),
        r@.len() > 0,
{
    split_on(text, '\n')
}

/// The part of the line at which a patch begins that stays before it.
fn keep_before(lines: &Vec<String>, start: &Position) -> (r: Option<String>)
    ensures
        r.deep_view() == kept_before(texts(lines@), *start),
{
    let line: usize = start.line as usize;
    if start.character > 0 && line < lines.len() {
        let text = lines[line].as_str();
        assert(texts(lines@)[line as int] == text@);
        let len: usize = size(text);
        let character: usize = start.character as usize;
        slice(
            text,
            0,
            if character < len {
                character
            } else {
                len
            },
        )
    } else {
        let none = String::new();
        assert(none@ =~= Seq::<char>::empty());
        Some(none)
    }
}

/// The part of the line at which a patch ends that stays behind it.
fn keep_after(lines: &Vec<String>, end: &Position) -> (r: Option<String>)
    ensures
        r.deep_view() == kept_after(texts(lines@), *end),
{
    let line: usize = end.line as usize;
    if line < lines.len() {
        let text = lines[line].as_str();
        assert(texts(lines@)[line as int] == text@);
        let len: usize = size(text);
        if (end.character as usize) < len {
            return slice(text, end.character as usize, len);
        }
    }
    let none = String::new();
    assert(none@ =~= Seq::<char>::empty());
    Some(none)
}

/// The lines after a range of them was replaced by a text.
pub fn patch(lines: &Vec<String>, range: &Range, text: &str) -> (r: Option<Vec<String>>)
    ensures
        match r {
            Some(after) => patched(texts(lines@), *range, text@) == Some(texts(after@)),
            None => patched(texts(lines@), *range, text@) is None,
        },
{
    let ghost all = texts(lines@);
    let (prefix, suffix) = match (keep_before(lines, &range.start), keep_after(lines, &range.end)) {
        (Some(prefix), Some(suffix)) => (prefix, suffix),
        _ => {
            return None;
        },
    };
    let first: usize = range.start.line as usize;
    let last: usize = range.end.line as usize;
    if last >= lines.len() || first > last + 1 {
        return None;
    }
    let mut fresh = split_text(text);
    let ghost given = texts(fresh@);
    let begun = concat(prefix.as_str(), fresh[0].as_str());
    let ghost begun_text = begun@;
    fresh.set(0, begun);
    assert(texts(fresh@) =~= with_prefix(given, prefix@));
    let end: usize = fresh.len() - 1;
    let ended = concat(fresh[end].as_str(), suffix.as_str());
    let ghost before = texts(fresh@);
    assert(before.last() == fresh@[end as int]@);
    fresh.set(end, ended);
    assert(texts(fresh@) =~= with_suffix(before, suffix@));
    let mut r: Vec<String> = Vec::new();
    let mut i: usize = 0;
    assert(texts(r@) =~= all.take(0));
    while i < first
        invariant
            i <= first <= lines@.len(),
            all == texts(lines@),
            texts(r@) == all.take(i as int),
        decreases first - i,
    {
        let ghost earlier = texts(r@);
        r.push(lines[i].clone());
        assert(texts(r@) =~= earlier.push(all[i as int]));
        assert(all.take(i + 1) =~= earlier.push(all[i as int]));
        i = i + 1;
    }
    let ghost head = texts(r@);
    let ghost middle = texts(fresh@);
    r.append(&mut fresh);
    assert(texts(r@) =~= head + middle);
    let mut k: usize = last + 1;
    assert(head + middle + all.subrange(last + 1, last + 1) =~= head + middle);
    while k < lines.len()
        invariant
            last < lines@.len(),
            last + 1 <= k <= lines@.len(),
            all == texts(lines@),
            texts(r@) == head + middle + all.subrange(last + 1, k as int),
        decreases lines.len() - k,
    {
        let ghost earlier = texts(r@);
        r.push(lines[k].clone());
        assert(texts(r@) =~= earlier.push(all[k as int]));
        assert(head + middle + all.subrange(last + 1, k + 1) =~= earlier.push(all[k as int]));
        k = k + 1;
    }
    assert(all.subrange(last + 1, all.len() as int) =~= all.skip(last + 1));
    Some(r)
}

// ---------------------------------------------------------------------------------------------
// Documents.

/// A document.
#[derive(Debug)]
pub struct Document {
    pub uri: String,
    pub lines: Vec<String>,
    pub lang_id: String,
    /// Whether the content of the document is kept as a prompt parameter of the session.
    pub has_file_context: bool,
}

/// What is known of a document.
#[verifier::ext_equal]
pub ghost struct DocumentModel {
    pub lines: Seq<Seq<char>>,
    pub lang_id: Seq<char>,
    pub has_file_context: bool,
}

impl Document {
    /// What is known of the document.
    pub open spec fn model(self) -> DocumentModel {
        DocumentModel {
            lines: texts(self.lines@),
            lang_id: self.lang_id@,
            has_file_context: self.has_file_context,
        }
    }
}

/// The documents that are open, or were looked into.
#[derive(Debug)]
pub struct ContentManager {
    pub documents: Vec<Document>,
}

/// The first place at which a document of that address stands.
pub open spec fn place(documents: Seq<Document>, uri: Seq<char>) -> Option<int>
    decreases documents.len(),
{
    if documents.len() == 0 {
        None
    } else if documents[0].uri@ == uri {
        Some(0)
    } else {
        match place(documents.drop_first(), uri) {
            Some(i) => Some(i + 1),
            None => None,
        }
    }
}

/// The documents by their addresses.
pub open spec fn by_address(documents: Seq<Document>) -> Map<Seq<char>, DocumentModel> {
    Map::new(
        |uri: Seq<char>| place(documents, uri) is Some,
        |uri: Seq<char>| documents[place(documents, uri)->0].model(),
    )
}

/// Whether no address stands twice.
pub open spec fn are_apart(documents: Seq<Document>) -> bool {
    forall|i: int, j: int|
        0 <= i < j < documents.len() ==> (#[trigger] documents[i]).uri@ != (#[trigger] documents[j]).uri@
}

proof fn lemma_place(documents: Seq<Document>, uri: Seq<char>)
    ensures
        match place(documents, uri) {
            Some(i) => 0 <= i < documents.len() && documents[i].uri@ == uri && forall|k: int|
                0 <= k < i ==> (#[trigger] documents[k]).uri@ != uri,
            None => forall|k: int|
                0 <= k < documents.len() ==> (#[trigger] documents[k]).uri@ != uri,
        },
    decreases documents.len(),
{
    if documents.len() > 0 && documents[0].uri@ != uri {
        let rest = documents.drop_first();
        lemma_place(rest, uri);
        assert forall|k: int| 1 <= k < documents.len() implies documents[k] == #[trigger] rest[k - 1] by {}
        match place(rest, uri) {
            Some(i) => {
                assert forall|k: int| 0 <= k < i + 1 implies (#[trigger] documents[k]).uri@ != uri by {
                    if k > 0 {
                        assert(rest[k - 1].uri@ != uri);
                    }
                }
            },
            None => {
                assert forall|k: int| 0 <= k < documents.len() implies (#[trigger] documents[k]).uri@ != uri by {
                    if k > 0 {
                        assert(rest[k - 1].uri@ != uri);
                    }
                }
            },
        }
    }
}

proof fn lemma_place_is(documents: Seq<Document>, i: int)
    requires
        are_apart(documents),
        0 <= i < documents.len(),
    ensures
        place(documents, documents[i].uri@) == Some(i),
{
    lemma_place(documents, documents[i].uri@);
}

proof fn lemma_replaced(before: Seq<Document>, after: Seq<Document>, i: int)
    requires
        are_apart(before),
        0 <= i < before.len(),
        after.len() == before.len(),
        after[i].uri@ == before[i].uri@,
        forall|k: int| 0 <= k < before.len() && k != i ==> #[trigger] after[k] == before[k],
    ensures
        are_apart(after),
        by_address(after) == by_address(before).insert(before[i].uri@, after[i].model()),
{
    assert forall|a: int, b: int| 0 <= a < b < after.len() implies (#[trigger] after[a]).uri@
        != (#[trigger] after[b]).uri@ by {
        assert(before[a].uri@ != before[b].uri@);
    }
    assert forall|uri: Seq<char>| place(after, uri) == place(before, uri) by {
        lemma_place(before, uri);
        lemma_place(after, uri);
        if let Some(k) = place(before, uri) {
            assert(after[k].uri@ == uri);
            lemma_place_is(after, k);
        }
        if let Some(k) = place(after, uri) {
            assert(before[k].uri@ == uri);
            lemma_place_is(before, k);
        }
    }
    lemma_place_is(before, i);
    assert forall|uri: Seq<char>| #[trigger] by_address(after).contains_key(uri) implies by_address(after)[uri]
        == by_address(before).insert(before[i].uri@, after[i].model())[uri] by {
        lemma_place(before, uri);
    }
    assert(by_address(after) =~= by_address(before).insert(before[i].uri@, after[i].model()));
}

proof fn lemma_added(before: Seq<Document>, document: Document)
    requires
        are_apart(before),
        place(before, document.uri@) is None,
    ensures
        are_apart(before.push(document)),
        by_address(before.push(document)) == by_address(before).insert(
            document.uri@,
            document.model(),
        ),
{
    let after = before.push(document);
    lemma_place(before, document.uri@);
    assert forall|uri: Seq<char>| #[trigger] place(after, uri) == (if uri == document.uri@ {
        Some(before.len() as int)
    } else {
        place(before, uri)
    }) by {
        lemma_place(before, uri);
        lemma_place(after, uri);
        assert(after[before.len() as int].uri@ == document.uri@);
        if let Some(k) = place(before, uri) {
            assert(after[k].uri@ == uri);
            assert(after[k] == before[k]);
        }
        if let Some(k) = place(after, uri) {
            if k < before.len() {
                assert(before[k].uri@ == uri);
            }
        }
    }
    assert forall|uri: Seq<char>| #[trigger] by_address(after).contains_key(uri) implies by_address(after)[uri]
        == by_address(before).insert(document.uri@, document.model())[uri] by {
        lemma_place(before, uri);
    }
    assert(by_address(after) =~= by_address(before).insert(document.uri@, document.model()));
}

proof fn lemma_removed(before: Seq<Document>, i: int)
    requires
        are_apart(before),
        0 <= i < before.len(),
    ensures
        are_apart(before.remove(i)),
        by_address(before.remove(i)) == by_address(before).remove(before[i].uri@),
{
    let after = before.remove(i);
    let gone = before[i].uri@;
    assert forall|k: int| 0 <= k < after.len() implies #[trigger] after[k] == before[if k < i {
        k
    } else {
        k + 1
    }] by {}
    assert forall|a: int, b: int| 0 <= a < b < after.len() implies (#[trigger] after[a]).uri@
        != (#[trigger] after[b]).uri@ by {
        let x = if a < i {
            a
        } else {
            a + 1
        };
        let y = if b < i {
            b
        } else {
            b + 1
        };
        assert(before[x].uri@ != before[y].uri@);
    }
    assert forall|uri: Seq<char>| #[trigger] by_address(after).contains_key(uri) <==> (by_address(
        before,
    ).contains_key(uri) && uri != gone) by {
        lemma_place(before, uri);
        lemma_place(after, uri);
        lemma_place_is(before, i);
        if let Some(k) = place(before, uri) {
            if k < i {
                assert(after[k].uri@ == uri);
            } else if k > i {
                assert(after[k - 1].uri@ == uri);
            }
        }
        if let Some(k) = place(after, uri) {
            let x = if k < i {
                k
            } else {
                k + 1
            };
            assert(before[x].uri@ == uri);
        }
    }
    assert forall|uri: Seq<char>| #[trigger] by_address(after).contains_key(uri) implies by_address(after)[uri]
        == by_address(before).remove(gone)[uri] by {
        lemma_place(before, uri);
        lemma_place(after, uri);
        let k = place(after, uri)->0;
        let x = if k < i {
            k
        } else {
            k + 1
        };
        assert(before[x].uri@ == uri);
        lemma_place_is(before, x);
    }
    assert(by_address(after) =~= by_address(before).remove(gone));
}

/// What the editor says of a document.
#[derive(Debug)]
pub enum DocSync {
    Open { uri: String, language_id: String, text: String },
    Change { uri: String, changes: Vec<ContentChange> },
    Close { uri: String },
}

/// What a [`DocSync`] says.
#[verifier::ext_equal]
pub ghost enum DocSyncModel {
    Open { uri: Seq<char>, language_id: Seq<char>, text: Seq<char> },
    Change { uri: Seq<char>, changes: Seq<ContentChangeModel> },
    Close { uri: Seq<char> },
}

impl DeepView for DocSync {
    type V = DocSyncModel;

    open spec fn deep_view(&self) -> DocSyncModel {
        match self {
            DocSync::Open { uri, language_id, text } => DocSyncModel::Open {
                uri: uri@,
                language_id: language_id@,
                text: text@,
            },
            DocSync::Change { uri, changes } => DocSyncModel::Change {
                uri: uri@,
                changes: changes.deep_view(),
            },
            DocSync::Close { uri } => DocSyncModel::Close { uri: uri@ },
        }
    }
}

/// A change of a document: of a range, or of the whole.
#[derive(Debug)]
pub struct ContentChange {
    pub range: Option<Range>,
    pub text: String,
}

/// What a [`ContentChange`] says.
#[verifier::ext_equal]
pub ghost struct ContentChangeModel {
    pub range: Option<Range>,
    pub text: Seq<char>,
}

impl DeepView for ContentChange {
    type V = ContentChangeModel;

    open spec fn deep_view(&self) -> ContentChangeModel {
        ContentChangeModel { range: self.range, text: self.text@ }
    }
}

/// The documents after a document of that address got those lines. A language that is not given
/// stays, or is not known.
pub open spec fn with_document(
    documents: Map<Seq<char>, DocumentModel>,
    uri: Seq<char>,
    lines: Seq<Seq<char>>,
    lang_id: Option<Seq<char>>,
) -> Map<Seq<char>, DocumentModel> {
    if documents.contains_key(uri) {
        let document = documents[uri];
        documents.insert(
            uri,
            DocumentModel {
                lines,
                lang_id: match lang_id {
                    Some(id) => id,
                    None => document.lang_id,
                },
                has_file_context: document.has_file_context,
            },
        )
    } else {
        documents.insert(
            uri,
            DocumentModel {
                lines,
                lang_id: match lang_id {
                    Some(id) => id,
                    None => UNKNOWN_LANG_ID@,
                },
                has_file_context: false,
            },
        )
    }
}

/// The documents after a patch. A document that is not known stays unknown. Nothing, where the patch
/// does not fit the document.
pub open spec fn with_patch(
    documents: Map<Seq<char>, DocumentModel>,
    uri: Seq<char>,
    range: Range,
    text: Seq<char>,
) -> Option<Map<Seq<char>, DocumentModel>> {
    if documents.contains_key(uri) {
        match patched(documents[uri].lines, range, text) {
            Some(lines) => Some(documents.insert(uri, DocumentModel { lines, ..documents[uri] })),
            None => None,
        }
    } else {
        Some(documents)
    }
}

/// The documents after changes, one after the other. Nothing, where a patch does not fit.
pub open spec fn with_changes(
    documents: Map<Seq<char>, DocumentModel>,
    uri: Seq<char>,
    changes: Seq<ContentChangeModel>,
) -> Option<Map<Seq<char>, DocumentModel>>
    decreases changes.len(),
{
    if changes.len() == 0 {
        Some(documents)
    } else {
        match with_changes(documents, uri, changes.drop_last()) {
            Some(documents) => match changes.last().range {
                Some(range) => with_patch(documents, uri, range, changes.last().text),
                None => Some(with_document(documents, uri, split(changes.last().text, '\n'), None)),
            },
            None => None,
        }
    }
}

proof fn lemma_changes_fail(
    documents: Map<Seq<char>, DocumentModel>,
    uri: Seq<char>,
    changes: Seq<ContentChangeModel>,
    n: int,
)
    requires
        0 <= n <= changes.len(),
        with_changes(documents, uri, changes.take(n)) is None,
    ensures
        with_changes(documents, uri, changes) is None,
    decreases changes.len(),
{
    if n == changes.len() {
        assert(changes.take(n) =~= changes);
    } else {
        assert(changes.drop_last().take(n) =~= changes.take(n));
        lemma_changes_fail(documents, uri, changes.drop_last(), n);
    }
}

/// What became of the file context of a document.
#[derive(Clone, Copy, Debug, PartialEq, Eq, Structural)]
pub enum FileContextChange {
    Enabled,
    Disabled,
    /// The document is not known.
    Unknown,
}

impl ContentManager {
    /// The documents by their addresses.
    pub open spec fn content(self) -> Map<Seq<char>, DocumentModel> {
        by_address(self.documents@)
    }

    /// No address stands twice.
    pub open spec fn well_formed(self) -> bool {
        are_apart(self.documents@)
    }

    /// No documents.
    pub fn new() -> (r: Self)
        ensures
            r.well_formed(),
            r.content() == Map::<Seq<char>, DocumentModel>::empty(),
    {
        let r = ContentManager { documents: Vec::new() };
        assert(r.content() =~= Map::<Seq<char>, DocumentModel>::empty());
        r
    }

    /// The place of a document.
    fn find(&self, uri: &str) -> (r: Option<usize>)
        ensures
            match r {
                Some(i) => i < self.documents@.len() && place(self.documents@, uri@) == Some(i as int)
                    && self.documents@[i as int].uri@ == uri@,
                None => place(self.documents@, uri@) is None,
            },
    {
        let mut i: usize = 0;
        assert(self.documents@.skip(0) =~= self.documents@);
        while i < self.documents.len()
            invariant
                i <= self.documents@.len(),
                place(self.documents@, uri@) == (match place(self.documents@.skip(i as int), uri@) {
                    Some(k) => Some(k + i),
                    None => None,
                }),
            decreases self.documents.len() - i,
        {
            assert(self.documents@.skip(i as int)[0] == self.documents@[i as int]);
            assert(self.documents@.skip(i as int).drop_first() =~= self.documents@.skip(i + 1));
            if same(self.documents[i].uri.as_str(), uri) {
                return Some(i);
            }
            i = i + 1;
        }
        None
    }

    /// Whether the document is known.
    pub fn has_document(&self, uri: &str) -> (r: bool)
        ensures
            r == self.content().contains_key(uri@),
    {
        self.find(uri).is_some()
    }

    /// Takes up the lines of a file, unless the document is known.
    pub fn maybe_load_file(&mut self, uri: &str, lines: Vec<String>)
        requires
            old(self).well_formed(),
        ensures
            final(self).well_formed(),
            final(self).content() == (if old(self).content().contains_key(uri@) {
                old(self).content()
            } else {
                with_document(old(self).content(), uri@, texts(lines@), None)
            }),
    {
        if !self.has_document(uri) {
            let _ = self.set_document(uri, lines, None);
        }
    }

    /// A line of a document.
    pub fn get_line(&self, uri: &str, line: usize) -> (r: Option<&str>)
        ensures
            match r {
                Some(text) => self.content().contains_key(uri@) && line < self.content()[uri@].lines.len()
                    && text@ == self.content()[uri@].lines[line as int],
                None => !(self.content().contains_key(uri@) && line < self.content()[uri@].lines.len()),
            },
    {
        match self.find(uri) {
            Some(i) => if line < self.documents[i].lines.len() {
                Some(self.documents[i].lines[line].as_str())
            } else {
                None
            },
            None => None,
        }
    }

    /// Whether the text of the range can be cut out of the document. Where the document is not
    /// known, or has no lines, there is nothing to cut.
    pub open spec fn fits(self, uri: Seq<char>, range: Range) -> bool {
        self.content().contains_key(uri) && self.content()[uri].lines.len() > 0 ==> snippet(
            self.content()[uri].lines,
            range,
        ) is Some
    }

    /// Whether the text of the range can be cut out of the document.
    pub fn can_get_snippet(&self, uri: &str, range: &Range) -> (r: bool)
        ensures
            r == self.fits(uri@, *range),
    {
        match self.find(uri) {
            Some(i) => {
                let lines = &self.documents[i].lines;
                assert(texts(lines@).len() == lines@.len());
                lines.len() == 0 || snippet_of(lines, range).is_some()
            },
            None => true,
        }
    }

    /// The text of a range of a document, if the document is known and has lines.
    pub fn get_snippet(&self, uri: &str, range: &Range) -> (r: Option<String>)
        requires
            self.fits(uri@, *range),
        ensures
            r.deep_view() == snippet_in(self.content(), uri@, *range),
    {
        match self.find(uri) {
            Some(i) => {
                let lines = &self.documents[i].lines;
                assert(texts(lines@).len() == lines@.len());
                if lines.len() == 0 {
                    None
                } else {
                    snippet_of(lines, range)
                }
            },
            None => None,
        }
    }

    /// The language of a document.
    pub fn get_lang_id(&self, uri: &str) -> (r: String)
        ensures
            r@ == (if self.content().contains_key(uri@) {
                self.content()[uri@].lang_id
            } else {
                UNKNOWN_LANG_ID@
            }),
    {
        match self.find(uri) {
            Some(i) => self.documents[i].lang_id.clone(),
            None => UNKNOWN_LANG_ID.to_owned(),
        }
    }

    /// How many lines a document has.
    pub fn line_count(&self, uri: &str) -> (r: usize)
        ensures
            r == (if self.content().contains_key(uri@) {
                self.content()[uri@].lines.len()
            } else {
                0
            }),
    {
        match self.find(uri) {
            Some(i) => {
                assert(texts(self.documents@[i as int].lines@).len() == self.documents@[i as int].lines@.len());
                self.documents[i].lines.len()
            },
            None => 0,
        }
    }

    /// Sets the lines of a document. Gives whether its file context has to be renewed.
    pub fn set_document(&mut self, uri: &str, lines: Vec<String>, lang_id: Option<String>) -> (r: bool)
        requires
            old(self).well_formed(),
        ensures
            final(self).well_formed(),
            final(self).content() == with_document(
                old(self).content(),
                uri@,
                texts(lines@),
                lang_id.deep_view(),
            ),
            r == (old(self).content().contains_key(uri@) && old(self).content()[uri@].has_file_context),
    {
        let ghost before = self.documents@;
        match self.find(uri) {
            Some(i) => {
                self.documents[i].lines = lines;
                if let Some(id) = lang_id {
                    self.documents[i].lang_id = id;
                }
                proof {
                    lemma_replaced(before, self.documents@, i as int);
                }
                self.documents[i].has_file_context
            },
            None => {
                let document = Document {
                    uri: uri.to_owned(),
                    lines,
                    lang_id: match lang_id {
                        Some(id) => id,
                        None => UNKNOWN_LANG_ID.to_owned(),
                    },
                    has_file_context: false,
                };
                proof {
                    lemma_added(before, document);
                }
                self.documents.push(document);
                false
            },
        }
    }

    /// Applies a patch to a document. Gives whether its file context has to be renewed; nothing,
    /// where the patch does not fit, and then the document stays as it is.
    pub fn apply_patch(&mut self, uri: &str, range: &Range, text: &str) -> (r: Option<bool>)
        requires
            old(self).well_formed(),
        ensures
            final(self).well_formed(),
            match with_patch(old(self).content(), uri@, *range, text@) {
                Some(after) => {
                    &&& final(self).content() == after
                    &&& r == Some(
                        old(self).content().contains_key(uri@) && old(
                            self,
                        ).content()[uri@].has_file_context,
                    )
                },
                None => r is None && final(self).content() == old(self).content(),
            },
    {
        let ghost before = self.documents@;
        match self.find(uri) {
            Some(i) => match patch(&self.documents[i].lines, range, text) {
                Some(lines) => {
                    self.documents[i].lines = lines;
                    proof {
                        lemma_replaced(before, self.documents@, i as int);
                    }
                    Some(self.documents[i].has_file_context)
                },
                None => None,
            },
            None => Some(false),
        }
    }

    /// Takes up what the editor says of a document. Gives whether a file context has to be renewed;
    /// nothing, where a patch does not fit.
    pub fn handle_doc_sync_notification(&mut self, sync: DocSync) -> (r: Option<bool>)
        requires
            old(self).well_formed(),
        ensures
            final(self).well_formed(),
            match sync {
                DocSync::Open { uri, language_id, text } => {
                    &&& final(self).content() == with_document(
                        old(self).content(),
                        uri@,
                        split(text@, '\n'),
                        Some(language_id@),
                    )
                    &&& r == Some(
                        old(self).content().contains_key(uri@) && old(
                            self,
                        ).content()[uri@].has_file_context,
                    )
                },
                DocSync::Change { uri, changes } => match with_changes(
                    old(self).content(),
                    uri@,
                    changes.deep_view(),
                ) {
                    Some(after) => {
                        &&& final(self).content() == after
                        &&& r == Some(
                            changes@.len() > 0 && old(self).content().contains_key(uri@) && old(
                                self,
                            ).content()[uri@].has_file_context,
                        )
                    },
                    None => r is None,
                },
                DocSync::Close { uri } => final(self).content() == old(self).content().remove(uri@)
                    && r == Some(false),
            },
    {
        match sync {
            DocSync::Open { uri, language_id, text } => {
                let lines = split_text(text.as_str());
                Some(self.set_document(uri.as_str(), lines, Some(language_id)))
            },
            DocSync::Change { uri, changes } => {
                let ghost all = changes.deep_view();
                let ghost start = self.content();
                let ghost enabled = start.contains_key(uri@) && start[uri@].has_file_context;
                let mut renew = false;
                let mut i: usize = 0;
                while i < changes.len()
                    invariant
                        i <= changes@.len(),
                        self.well_formed(),
                        all == changes.deep_view(),
                        start == old(self).content(),
                        enabled == (start.contains_key(uri@) && start[uri@].has_file_context),
                        with_changes(start, uri@, all.take(i as int)) == Some(self.content()),
                        enabled == (self.content().contains_key(uri@)
                            && self.content()[uri@].has_file_context),
                        renew == (i > 0 && enabled),
                        old(self).well_formed(),
                        sync == (DocSync::Change { uri, changes }),
                    decreases changes.len() - i,
                {
                    let change = &changes[i];
                    assert(all.take(i + 1).drop_last() =~= all.take(i as int));
                    assert(all.take(i + 1).last() == change.deep_view());
                    let ghost now = self.content();
                    match &change.range {
                        Some(range) => match self.apply_patch(uri.as_str(), range, change.text.as_str()) {
                            Some(b) => {
                                renew = renew || b;
                            },
                            None => {
                                proof {
                                    lemma_changes_fail(start, uri@, all, i + 1);
                                }
                                return None;
                            },
                        },
                        None => {
                            let b = self.set_document(
                                uri.as_str(),
                                split_text(change.text.as_str()),
                                None,
                            );
                            renew = renew || b;
                        },
                    }
                    i = i + 1;
                }
                assert(all.take(all.len() as int) =~= all);
                Some(renew)
            },
            DocSync::Close { uri } => {
                let ghost before = self.documents@;
                match self.find(uri.as_str()) {
                    Some(i) => {
                        proof {
                            lemma_removed(before, i as int);
                        }
                        let _ = self.documents.remove(i);
                    },
                    None => {
                        assert(self.content().remove(uri@) =~= self.content());
                    },
                }
                Some(false)
            },
        }
    }

    /// Whether the content of a document is kept as a prompt parameter.
    pub fn is_file_context_enabled(&self, uri: &str) -> (r: bool)
        ensures
            r == (self.content().contains_key(uri@) && self.content()[uri@].has_file_context),
    {
        match self.find(uri) {
            Some(i) => self.documents[i].has_file_context,
            None => false,
        }
    }

    /// Whether the content of any document is kept as a prompt parameter.
    pub fn is_any_file_context_enabled(&self) -> (r: bool)
        requires
            self.well_formed(),
        ensures
            r == exists|uri: Seq<char>| #[trigger]
                self.content().contains_key(uri) && self.content()[uri].has_file_context,
    {
        let mut i: usize = 0;
        while i < self.documents.len()
            invariant
                i <= self.documents@.len(),
                self.well_formed(),
                forall|k: int| 0 <= k < i ==> !(#[trigger] self.documents@[k]).has_file_context,
            decreases self.documents.len() - i,
        {
            if self.documents[i].has_file_context {
                proof {
                    lemma_place_is(self.documents@, i as int);
                    assert(self.content().contains_key(self.documents@[i as int].uri@));
                }
                return true;
            }
            i = i + 1;
        }
        assert forall|uri: Seq<char>| #[trigger] self.content().contains_key(uri) implies !self.content()[uri].has_file_context by {
            lemma_place(self.documents@, uri);
        }
        false
    }

    /// Switches the file context of a document on or off.
    pub fn toggle_file_context(&mut self, uri: &str) -> (r: FileContextChange)
        requires
            old(self).well_formed(),
        ensures
            final(self).well_formed(),
            if old(self).content().contains_key(uri@) {
                let document = old(self).content()[uri@];
                &&& final(self).content() == old(self).content().insert(
                    uri@,
                    DocumentModel { has_file_context: !document.has_file_context, ..document },
                )
                &&& r == (if document.has_file_context {
                    FileContextChange::Disabled
                } else {
                    FileContextChange::Enabled
                })
            } else {
                r == FileContextChange::Unknown && final(self).content() == old(self).content()
            },
            final(self).content().dom() == old(self).content().dom(),
            r == FileContextChange::Enabled ==> final(self).content()[uri@].has_file_context,
            r == FileContextChange::Disabled ==> !final(self).content()[uri@].has_file_context,
    {
        let ghost before = self.documents@;
        match self.find(uri) {
            Some(i) => {
                let enabled = self.documents[i].has_file_context;
                self.documents[i].has_file_context = !enabled;
                proof {
                    lemma_replaced(before, self.documents@, i as int);
                }
                if enabled {
                    FileContextChange::Disabled
                } else {
                    FileContextChange::Enabled
                }
            },
            None => FileContextChange::Unknown,
        }
    }

    /// Switches all file contexts off.
    pub fn disable_all_file_contexts(&mut self)
        requires
            old(self).well_formed(),
        ensures
            final(self).well_formed(),
            final(self).content().dom() == old(self).content().dom(),
            forall|uri: Seq<char>| #[trigger]
                final(self).content().contains_key(uri) ==> final(self).content()[uri] == (DocumentModel {
                    has_file_context: false,
                    ..old(self).content()[uri]
                }),
    {
        let ghost before = self.documents@;
        let mut i: usize = 0;
        while i < self.documents.len()
            invariant
                i <= self.documents@.len(),
                before == old(self).documents@,
                are_apart(before),
                self.documents@.len() == before.len(),
                forall|k: int|
                    0 <= k < before.len() ==> (#[trigger] self.documents@[k]).uri@ == before[k].uri@,
                forall|k: int|
                    0 <= k < i ==> (#[trigger] self.documents@[k]).model() == (DocumentModel {
                        has_file_context: false,
                        ..before[k].model()
                    }),
                forall|k: int| i <= k < before.len() ==> #[trigger] self.documents@[k] == before[k],
            decreases self.documents.len() - i,
        {
            self.documents[i].has_file_context = false;
            i = i + 1;
        }
        proof {
            let after = self.documents@;
            assert forall|a: int, b: int| 0 <= a < b < after.len() implies (#[trigger] after[a]).uri@
                != (#[trigger] after[b]).uri@ by {
                assert(before[a].uri@ != before[b].uri@);
            }
            assert forall|uri: Seq<char>| #[trigger] place(after, uri) == place(before, uri) by {
                lemma_place(before, uri);
                lemma_place(after, uri);
                if let Some(k) = place(before, uri) {
                    assert(after[k].uri@ == uri);
                    lemma_place_is(after, k);
                }
                if let Some(k) = place(after, uri) {
                    assert(before[k].uri@ == uri);
                    lemma_place_is(before, k);
                }
            }
            assert(by_address(after).dom() =~= by_address(before).dom());
            assert forall|uri: Seq<char>| #[trigger] self.content().contains_key(uri) implies self.content()[uri]
                == (DocumentModel { has_file_context: false, ..by_address(before)[uri] }) by {
                lemma_place(after, uri);
                lemma_place(before, uri);
            }
        }
    }
}

// ---------------------------------------------------------------------------------------------
// File contexts.

/// The path in an address, if the text is one.
pub uninterp spec fn path_in_url(uri: Seq<char>) -> Option<Seq<char>>;

/// `Url::parse` and `Url::path`: whether a text is an address, and the path in it, are a function of
/// the text.
#[verifier::external_body]
fn url_path(uri: &str) -> (r: Option<String>)
    ensures
        opt_text(r) == path_in_url(uri@),
{
    Some(Url::parse(uri).ok()?.path().to_string())
}

/// The path under which a document is stored. Nothing, where its name is no address.
pub fn document_path(uri: &str) -> (r: Option<String>)
    ensures
        opt_text(r) == path_in_url(uri@),
{
    url_path(uri)
}

/// The text with underscores in the place of dots.
pub open spec fn without_dots(s: Seq<char>) -> Seq<char> {
    s.map_values(
        |c: char|
            if c == '.' {
                '_'
            } else {
                c
            },
    )
}

/// The name of the prompt parameter that holds the content of a file.
pub fn file_context_key(file_path: &str) -> (r: String)
    ensures
        r@ == "codeassist_file_content."@ + without_dots(file_path@),
{
    let chars = chars_of(file_path);
    let mut changed = String::new();
    let mut i: usize = 0;
    while i < chars.len()
        invariant
            chars@ == file_path@,
            i <= chars@.len(),
            changed@ == without_dots(file_path@).take(i as int),
        decreases chars.len() - i,
    {
        let c = chars[i];
        let ghost before = changed@;
        changed.push(
            if c == '.' {
                '_'
            } else {
                c
            },
        );
        assert(without_dots(file_path@).take(i + 1) =~= before.push(without_dots(file_path@)[i as int]));
        i = i + 1;
    }
    assert(without_dots(file_path@).take(file_path@.len() as int) =~= without_dots(file_path@));
    concat("codeassist_file_content.", changed.as_str())
}

/// A line with its number before it.
pub open spec fn numbered_line(lines: Seq<Seq<char>>, i: int) -> Seq<char> {
    decimal((i + 1) as nat) + ": "@ + lines[i]
}

/// The lines, each with its number before it.
pub open spec fn numbered(lines: Seq<Seq<char>>) -> Seq<char> {
    join(Seq::new(lines.len(), |i: int| numbered_line(lines, i)), "\n"@)
}

/// The content of a file as a prompt parameter.
pub open spec fn file_context(lines: Seq<Seq<char>>, file_path: Seq<char>) -> Json {
    Json::Object(
        no_members().insert("content"@, Json::Text(numbered(lines))).insert(
            "file_path"@,
            Json::Text(file_path),
        ),
    )
}

/// The content of a file as a prompt parameter.
pub fn file_context_parameter(lines: &Vec<String>, file_path: &str) -> (r: SessionPromptParameter)
    ensures
        r.deep_view() == (SessionPromptParameterModel {
            persistent: true,
            value: file_context(texts(lines@), file_path@),
        }),
{
    let ghost all = texts(lines@);
    let ghost wanted = Seq::new(all.len(), |i: int| numbered_line(all, i));
    let mut numbered_lines: Vec<String> = Vec::new();
    let mut i: usize = 0;
    assert(texts(numbered_lines@) =~= wanted.take(0));
    while i < lines.len()
        invariant
            i <= lines@.len(),
            all == texts(lines@),
            wanted == Seq::new(all.len(), |i: int| numbered_line(all, i)),
            texts(numbered_lines@) == wanted.take(i as int),
        decreases lines.len() - i,
    {
        let mut line = decimal_of(i as u64 + 1);
        line.append(": ");
        line.append(lines[i].as_str());
        let ghost written = line@;
        let ghost earlier = texts(numbered_lines@);
        numbered_lines.push(line);
        assert(texts(numbered_lines@) =~= earlier.push(written));
        assert(wanted.take(i + 1) =~= earlier.push(wanted[i as int]));
        i = i + 1;
    }
    assert(wanted.take(wanted.len() as int) =~= wanted);
    let content = join_with(&numbered_lines, "\n");
    let mut object = new_map();
    map_insert(&mut object, "content".to_owned(), text_value(content));
    map_insert(&mut object, "file_path".to_owned(), text_value(file_path.to_owned()));
    SessionPromptParameter { persistent: true, value: object_value(object) }
}

impl ContentManager {
    /// The prompt parameter of a document: its content while that is kept, else none.
    pub fn file_context_of(&self, uri: &str, file_path: &str, enabled: bool) -> (r: Option<
        SessionPromptParameter,
    >)
        ensures
            if enabled && self.content().contains_key(uri@) {
                r.deep_view() == Some(
                    SessionPromptParameterModel {
                        persistent: true,
                        value: file_context(self.content()[uri@].lines, file_path@),
                    },
                )
            } else {
                r is None
            },
    {
        if !enabled {
            return None;
        }
        match self.find(uri) {
            Some(i) => Some(file_context_parameter(&self.documents[i].lines, file_path)),
            None => None,
        }
    }
}

/// A prompt parameter that is to be stored under a key, or taken away.
#[derive(Debug)]
pub struct FileContextUpdate {
    pub key: String,
    pub parameter: Option<SessionPromptParameter>,
}

impl ContentManager {
    /// What is to be stored for a document: under the key of its path, its content while that is
    /// kept, else nothing. Nothing can be stored where the name of the document is no address.
    pub fn file_context_update(&self, uri: &str, enabled: bool) -> (r: Option<FileContextUpdate>)
        ensures
            match path_in_url(uri@) {
                Some(path) => {
                    &&& r matches Some(update)
                    &&& update.key@ == "codeassist_file_content."@ + without_dots(path)
                    &&& update.parameter.deep_view() == (if enabled && self.content().contains_key(uri@) {
                        Some(
                            SessionPromptParameterModel {
                                persistent: true,
                                value: file_context(self.content()[uri@].lines, path),
                            },
                        )
                    } else {
                        None
                    })
                },
                None => r is None,
            },
    {
        match url_path(uri) {
            Some(path) => Some(
                FileContextUpdate {
                    key: file_context_key(path.as_str()),
                    parameter: self.file_context_of(uri, path.as_str(), enabled),
                },
            ),
            None => None,
        }
    }
}

/// What is to be done about the prompt parameter of a document.
#[derive(Clone, Copy, Debug, PartialEq, Eq, Structural)]
pub enum StorageStep {
    Nothing,
    Store,
    /// Take the parameter out, and stop.
    Clear,
}

/// What happened to a document whose content is kept.
#[derive(Clone, Copy, Debug, PartialEq, Eq, Structural)]
pub enum StorageEvent {
    /// Some time has passed.
    Tick,
    Changed,
    /// The content is not kept any more.
    Ended,
}

/// Keeps the content of a document as a prompt parameter, not more often than time passes.
#[derive(Debug)]
pub struct FileContextStorage {
    pub storage_pending: bool,
}

impl FileContextStorage {
    /// Takes up what happened. A change is stored when time has passed.
    pub fn on_event(&mut self, event: StorageEvent) -> (r: StorageStep)
        ensures
            match event {
                StorageEvent::Tick => !final(self).storage_pending && r == (if old(
                    self,
                ).storage_pending {
                    StorageStep::Store
                } else {
                    StorageStep::Nothing
                }),
                StorageEvent::Changed => final(self).storage_pending && r == StorageStep::Nothing,
                StorageEvent::Ended => r == StorageStep::Clear && final(self).storage_pending == old(
                    self,
                ).storage_pending,
            },
            r == StorageStep::Store <==> event == StorageEvent::Tick && old(self).storage_pending,
            r == StorageStep::Clear <==> event == StorageEvent::Ended,
            event == StorageEvent::Changed ==> final(self).storage_pending,
            r == StorageStep::Store ==> !final(self).storage_pending,
    {
        match event {
            StorageEvent::Tick => {
                if self.storage_pending {
                    self.storage_pending = false;
                    StorageStep::Store
                } else {
                    StorageStep::Nothing
                }
            },
            StorageEvent::Changed => {
                self.storage_pending = true;
                StorageStep::Nothing
            },
            StorageEvent::Ended => StorageStep::Clear,
        }
    }
}

// ---------------------------------------------------------------------------------------------
// Laws.

/// The text of a document before a place: the lines before it, and what stays of its line.
pub open spec fn text_before(lines: Seq<Seq<char>>, start: Position) -> Seq<char> {
    join(lines.take(start.line as int).push(kept_before(lines, start)->0), seq!['\n'])
}

/// The text of a document behind a place: what stays of its line, and the lines behind it.
pub open spec fn text_after(lines: Seq<Seq<char>>, end: Position) -> Seq<char> {
    join(seq![kept_after(lines, end)->0] + lines.skip(end.line + 1), seq!['\n'])
}

/// A patch puts its text between what stands before its range and what stands behind it.
pub proof fn law_patch_replaces_range(lines: Seq<Seq<char>>, range: Range, text: Seq<char>)
    requires
        patched(lines, range, text) is Some,
    ensures
        join(patched(lines, range, text)->0, seq!['\n']) == text_before(lines, range.start) + text
            + text_after(lines, range.end),
{
    let first = range.start.line as int;
    let last = range.end.line as int;
    let p = kept_before(lines, range.start)->0;
    let q = kept_after(lines, range.end)->0;
    let parts = split(text, '\n');
    lemma_split_nonempty(text, '\n');
    law_join_undoes_split(text, '\n');
    lemma_between(lines.take(first), parts, lines.skip(last + 1), p, q);
}

proof fn lemma_between(
    head: Seq<Seq<char>>,
    parts: Seq<Seq<char>>,
    tail: Seq<Seq<char>>,
    p: Seq<char>,
    q: Seq<char>,
)
    requires
        parts.len() > 0,
    ensures
        join(head + with_suffix(with_prefix(parts, p), q) + tail, seq!['\n']) == join(
            head.push(p),
            seq!['\n'],
        ) + join(parts, seq!['\n']) + join(seq![q] + tail, seq!['\n']),
{
    let nl = seq!['\n'];
    let text = join(parts, nl);
    let begun = with_prefix(parts, p);
    let middle = with_suffix(begun, q);
    lemma_prefixed(parts, p, nl);
    lemma_suffixed(begun, q, nl);
    assert(join(middle, nl) == p + text + q);
    let before = join(head.push(p), nl);
    let after = join(seq![q] + tail, nl);
    assert(head + seq![p] =~= head.push(p));
    let opened = join(head + middle, nl);
    if head.len() == 0 {
        assert(head + middle =~= middle);
        assert(head.push(p) =~= seq![p]);
        assert(opened =~= before + text + q);
    } else {
        lemma_join_sum(head, middle, nl);
        lemma_join_sum(head, seq![p], nl);
        assert(opened =~= before + text + q);
    }
    if tail.len() == 0 {
        assert(head + middle + tail =~= head + middle);
        assert(seq![q] + tail =~= seq![q]);
        assert(join(head + middle + tail, nl) =~= before + text + after);
    } else {
        lemma_join_sum(head + middle, tail, nl);
        lemma_join_sum(seq![q], tail, nl);
        assert(join(head + middle + tail, nl) =~= before + text + after);
    }
}

proof fn lemma_prefixed(parts: Seq<Seq<char>>, prefix: Seq<char>, sep: Seq<char>)
    requires
        parts.len() > 0,
    ensures
        join(with_prefix(parts, prefix), sep) == prefix + join(parts, sep),
    decreases parts.len(),
{
    let begun = with_prefix(parts, prefix);
    if parts.len() > 1 {
        assert(begun.drop_last() =~= with_prefix(parts.drop_last(), prefix));
        assert(begun.last() == parts.last());
        lemma_prefixed(parts.drop_last(), prefix, sep);
        assert(prefix + join(parts.drop_last(), sep) + sep + parts.last() =~= prefix + (join(
            parts.drop_last(),
            sep,
        ) + sep + parts.last()));
    }
}

proof fn lemma_suffixed(parts: Seq<Seq<char>>, suffix: Seq<char>, sep: Seq<char>)
    requires
        parts.len() > 0,
    ensures
        join(with_suffix(parts, suffix), sep) == join(parts, sep) + suffix,
{
    let ended = with_suffix(parts, suffix);
    if parts.len() > 1 {
        assert(ended.drop_last() =~= parts.drop_last());
        assert(join(parts.drop_last(), sep) + sep + (parts.last() + suffix) =~= join(
            parts.drop_last(),
            sep,
        ) + sep + parts.last() + suffix);
    }
}

/// A document that is opened, or changed as a whole, holds exactly the text that was given.
pub proof fn law_document_holds_its_text(
    documents: Map<Seq<char>, DocumentModel>,
    uri: Seq<char>,
    text: Seq<char>,
    lang_id: Option<Seq<char>>,
)
    ensures
        join(with_document(documents, uri, split(text, '\n'), lang_id)[uri].lines, seq!['\n']) == text,
{
    law_join_undoes_split(text, '\n');
}

/// The range from the first place that can be named to the last.
pub open spec fn whole_range() -> Range {
    Range {
        start: Position { line: 0, character: 0 },
        end: Position { line: u32::MAX, character: u32::MAX },
    }
}

/// Lines that are cut nowhere are whole.
proof fn lemma_whole_lines(lines: Seq<Seq<char>>, upto: int)
    requires
        0 <= upto <= lines.len(),
        forall|i: int| 0 <= i < lines.len() ==> byte_len(#[trigger] lines[i]) <= u32::MAX,
    ensures
        line_pieces(lines, whole_range(), 0, lines.len() - 1, upto) == Some(lines.take(upto)),
    decreases upto,
{
    if upto > 0 {
        lemma_whole_lines(lines, upto - 1);
        let line = lines[upto - 1];
        assert(byte_len(line) <= u32::MAX);
        lemma_byte_slice_whole(line);
        assert(line_piece(lines, whole_range(), 0, lines.len() - 1, upto - 1) == Some(line));
        assert(lines.take(upto) =~= lines.take(upto - 1).push(line));
    } else {
        assert(lines.take(0) =~= Seq::empty());
    }
}

/// The snippet of the whole range of a document that was opened is exactly the text that was given,
/// as far as its places can be named. A document that was never loaded has no snippet.
pub proof fn law_whole_range_is_the_text(
    documents: Map<Seq<char>, DocumentModel>,
    uri: Seq<char>,
    text: Seq<char>,
    lang_id: Option<Seq<char>>,
    other: Seq<char>,
    range: Range,
)
    requires
        split(text, '\n').len() - 1 <= u32::MAX,
        forall|i: int|
            0 <= i < split(text, '\n').len() ==> byte_len(#[trigger] split(text, '\n')[i]) <= u32::MAX,
    ensures
        snippet_in(
            with_document(documents, uri, split(text, '\n'), lang_id),
            uri,
            whole_range(),
        ) == Some(text),
        other != uri && !documents.contains_key(other) ==> snippet_in(
            with_document(documents, uri, split(text, '\n'), lang_id),
            other,
            range,
        ) is None,
{
    let lines = split(text, '\n');
    lemma_split_nonempty(text, '\n');
    lemma_whole_lines(lines, lines.len() as int);
    assert(lines.take(lines.len() as int) =~= lines);
    law_join_undoes_split(text, '\n');
    reveal_strlit("\n");
    assert("\n"@ =~= seq!['\n']);
}

/// What is said of one document does not touch another.
pub proof fn law_documents_are_apart(
    documents: Map<Seq<char>, DocumentModel>,
    uri: Seq<char>,
    changes: Seq<ContentChangeModel>,
    other: Seq<char>,
)
    requires
        other != uri,
        with_changes(documents, uri, changes) is Some,
    ensures
        ({
            let after = with_changes(documents, uri, changes)->0;
            &&& after.contains_key(other) == documents.contains_key(other)
            &&& documents.contains_key(other) ==> after[other] == documents[other]
        }),
    decreases changes.len(),
{
    if changes.len() > 0 {
        law_documents_are_apart(documents, uri, changes.drop_last(), other);
    }
}

proof fn lemma_bytes_at(s: Seq<char>, n: nat)
    requires
        at_byte(s, n) is Some,
    ensures
        0 <= at_byte(s, n)->0 <= s.len(),
        byte_len(s.take(at_byte(s, n)->0)) == n,
    decreases s.len(),
{
    reveal_with_fuel(encode_utf8, 2);
    if n == 0 {
        assert(s.take(0) =~= Seq::<char>::empty());
    } else {
        let w = byte_len(seq![s[0]]);
        lemma_bytes_at(s.drop_first(), (n - w) as nat);
        let k = at_byte(s.drop_first(), (n - w) as nat)->0;
        assert(s.take(k + 1).drop_first() =~= s.drop_first().take(k));
        assert(seq![s[0]].drop_first() =~= Seq::<char>::empty());
    }
}

/// A place in a line cuts the line in two: what stays before it is as many bytes as the place says, and
/// with what stays behind it makes up the line.
pub proof fn law_place_cuts_its_line(lines: Seq<Seq<char>>, place: Position)
    requires
        place.line < lines.len(),
        place.character <= byte_len(lines[place.line as int]),
        kept_before(lines, place) is Some,
    ensures
        kept_after(lines, place) is Some,
        byte_len(kept_before(lines, place)->0) == place.character,
        kept_before(lines, place)->0 + kept_after(lines, place)->0 == lines[place.line as int],
{
    let line = lines[place.line as int];
    let n = place.character as nat;
    lemma_byte_slice_whole(line);
    assert(at_byte(line, 0) == Some(0int));
    reveal_with_fuel(encode_utf8, 1);
    if n > 0 {
        lemma_bytes_at(line, n);
        let a = at_byte(line, n)->0;
        lemma_bytes_at(line, byte_len(line));
        let all = at_byte(line, byte_len(line))->0;
        assert(line.subrange(0, all) == line);
        assert(all == line.len()) by {
            assert(line.subrange(0, all).len() == all);
        }
        assert(line.subrange(0, a) =~= line.take(a));
        assert(line.subrange(0, a) + line.subrange(a, all) =~= line);
        if n == byte_len(line) {
            assert(a == all);
            assert(line.subrange(0, a) + Seq::<char>::empty() =~= line);
        }
    } else if byte_len(line) > 0 {
        assert(Seq::<char>::empty() + line =~= line);
    } else {
        assert(line.len() == 0) by {
            if line.len() > 0 {
                assert(line.subrange(0, at_byte(line, byte_len(line))->0).len() == 0);
            }
        }
        assert(Seq::<char>::empty() + Seq::<char>::empty() =~= line);
    }
}

proof fn lemma_pieces_are(lines: Seq<Seq<char>>, range: Range, first: int, last: int, upto: int)
    requires
        first <= upto,
        line_pieces(lines, range, first, last, upto) is Some,
    ensures
        line_pieces(lines, range, first, last, upto)->0.len() == upto - first,
        forall|k: int|
            first <= k < upto ==> line_piece(lines, range, first, last, k) == Some(
                #[trigger] line_pieces(lines, range, first, last, upto)->0[k - first],
            ),
    decreases upto - first,
{
    if first < upto {
        lemma_pieces_are(lines, range, first, last, upto - 1);
        let before = line_pieces(lines, range, first, last, upto - 1)->0;
        let pieces = line_pieces(lines, range, first, last, upto)->0;
        assert forall|k: int| first <= k < upto implies line_piece(lines, range, first, last, k) == Some(
            #[trigger] pieces[k - first],
        ) by {
            if k < upto - 1 {
                assert(pieces[k - first] == before[k - first]);
            }
        }
    }
}

proof fn lemma_cut(line: Seq<char>, from: nat, to: nat)
    requires
        from <= to <= byte_len(line),
        byte_slice(line, from, to) is Some,
    ensures
        ({
            let a = at_byte(line, from)->0;
            let b = at_byte(line, to)->0;
            &&& at_byte(line, from) is Some && at_byte(line, to) is Some
            &&& 0 <= a <= b <= line.len()
            &&& byte_slice(line, from, to) == Some(line.subrange(a, b))
            &&& byte_slice(line, 0, from) == Some(line.subrange(0, a))
            &&& byte_slice(line, to, byte_len(line)) == Some(line.subrange(b, line.len() as int))
            &&& from == 0 ==> a == 0
            &&& to == byte_len(line) ==> b == line.len()
        }),
{
    lemma_at_byte_ordered(line, from, to);
    lemma_byte_slice_whole(line);
    assert(at_byte(line, 0) == Some(0int));
    let all = at_byte(line, byte_len(line))->0;
    assert(line.subrange(0, all) == line);
    lemma_at_byte_ordered(line, 0, byte_len(line));
    assert(line.subrange(0, all).len() == all);
}

/// The text of a range stands between what stands before the range and what stands behind it: with both
/// it makes up the text of the document.
pub proof fn law_snippet_is_the_text_of_its_range(lines: Seq<Seq<char>>, range: Range)
    requires
        range.start.line <= range.end.line < lines.len(),
        range.start.line == range.end.line ==> range.start.character <= range.end.character,
        range.start.character == 0 || range.start.character < byte_len(lines[range.start.line as int]),
        range.end.character <= byte_len(lines[range.end.line as int]),
        snippet(lines, range) is Some,
    ensures
        kept_before(lines, range.start) is Some,
        kept_after(lines, range.end) is Some,
        text_before(lines, range.start) + snippet(lines, range)->0 + text_after(lines, range.end) == join(
            lines,
            seq!['\n'],
        ),
{
    reveal_strlit("\n");
    assert("\n"@ =~= seq!['\n']);
    let first = range.start.line as int;
    let last = range.end.line as int;
    let pieces = line_pieces(lines, range, first, last, last + 1)->0;
    lemma_pieces_are(lines, range, first, last, last + 1);
    let c = range.start.character as nat;
    let e = range.end.character as nat;
    let top = lines[first];
    let bottom = lines[last];
    assert(line_piece(lines, range, first, last, first) == Some(pieces[first - first]));
    assert(line_piece(lines, range, first, last, last) == Some(pieces[last - first]));
    assert(byte_len(top) == 0 ==> c == 0);
    assert(first_byte(top, range.start.character) == c);
    if first == last {
        lemma_cut(top, c, e);
    } else {
        lemma_cut(top, c, byte_len(top));
        lemma_cut(bottom, 0, e);
    }
    let p = kept_before(lines, range.start)->0;
    let q = kept_after(lines, range.end)->0;
    let a = at_byte(top, c)->0;
    let b = at_byte(bottom, e)->0;
    assert(p =~= top.subrange(0, a));
    assert(q =~= bottom.subrange(b, bottom.len() as int)) by {
        if e == byte_len(bottom) {
            assert(b == bottom.len());
        }
    }
    let middle = with_suffix(with_prefix(pieces, p), q);
    assert forall|k: int| first <= k <= last implies middle[k - first] == lines[k] by {
        assert(line_piece(lines, range, first, last, k) == Some(pieces[k - first]));
        if first == last {
            assert(p + pieces[0] + q =~= top);
        } else if k == first {
            assert(p + pieces[0] =~= top);
        } else if k == last {
            assert(pieces[last - first] + q =~= bottom);
        } else {
            lemma_byte_slice_whole(lines[k]);
        }
    }
    assert(lines.take(first) + middle + lines.skip(last + 1) =~= lines) by {
        assert forall|k: int| first <= k <= last implies (lines.take(first) + middle + lines.skip(
            last + 1,
        ))[k] == lines[k] by {
            assert(middle[k - first] == lines[k]);
        }
    }
    lemma_between(lines.take(first), pieces, lines.skip(last + 1), p, q);
}

/// A patch fits wherever its range lies within the document and cuts no character.
pub proof fn law_patch_fits_within_the_document(lines: Seq<Seq<char>>, range: Range, text: Seq<char>)
    requires
        range.start.line <= range.end.line < lines.len(),
        range.start.character == 0,
        range.end.character == 0,
    ensures
        patched(lines, range, text) is Some,
{
    let line = lines[range.end.line as int];
    lemma_byte_slice_whole(line);
}

/// A document that is opened gets its language, and one that is changed as a whole keeps it. Whether its
/// content is kept for the session stays, and is not so for a new document. Other documents stay.
pub proof fn law_document_keeps_what_is_not_said(
    documents: Map<Seq<char>, DocumentModel>,
    uri: Seq<char>,
    lines: Seq<Seq<char>>,
    lang_id: Option<Seq<char>>,
    other: Seq<char>,
)
    requires
        other != uri,
    ensures
        ({
            let after = with_document(documents, uri, lines, lang_id);
            &&& after.contains_key(uri) && after[uri].lines == lines
            &&& lang_id matches Some(id) ==> after[uri].lang_id == id
            &&& lang_id is None && documents.contains_key(uri) ==> after[uri].lang_id
                == documents[uri].lang_id
            &&& lang_id is None && !documents.contains_key(uri) ==> after[uri].lang_id == "unknown"@
            &&& after[uri].has_file_context == (documents.contains_key(uri)
                && documents[uri].has_file_context)
            &&& after.contains_key(other) == documents.contains_key(other)
            &&& documents.contains_key(other) ==> after[other] == documents[other]
        }),
{
}

/// Changes are made one after the other: the last on what those before it made, in its range or of the
/// whole document.
pub proof fn law_changes_are_made_in_order(
    documents: Map<Seq<char>, DocumentModel>,
    uri: Seq<char>,
    changes: Seq<ContentChangeModel>,
    range: Range,
    text: Seq<char>,
    before: Map<Seq<char>, DocumentModel>,
)
    requires
        with_changes(documents, uri, changes) == Some(before),
    ensures
        with_changes(documents, uri, Seq::empty()) == Some(documents),
        ({
            let patch = ContentChangeModel { range: Some(range), text };
            let whole = ContentChangeModel { range: None, text };
            &&& before.contains_key(uri) ==> {
                &&& patched(before[uri].lines, range, text) matches Some(lines) ==> (with_changes(
                    documents,
                    uri,
                    changes.push(patch),
                ) matches Some(after) && after[uri].lines == lines && after[uri].lang_id
                    == before[uri].lang_id && after[uri].has_file_context == before[uri].has_file_context)
                &&& patched(before[uri].lines, range, text) is None ==> with_changes(
                    documents,
                    uri,
                    changes.push(patch),
                ) is None
            }
            &&& with_changes(documents, uri, changes.push(whole)) matches Some(after)
            &&& after.contains_key(uri) && join(after[uri].lines, seq!['\n']) == text
        }),
{
    let patch = ContentChangeModel { range: Some(range), text };
    let whole = ContentChangeModel { range: None, text };
    assert(changes.push(patch).drop_last() =~= changes);
    assert(changes.push(whole).drop_last() =~= changes);
    law_join_undoes_split(text, '\n');
}

/// The content of a file as a prompt parameter: its path, and every line in order, each behind its
/// number, counted from one.
pub proof fn law_file_context_numbers_the_lines(lines: Seq<Seq<char>>, file_path: Seq<char>, i: int)
    requires
        lines.len() > 0,
        forall|k: int| 0 <= k < lines.len() ==> !(#[trigger] lines[k]).contains('\n'),
        0 <= i < lines.len(),
    ensures
        file_context(lines, file_path).member("file_path"@) == Some(Json::Text(file_path)),
        ({
            &&& file_context(lines, file_path).member("content"@) matches Some(Json::Text(content))
            &&& split(content, '\n').len() == lines.len()
            &&& split(content, '\n')[i] == decimal((i + 1) as nat) + seq![':', ' '] + lines[i]
        }),
{
    reveal_strlit("content");
    reveal_strlit("file_path");
    reveal_strlit("\n");
    reveal_strlit(": ");
    assert("content"@.len() == 7 && "file_path"@.len() == 9);
    assert("\n"@ =~= seq!['\n']);
    assert(": "@ =~= seq![':', ' ']);
    let parts = Seq::new(lines.len(), |i: int| numbered_line(lines, i));
    assert forall|k: int| 0 <= k < parts.len() implies !(#[trigger] parts[k]).contains('\n') by {
        lemma_decimal((k + 1) as nat);
        let d = decimal((k + 1) as nat);
        let s = parts[k];
        if s.contains('\n') {
            let x = choose|x: int| 0 <= x < s.len() && s[x] == '\n';
            if x < d.len() {
                assert(d[x] == '\n');
            } else if x >= d.len() + 2 {
                assert(lines[k][x - d.len() - 2] == '\n');
            }
        }
    }
    law_split_undoes_join(parts, '\n');
}

/// The name of the prompt parameter of a file holds no dot but the one behind its first part, and of the
/// path nothing but the dots is changed.
pub proof fn law_key_of_a_file_has_no_dots(file_path: &str, r: String, i: int)
    requires
        call_ensures(file_context_key, (file_path,), r),
        0 <= i < file_path@.len(),
    ensures
        r@.len() == "codeassist_file_content."@.len() + file_path@.len(),
        "codeassist_file_content."@.is_prefix_of(r@),
        file_path@[i] != '.' ==> r@["codeassist_file_content."@.len() + i] == file_path@[i],
        file_path@[i] == '.' ==> r@["codeassist_file_content."@.len() + i] == '_',
{
    let head = "codeassist_file_content."@;
    assert(r@.take(head.len() as int) =~= head);
    assert(r@[head.len() + i] == without_dots(file_path@)[i]);
}

/// The content of a document is stored while that is enabled and the document is known, and is kept;
/// otherwise what is stored of it is removed. Both happen under the same key.
pub proof fn law_content_is_stored_while_enabled(
    content: ContentManager,
    uri: &str,
    r: Option<FileContextUpdate>,
    s: Option<FileContextUpdate>,
)
    requires
        call_ensures(ContentManager::file_context_update, (&content, uri, true), r),
        call_ensures(ContentManager::file_context_update, (&content, uri, false), s),
    ensures
        r is Some <==> s is Some,
        r matches Some(update) ==> {
            &&& s matches Some(removal) && removal.key@ == update.key@ && removal.parameter is None
            &&& update.parameter is Some <==> content.content().contains_key(uri@)
            &&& update.parameter matches Some(stored) ==> stored.persistent
            &&& update.key@.take(24) == "codeassist_file_content."@
        },
{
    reveal_strlit("codeassist_file_content.");
    if let Some(update) = r {
        assert(update.key@.take(24) =~= "codeassist_file_content."@);
        if let Some(stored) = update.parameter {
            assert(update.parameter.deep_view() == Some(stored.deep_view()));
            assert(stored.deep_view().persistent == stored.persistent);
        }
    }
}

} // verus!
