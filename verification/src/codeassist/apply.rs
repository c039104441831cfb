//! Putting completed code into the document.

use vstd::prelude::*;
use vstd::utf8::{is_ascii_chars, is_ascii_chars_encode_utf8};
use crate::codeassist::position::{at, spec_at, Position, Range, TextEdit, TextEditModel};
use crate::text::{
    at_byte, byte_len, byte_slice, chars_of, concat, is_all_ascii, join, join_with,
    law_split_undoes_join, lemma_ascii_byte, lemma_at_byte_ordered, lemma_byte_slice_whole,
    lemma_split_sum, lemma_split_whole, same, size, slice, split, split_on, starts_with, texts,
};

verus! {

/// What the lines begin with that fence code in Markdown.
pub const CODE_WRAP_MD_TOKEN: &'static str = "``";

// ---------------------------------------------------------------------------------------------
// Whole snippets.

/// The text, filled up with a character on its right.
pub open spec fn padded(s: Seq<char>, width: nat, fill: char) -> Seq<char> {
    if s.len() >= width {
        s
    } else {
        s + Seq::new((width - s.len()) as nat, |i: int| fill)
    }
}

/// A snippet between two lines that mark it.
pub open spec fn wrapped(snippet: Seq<char>, header: Seq<char>) -> Seq<char> {
    ">>=="@ + padded(header, 40, '=') + "=#\n"@ + snippet + "\n<<=="@ + padded(""@, 40, '=') + "=#\n"@
}

/// The text, filled up with a character on its right.
fn pad(s: &str, width: usize, fill: char) -> (r: String)
    ensures
        r@ == padded(s@, width as nat, fill),
{
    let chars = chars_of(s);
    let mut r = s.to_owned();
    let mut n: usize = chars.len();
    let ghost given = n as int;
    while n < width
        invariant
            given <= n,
            given == s@.len(),
            n <= width || n == given,
            r@ == s@ + Seq::new((n - given) as nat, |i: int| fill),
        decreases width - n,
    {
        let ghost before = r@;
        r.push(fill);
        n = n + 1;
        assert(s@ + Seq::new((n - given) as nat, |i: int| fill) =~= before.push(fill));
    }
    assert(s@ + Seq::new(0, |i: int| fill) =~= s@);
    r
}

/// A snippet between two lines that mark it.
pub fn wrap_snippet(snippet: &str, header: &str) -> (r: String)
    ensures
        r@ == wrapped(snippet@, header@),
{
    let mut r = concat(">>==", pad(header, 40, '=').as_str());
    r.append("=#\n");
    r.append(snippet);
    r.append("\n<<==");
    r.append(pad("", 40, '=').as_str());
    r.append("=#\n");
    r
}

/// The lines that do not begin with the fence.
pub open spec fn code_lines(lines: Seq<Seq<char>>, fence: Seq<char>) -> Seq<Seq<char>> {
    lines.filter(|line: Seq<char>| !fence.is_prefix_of(line))
}

/// The text without the lines that begin with the fence.
pub open spec fn code_of(text: Seq<char>, fence: Seq<char>) -> Seq<char> {
    join(code_lines(split(text, '\n'), fence), "\n"@)
}

/// The text without the lines that begin with the fence.
pub fn strip_fences(text: &str, fence: &str) -> (r: String)
    ensures
        r@ == code_of(text@, fence@),
{
    let lines = split_on(text, '\n');
    let ghost all = texts(lines@);
    let ghost wanted = |line: Seq<char>| !fence@.is_prefix_of(line);
    let mut kept: Vec<String> = Vec::new();
    let mut i: usize = 0;
    proof {
        reveal(Seq::filter);
    }
    assert(texts(kept@) =~= all.take(0).filter(wanted));
    while i < lines.len()
        invariant
            i <= lines@.len(),
            all == texts(lines@),
            wanted == (|line: Seq<char>| !fence@.is_prefix_of(line)),
            texts(kept@) == all.take(i as int).filter(wanted),
        decreases lines.len() - i,
    {
        proof {
            reveal(Seq::filter);
        }
        assert(all.take(i + 1).drop_last() =~= all.take(i as int));
        assert(all.take(i + 1).last() == lines@[i as int]@);
        let ghost before = texts(kept@);
        if !starts_with(lines[i].as_str(), fence) {
            kept.push(lines[i].clone());
            assert(texts(kept@) =~= before.push(lines@[i as int]@));
        }
        i = i + 1;
    }
    assert(all.take(all.len() as int) =~= all);
    join_with(&kept, "\n")
}

/// A snippet that was completed with a preset.
#[derive(Debug)]
pub struct CompletedSnippet {
    pub preset: String,
    pub response: String,
    pub thread_id: Option<String>,
}

/// What a [`CompletedSnippet`] says.
#[verifier::ext_equal]
pub ghost struct CompletedSnippetModel {
    pub preset: Seq<char>,
    pub response: Seq<char>,
    pub thread_id: Option<Seq<char>>,
}

impl DeepView for CompletedSnippet {
    type V = CompletedSnippetModel;

    open spec fn deep_view(&self) -> CompletedSnippetModel {
        CompletedSnippetModel {
            preset: self.preset@,
            response: self.response@,
            thread_id: self.thread_id.deep_view(),
        }
    }
}

/// Whether completed code takes the place of the code that was to be completed: if that is
/// preferred, and there is one snippet only.
pub open spec fn is_in_place(prefer_insert_in_place: bool, count: nat) -> bool {
    prefer_insert_in_place && count == 1
}

/// The snippets one after the other, without fences.
pub open spec fn snippets_text(snippets: Seq<CompletedSnippetModel>, in_place: bool) -> Seq<char>
    decreases snippets.len(),
{
    if snippets.len() == 0 {
        Seq::empty()
    } else {
        let code = code_of(snippets.last().response, CODE_WRAP_MD_TOKEN@);
        snippets_text(snippets.drop_last(), in_place) + if in_place {
            code
        } else {
            wrapped(code, snippets.last().preset)
        }
    }
}

/// The thread of the last snippet that has one, or else the one before.
pub open spec fn last_thread(snippets: Seq<CompletedSnippetModel>, before: Option<Seq<char>>) -> Option<
    Seq<char>,
>
    decreases snippets.len(),
{
    if snippets.len() == 0 {
        before
    } else {
        match snippets.last().thread_id {
            Some(id) => Some(id),
            None => last_thread(snippets.drop_last(), before),
        }
    }
}

/// The edit that puts completed snippets into the document, and the thread to go on with. In place,
/// the code that was to be completed is replaced; else the snippets, each between lines that mark
/// it, go before the line at which it ends.
pub fn apply_completed_snippet_edits(
    completed_snippets: &Vec<CompletedSnippet>,
    prefer_insert_in_place: bool,
    code_range: Range,
    thread_id: Option<String>,
) -> (r: (TextEdit, Option<String>))
    ensures
        ({
            let snippets = completed_snippets.deep_view();
            let in_place = is_in_place(prefer_insert_in_place, snippets.len());
            &&& r.0.deep_view() == (if in_place {
                TextEditModel { range: code_range, new_text: snippets_text(snippets, true) }
            } else {
                TextEditModel {
                    range: spec_at(Position { line: code_range.end.line, character: 0 }),
                    new_text: snippets_text(snippets, false).push('\n'),
                }
            })
            &&& r.1.deep_view() == last_thread(snippets, thread_id.deep_view())
        }),
{
    let ghost all = completed_snippets.deep_view();
    let ghost given = thread_id.deep_view();
    let in_place = prefer_insert_in_place && completed_snippets.len() == 1;
    let mut text = String::new();
    let mut thread_id = thread_id;
    let mut i: usize = 0;
    assert(all.take(0) =~= Seq::<CompletedSnippetModel>::empty());
    assert(text@ =~= snippets_text(all.take(0), in_place));
    while i < completed_snippets.len()
        invariant
            i <= completed_snippets@.len(),
            all == completed_snippets.deep_view(),
            text@ == snippets_text(all.take(i as int), in_place),
            thread_id.deep_view() == last_thread(all.take(i as int), given),
        decreases completed_snippets.len() - i,
    {
        let completed = &completed_snippets[i];
        assert(all.take(i + 1).drop_last() =~= all.take(i as int));
        assert(all.take(i + 1).last() == completed.deep_view());
        if let Some(id) = &completed.thread_id {
            thread_id = Some(id.clone());
        }
        let code = strip_fences(completed.response.as_str(), CODE_WRAP_MD_TOKEN);
        if in_place {
            text.append(code.as_str());
        } else {
            text.append(wrap_snippet(code.as_str(), completed.preset.as_str()).as_str());
        }
        i = i + 1;
    }
    assert(all.take(all.len() as int) =~= all);
    let edit = if in_place {
        TextEdit { range: code_range, new_text: text }
    } else {
        text.push('\n');
        TextEdit { range: at(Position { line: code_range.end.line, character: 0 }), new_text: text }
    };
    (edit, thread_id)
}

/// The edit that puts the one snippet into the document that is completed without presets: in place
/// of the code that was to be completed, or between marks behind the line at which it ends.
pub fn apply_edit(completed_snippet: &str, prefer_insert_in_place: bool, code_range: Range) -> (r: TextEdit)
    requires
        prefer_insert_in_place || code_range.end.line < u32::MAX,
    ensures
        r.deep_view() == (if prefer_insert_in_place {
            TextEditModel { range: code_range, new_text: code_of(completed_snippet@, "```"@) }
        } else {
            TextEditModel {
                range: spec_at(Position { line: (code_range.end.line + 1) as u32, character: 0 }),
                new_text: wrapped(code_of(completed_snippet@, "```"@), "Completed snippet"@),
            }
        }),
{
    let code = strip_fences(completed_snippet, "```");
    if prefer_insert_in_place {
        TextEdit { range: code_range, new_text: code }
    } else {
        TextEdit {
            range: at(Position { line: code_range.end.line + 1, character: 0 }),
            new_text: wrap_snippet(code.as_str(), "Completed snippet"),
        }
    }
}

// ---------------------------------------------------------------------------------------------
// Snippets that come in parts.

/// How far a snippet has come: the place behind its text, counted from its beginning, and whether a
/// line is being left out.
#[derive(Clone, Copy, Debug, PartialEq, Eq, Structural)]
pub struct SnippetOffsetInfo {
    pub position: Position,
    pub is_skipping: bool,
}

/// How far a snippet is that has not begun.
pub open spec fn spec_not_begun() -> SnippetOffsetInfo {
    SnippetOffsetInfo { position: Position { line: 0, character: 0 }, is_skipping: false }
}

/// How far a snippet has come after character `i` of a text, and how many bytes of the text are
/// left out. Nothing, where a place has no number, or a byte is none between characters.
pub open spec fn after_char(
    text: Seq<char>,
    i: int,
    offset: SnippetOffsetInfo,
    skipped: nat,
) -> Option<(SnippetOffsetInfo, nat)> {
    let at_start = Position { character: 0, ..offset.position };
    if text[i] == '\n' {
        if offset.is_skipping {
            Some((SnippetOffsetInfo { position: at_start, is_skipping: false }, skipped + 1))
        } else if offset.position.line == u32::MAX {
            None
        } else {
            Some(
                (
                    SnippetOffsetInfo {
                        position: Position {
                            line: (offset.position.line + 1) as u32,
                            character: 0,
                        },
                        is_skipping: false,
                    },
                    skipped,
                ),
            )
        }
    } else if offset.is_skipping {
        Some((offset, skipped + 1))
    } else if offset.position.character == 0 && byte_slice(text, 0, (i + 1) as nat) is None {
        None
    } else if offset.position.character == 0 && byte_slice(text, 0, (i + 1) as nat) == Some(
        CODE_WRAP_MD_TOKEN@,
    ) {
        Some((SnippetOffsetInfo { position: at_start, is_skipping: true }, (i + 1) as nat))
    } else if offset.position.character == u32::MAX {
        None
    } else {
        Some(
            (
                SnippetOffsetInfo {
                    position: Position {
                        character: (offset.position.character + 1) as u32,
                        ..offset.position
                    },
                    is_skipping: false,
                },
                skipped,
            ),
        )
    }
}

/// How far a snippet has come after the first `n` characters of a text.
pub open spec fn after_chars(text: Seq<char>, n: nat, offset: SnippetOffsetInfo) -> Option<
    (SnippetOffsetInfo, nat),
>
    decreases n,
{
    if n == 0 {
        Some((offset, 0))
    } else {
        match after_chars(text, (n - 1) as nat, offset) {
            Some((offset, skipped)) => after_char(text, n - 1, offset, skipped),
            None => None,
        }
    }
}

/// How far a snippet has come after a text, and what of the text goes into the document.
pub open spec fn after_text(text: Seq<char>, offset: SnippetOffsetInfo) -> Option<
    (SnippetOffsetInfo, Seq<char>),
> {
    match after_chars(text, text.len(), offset) {
        Some((after, skipped)) => match byte_slice(text, skipped, byte_len(text)) {
            Some(rest) => Some((after, rest)),
            None => None,
        },
        None => None,
    }
}

proof fn lemma_chars_fail(text: Seq<char>, n: nat, m: nat, offset: SnippetOffsetInfo)
    requires
        n <= m,
        after_chars(text, n, offset) is None,
    ensures
        after_chars(text, m, offset) is None,
    decreases m - n,
{
    if n < m {
        lemma_chars_fail(text, n, (m - 1) as nat, offset);
    }
}

/// Takes up a text. Gives how far the snippet has come, and what of the text goes into the document.
pub fn update_offset_and_filter_text(offset: SnippetOffsetInfo, text: &str) -> (r: Option<
    (SnippetOffsetInfo, String),
>)
    ensures
        match r {
            Some(found) => after_text(text@, offset) == Some((found.0, found.1@)),
            None => after_text(text@, offset) is None,
        },
{
    let chars = chars_of(text);
    let mut now = offset;
    let mut skipped: usize = 0;
    let mut i: usize = 0;
    while i < chars.len()
        invariant
            chars@ == text@,
            i <= chars@.len(),
            skipped <= i,
            after_chars(text@, i as nat, offset) == Some((now, skipped as nat)),
        decreases chars.len() - i,
    {
        let ch = chars[i];
        let ghost before = now;
        if ch == '\n' {
            if now.is_skipping {
                skipped = skipped + 1;
                now.is_skipping = false;
            } else {
                if now.position.line == u32::MAX {
                    proof {
                        lemma_chars_fail(text@, (i + 1) as nat, text@.len(), offset);
                    }
                    return None;
                }
                now.position.line = now.position.line + 1;
            }
            now.position.character = 0;
        } else if now.is_skipping {
            skipped = skipped + 1;
        } else {
            let mut fenced = false;
            if now.position.character == 0 {
                match slice(text, 0, i + 1) {
                    Some(start) => {
                        fenced = same(start.as_str(), CODE_WRAP_MD_TOKEN);
                    },
                    None => {
                        proof {
                            lemma_chars_fail(text@, (i + 1) as nat, text@.len(), offset);
                        }
                        return None;
                    },
                }
            }
            if fenced {
                now.is_skipping = true;
                skipped = i + 1;
                now.position.character = 0;
            } else {
                if now.position.character == u32::MAX {
                    proof {
                        lemma_chars_fail(text@, (i + 1) as nat, text@.len(), offset);
                    }
                    return None;
                }
                now.position.character = now.position.character + 1;
            }
        }
        i = i + 1;
    }
    match slice(text, skipped, size(text)) {
        Some(rest) => Some((now, rest)),
        None => None,
    }
}

/// Puts snippets into the document as their parts come.
#[derive(Debug)]
pub struct StreamedEdits {
    pub insert_in_place: bool,
    /// Where the first snippet begins.
    pub start_position: Position,
    pub snippet_offsets: Vec<SnippetOffsetInfo>,
}

/// The marks of snippets without code.
pub open spec fn empty_wrappers(presets: Seq<Seq<char>>) -> Seq<char>
    decreases presets.len(),
{
    if presets.len() == 0 {
        Seq::empty()
    } else {
        empty_wrappers(presets.drop_last()) + wrapped(""@, presets.last())
    }
}

/// How many lines the first snippets take up: those of their code so far, and their marks.
pub open spec fn lines_of(offsets: Seq<SnippetOffsetInfo>, in_place: bool) -> nat
    decreases offsets.len(),
{
    if offsets.len() == 0 {
        0
    } else {
        lines_of(offsets.drop_last(), in_place) + offsets.last().position.line as nat + if in_place {
            0nat
        } else {
            3nat
        }
    }
}

impl StreamedEdits {
    /// The line and the place in it at which the next part of snippet `id` goes.
    pub open spec fn place_of(self, id: int) -> (int, int) {
        let offset = self.snippet_offsets@[id].position;
        let lines = lines_of(self.snippet_offsets@.take(id), self.insert_in_place) + offset.line;
        (
            self.start_position.line + lines,
            if lines == 0 {
                self.start_position.character + offset.character
            } else {
                offset.character as int
            },
        )
    }

    /// Whether the place at which the next part of snippet `id` goes has a number.
    pub open spec fn has_place(self, id: int) -> bool {
        self.place_of(id).0 <= u32::MAX && self.place_of(id).1 <= u32::MAX
    }

    /// Begins with snippets of those presets. Gives the edit that makes room: in place, the code
    /// that was to be completed goes; else marks go before the line at which it ends.
    pub fn begin(presets: &Vec<String>, prefer_insert_in_place: bool, code_range: Range) -> (r: (
        Self,
        TextEdit,
    ))
        requires
            is_in_place(prefer_insert_in_place, presets@.len()) || code_range.end.line < u32::MAX,
        ensures
            ({
                let in_place = is_in_place(prefer_insert_in_place, presets@.len());
                let line = Position { line: code_range.end.line, character: 0 };
                &&& r.0.insert_in_place == in_place
                &&& r.0.start_position == (if in_place {
                    code_range.start
                } else {
                    Position { line: (code_range.end.line + 1) as u32, character: 0 }
                })
                &&& r.0.snippet_offsets@ == Seq::new(presets@.len(), |i: int| spec_not_begun())
                &&& r.1.deep_view() == (if in_place {
                    TextEditModel { range: code_range, new_text: ""@ }
                } else {
                    TextEditModel {
                        range: spec_at(line),
                        new_text: empty_wrappers(texts(presets@)),
                    }
                })
            }),
    {
        let in_place = prefer_insert_in_place && presets.len() == 1;
        let ghost all = texts(presets@);
        let mut offsets: Vec<SnippetOffsetInfo> = Vec::new();
        let mut wrappers = String::new();
        let mut i: usize = 0;
        assert(wrappers@ =~= empty_wrappers(all.take(0)));
        while i < presets.len()
            invariant
                i <= presets@.len(),
                all == texts(presets@),
                offsets@ == Seq::new(i as nat, |i: int| spec_not_begun()),
                wrappers@ == empty_wrappers(all.take(i as int)),
            decreases presets.len() - i,
        {
            assert(all.take(i + 1).drop_last() =~= all.take(i as int));
            assert(all.take(i + 1).last() == presets@[i as int]@);
            let ghost before = offsets@;
            offsets.push(
                SnippetOffsetInfo { position: Position { line: 0, character: 0 }, is_skipping: false },
            );
            assert(offsets@ =~= Seq::new((i + 1) as nat, |i: int| spec_not_begun()));
            wrappers.append(wrap_snippet("", presets[i].as_str()).as_str());
            i = i + 1;
        }
        assert(all.take(all.len() as int) =~= all);
        let line = Position { line: code_range.end.line, character: 0 };
        if in_place {
            (
                StreamedEdits {
                    insert_in_place: in_place,
                    start_position: code_range.start,
                    snippet_offsets: offsets,
                },
                TextEdit { range: code_range, new_text: "".to_owned() },
            )
        } else {
            (
                StreamedEdits {
                    insert_in_place: in_place,
                    start_position: Position { line: line.line + 1, character: 0 },
                    snippet_offsets: offsets,
                },
                TextEdit { range: at(line), new_text: wrappers },
            )
        }
    }

    /// The place at which the next part of snippet `id` goes, if it has a number.
    pub fn position_of(&self, id: usize) -> (r: Option<Position>)
        requires
            id < self.snippet_offsets@.len(),
        ensures
            match r {
                Some(p) => self.has_place(id as int) && self.place_of(id as int) == (
                    p.line as int,
                    p.character as int,
                ),
                None => !self.has_place(id as int),
            },
    {
        let ghost all = self.snippet_offsets@;
        let mut lines: u64 = 0;
        let mut i: usize = 0;
        let limit: u64 = 0xffff_ffff;
        while i < id
            invariant
                i <= id < all.len(),
                all == self.snippet_offsets@,
                limit == u32::MAX,
                lines == lines_of(all.take(i as int), self.insert_in_place),
                lines <= limit,
            decreases id - i,
        {
            assert(all.take(i + 1).drop_last() =~= all.take(i as int));
            assert(all.take(i + 1).last() == all[i as int]);
            lines = lines + self.snippet_offsets[i].position.line as u64;
            if !self.insert_in_place {
                lines = lines + 3;
            }
            i = i + 1;
            if lines > limit {
                proof {
                    lemma_lines_grow(all, self.insert_in_place, i as int, id as int);
                }
                return None;
            }
        }
        let offset = self.snippet_offsets[id].position;
        let total: u64 = lines + offset.line as u64;
        let line: u64 = self.start_position.line as u64 + total;
        let character: u64 = if total == 0 {
            self.start_position.character as u64 + offset.character as u64
        } else {
            offset.character as u64
        };
        if line > limit || character > limit {
            None
        } else {
            Some(Position { line: line as u32, character: character as u32 })
        }
    }

    /// Takes up a part of snippet `id`. Gives the edit that puts it into the document; nothing, where
    /// its place has no number, or a byte of the text is none between characters. Then nothing
    /// changes.
    pub fn on_text(&mut self, id: usize, text: &str) -> (r: Option<TextEdit>)
        requires
            id < old(self).snippet_offsets@.len(),
        ensures
            final(self).insert_in_place == old(self).insert_in_place,
            final(self).start_position == old(self).start_position,
            match after_text(text@, old(self).snippet_offsets@[id as int]) {
                Some((after, rest)) => if old(self).has_place(id as int) {
                    let (line, character) = old(self).place_of(id as int);
                    &&& final(self).snippet_offsets@ == old(self).snippet_offsets@.update(
                        id as int,
                        after,
                    )
                    &&& r.deep_view() == Some(
                        TextEditModel {
                            range: spec_at(
                                Position { line: line as u32, character: character as u32 },
                            ),
                            new_text: rest,
                        },
                    )
                } else {
                    r is None && *final(self) == *old(self)
                },
                None => r is None && *final(self) == *old(self),
            },
            r is None ==> *final(self) == *old(self),
            r matches Some(edit) ==> {
                &&& edit.range.start == edit.range.end
                &&& (edit.range.start.line as int, edit.range.start.character as int) == old(
                    self,
                ).place_of(id as int)
                &&& !old(self).snippet_offsets@[id as int].is_skipping ==> {
                    &&& edit.new_text@ == text@
                    &&& final(self).place_of(id as int) == behind(
                        old(self).place_of(id as int),
                        text@,
                    )
                }
            },
    {
        let position = match self.position_of(id) {
            Some(position) => position,
            None => {
                return None;
            },
        };
        match update_offset_and_filter_text(self.snippet_offsets[id], text) {
            Some((after, rest)) => {
                self.snippet_offsets.set(id, after);
                proof {
                    if !old(self).snippet_offsets@[id as int].is_skipping {
                        law_next_part_goes_behind_the_last(*old(self), *self, id as int, text@, rest@);
                    }
                }
                Some(TextEdit { range: at(position), new_text: rest })
            },
            None => None,
        }
    }
}

proof fn lemma_lines_grow(offsets: Seq<SnippetOffsetInfo>, in_place: bool, a: int, b: int)
    requires
        0 <= a <= b <= offsets.len(),
    ensures
        lines_of(offsets.take(a), in_place) <= lines_of(offsets.take(b), in_place),
    decreases b - a,
{
    if a < b {
        assert(offsets.take(b).drop_last() =~= offsets.take(b - 1));
        lemma_lines_grow(offsets, in_place, a, b - 1);
    }
}

/// A part of one snippet moves the snippets behind it by the lines it adds, and no snippet before it.
pub proof fn law_parts_move_later_snippets(
    edits: StreamedEdits,
    after: StreamedEdits,
    id: int,
    other: int,
    moved: SnippetOffsetInfo,
)
    requires
        0 <= id < edits.snippet_offsets@.len(),
        0 <= other < edits.snippet_offsets@.len(),
        other != id,
        after.insert_in_place == edits.insert_in_place,
        after.start_position == edits.start_position,
        after.snippet_offsets@ == edits.snippet_offsets@.update(id, moved),
    ensures
        other < id ==> after.place_of(other) == edits.place_of(other),
        other > id ==> after.place_of(other).0 - edits.place_of(other).0 == moved.position.line
            - edits.snippet_offsets@[id].position.line,
        other > id && !edits.insert_in_place ==> after.place_of(other).1 == edits.place_of(other).1,
{
    lemma_lines_moved(edits.snippet_offsets@, edits.insert_in_place, id, other, moved);
    if other > id {
        lemma_marks_count(edits.snippet_offsets@.take(other), edits.insert_in_place);
        lemma_marks_count(after.snippet_offsets@.take(other), edits.insert_in_place);
    }
}

proof fn lemma_lines_moved(
    offsets: Seq<SnippetOffsetInfo>,
    in_place: bool,
    id: int,
    n: int,
    moved: SnippetOffsetInfo,
)
    requires
        0 <= id < offsets.len(),
        0 <= n <= offsets.len(),
    ensures
        lines_of(offsets.update(id, moved).take(n), in_place) == lines_of(offsets.take(n), in_place) + if n
            > id {
            moved.position.line - offsets[id].position.line
        } else {
            0
        },
    decreases n,
{
    if n > 0 {
        lemma_lines_moved(offsets, in_place, id, n - 1, moved);
        assert(offsets.take(n).drop_last() =~= offsets.take(n - 1));
        assert(offsets.update(id, moved).take(n).drop_last() =~= offsets.update(id, moved).take(n - 1));
    }
}

proof fn lemma_marks_count(offsets: Seq<SnippetOffsetInfo>, in_place: bool)
    ensures
        !in_place ==> lines_of(offsets, in_place) >= 3 * offsets.len(),
    decreases offsets.len(),
{
    if offsets.len() > 0 {
        lemma_marks_count(offsets.drop_last(), in_place);
    }
}

/// The place behind a text that begins at a place: a line and a place in it. A line break begins a
/// line, and any other character moves on by one.
pub open spec fn behind(place: (int, int), text: Seq<char>) -> (int, int)
    decreases text.len(),
{
    if text.len() == 0 {
        place
    } else {
        let before = behind(place, text.drop_last());
        if text.last() == '\n' {
            (before.0 + 1, 0)
        } else {
            (before.0, before.1 + 1)
        }
    }
}

/// The place behind a text of one line is as much further in the line as the text is long. The place
/// behind a text that ends with a line of its own is as far in it as this line is long, and the lines
/// go on by one for each line break.
pub proof fn law_place_behind_a_text(place: (int, int), text: Seq<char>, line: Seq<char>)
    requires
        !line.contains('\n'),
    ensures
        behind(place, line) == (place.0, place.1 + line.len()),
        behind(place, text + seq!['\n'] + line) == (behind(place, text).0 + 1, line.len() as int),
    decreases line.len(),
{
    let whole = text + seq!['\n'] + line;
    if line.len() == 0 {
        assert(whole.drop_last() =~= text);
    } else {
        assert(line[line.len() - 1] != '\n');
        assert forall|c: char| line.drop_last().contains(c) implies line.contains(c) by {
            let i = choose|i: int| 0 <= i < line.drop_last().len() && line.drop_last()[i] == c;
            assert(line[i] == c);
        }
        law_place_behind_a_text(place, text, line.drop_last());
        assert(whole.drop_last() =~= text + seq!['\n'] + line.drop_last());
    }
}

proof fn lemma_behind_sum(place: (int, int), a: Seq<char>, b: Seq<char>)
    ensures
        behind(place, a + b) == behind(behind(place, a), b),
    decreases b.len(),
{
    if b.len() > 0 {
        lemma_behind_sum(place, a, b.drop_last());
        assert((a + b).drop_last() =~= a + b.drop_last());
    } else {
        assert(a + b =~= a);
    }
}

/// A part begins with a fence only where its first two characters do.
proof fn lemma_fence_is_two(text: Seq<char>, i: int)
    requires
        0 <= i < text.len(),
        byte_slice(text, 0, (i + 1) as nat) == Some(CODE_WRAP_MD_TOKEN@),
    ensures
        i == 1,
        text[0] == '`',
{
    reveal_strlit("``");
    let end = at_byte(text, (i + 1) as nat)->0;
    lemma_at_byte_ordered(text, 0, (i + 1) as nat);
    assert(text.subrange(0, end) == "``"@);
    assert(end == 2);
    assert(text[0] == text.subrange(0, end)[0]);
    assert(text[1] == text.subrange(0, end)[1]);
    lemma_ascii_byte('`');
    let once = text.drop_first();
    assert(once[0] == text[1]);
    let twice = once.drop_first();
    assert(at_byte(once, i as nat) == Some(1int));
    assert(at_byte(twice, (i - 1) as nat) == Some(0int));
    if i > 1 {
        lemma_at_byte_ordered(twice.drop_first(), 0, (i - 1 - byte_len(seq![twice[0]])) as nat);
    }
}

proof fn lemma_all_is_taken(text: Seq<char>, n: nat, offset: SnippetOffsetInfo)
    requires
        n <= text.len(),
        !offset.is_skipping,
        after_chars(text, n, offset) is Some,
    ensures
        ({
            let (after, skipped) = after_chars(text, n, offset)->0;
            let place = (offset.position.line as int, offset.position.character as int);
            &&& skipped == 0
            &&& !after.is_skipping
            &&& behind(place, text.take(n as int)) == (
                after.position.line as int,
                after.position.character as int,
            )
            &&& n > 0 && text[n - 1] != '\n' ==> after.position.character > 0
        }),
    decreases n,
{
    if n > 0 {
        lemma_all_is_taken(text, (n - 1) as nat, offset);
        assert(text.take(n as int).drop_last() =~= text.take(n - 1));
        if byte_slice(text, 0, n) == Some(CODE_WRAP_MD_TOKEN@) {
            lemma_fence_is_two(text, n - 1);
        }
    } else {
        assert(text.take(0) =~= Seq::<char>::empty());
    }
}

/// A part of a snippet goes into the document as it is, and the next part of the same snippet goes
/// behind it: as many characters further in the line as the part has, where it has no line break.
pub proof fn law_next_part_goes_behind_the_last(
    edits: StreamedEdits,
    after: StreamedEdits,
    id: int,
    text: Seq<char>,
    rest: Seq<char>,
)
    requires
        0 <= id < edits.snippet_offsets@.len(),
        !edits.snippet_offsets@[id].is_skipping,
        after.insert_in_place == edits.insert_in_place,
        after.start_position == edits.start_position,
        after_text(text, edits.snippet_offsets@[id]) == Some((after.snippet_offsets@[id], rest)),
        after.snippet_offsets@ == edits.snippet_offsets@.update(id, after.snippet_offsets@[id]),
    ensures
        rest == text,
        !after.snippet_offsets@[id].is_skipping,
        after.place_of(id) == behind(edits.place_of(id), text),
        !text.contains('\n') ==> after.place_of(id) == (
            edits.place_of(id).0,
            edits.place_of(id).1 + text.len(),
        ),
{
    let offset = edits.snippet_offsets@[id];
    let moved = after.snippet_offsets@[id];
    lemma_all_is_taken(text, text.len(), offset);
    lemma_byte_slice_whole(text);
    assert(text.take(text.len() as int) =~= text);
    assert(after.snippet_offsets@.take(id) =~= edits.snippet_offsets@.take(id));
    let lines = lines_of(edits.snippet_offsets@.take(id), edits.insert_in_place) as int;
    lemma_behind_moves(
        (offset.position.line as int, offset.position.character as int),
        edits.place_of(id),
        text,
    );
    if !text.contains('\n') {
        law_place_behind_a_text(edits.place_of(id), text, text);
    }
}

proof fn lemma_behind_moves(a: (int, int), b: (int, int), text: Seq<char>)
    ensures
        behind(b, text).0 - b.0 == behind(a, text).0 - a.0,
        behind(a, text).0 >= a.0,
        behind(a, text).0 == a.0 ==> behind(b, text).1 - b.1 == behind(a, text).1 - a.1,
        behind(a, text).0 > a.0 ==> behind(b, text).1 == behind(a, text).1,
    decreases text.len(),
{
    if text.len() > 0 {
        lemma_behind_moves(a, b, text.drop_last());
    }
}

/// A part of ASCII characters is taken up wherever the places in it have numbers.
pub proof fn law_ascii_part_is_taken_up(text: Seq<char>, offset: SnippetOffsetInfo)
    requires
        is_all_ascii(text),
        !offset.is_skipping,
        offset.position.line + text.len() <= u32::MAX,
        offset.position.character + text.len() <= u32::MAX,
    ensures
        after_text(text, offset) is Some,
{
    lemma_ascii_chars(text, text.len(), offset);
    lemma_all_is_taken(text, text.len(), offset);
    lemma_byte_slice_whole(text);
}

proof fn lemma_small_char(c: char)
    requires
        c < '\u{80}',
    ensures
        byte_len(seq![c]) == 1,
{
    assert(is_ascii_chars(seq![c]));
    is_ascii_chars_encode_utf8(seq![c]);
}

proof fn lemma_ascii_at_byte(text: Seq<char>, n: nat)
    requires
        is_all_ascii(text),
        n <= text.len(),
    ensures
        at_byte(text, n) == Some(n as int),
    decreases n,
{
    if n > 0 {
        assert(text[0] < '\u{80}');
        lemma_small_char(text[0]);
        assert forall|i: int| 0 <= i < text.drop_first().len() implies #[trigger] text.drop_first()[i]
            < '\u{80}' by {
            assert(text.drop_first()[i] == text[i + 1]);
        }
        lemma_ascii_at_byte(text.drop_first(), (n - 1) as nat);
    }
}

proof fn lemma_ascii_chars(text: Seq<char>, n: nat, offset: SnippetOffsetInfo)
    requires
        is_all_ascii(text),
        !offset.is_skipping,
        n <= text.len(),
        offset.position.line + text.len() <= u32::MAX,
        offset.position.character + text.len() <= u32::MAX,
    ensures
        after_chars(text, n, offset) matches Some((after, skipped)) && after.position.line
            <= offset.position.line + n && after.position.character <= offset.position.character + n,
    decreases n,
{
    if n > 0 {
        lemma_ascii_chars(text, (n - 1) as nat, offset);
        lemma_all_is_taken(text, (n - 1) as nat, offset);
        lemma_ascii_at_byte(text, n);
        lemma_ascii_at_byte(text, 0);
    }
}

/// What streaming begins with. In place, the code that was to be completed goes, and the snippet
/// begins where it began.
pub proof fn law_streaming_in_place_begins_at_the_code(
    presets: Vec<String>,
    code_range: Range,
    r: (StreamedEdits, TextEdit),
)
    requires
        presets@.len() == 1,
        call_ensures(StreamedEdits::begin, (&presets, true, code_range), r),
    ensures
        r.0.insert_in_place,
        r.0.snippet_offsets@.len() == 1,
        !r.0.snippet_offsets@[0].is_skipping,
        r.0.place_of(0) == (code_range.start.line as int, code_range.start.character as int),
        r.1.range == code_range,
        r.1.new_text@.len() == 0,
{
    reveal_strlit("");
    assert(r.0.snippet_offsets@.take(0) =~= Seq::<SnippetOffsetInfo>::empty());
}

/// What streaming begins with where it is not in place: before the line at which the code ends there
/// go marks of all snippets, and each snippet begins in the empty line between its marks, behind the
/// marks of those before it and its own first mark.
pub proof fn law_streaming_begins_between_marks(
    presets: Vec<String>,
    prefer_insert_in_place: bool,
    code_range: Range,
    r: (StreamedEdits, TextEdit),
    id: int,
)
    requires
        !prefer_insert_in_place || presets@.len() != 1,
        code_range.end.line < u32::MAX,
        call_ensures(StreamedEdits::begin, (&presets, prefer_insert_in_place, code_range), r),
        0 <= id < presets@.len(),
        forall|i: int| 0 <= i < presets@.len() ==> !(#[trigger] presets@[i])@.contains('\n'),
    ensures
        ({
            let line = Position { line: code_range.end.line, character: 0 };
            let marks = r.1.new_text@;
            let before = empty_wrappers(texts(presets@).take(id)) + top_mark(presets@[id]@);
            &&& !r.0.insert_in_place
            &&& r.0.snippet_offsets@.len() == presets@.len()
            &&& !r.0.snippet_offsets@[id].is_skipping
            &&& r.1.range == spec_at(line)
            &&& before.is_prefix_of(marks)
            &&& "\n<<=="@.is_prefix_of(marks.skip(before.len() as int))
            &&& r.0.place_of(id) == behind((line.line as int, 0), before)
            &&& r.0.place_of(id) == (code_range.end.line + 1 + 3 * id, 0int)
        }),
{
    let names = texts(presets@);
    let start = (code_range.end.line as int, 0int);
    let offsets = r.0.snippet_offsets@;
    lemma_unbegun_lines(offsets.take(id));
    assert forall|i: int| 0 <= i < names.len() implies !(#[trigger] names[i]).contains('\n') by {
        assert(names[i] == presets@[i]@);
    }
    lemma_marks_lines(names, start, id);
    lemma_mark_lines(names[id], behind(start, empty_wrappers(names.take(id))));
    lemma_behind_sum(start, empty_wrappers(names.take(id)), top_mark(names[id]));
    lemma_marks_prefix(names, id + 1, names.len() as int);
    assert(names.take(names.len() as int) =~= names);
    assert(names.take(id + 1).drop_last() =~= names.take(id));
    let before = empty_wrappers(names.take(id)) + top_mark(names[id]);
    let marks = r.1.new_text@;
    let first = empty_wrappers(names.take(id + 1));
    let rest = "\n<<=="@ + padded(""@, 40, '=') + "=#\n"@;
    reveal_strlit("");
    assert(wrapped(""@, names[id]) =~= top_mark(names[id]) + rest);
    assert(first =~= before + rest);
    assert(before =~= marks.take(before.len() as int)) by {
        assert(first =~= marks.take(first.len() as int));
    }
    reveal_strlit("\n<<==");
    assert("\n<<=="@ =~= marks.skip(before.len() as int).take(5)) by {
        assert(first =~= marks.take(first.len() as int));
        assert forall|k: int| 0 <= k < 5 implies "\n<<=="@[k] == marks[before.len() + k] by {
            assert(first[before.len() + k] == rest[k]);
            assert(rest[k] == "\n<<=="@[k]);
        }
    }
}

/// The line before a snippet that marks where it begins.
pub open spec fn top_mark(header: Seq<char>) -> Seq<char> {
    ">>=="@ + padded(header, 40, '=') + "=#\n"@
}

proof fn lemma_unbegun_lines(offsets: Seq<SnippetOffsetInfo>)
    requires
        forall|i: int| 0 <= i < offsets.len() ==> #[trigger] offsets[i] == spec_not_begun(),
    ensures
        lines_of(offsets, false) == 3 * offsets.len(),
    decreases offsets.len(),
{
    if offsets.len() > 0 {
        lemma_unbegun_lines(offsets.drop_last());
    }
}

proof fn lemma_padded_line(header: Seq<char>)
    requires
        !header.contains('\n'),
    ensures
        !padded(header, 40, '=').contains('\n'),
        header.is_prefix_of(padded(header, 40, '=')),
        header.len() <= 40 ==> padded(header, 40, '=').len() == 40,
{
    let s = padded(header, 40, '=');
    if s.contains('\n') {
        let i = choose|i: int| 0 <= i < s.len() && s[i] == '\n';
        if i < header.len() {
            assert(header[i] == '\n');
        }
    }
    assert(s.take(header.len() as int) =~= header);
}

proof fn lemma_no_break(a: Seq<char>, b: Seq<char>)
    requires
        !a.contains('\n'),
        !b.contains('\n'),
    ensures
        !(a + b).contains('\n'),
{
    if (a + b).contains('\n') {
        let i = choose|i: int| 0 <= i < (a + b).len() && (a + b)[i] == '\n';
        if i < a.len() {
            assert(a[i] == '\n');
        } else {
            assert(b[i - a.len()] == '\n');
        }
    }
}

proof fn lemma_mark_lines(header: Seq<char>, place: (int, int))
    requires
        !header.contains('\n'),
    ensures
        behind(place, top_mark(header)) == (place.0 + 1, 0int),
        behind(place, wrapped(""@, header)) == (place.0 + 3, 0int),
{
    reveal_strlit(">>==");
    reveal_strlit("\n<<==");
    reveal_strlit("=#\n");
    reveal_strlit("");
    lemma_padded_line(header);
    lemma_padded_line(""@);
    let empty = Seq::<char>::empty();
    let a = ">>=="@ + padded(header, 40, '=') + seq!['=', '#'];
    let b = "<<=="@ + padded(""@, 40, '=') + seq!['=', '#'];
    reveal_strlit("<<==");
    lemma_no_break(">>=="@, padded(header, 40, '='));
    lemma_no_break(">>=="@ + padded(header, 40, '='), seq!['=', '#']);
    lemma_no_break("<<=="@, padded(""@, 40, '='));
    lemma_no_break("<<=="@ + padded(""@, 40, '='), seq!['=', '#']);
    assert(top_mark(header) =~= a + seq!['\n'] + empty);
    law_place_behind_a_text(place, a, empty);
    law_place_behind_a_text(place, empty, a);
    let upto = top_mark(header) + seq!['\n'] + b;
    law_place_behind_a_text(place, top_mark(header), b);
    assert(wrapped(""@, header) =~= upto + seq!['\n'] + empty);
    law_place_behind_a_text(place, upto, empty);
}

proof fn lemma_marks_lines(names: Seq<Seq<char>>, place: (int, int), n: int)
    requires
        0 <= n <= names.len(),
        place.1 == 0,
        forall|i: int| 0 <= i < names.len() ==> !(#[trigger] names[i]).contains('\n'),
    ensures
        behind(place, empty_wrappers(names.take(n))) == (place.0 + 3 * n, 0int),
    decreases n,
{
    if n > 0 {
        lemma_marks_lines(names, place, n - 1);
        assert(names.take(n).drop_last() =~= names.take(n - 1));
        assert(names.take(n).last() == names[n - 1]);
        let before = empty_wrappers(names.take(n - 1));
        lemma_behind_sum(place, before, wrapped(""@, names[n - 1]));
        lemma_mark_lines(names[n - 1], behind(place, before));
    } else {
        assert(names.take(0) =~= Seq::<Seq<char>>::empty());
    }
}

proof fn lemma_marks_prefix(names: Seq<Seq<char>>, a: int, b: int)
    requires
        0 <= a <= b <= names.len(),
    ensures
        empty_wrappers(names.take(a)).is_prefix_of(empty_wrappers(names.take(b))),
    decreases b - a,
{
    if a < b {
        lemma_marks_prefix(names, a, b - 1);
        assert(names.take(b).drop_last() =~= names.take(b - 1));
        let x = empty_wrappers(names.take(a));
        let y = empty_wrappers(names.take(b - 1));
        let z = empty_wrappers(names.take(b));
        assert(x =~= z.take(x.len() as int)) by {
            assert(x =~= y.take(x.len() as int));
        }
    }
}

/// A marked snippet is the snippet between two lines: one that begins with `>>==` and the header, and
/// one that begins with `<<==`. Both end with `=#`, and headers of up to forty characters give lines
/// of one length.
pub proof fn law_marks_stand_round_the_snippet(snippet: Seq<char>, header: Seq<char>)
    requires
        !header.contains('\n'),
    ensures
        ({
            let lines = split(wrapped(snippet, header), '\n');
            let n = lines.len() as int;
            &&& n == split(snippet, '\n').len() + 3
            &&& (">>=="@ + header).is_prefix_of(lines[0])
            &&& lines[0].subrange(lines[0].len() - 2, lines[0].len() as int) == "=#"@
            &&& header.len() <= 40 ==> lines[0].len() == 46
            &&& lines.subrange(1, n - 2) == split(snippet, '\n')
            &&& "<<=="@.is_prefix_of(lines[n - 2])
            &&& lines[n - 2].len() == 46
            &&& lines[n - 1].len() == 0
        }),
{
    reveal_strlit(">>==");
    reveal_strlit("<<==");
    reveal_strlit("\n<<==");
    reveal_strlit("=#\n");
    reveal_strlit("=#");
    reveal_strlit("");
    lemma_padded_line(header);
    lemma_padded_line(""@);
    let empty = Seq::<char>::empty();
    let a = ">>=="@ + padded(header, 40, '=') + seq!['=', '#'];
    let b = "<<=="@ + padded(""@, 40, '=') + seq!['=', '#'];
    lemma_no_break(">>=="@, padded(header, 40, '='));
    lemma_no_break(">>=="@ + padded(header, 40, '='), seq!['=', '#']);
    lemma_no_break("<<=="@, padded(""@, 40, '='));
    lemma_no_break("<<=="@ + padded(""@, 40, '='), seq!['=', '#']);
    let tail = b + seq!['\n'] + empty;
    let rest = snippet + seq!['\n'] + tail;
    assert(wrapped(snippet, header) =~= a + seq!['\n'] + rest);
    lemma_split_sum(a, rest, '\n');
    lemma_split_sum(snippet, tail, '\n');
    lemma_split_sum(b, empty, '\n');
    lemma_split_whole(a, '\n');
    lemma_split_whole(b, '\n');
    lemma_split_whole(empty, '\n');
    let lines = split(wrapped(snippet, header), '\n');
    assert(lines =~= seq![a] + (split(snippet, '\n') + (seq![b] + seq![empty])));
    let n = lines.len() as int;
    assert(lines.subrange(1, n - 2) =~= split(snippet, '\n'));
    assert(a.subrange(a.len() - 2, a.len() as int) =~= "=#"@);
    assert((">>=="@ + header) =~= a.take(4 + header.len() as int)) by {
        assert(header =~= padded(header, 40, '=').take(header.len() as int));
    }
    assert("<<=="@ =~= b.take(4));
}

/// A line that begins with the fence is left out wherever it stands, and nothing else is: lines that
/// do not begin with it stay as they are and in order.
pub proof fn law_fences_are_left_out(lines: Seq<Seq<char>>, fenced: Seq<char>, at: int, fence: Seq<char>)
    requires
        lines.len() > 0,
        0 <= at <= lines.len(),
        fence.is_prefix_of(fenced),
        !fenced.contains('\n'),
        forall|i: int| 0 <= i < lines.len() ==> !(#[trigger] lines[i]).contains('\n'),
    ensures
        code_of(join(lines.insert(at, fenced), seq!['\n']), fence) == code_of(
            join(lines, seq!['\n']),
            fence,
        ),
        (forall|i: int| 0 <= i < lines.len() ==> !fence.is_prefix_of(#[trigger] lines[i])) ==> code_of(
            join(lines, seq!['\n']),
            fence,
        ) == join(lines, seq!['\n']),
{
    let wanted = |line: Seq<char>| !fence.is_prefix_of(line);
    let more = lines.insert(at, fenced);
    assert forall|i: int| 0 <= i < more.len() implies !(#[trigger] more[i]).contains('\n') by {
        if i < at {
            assert(more[i] == lines[i]);
        } else if i > at {
            assert(more[i] == lines[i - 1]);
        }
    }
    law_split_undoes_join(lines, '\n');
    law_split_undoes_join(more, '\n');
    reveal_strlit("\n");
    assert("\n"@ =~= seq!['\n']);
    assert(more =~= lines.take(at) + seq![fenced] + lines.skip(at));
    assert(lines =~= lines.take(at) + lines.skip(at));
    lemma_filter_sum(lines.take(at) + seq![fenced], lines.skip(at), wanted);
    lemma_filter_sum(lines.take(at), seq![fenced], wanted);
    lemma_filter_sum(lines.take(at), lines.skip(at), wanted);
    reveal(Seq::filter);
    assert(seq![fenced].drop_last() =~= Seq::<Seq<char>>::empty());
    assert(!wanted(seq![fenced].last()));
    assert(Seq::<Seq<char>>::empty().filter(wanted) =~= Seq::<Seq<char>>::empty());
    assert(seq![fenced].filter(wanted) =~= Seq::<Seq<char>>::empty());
    assert(lines.take(at).filter(wanted) + Seq::<Seq<char>>::empty() =~= lines.take(at).filter(wanted));
    if forall|i: int| 0 <= i < lines.len() ==> !fence.is_prefix_of(#[trigger] lines[i]) {
        lemma_filter_keeps(lines, wanted);
    }
}

proof fn lemma_filter_sum(a: Seq<Seq<char>>, b: Seq<Seq<char>>, wanted: spec_fn(Seq<char>) -> bool)
    ensures
        (a + b).filter(wanted) == a.filter(wanted) + b.filter(wanted),
    decreases b.len(),
{
    reveal(Seq::filter);
    if b.len() > 0 {
        lemma_filter_sum(a, b.drop_last(), wanted);
        assert((a + b).drop_last() =~= a + b.drop_last());
        assert((a + b).filter(wanted) =~= a.filter(wanted) + b.filter(wanted));
    } else {
        assert(a + b =~= a);
        assert(a.filter(wanted) + b.filter(wanted) =~= a.filter(wanted));
    }
}

proof fn lemma_filter_keeps(lines: Seq<Seq<char>>, wanted: spec_fn(Seq<char>) -> bool)
    requires
        forall|i: int| 0 <= i < lines.len() ==> wanted(#[trigger] lines[i]),
    ensures
        lines.filter(wanted) == lines,
    decreases lines.len(),
{
    reveal(Seq::filter);
    if lines.len() > 0 {
        assert forall|i: int| 0 <= i < lines.drop_last().len() implies wanted(
            #[trigger] lines.drop_last()[i],
        ) by {
            assert(lines.drop_last()[i] == lines[i]);
        }
        lemma_filter_keeps(lines.drop_last(), wanted);
        assert(wanted(lines[lines.len() - 1]));
        assert(lines.drop_last().push(lines.last()) =~= lines);
    }
}

/// The edit of one whole snippet in place: the code of the response, without its fences and nothing
/// else, replaces the code that was to be completed. The thread of the response is gone on with.
pub proof fn law_whole_snippet_replaces_the_code(
    completed: Vec<CompletedSnippet>,
    code_range: Range,
    thread_id: Option<String>,
    r: (TextEdit, Option<String>),
)
    requires
        completed@.len() == 1,
        call_ensures(apply_completed_snippet_edits, (&completed, true, code_range, thread_id), r),
    ensures
        r.0.range == code_range,
        r.0.new_text@ == code_of(completed@[0].response@, "``"@),
        completed@[0].thread_id matches Some(id) ==> (r.1 matches Some(found) && found@ == id@),
        completed@[0].thread_id is None ==> r.1.deep_view() == thread_id.deep_view(),
{
    let all = completed.deep_view();
    assert(all[0] == completed@[0].deep_view());
    assert(all.drop_last() =~= Seq::<CompletedSnippetModel>::empty());
    assert(snippets_text(all.drop_last(), true) =~= Seq::<char>::empty());
    assert(last_thread(all, thread_id.deep_view()) == match all[0].thread_id {
        Some(id) => Some(id),
        None => last_thread(all.drop_last(), thread_id.deep_view()),
    });
    assert(snippets_text(all, true) =~= code_of(all[0].response, CODE_WRAP_MD_TOKEN@));
}

/// The edit of whole snippets that do not go in place: before the line at which the code ends, every
/// snippet stands between its marks, headed by its preset, in the order of the presets. One more
/// snippet goes behind the others, and its thread is gone on with.
pub proof fn law_whole_snippets_stand_one_after_the_other(
    completed: Vec<CompletedSnippet>,
    more: Vec<CompletedSnippet>,
    code_range: Range,
    thread_id: Option<String>,
    r: (TextEdit, Option<String>),
    s: (TextEdit, Option<String>),
)
    requires
        completed@.len() > 0,
        more@ == completed@.drop_last(),
        call_ensures(apply_completed_snippet_edits, (&completed, false, code_range, thread_id), r),
        call_ensures(apply_completed_snippet_edits, (&more, false, code_range, thread_id), s),
    ensures
        r.0.range.start == (Position { line: code_range.end.line, character: 0 }),
        r.0.range.end == r.0.range.start,
        s.0.new_text@.len() > 0 && s.0.new_text@.last() == '\n',
        more@.len() == 0 ==> s.0.new_text@ == seq!['\n'],
        r.0.new_text@ == s.0.new_text@.drop_last() + wrapped(
            code_of(completed@.last().response@, "``"@),
            completed@.last().preset@,
        ) + seq!['\n'],
        completed@.last().thread_id matches Some(id) ==> (r.1 matches Some(found) && found@ == id@),
        completed@.last().thread_id is None ==> r.1.deep_view() == s.1.deep_view(),
{
    let all = completed.deep_view();
    assert(all.last() == completed@.last().deep_view());
    assert(all.drop_last() =~= more.deep_view());
    assert(s.0.new_text@.drop_last() =~= snippets_text(all.drop_last(), false));
    assert(r.0.new_text@ =~= snippets_text(all, false) + seq!['\n']);
    assert(more@.len() == 0 ==> snippets_text(more.deep_view(), false) =~= Seq::<char>::empty());
}

/// The edit of a snippet that is completed without presets: its code replaces the code that was to be
/// completed, or stands between marks in the line below.
pub proof fn law_single_snippet_is_put_in(
    completed: &str,
    prefer_insert_in_place: bool,
    code_range: Range,
    r: TextEdit,
)
    requires
        prefer_insert_in_place || code_range.end.line < u32::MAX,
        call_ensures(apply_edit, (completed, prefer_insert_in_place, code_range), r),
    ensures
        prefer_insert_in_place ==> r.range == code_range && r.new_text@ == code_of(completed@, "```"@),
        !prefer_insert_in_place ==> {
            &&& r.range.start == r.range.end
            &&& r.range.start.line == code_range.end.line + 1
            &&& r.range.start.character == 0
            &&& r.new_text@ == wrapped(code_of(completed@, "```"@), "Completed snippet"@)
        },
{
}

/// The next part of a snippet has a place exactly where its line and its character can be told in
/// thirty-two bits.
pub proof fn law_places_are_told_in_thirty_two_bits(edits: StreamedEdits, id: usize, r: Option<Position>)
    requires
        id < edits.snippet_offsets@.len(),
        call_ensures(StreamedEdits::position_of, (&edits, id), r),
    ensures
        r is Some <==> edits.place_of(id as int).0 < 0x1_0000_0000 && edits.place_of(id as int).1
            < 0x1_0000_0000,
        r matches Some(place) ==> place.line == edits.place_of(id as int).0 && place.character
            == edits.place_of(id as int).1,
{
}

} // verus!
