//! Templates, as far as their partials go: which tags take one up, and which hold one.

use vstd::prelude::*;
use crate::text::{
    chars_of, contains, find, find_from, is_ascii_alphanumeric, lemma_find_bounds, lemma_find_contains,
    matches_at, occurs_at, opt_text, same, string_of, texts,
};

verus! {

/// What a tag does to the blocks of a template.
#[derive(Clone, Copy, Debug, PartialEq, Eq, Structural)]
pub enum TagKind {
    /// `{{> name}}`: takes up a partial.
    Partial,
    /// `{{#> name}}`: takes up a partial, and holds one itself.
    PartialBlock,
    /// `{{#*inline "name"}}`: holds a partial.
    InlineBlock,
    /// `{{#name}}`: begins another block.
    Block,
    /// `{{/name}}`: ends a block.
    End,
    /// Anything else.
    Other,
}

/// Where a tag begins.
pub open spec fn tag_start() -> Seq<char> {
    seq!['{', '{']
}

/// Where a tag ends.
pub open spec fn tag_end() -> Seq<char> {
    seq!['}', '}']
}

/// The first place from `i` on that holds neither white space nor a `~`.
pub open spec fn past_space(s: Seq<char>, i: int) -> int
    decreases s.len() - i,
{
    if 0 <= i < s.len() && (s[i] == ' ' || s[i] == '\t' || s[i] == '\n' || s[i] == '\r' || s[i] == '~') {
        past_space(s, i + 1)
    } else {
        i
    }
}

/// What the tag does whose text begins at `i`.
pub open spec fn kind_of_tag(s: Seq<char>, i: int) -> TagKind {
    let a = past_space(s, i);
    if a >= s.len() {
        TagKind::Other
    } else if s[a] == '>' {
        TagKind::Partial
    } else if s[a] == '/' {
        TagKind::End
    } else if s[a] == '#' {
        let b = past_space(s, a + 1);
        if b < s.len() && s[b] == '*' {
            TagKind::InlineBlock
        } else if b < s.len() && s[b] == '>' {
            TagKind::PartialBlock
        } else {
            TagKind::Block
        }
    } else {
        TagKind::Other
    }
}

/// Whether a tag from `i` on holds a partial.
pub open spec fn holds_partials_from(s: Seq<char>, i: int) -> bool
    decreases s.len() - i,
    when 0 <= i
    via holds_partials_from_decreases
{
    match find_from(s, tag_start(), i) {
        Some(at) => {
            let kind = kind_of_tag(s, at + 2);
            kind == TagKind::InlineBlock || kind == TagKind::PartialBlock || holds_partials_from(s, at + 2)
        },
        None => false,
    }
}

#[via_fn]
proof fn holds_partials_from_decreases(s: Seq<char>, i: int) {
    lemma_find_bounds(s, tag_start(), i);
}

/// In what one is within a tag.
#[derive(Clone, Copy, Debug, PartialEq, Eq, Structural)]
pub enum TagMode {
    Plain,
    /// In a text between those quotation marks.
    Quoted(char),
    /// In a text between those quotation marks, behind a backslash.
    Escaped(char),
    /// Between brackets, and there perhaps between quotation marks.
    Bracketed(Option<char>),
    /// Where the tag ends cannot be told.
    Lost,
}

/// Where one is within a tag: in what, and in how many braces.
#[derive(Clone, Copy, Debug, PartialEq, Eq, Structural)]
pub struct TagPlace {
    pub mode: TagMode,
    pub depth: usize,
}

/// The start of a tag.
pub open spec fn tag_place() -> TagPlace {
    TagPlace { mode: TagMode::Plain, depth: 0 }
}

/// Where one is within a tag behind one more character. Brackets may be an array or a part of a path, so
/// a bracket in which a text is open leads nowhere, and so do braces and backslashes in brackets.
pub open spec fn place_behind(place: TagPlace, c: char) -> TagPlace {
    let depth = place.depth;
    let lost = TagPlace { mode: TagMode::Lost, depth };
    match place.mode {
        TagMode::Plain => if c == '"' || c == '\'' {
            TagPlace { mode: TagMode::Quoted(c), depth }
        } else if c == '[' {
            TagPlace { mode: TagMode::Bracketed(None), depth }
        } else if c == '{' {
            TagPlace { mode: TagMode::Plain, depth: (depth + 1) as usize }
        } else if c == '}' && depth > 0 {
            TagPlace { mode: TagMode::Plain, depth: (depth - 1) as usize }
        } else if c == '}' || c == '\\' {
            lost
        } else {
            place
        },
        TagMode::Quoted(quote) => if c == quote {
            TagPlace { mode: TagMode::Plain, depth }
        } else if c == '\\' {
            TagPlace { mode: TagMode::Escaped(quote), depth }
        } else {
            place
        },
        TagMode::Escaped(quote) => if c == '\\' && quote == '\'' {
            lost
        } else {
            TagPlace { mode: TagMode::Quoted(quote), depth }
        },
        TagMode::Bracketed(open) => if c == ']' {
            if open is None {
                TagPlace { mode: TagMode::Plain, depth }
            } else {
                lost
            }
        } else if c == '{' || c == '\\' {
            lost
        } else if open == Some(c) {
            TagPlace { mode: TagMode::Bracketed(None), depth }
        } else if open is None && (c == '"' || c == '\'') {
            TagPlace { mode: TagMode::Bracketed(Some(c)), depth }
        } else {
            place
        },
        TagMode::Lost => lost,
    }
}

/// Where the tag ends in which one is at `i`, if that can be told: at the first `}}` that stands in no
/// text, bracket or object.
pub open spec fn tag_close(s: Seq<char>, i: int, place: TagPlace) -> Option<int>
    decreases s.len() - i,
{
    if i < 0 || i >= s.len() || place.mode == TagMode::Lost {
        None
    } else if place == tag_place() && occurs_at(s, tag_end(), i) {
        Some(i)
    } else {
        tag_close(s, i + 1, place_behind(place, s[i]))
    }
}

/// The first place from `i` on that holds no white space.
pub open spec fn past_white(s: Seq<char>, i: int) -> int
    decreases s.len() - i,
{
    if 0 <= i < s.len() && (s[i] == ' ' || s[i] == '\t' || s[i] == '\n' || s[i] == '\r') {
        past_white(s, i + 1)
    } else {
        i
    }
}

/// The place behind the comment whose text begins at `i`. One that begins with dashes ends with dashes,
/// if it ends so at all.
pub open spec fn behind_comment(s: Seq<char>, i: int) -> Option<int> {
    let start = past_white(s, i);
    let dashed = if occurs_at(s, seq!['-', '-'], start) {
        find_from(s, seq!['-', '-', '}', '}'], start + 2)
    } else {
        None
    };
    match dashed {
        Some(end) => Some(end + 4),
        None => match find_from(s, tag_end(), i) {
            Some(end) => Some(end + 2),
            None => None,
        },
    }
}

/// The place behind the tag of a raw block whose text begins at `i`, if it can be told.
pub open spec fn behind_raw_tag(s: Seq<char>, i: int) -> Option<int> {
    match tag_close(s, i, tag_place()) {
        Some(end) => if occurs_at(s, tag_end(), end + 2) {
            Some(end + 4)
        } else {
            None
        },
        None => None,
    }
}

/// Where a tag of a raw block begins.
pub open spec fn raw_start() -> Seq<char> {
    seq!['{', '{', '{', '{']
}

/// The place behind the raw block whose first tag begins at `at`, if it can be told.
pub open spec fn behind_raw_block(s: Seq<char>, at: int) -> Option<int> {
    match behind_raw_tag(s, at + 4) {
        Some(body) => match find_from(s, raw_start(), body) {
            Some(end) => if s[end - 1] != '\\' && kind_of_tag(s, end + 4) == TagKind::End {
                behind_raw_tag(s, end + 4)
            } else {
                None
            },
            None => None,
        },
        None => None,
    }
}

/// The place behind the tag, comment or raw block that begins at `at`, if it can be told.
pub open spec fn behind_mark(s: Seq<char>, at: int) -> Option<int> {
    if at + 2 < s.len() && s[at + 2] == '!' {
        behind_comment(s, at + 3)
    } else if occurs_at(s, raw_start(), at) {
        behind_raw_block(s, at)
    } else {
        match tag_close(s, at + 2, tag_place()) {
            Some(end) => Some(end + 2),
            None => None,
        }
    }
}

/// Whether one backslash, and no more, stands before the place, so that no tag begins there.
pub open spec fn is_escaped(s: Seq<char>, at: int) -> bool {
    at > 0 && s[at - 1] == '\\' && !(at > 1 && s[at - 2] == '\\')
}

/// The place behind the braces that are escaped at `at`: two, or four where there are so many.
pub open spec fn behind_escaped(s: Seq<char>, at: int) -> int {
    if occurs_at(s, tag_start(), at + 2) {
        at + 4
    } else {
        at + 2
    }
}

/// Whether a character can stand in the name of a partial that is written as it is.
pub open spec fn is_name_char(c: char) -> bool {
    is_ascii_alphanumeric(c) || c == '-' || c == '_' || c == '/' || c == '.' || c >= '\u{80}'
}

/// The end of the name that begins at `i`.
pub open spec fn name_end(s: Seq<char>, i: int) -> int
    decreases s.len() - i,
{
    if 0 <= i < s.len() && is_name_char(s[i]) {
        name_end(s, i + 1)
    } else {
        i
    }
}

/// What stands for the block of the partial that is taken up.
pub open spec fn partial_block() -> Seq<char> {
    "@partial-block"@
}

/// The name of the partial that a tag takes up, where the name begins at `start`, if it is written as it
/// is.
pub open spec fn taken_name(s: Seq<char>, start: int) -> Option<Seq<char>> {
    let end = name_end(s, start);
    if occurs_at(s, partial_block(), start) {
        let behind = start + partial_block().len();
        if behind < s.len() && (is_name_char(s[behind]) || s[behind] == '$') {
            None
        } else {
            Some(partial_block())
        }
    } else if end > start {
        Some(s.subrange(start, end))
    } else {
        None
    }
}

/// Where the name begins that a tag takes up whose text begins at `i`.
pub open spec fn taken_at(s: Seq<char>, i: int) -> int {
    past_space(s, past_space(s, i) + 1)
}

/// Where the name begins that the tag of the block of a partial takes up whose text begins at `i`.
pub open spec fn block_taken_at(s: Seq<char>, i: int) -> int {
    past_space(s, past_space(s, past_space(s, i) + 1) + 1)
}

/// The name of the partial that the tag of an inline block holds whose text begins at `i`, if the name
/// stands there in quotation marks.
pub open spec fn held_name(s: Seq<char>, i: int) -> Option<Seq<char>> {
    let word = past_space(s, past_space(s, past_space(s, i) + 1) + 1);
    let quote = past_space(s, word + 6);
    if occurs_at(s, "inline"@, word) && quote < s.len() && (s[quote] == '"' || s[quote] == '\'') {
        match find_from(s, seq![s[quote]], quote + 1) {
            Some(end) => if s.subrange(quote + 1, end).contains('\\') {
                None
            } else {
                Some(s.subrange(quote + 1, end))
            },
            None => None,
        }
    } else {
        None
    }
}

/// How far a template was read: how many blocks are open; how many were when the outermost of those
/// that hold a partial was begun, if one is open, and when the outermost was that is the block of a
/// partial that is taken up; the partials that were held since the first of these; those that held ones
/// have taken up; whether one was held under a name that is not written as it is; whether the block of a
/// partial takes up another, and whether an inline one takes up the block of a partial.
#[verifier::ext_equal]
pub ghost struct ReadingModel {
    pub depth: nat,
    pub held_at: Option<nat>,
    pub block_at: Option<nat>,
    pub since: Seq<Seq<char>>,
    pub taken: Seq<Seq<char>>,
    pub any_held: bool,
    pub block_takes: bool,
    pub inline_takes_block: bool,
}

/// A template of which nothing was read.
pub open spec fn reading_start() -> ReadingModel {
    ReadingModel {
        depth: 0,
        held_at: None,
        block_at: None,
        since: Seq::empty(),
        taken: Seq::empty(),
        any_held: false,
        block_takes: false,
        inline_takes_block: false,
    }
}

/// How far a template is read behind a tag that takes up a partial. Inside one that is held, only
/// partials may be taken up that were all held before, or, from an inline one, the block of a partial,
/// as long as no such block takes up another itself.
pub open spec fn behind_taking(reading: ReadingModel, name: Option<Seq<char>>) -> Option<ReadingModel> {
    if reading.held_at is None {
        Some(reading)
    } else {
        match name {
            None => None,
            Some(name) => if name == partial_block() {
                if reading.block_at is Some || reading.block_takes {
                    None
                } else {
                    Some(ReadingModel { inline_takes_block: true, ..reading })
                }
            } else if reading.any_held || reading.since.contains(name) || (reading.block_at is Some
                && reading.inline_takes_block) {
                None
            } else {
                Some(
                    ReadingModel {
                        taken: reading.taken.push(name),
                        block_takes: reading.block_takes || reading.block_at is Some,
                        ..reading
                    },
                )
            },
        }
    }
}

/// How far a template is read behind the start of a block that holds a partial. Its name must not be one
/// that an earlier one took up.
pub open spec fn behind_holding(reading: ReadingModel, name: Option<Seq<char>>) -> Option<ReadingModel> {
    let is_outermost = reading.held_at is None;
    let deeper = ReadingModel {
        depth: reading.depth + 1,
        held_at: if is_outermost {
            Some(reading.depth)
        } else {
            reading.held_at
        },
        ..reading
    };
    match name {
        None => if reading.taken.len() > 0 {
            None
        } else {
            Some(ReadingModel { any_held: true, ..deeper })
        },
        Some(name) => if reading.taken.contains(name) {
            None
        } else {
            Some(ReadingModel { since: reading.since.push(name), ..deeper })
        },
    }
}

/// How far a template is read behind the start of the block of a partial that is taken up. Inside one that
/// is held, it is taken up as by any other tag.
pub open spec fn behind_block(reading: ReadingModel, name: Option<Seq<char>>) -> Option<ReadingModel> {
    let depth = reading.depth;
    if reading.held_at is None {
        Some(
            ReadingModel { depth: depth + 1, held_at: Some(depth), block_at: Some(depth), ..reading },
        )
    } else if name == Some(partial_block()) {
        None
    } else {
        match behind_taking(reading, name) {
            Some(taking) => Some(
                ReadingModel {
                    depth: depth + 1,
                    block_at: if taking.block_at is None {
                        Some(depth)
                    } else {
                        taking.block_at
                    },
                    ..taking
                },
            ),
            None => None,
        }
    }
}

/// How far a template is read behind the end of a block.
pub open spec fn behind_end(reading: ReadingModel) -> Option<ReadingModel> {
    if reading.depth == 0 {
        None
    } else {
        let depth = (reading.depth - 1) as nat;
        let is_held_end = reading.held_at == Some(depth);
        Some(
            ReadingModel {
                depth,
                held_at: if is_held_end {
                    None
                } else {
                    reading.held_at
                },
                block_at: if reading.block_at == Some(depth) {
                    None
                } else {
                    reading.block_at
                },
                since: if is_held_end {
                    Seq::empty()
                } else {
                    reading.since
                },
                ..reading
            },
        )
    }
}

/// How far a template is read behind the tag whose text begins at `i`. Nothing, where rendering might not
/// end, or a block ends that was not begun.
pub open spec fn behind_tag(reading: ReadingModel, s: Seq<char>, i: int) -> Option<ReadingModel> {
    match kind_of_tag(s, i) {
        TagKind::Partial => behind_taking(reading, taken_name(s, taken_at(s, i))),
        TagKind::PartialBlock => behind_block(reading, taken_name(s, block_taken_at(s, i))),
        TagKind::InlineBlock => behind_holding(reading, held_name(s, i)),
        TagKind::Block => Some(ReadingModel { depth: reading.depth + 1, ..reading }),
        TagKind::End => behind_end(reading),
        TagKind::Other => Some(reading),
    }
}

/// A tag that is closed is closed behind its start, within the text.
proof fn lemma_tag_close(s: Seq<char>, i: int, place: TagPlace)
    ensures
        tag_close(s, i, place) matches Some(end) ==> 0 <= i <= end && end + 2 <= s.len(),
    decreases s.len() - i,
{
    if 0 <= i < s.len() && place.mode != TagMode::Lost {
        if !(place == tag_place() && occurs_at(s, tag_end(), i)) {
            lemma_tag_close(s, i + 1, place_behind(place, s[i]));
        }
    }
}

/// What is marked ends behind its start, within the text.
proof fn lemma_behind_mark(s: Seq<char>, at: int)
    requires
        occurs_at(s, tag_start(), at),
    ensures
        behind_mark(s, at) matches Some(behind) ==> at + 2 <= behind <= s.len(),
{
    lemma_tag_close(s, at + 2, tag_place());
    lemma_past_white(s, at + 3);
    lemma_find_bounds(s, seq!['-', '-', '}', '}'], past_white(s, at + 3) + 2);
    lemma_find_bounds(s, tag_end(), at + 3);
    lemma_tag_close(s, at + 4, tag_place());
    if let Some(body) = behind_raw_tag(s, at + 4) {
        lemma_find_bounds(s, raw_start(), body);
        if let Some(end) = find_from(s, raw_start(), body) {
            lemma_tag_close(s, end + 4, tag_place());
        }
    }
}

proof fn lemma_past_white(s: Seq<char>, i: int)
    ensures
        i <= past_white(s, i),
    decreases s.len() - i,
{
    if 0 <= i < s.len() && (s[i] == ' ' || s[i] == '\t' || s[i] == '\n' || s[i] == '\r') {
        lemma_past_white(s, i + 1);
    }
}

/// Whether from `i` on the template can be read, and no partial might reach itself.
pub open spec fn ends_from(s: Seq<char>, i: int, reading: ReadingModel) -> bool
    decreases s.len() - i,
    when 0 <= i
    via ends_from_decreases
{
    match find_from(s, tag_start(), i) {
        Some(at) => if is_escaped(s, at) {
            ends_from(s, behind_escaped(s, at), reading)
        } else {
            match (behind_mark(s, at), behind_tag(reading, s, at + 2)) {
                (Some(behind), Some(next)) => ends_from(s, behind, next),
                _ => false,
            }
        },
        None => true,
    }
}

#[via_fn]
proof fn ends_from_decreases(s: Seq<char>, i: int, reading: ReadingModel) {
    lemma_find_bounds(s, tag_start(), i);
    if let Some(at) = find_from(s, tag_start(), i) {
        lemma_behind_mark(s, at);
    }
}

/// Whether the rendering of a template surely ends. It does where the template holds no partial. Where it
/// holds some, it can be read tag by tag, and each takes up only such as were all held before the
/// outermost one round it began, or a block within itself, or the block of a partial that takes up none.
/// From one to the next, one comes nearer to the beginning of the template, or further inside. A partial
/// that takes up itself ends or not by the parameters, so it is left out here.
pub open spec fn surely_ends(template: Seq<char>) -> bool {
    !holds_partials_from(template, 0) || ends_from(template, 0, reading_start())
}

/// The first place from `i` on that holds neither white space nor a `~`.
fn skip_space(s: &Vec<char>, i: usize) -> (r: usize)
    requires
        i <= s@.len(),
    ensures
        r == past_space(s@, i as int),
        i <= r <= s@.len(),
{
    let mut a: usize = i;
    while a < s.len() && (s[a] == ' ' || s[a] == '\t' || s[a] == '\n' || s[a] == '\r' || s[a] == '~')
        invariant
            i <= a <= s@.len(),
            past_space(s@, i as int) == past_space(s@, a as int),
        decreases s.len() - a,
    {
        a = a + 1;
    }
    a
}

/// What the tag does whose text begins at `i`.
pub fn tag_kind(s: &Vec<char>, i: usize) -> (r: TagKind)
    requires
        i <= s@.len(),
    ensures
        r == kind_of_tag(s@, i as int),
{
    let a = skip_space(s, i);
    if a >= s.len() {
        return TagKind::Other;
    }
    if s[a] == '>' {
        TagKind::Partial
    } else if s[a] == '/' {
        TagKind::End
    } else if s[a] == '#' {
        let b = skip_space(s, a + 1);
        if b < s.len() && s[b] == '*' {
            TagKind::InlineBlock
        } else if b < s.len() && s[b] == '>' {
            TagKind::PartialBlock
        } else {
            TagKind::Block
        }
    } else {
        TagKind::Other
    }
}

/// Where one is within a tag behind one more character.
fn next_place(place: TagPlace, c: char) -> (r: TagPlace)
    requires
        place.depth < usize::MAX,
    ensures
        r == place_behind(place, c),
        r.depth <= place.depth + 1,
{
    let depth: usize = place.depth;
    let lost = TagPlace { mode: TagMode::Lost, depth };
    match place.mode {
        TagMode::Plain => if c == '"' || c == '\'' {
            TagPlace { mode: TagMode::Quoted(c), depth }
        } else if c == '[' {
            TagPlace { mode: TagMode::Bracketed(None), depth }
        } else if c == '{' {
            TagPlace { mode: TagMode::Plain, depth: depth + 1 }
        } else if c == '}' && depth > 0 {
            TagPlace { mode: TagMode::Plain, depth: depth - 1 }
        } else if c == '}' || c == '\\' {
            lost
        } else {
            place
        },
        TagMode::Quoted(quote) => if c == quote {
            TagPlace { mode: TagMode::Plain, depth }
        } else if c == '\\' {
            TagPlace { mode: TagMode::Escaped(quote), depth }
        } else {
            place
        },
        TagMode::Escaped(quote) => if c == '\\' && quote == '\'' {
            lost
        } else {
            TagPlace { mode: TagMode::Quoted(quote), depth }
        },
        TagMode::Bracketed(open) => {
            let is_closing = match open {
                Some(quote) => quote == c,
                None => false,
            };
            if c == ']' {
                if open.is_none() {
                    TagPlace { mode: TagMode::Plain, depth }
                } else {
                    lost
                }
            } else if c == '{' || c == '\\' {
                lost
            } else if is_closing {
                TagPlace { mode: TagMode::Bracketed(None), depth }
            } else if open.is_none() && (c == '"' || c == '\'') {
                TagPlace { mode: TagMode::Bracketed(Some(c)), depth }
            } else {
                place
            }
        },
        TagMode::Lost => lost,
    }
}

/// Where the tag ends whose text begins at `i`, if that can be told.
fn close_of_tag(s: &Vec<char>, i: usize) -> (r: Option<usize>)
    ensures
        match r {
            Some(end) => tag_close(s@, i as int, tag_place()) == Some(end as int) && i <= end && end + 2
                <= s@.len(),
            None => tag_close(s@, i as int, tag_place()) is None,
        },
{
    let end_mark = vec!['}', '}'];
    assert(end_mark@ =~= tag_end());
    let mut place = TagPlace { mode: TagMode::Plain, depth: 0 };
    let mut k: usize = i;
    while k < s.len()
        invariant
            end_mark@ == tag_end(),
            i <= k,
            place.depth <= k - i,
            tag_close(s@, i as int, tag_place()) == tag_close(s@, k as int, place),
        decreases s.len() - k,
    {
        if place.mode == TagMode::Lost {
            return None;
        }
        if place.mode == TagMode::Plain && place.depth == 0 && matches_at(s, &end_mark, k) {
            return Some(k);
        }
        place = next_place(place, s[k]);
        k = k + 1;
    }
    None
}

/// The first place from `i` on that holds no white space.
fn skip_white(s: &Vec<char>, i: usize) -> (r: usize)
    requires
        i <= s@.len(),
    ensures
        r == past_white(s@, i as int),
        i <= r <= s@.len(),
{
    let mut a: usize = i;
    while a < s.len() && (s[a] == ' ' || s[a] == '\t' || s[a] == '\n' || s[a] == '\r')
        invariant
            i <= a <= s@.len(),
            past_white(s@, i as int) == past_white(s@, a as int),
        decreases s.len() - a,
    {
        a = a + 1;
    }
    a
}

/// The place behind the comment whose text begins at `i`.
fn pass_comment(s: &Vec<char>, i: usize) -> (r: Option<usize>)
    requires
        i <= s@.len(),
    ensures
        match r {
            Some(behind) => behind_comment(s@, i as int) == Some(behind as int),
            None => behind_comment(s@, i as int) is None,
        },
{
    let dashes = vec!['-', '-'];
    let dashed_end = vec!['-', '-', '}', '}'];
    let end_mark = vec!['}', '}'];
    assert(dashes@ =~= seq!['-', '-']);
    assert(dashed_end@ =~= seq!['-', '-', '}', '}']);
    assert(end_mark@ =~= tag_end());
    let n: usize = s.len();
    let start = skip_white(s, i);
    if matches_at(s, &dashes, start) {
        proof {
            lemma_find_bounds(s@, dashed_end@, start + 2);
        }
        if let Some(end) = find(s, &dashed_end, start + 2) {
            return Some(end + 4);
        }
    }
    proof {
        lemma_find_bounds(s@, end_mark@, i as int);
    }
    match find(s, &end_mark, i) {
        Some(end) => Some(end + 2),
        None => None,
    }
}

/// The place behind the tag of a raw block whose text begins at `i`.
fn pass_raw_tag(s: &Vec<char>, i: usize) -> (r: Option<usize>)
    ensures
        match r {
            Some(behind) => behind_raw_tag(s@, i as int) == Some(behind as int) && i + 4 <= behind
                <= s@.len(),
            None => behind_raw_tag(s@, i as int) is None,
        },
{
    let end_mark = vec!['}', '}'];
    assert(end_mark@ =~= tag_end());
    let n: usize = s.len();
    match close_of_tag(s, i) {
        Some(end) => if matches_at(s, &end_mark, end + 2) {
            Some(end + 4)
        } else {
            None
        },
        None => None,
    }
}

/// The place behind the raw block whose first tag begins at `at`.
fn pass_raw_block(s: &Vec<char>, at: usize) -> (r: Option<usize>)
    requires
        at + 4 <= s@.len(),
    ensures
        match r {
            Some(behind) => behind_raw_block(s@, at as int) == Some(behind as int),
            None => behind_raw_block(s@, at as int) is None,
        },
{
    let start = vec!['{', '{', '{', '{'];
    assert(start@ =~= raw_start());
    let n: usize = s.len();
    match pass_raw_tag(s, at + 4) {
        Some(body) => {
            proof {
                lemma_find_bounds(s@, start@, body as int);
            }
            match find(s, &start, body) {
                Some(end) => if s[end - 1] != '\\' && tag_kind(s, end + 4) == TagKind::End {
                    pass_raw_tag(s, end + 4)
                } else {
                    None
                },
                None => None,
            }
        },
        None => None,
    }
}

/// The place behind the tag, comment or raw block that begins at `at`.
fn pass_mark(s: &Vec<char>, at: usize) -> (r: Option<usize>)
    requires
        occurs_at(s@, tag_start(), at as int),
    ensures
        match r {
            Some(behind) => behind_mark(s@, at as int) == Some(behind as int) && at + 2 <= behind
                <= s@.len(),
            None => behind_mark(s@, at as int) is None,
        },
{
    let n: usize = s.len();
    proof {
        lemma_behind_mark(s@, at as int);
    }
    if at + 2 < n && s[at + 2] == '!' {
        return pass_comment(s, at + 3);
    }
    let raw = vec!['{', '{', '{', '{'];
    assert(raw@ =~= raw_start());
    if matches_at(s, &raw, at) {
        return pass_raw_block(s, at);
    }
    match close_of_tag(s, at + 2) {
        Some(end) => Some(end + 2),
        None => None,
    }
}

/// The name of the partial that a tag takes up, where the name begins at `start`.
fn name_taken(s: &Vec<char>, start: usize) -> (r: Option<String>)
    requires
        start <= s@.len(),
    ensures
        opt_text(r) == taken_name(s@, start as int),
{
    let n: usize = s.len();
    let block = chars_of("@partial-block");
    if matches_at(s, &block, start) {
        let behind: usize = start + block.len();
        if behind < s.len() && (is_name_letter(s[behind]) || s[behind] == '$') {
            return None;
        }
        return Some("@partial-block".to_owned());
    }
    let mut end: usize = start;
    while end < s.len() && is_name_letter(s[end])
        invariant
            start <= end <= s@.len(),
            name_end(s@, start as int) == name_end(s@, end as int),
        decreases s.len() - end,
    {
        end = end + 1;
    }
    if end > start {
        Some(string_of(s, start, end))
    } else {
        None
    }
}

/// Whether a character can stand in the name of a partial that is written as it is.
fn is_name_letter(c: char) -> (r: bool)
    ensures
        r == is_name_char(c),
{
    ('0' <= c && c <= '9') || ('a' <= c && c <= 'z') || ('A' <= c && c <= 'Z') || c == '-' || c == '_'
        || c == '/' || c == '.' || c >= '\u{80}'
}

/// The name of the partial that the tag of an inline block holds, if the name stands there in quotation
/// marks.
fn name_held(s: &Vec<char>, i: usize) -> (r: Option<String>)
    requires
        i <= s@.len(),
        kind_of_tag(s@, i as int) == TagKind::InlineBlock,
    ensures
        opt_text(r) == held_name(s@, i as int),
{
    let n: usize = s.len();
    let mark = skip_space(s, i);
    assert(mark < n);
    let star = skip_space(s, mark + 1);
    assert(star < n);
    let word = skip_space(s, star + 1);
    let inline_word = chars_of("inline");
    proof {
        reveal_strlit("inline");
    }
    if !matches_at(s, &inline_word, word) {
        return None;
    }
    let quote = skip_space(s, word + 6);
    if quote >= s.len() || (s[quote] != '"' && s[quote] != '\'') {
        return None;
    }
    let mut close: Vec<char> = Vec::new();
    close.push(s[quote]);
    assert(close@ =~= seq![s@[quote as int]]);
    proof {
        lemma_find_bounds(s@, close@, quote + 1);
    }
    match find(s, &close, quote + 1) {
        Some(end) => if has_backslash(s, quote + 1, end) {
            None
        } else {
            Some(string_of(s, quote + 1, end))
        },
        None => None,
    }
}

/// Whether a backslash stands there.
fn has_backslash(s: &Vec<char>, from: usize, to: usize) -> (r: bool)
    requires
        from <= to <= s@.len(),
    ensures
        r == s@.subrange(from as int, to as int).contains('\\'),
{
    let ghost part = s@.subrange(from as int, to as int);
    let mut k: usize = from;
    while k < to
        invariant
            from <= k <= to <= s@.len(),
            part == s@.subrange(from as int, to as int),
            forall|j: int| 0 <= j < k - from ==> part[j] != '\\',
        decreases to - k,
    {
        if s[k] == '\\' {
            assert(part[k - from] == '\\');
            return true;
        }
        k = k + 1;
    }
    false
}

/// Whether the text is one of those.
fn is_one_of(all: &Vec<String>, text: &str) -> (r: bool)
    ensures
        r == texts(all@).contains(text@),
{
    let mut i: usize = 0;
    while i < all.len()
        invariant
            i <= all@.len(),
            forall|k: int| 0 <= k < i ==> (#[trigger] all@[k])@ != text@,
        decreases all.len() - i,
    {
        if same(all[i].as_str(), text) {
            assert(texts(all@)[i as int] == text@);
            return true;
        }
        i = i + 1;
    }
    assert forall|k: int| 0 <= k < texts(all@).len() implies texts(all@)[k] != text@ by {
        assert(all@[k]@ != text@);
    }
    false
}

/// How far a template was read.
#[derive(Debug)]
struct Reading {
    depth: usize,
    held_at: Option<usize>,
    block_at: Option<usize>,
    since: Vec<String>,
    taken: Vec<String>,
    any_held: bool,
    block_takes: bool,
    inline_takes_block: bool,
}

impl Reading {
    spec fn model(self) -> ReadingModel {
        ReadingModel {
            depth: self.depth as nat,
            held_at: match self.held_at {
                Some(n) => Some(n as nat),
                None => None,
            },
            block_at: match self.block_at {
                Some(n) => Some(n as nat),
                None => None,
            },
            since: texts(self.since@),
            taken: texts(self.taken@),
            any_held: self.any_held,
            block_takes: self.block_takes,
            inline_takes_block: self.inline_takes_block,
        }
    }

    fn new() -> (r: Self)
        ensures
            r.model() == reading_start(),
            r.depth == 0,
    {
        let r = Reading {
            depth: 0,
            held_at: None,
            block_at: None,
            since: Vec::new(),
            taken: Vec::new(),
            any_held: false,
            block_takes: false,
            inline_takes_block: false,
        };
        assert(r.model() =~= reading_start());
        r
    }

    fn take_up(self, name: Option<String>) -> (r: Option<Self>)
        ensures
            match r {
                Some(after) => behind_taking(self.model(), opt_text(name)) == Some(after.model())
                    && after.depth == self.depth,
                None => behind_taking(self.model(), opt_text(name)) is None,
            },
    {
        let mut after = self;
        if after.held_at.is_none() {
            return Some(after);
        }
        match name {
            None => None,
            Some(name) => if same(name.as_str(), "@partial-block") {
                if after.block_at.is_some() || after.block_takes {
                    None
                } else {
                    after.inline_takes_block = true;
                    Some(after)
                }
            } else if after.any_held || is_one_of(&after.since, name.as_str()) || (
            after.block_at.is_some() && after.inline_takes_block) {
                None
            } else {
                let ghost before = texts(after.taken@);
                let ghost said = name@;
                after.taken.push(name);
                assert(texts(after.taken@) =~= before.push(said));
                if after.block_at.is_some() {
                    after.block_takes = true;
                }
                Some(after)
            },
        }
    }

    fn hold(self, name: Option<String>) -> (r: Option<Self>)
        requires
            self.depth < usize::MAX,
        ensures
            match r {
                Some(after) => behind_holding(self.model(), opt_text(name)) == Some(after.model())
                    && after.depth == self.depth + 1,
                None => behind_holding(self.model(), opt_text(name)) is None,
            },
    {
        let mut after = self;
        if after.held_at.is_none() {
            after.held_at = Some(after.depth);
        }
        after.depth = after.depth + 1;
        match name {
            None => if after.taken.len() > 0 {
                None
            } else {
                after.any_held = true;
                Some(after)
            },
            Some(name) => if is_one_of(&after.taken, name.as_str()) {
                None
            } else {
                let ghost before = texts(after.since@);
                let ghost said = name@;
                after.since.push(name);
                assert(texts(after.since@) =~= before.push(said));
                Some(after)
            },
        }
    }

    fn end_block(self) -> (r: Option<Self>)
        ensures
            match r {
                Some(after) => behind_end(self.model()) == Some(after.model()) && after.depth
                    <= self.depth,
                None => behind_end(self.model()) is None,
            },
    {
        let mut after = self;
        if after.depth == 0 {
            return None;
        }
        after.depth = after.depth - 1;
        if let Some(n) = after.held_at {
            if n == after.depth {
                after.held_at = None;
                after.since = Vec::new();
                assert(texts(after.since@) =~= Seq::<Seq<char>>::empty());
            }
        }
        if let Some(n) = after.block_at {
            if n == after.depth {
                after.block_at = None;
            }
        }
        Some(after)
    }

    fn begin_block(self, name: Option<String>) -> (r: Option<Self>)
        requires
            self.depth < usize::MAX,
        ensures
            match r {
                Some(after) => behind_block(self.model(), opt_text(name)) == Some(after.model())
                    && after.depth == self.depth + 1,
                None => behind_block(self.model(), opt_text(name)) is None,
            },
    {
        let depth: usize = self.depth;
        if self.held_at.is_none() {
            let mut after = self;
            after.held_at = Some(depth);
            after.block_at = Some(depth);
            after.depth = depth + 1;
            return Some(after);
        }
        if let Some(name) = &name {
            if same(name.as_str(), "@partial-block") {
                return None;
            }
        }
        match self.take_up(name) {
            Some(taking) => {
                let mut after = taking;
                if after.block_at.is_none() {
                    after.block_at = Some(depth);
                }
                after.depth = depth + 1;
                Some(after)
            },
            None => None,
        }
    }

    fn pass(self, s: &Vec<char>, i: usize) -> (r: Option<Self>)
        requires
            i <= s@.len(),
            self.depth < usize::MAX,
        ensures
            match r {
                Some(after) => behind_tag(self.model(), s@, i as int) == Some(after.model())
                    && after.depth <= self.depth + 1,
                None => behind_tag(self.model(), s@, i as int) is None,
            },
    {
        let n: usize = s.len();
        match tag_kind(s, i) {
            TagKind::Partial => {
                let mark = skip_space(s, i);
                assert(mark < n);
                self.take_up(name_taken(s, skip_space(s, mark + 1)))
            },
            TagKind::PartialBlock => {
                let mark = skip_space(s, i);
                assert(mark < n);
                let second = skip_space(s, mark + 1);
                assert(second < n);
                self.begin_block(name_taken(s, skip_space(s, second + 1)))
            },
            TagKind::InlineBlock => {
                let name = name_held(s, i);
                self.hold(name)
            },
            TagKind::Block => {
                let mut after = self;
                after.depth = after.depth + 1;
                Some(after)
            },
            TagKind::End => self.end_block(),
            TagKind::Other => Some(self),
        }
    }
}

/// Whether a tag holds a partial.
fn holds_partials(s: &Vec<char>) -> (r: bool)
    ensures
        r == holds_partials_from(s@, 0),
{
    let start = vec!['{', '{'];
    assert(start@ =~= tag_start());
    let mut i: usize = 0;
    loop
        invariant
            start@ == tag_start(),
            i <= s@.len(),
            holds_partials_from(s@, 0) == holds_partials_from(s@, i as int),
        decreases s.len() - i,
    {
        proof {
            lemma_find_bounds(s@, start@, i as int);
        }
        match find(s, &start, i) {
            Some(at) => {
                let kind = tag_kind(s, at + 2);
                if kind == TagKind::InlineBlock || kind == TagKind::PartialBlock {
                    return true;
                }
                i = at + 2;
            },
            None => {
                return false;
            },
        }
    }
}

/// Whether the template can be read, and no partial might reach itself.
fn ends(s: &Vec<char>) -> (r: bool)
    ensures
        r == ends_from(s@, 0, reading_start()),
{
    let start = vec!['{', '{'];
    assert(start@ =~= tag_start());
    let mut i: usize = 0;
    let mut reading = Reading::new();
    loop
        invariant
            start@ == tag_start(),
            reading.depth <= i <= s@.len(),
            ends_from(s@, 0, reading_start()) == ends_from(s@, i as int, reading.model()),
        decreases s.len() - i,
    {
        proof {
            lemma_find_bounds(s@, start@, i as int);
        }
        match find(s, &start, i) {
            Some(at) => {
                if at > 0 && s[at - 1] == '\\' && !(at > 1 && s[at - 2] == '\\') {
                    if matches_at(s, &start, at + 2) {
                        i = at + 4;
                    } else {
                        i = at + 2;
                    }
                } else {
                    match pass_mark(s, at) {
                        Some(behind) => match reading.pass(s, at + 2) {
                            Some(next) => {
                                reading = next;
                                i = behind;
                            },
                            None => {
                                return false;
                            },
                        },
                        None => {
                            return false;
                        },
                    }
                }
            },
            None => {
                return true;
            },
        }
    }
}

/// Whether the rendering of a template surely ends.
pub fn is_sure_to_end(template: &str) -> (r: bool)
    ensures
        r == surely_ends(template@),
{
    let chars = chars_of(template);
    !holds_partials(&chars) || ends(&chars)
}

// ---------------------------------------------------------------------------------------------
// Laws.

/// A text without tags surely ends.
pub proof fn law_text_without_tags_ends(template: Seq<char>)
    requires
        !contains(template, seq!['{', '{']),
    ensures
        surely_ends(template),
{
    lemma_find_contains(template, tag_start(), 0);
}

/// A tag takes up a partial, begins its block or holds an inline one by the sign that it begins with.
pub proof fn law_kind_of_a_tag_is_its_sign(s: Seq<char>, i: int)
    requires
        0 <= i,
        i + 1 < s.len(),
    ensures
        s[i] == '>' ==> kind_of_tag(s, i) == TagKind::Partial,
        s[i] == '/' ==> kind_of_tag(s, i) == TagKind::End,
        s[i] == '#' && s[i + 1] == '>' ==> kind_of_tag(s, i) == TagKind::PartialBlock,
        s[i] == '#' && s[i + 1] == '*' ==> kind_of_tag(s, i) == TagKind::InlineBlock,
        is_ascii_alphanumeric(s[i]) ==> kind_of_tag(s, i) == TagKind::Other,
        s[i] == '#' && is_ascii_alphanumeric(s[i + 1]) ==> kind_of_tag(s, i) == TagKind::Block,
{
}

/// A partial that is held may not take up itself, nor one that was held inside the same outermost block.
/// Outside such blocks any partial may be taken up.
pub proof fn law_partials_do_not_reach_themselves(
    reading: ReadingModel,
    name: Seq<char>,
    taken: Option<Seq<char>>,
)
    requires
        name != partial_block(),
    ensures
        reading.held_at is None ==> behind_taking(reading, taken) == Some(reading),
        behind_holding(reading, Some(name)) matches Some(inside) ==> {
            &&& behind_taking(inside, Some(name)) is None
            &&& behind_taking(inside, None) is None
            &&& behind_holding(inside, Some(name)) is Some ==> behind_taking(
                behind_holding(inside, Some(name))->0,
                Some(name),
            ) is None
        },
{
    if let Some(inside) = behind_holding(reading, Some(name)) {
        assert(inside.since[inside.since.len() - 1] == name);
        assert(inside.since.contains(name));
        if let Some(deeper) = behind_holding(inside, Some(name)) {
            assert(deeper.since[deeper.since.len() - 1] == name);
            assert(deeper.since.contains(name));
        }
    }
}

/// A partial that a held one has taken up may not be held later: it could lead back. That holds behind
/// the end of the block too.
pub proof fn law_taken_partials_are_not_held_later(reading: ReadingModel, name: Seq<char>)
    requires
        reading.held_at is Some,
        name != partial_block(),
    ensures
        behind_taking(reading, Some(name)) matches Some(next) ==> {
            &&& behind_holding(next, Some(name)) is None
            &&& behind_holding(next, None) is None
            &&& behind_end(next) matches Some(behind) ==> behind_holding(behind, Some(name)) is None
        },
{
    if let Some(next) = behind_taking(reading, Some(name)) {
        assert(next.taken[next.taken.len() - 1] == name);
        assert(next.taken.contains(name));
    }
}

/// The block of a partial is not taken up from within the block of a partial, nor is another partial
/// taken up there where an inline one takes up such a block.
pub proof fn law_blocks_of_partials_do_not_reach_themselves(reading: ReadingModel, name: Seq<char>)
    requires
        reading.held_at is Some,
        reading.block_at is Some,
    ensures
        behind_taking(reading, Some(partial_block())) is None,
        behind_block(reading, Some(partial_block())) is None,
        reading.inline_takes_block && name != partial_block() ==> behind_taking(reading, Some(name)) is None,
{
}

/// The end of a block leaves it: behind the outermost block that holds a partial none is held any more.
/// An end without a block is refused.
pub proof fn law_ends_leave_their_blocks(reading: ReadingModel, name: Seq<char>)
    requires
        reading.held_at is None,
    ensures
        behind_holding(reading, Some(name)) matches Some(inside) ==> (inside.held_at == Some(reading.depth)
            && inside.depth == reading.depth + 1 && (behind_end(inside) matches Some(behind)
            && behind.held_at is None && behind.depth == reading.depth && behind.since.len() == 0)),
        reading.depth == 0 ==> behind_end(reading) is None,
{
}

/// A tag ends at the first pair of braces that stands in no text: a pair between quotation marks does not
/// end it.
pub proof fn law_texts_do_not_end_tags(s: Seq<char>, i: int, quote: char, end: int)
    requires
        quote == '"' || quote == '\'',
        0 <= i < end,
        end + 2 < s.len(),
        s[i] == quote,
        s[end] == quote,
        forall|k: int| i < k < end ==> #[trigger] s[k] != quote && s[k] != '\\',
        s[end + 1] == '}' && s[end + 2] == '}',
    ensures
        tag_close(s, i, tag_place()) == Some(end + 1),
{
    assert(s.subrange(end + 1, end + 3) =~= tag_end());
    assert(!occurs_at(s, tag_end(), i)) by {
        if occurs_at(s, tag_end(), i) {
            assert(s.subrange(i, i + 2)[0] == s[i]);
        }
    }
    lemma_quoted(s, i + 1, quote, end);
    assert(occurs_at(s, tag_end(), end + 1));
}

proof fn lemma_quoted(s: Seq<char>, k: int, quote: char, end: int)
    requires
        0 < k <= end < s.len(),
        s[end] == quote,
        forall|j: int| k <= j < end ==> #[trigger] s[j] != quote && s[j] != '\\',
    ensures
        tag_close(s, k, (TagPlace { mode: TagMode::Quoted(quote), depth: 0 })) == tag_close(
            s,
            end + 1,
            tag_place(),
        ),
    decreases end - k,
{
    if k < end {
        assert(s[k] != quote && s[k] != '\\');
        lemma_quoted(s, k + 1, quote, end);
    }
}

} // verus!
