//! The symbols in the code that is to be completed.

use vstd::prelude::*;
use crate::codeassist::content::ContentManager;
use crate::codeassist::content::snippet;
use crate::codeassist::position::{Position, Range};
use crate::text::{chars_of, is_alnum, is_white};

verus! {

/// A symbol with its place.
#[derive(Debug)]
pub struct DescribedPosition {
    pub position: Position,
    pub description: String,
}

/// What a [`DescribedPosition`] says.
#[verifier::ext_equal]
pub ghost struct DescribedPositionModel {
    pub position: Position,
    pub description: Seq<char>,
}

impl DeepView for DescribedPosition {
    type V = DescribedPositionModel;

    open spec fn deep_view(&self) -> DescribedPositionModel {
        DescribedPositionModel { position: self.position, description: self.description@ }
    }
}

// ---------------------------------------------------------------------------------------------
// Symbols that the language server tells.

/// A token, with its place counted from the one before.
#[derive(Clone, Copy, Debug, PartialEq, Eq, Structural)]
pub struct SemanticToken {
    pub delta_line: u32,
    pub delta_start: u32,
    pub length: u32,
}

/// The line and the place in it of the last token.
pub open spec fn token_place(tokens: Seq<SemanticToken>) -> (int, int)
    decreases tokens.len(),
{
    if tokens.len() == 0 {
        (0, 0)
    } else {
        let (line, character) = token_place(tokens.drop_last());
        let token = tokens.last();
        if token.delta_line != 0 {
            (line + token.delta_line, token.delta_start as int)
        } else {
            (line, character + token.delta_start)
        }
    }
}

/// Whether the place of the last of the tokens has a number, and its end too, if it begins in a range.
pub open spec fn last_token_fits(tokens: Seq<SemanticToken>, range: Range) -> bool {
    let (line, character) = token_place(tokens);
    let position = Position { line: line as u32, character: character as u32 };
    &&& line <= u32::MAX
    &&& character <= u32::MAX
    &&& is_in(position, range) ==> character + tokens.last().length <= u32::MAX
}

/// Whether the places of all the tokens have numbers, and the ends of those that begin in a range.
pub open spec fn tokens_fit(tokens: Seq<SemanticToken>, range: Range) -> bool {
    forall|n: int| 0 < n <= tokens.len() ==> last_token_fits(#[trigger] tokens.take(n), range)
}

/// The place of token `n`.
pub open spec fn token_position(tokens: Seq<SemanticToken>, n: int) -> Position {
    let (line, character) = token_place(tokens.take(n + 1));
    Position { line: line as u32, character: character as u32 }
}

/// The range of token `n`.
pub open spec fn token_range(tokens: Seq<SemanticToken>, n: int) -> Range {
    let start = token_position(tokens, n);
    Range {
        start,
        end: Position {
            line: start.line,
            character: (start.character + tokens[n].length) as u32,
        },
    }
}

/// Whether a place is in a range: not before its start, and before its end.
pub open spec fn is_in(position: Position, range: Range) -> bool {
    range.start.spec_not_behind(position) && !range.end.spec_not_behind(position)
}

/// The ranges of the tokens that begin in a range.
pub open spec fn tokens_in(tokens: Seq<SemanticToken>, range: Range, n: int) -> Seq<Range>
    decreases n,
{
    if n <= 0 {
        Seq::empty()
    } else {
        let before = tokens_in(tokens, range, n - 1);
        if is_in(token_position(tokens, n - 1), range) {
            before.push(token_range(tokens, n - 1))
        } else {
            before
        }
    }
}

/// The ranges of the tokens that begin in a range, if their places have numbers.
pub fn relevant_token_ranges(tokens: &Vec<SemanticToken>, range: &Range) -> (r: Option<Vec<Range>>)
    ensures
        match r {
            Some(found) => tokens_fit(tokens@, *range) && found@ == tokens_in(
                tokens@,
                *range,
                tokens@.len() as int,
            ),
            None => !tokens_fit(tokens@, *range),
        },
{
    let mut r: Vec<Range> = Vec::new();
    let mut line: u32 = 0;
    let mut character: u32 = 0;
    let mut i: usize = 0;
    assert(tokens@.take(0) =~= Seq::<SemanticToken>::empty());
    while i < tokens.len()
        invariant
            i <= tokens@.len(),
            token_place(tokens@.take(i as int)) == (line as int, character as int),
            forall|n: int| 0 < n <= i ==> last_token_fits(#[trigger] tokens@.take(n), *range),
            r@ == tokens_in(tokens@, *range, i as int),
        decreases tokens.len() - i,
    {
        let token = tokens[i];
        assert(tokens@.take(i + 1).drop_last() =~= tokens@.take(i as int));
        assert(tokens@.take(i + 1).last() == token);
        let next_line: u64 = line as u64 + token.delta_line as u64;
        let next_character: u64 = if token.delta_line != 0 {
            token.delta_start as u64
        } else {
            character as u64 + token.delta_start as u64
        };
        let limit: u64 = 0xffff_ffff;
        assert(token_place(tokens@.take(i + 1)) == (next_line as int, next_character as int));
        if next_line > limit || next_character > limit {
            assert(!last_token_fits(tokens@.take(i + 1), *range));
            return None;
        }
        line = next_line as u32;
        character = next_character as u32;
        let position = Position { line, character };
        assert(position == token_position(tokens@, i as int));
        if range.start.not_behind(&position) && !range.end.not_behind(&position) {
            let end: u64 = next_character + token.length as u64;
            if end > limit {
                assert(!last_token_fits(tokens@.take(i + 1), *range));
                return None;
            }
            r.push(
                Range { start: position, end: Position { line, character: end as u32 } },
            );
        }
        i = i + 1;
    }
    Some(r)
}

/// The symbols at ranges of a document.
pub open spec fn described(lines: Seq<Seq<char>>, ranges: Seq<Range>) -> Seq<DescribedPositionModel> {
    ranges.map_values(
        |range: Range|
            DescribedPositionModel {
                position: range.start,
                description: snippet(lines, range)->0,
            },
    )
}

/// The symbols at ranges of a document. Nothing, where there are ranges and the document is not known
/// or has no lines.
pub fn describe(content: &ContentManager, uri: &str, ranges: &Vec<Range>) -> (r: Option<
    Vec<DescribedPosition>,
>)
    requires
        forall|i: int| 0 <= i < ranges@.len() ==> content.fits(uri@, #[trigger] ranges@[i]),
    ensures
        if ranges@.len() == 0 || (content.content().contains_key(uri@)
            && content.content()[uri@].lines.len() > 0) {
            r.deep_view() == Some(described(content.content()[uri@].lines, ranges@))
        } else {
            r is None
        },
{
    let ghost lines = content.content()[uri@].lines;
    let ghost wanted = described(lines, ranges@);
    let mut r: Vec<DescribedPosition> = Vec::new();
    let mut i: usize = 0;
    assert(r.deep_view() =~= wanted.take(0));
    while i < ranges.len()
        invariant
            i <= ranges@.len(),
            forall|i: int| 0 <= i < ranges@.len() ==> content.fits(uri@, #[trigger] ranges@[i]),
            lines == content.content()[uri@].lines,
            wanted == described(lines, ranges@),
            r.deep_view() == wanted.take(i as int),
            i > 0 ==> content.content().contains_key(uri@) && lines.len() > 0,
        decreases ranges.len() - i,
    {
        let range = ranges[i];
        assert(content.fits(uri@, ranges@[i as int]));
        match content.get_snippet(uri, &range) {
            Some(description) => {
                let ghost earlier = r.deep_view();
                let ghost said = DescribedPositionModel {
                    position: range.start,
                    description: description@,
                };
                r.push(DescribedPosition { position: range.start, description });
                assert(r.deep_view() =~= earlier.push(said));
                assert(wanted.take(i + 1) =~= earlier.push(wanted[i as int]));
            },
            None => {
                return None;
            },
        }
        i = i + 1;
    }
    assert(wanted.take(wanted.len() as int) =~= wanted);
    Some(r)
}

// ---------------------------------------------------------------------------------------------
// Symbols that are told by whitespace.

/// Whether a character belongs to a word.
pub open spec fn is_word_char(c: char) -> bool {
    !is_white(c) && is_alnum(c)
}

/// The line and the place in it behind a text that begins at a place.
pub open spec fn place_after(start: Position, text: Seq<char>) -> (int, int)
    decreases text.len(),
{
    if text.len() == 0 {
        (start.line as int, start.character as int)
    } else {
        let (line, character) = place_after(start, text.drop_last());
        if text.last() == '\n' {
            (line + 1, 0)
        } else {
            (line, character + 1)
        }
    }
}

/// The words that end before the end of the text, and the word at its end, if there is one.
pub open spec fn words(start: Position, text: Seq<char>) -> (
    Seq<DescribedPositionModel>,
    Option<DescribedPositionModel>,
)
    decreases text.len(),
{
    if text.len() == 0 {
        (Seq::empty(), None)
    } else {
        let (done, open) = words(start, text.drop_last());
        let (line, character) = place_after(start, text.drop_last());
        if is_word_char(text.last()) {
            match open {
                Some(word) => (
                    done,
                    Some(
                        DescribedPositionModel {
                            description: word.description.push(text.last()),
                            ..word
                        },
                    ),
                ),
                None => (
                    done,
                    Some(
                        DescribedPositionModel {
                            position: Position { line: line as u32, character: character as u32 },
                            description: seq![text.last()],
                        },
                    ),
                ),
            }
        } else {
            match open {
                Some(word) => (done.push(word), None),
                None => (done, None),
            }
        }
    }
}

/// The words of a text.
pub open spec fn all_words(start: Position, text: Seq<char>) -> Seq<DescribedPositionModel> {
    match words(start, text) {
        (done, Some(word)) => done.push(word),
        (done, None) => done,
    }
}

/// Whether all the places in a text have numbers.
pub open spec fn places_fit(start: Position, text: Seq<char>) -> bool {
    forall|n: int|
        0 <= n <= text.len() ==> {
            let (line, character) = place_after(start, #[trigger] text.take(n));
            line <= u32::MAX && character <= u32::MAX
        }
}

/// The words of a text that begins at a place, if the places in it have numbers.
pub fn get_relevant_symbol_positions_without_semantic_tokens(text: &str, start: Position) -> (r: Option<
    Vec<DescribedPosition>,
>)
    ensures
        match r {
            Some(found) => places_fit(start, text@) && found.deep_view() == all_words(start, text@),
            None => !places_fit(start, text@),
        },
{
    let chars = chars_of(text);
    let mut done: Vec<DescribedPosition> = Vec::new();
    let mut open: Option<DescribedPosition> = None;
    let mut line: u32 = start.line;
    let mut character: u32 = start.character;
    let mut i: usize = 0;
    assert(text@.take(0) =~= Seq::<char>::empty());
    assert(done.deep_view() =~= words(start, text@.take(0)).0);
    while i < chars.len()
        invariant
            chars@ == text@,
            i <= chars@.len(),
            place_after(start, text@.take(i as int)) == (line as int, character as int),
            forall|n: int|
                0 <= n <= i ==> {
                    let (line, character) = place_after(start, #[trigger] text@.take(n));
                    line <= u32::MAX && character <= u32::MAX
                },
            words(start, text@.take(i as int)) == (done.deep_view(), open.deep_view()),
        decreases chars.len() - i,
    {
        let c = chars[i];
        assert(text@.take(i + 1).drop_last() =~= text@.take(i as int));
        assert(text@.take(i + 1).last() == c);
        if c.is_whitespace() || !c.is_alphanumeric() {
            if let Some(word) = open {
                let ghost said = word.deep_view();
                let ghost earlier = done.deep_view();
                done.push(word);
                assert(done.deep_view() =~= earlier.push(said));
            }
            open = None;
        } else {
            open = match open {
                Some(word) => {
                    let mut word = word;
                    word.description.push(c);
                    Some(word)
                },
                None => {
                    let mut description = String::new();
                    description.push(c);
                    assert(description@ =~= seq![c]);
                    Some(DescribedPosition { position: Position { line, character }, description })
                },
            };
        }
        if c == '\n' {
            if line == u32::MAX {
                assert(!places_fit(start, text@)) by {
                    assert(0 <= i + 1 <= text@.len());
                    assert(place_after(start, text@.take(i + 1)).0 > u32::MAX);
                }
                return None;
            }
            line = line + 1;
            character = 0;
        } else {
            if character == u32::MAX {
                assert(!places_fit(start, text@)) by {
                    assert(0 <= i + 1 <= text@.len());
                    assert(place_after(start, text@.take(i + 1)).1 > u32::MAX);
                }
                return None;
            }
            character = character + 1;
        }
        i = i + 1;
    }
    assert(text@.take(text@.len() as int) =~= text@);
    if let Some(word) = open {
        let ghost said = word.deep_view();
        let ghost earlier = done.deep_view();
        done.push(word);
        assert(done.deep_view() =~= earlier.push(said));
    }
    Some(done)
}

// ---------------------------------------------------------------------------------------------
// Laws.

/// A word is never empty, and holds nothing but letters and digits.
pub proof fn law_words_are_words(start: Position, text: Seq<char>)
    ensures
        forall|i: int, k: int|
            0 <= i < all_words(start, text).len() && 0 <= k < all_words(start, text)[i].description.len()
                ==> is_word_char(#[trigger] all_words(start, text)[i].description[k]),
        forall|i: int|
            0 <= i < all_words(start, text).len() ==> (#[trigger] all_words(start, text)[i]).description.len()
                > 0,
{
    lemma_words(start, text);
}

spec fn is_word(word: DescribedPositionModel) -> bool {
    word.description.len() > 0 && forall|k: int|
        0 <= k < word.description.len() ==> is_word_char(#[trigger] word.description[k])
}

proof fn lemma_words(start: Position, text: Seq<char>)
    ensures
        forall|i: int| 0 <= i < words(start, text).0.len() ==> is_word(#[trigger] words(start, text).0[i]),
        words(start, text).1 matches Some(word) ==> is_word(word),
    decreases text.len(),
{
    if text.len() > 0 {
        lemma_words(start, text.drop_last());
    }
}

/// The place behind a text of one line is as much further in the line as the text is long; behind a line
/// break it is the start of the next line.
pub proof fn law_place_after_a_text(start: Position, text: Seq<char>, line: Seq<char>)
    requires
        !line.contains('\n'),
    ensures
        place_after(start, line) == (start.line as int, start.character + line.len()),
        place_after(start, text + seq!['\n'] + line) == (
            place_after(start, text).0 + 1,
            line.len() as int,
        ),
    decreases line.len(),
{
    let whole = text + seq!['\n'] + line;
    if line.len() == 0 {
        assert(whole.drop_last() =~= text);
        assert(place_after(start, line) == (start.line as int, start.character as int));
    } else {
        assert(line[line.len() - 1] != '\n');
        assert forall|c: char| line.drop_last().contains(c) implies line.contains(c) by {
            let i = choose|i: int| 0 <= i < line.drop_last().len() && line.drop_last()[i] == c;
            assert(line[i] == c);
        }
        law_place_after_a_text(start, text, line.drop_last());
        assert(whole.drop_last() =~= text + seq!['\n'] + line.drop_last());
    }
}

proof fn lemma_open_word(start: Position, text: Seq<char>)
    ensures
        words(start, text).1 is Some <==> text.len() > 0 && is_word_char(text.last()),
    decreases text.len(),
{
    if text.len() > 0 {
        lemma_open_word(start, text.drop_last());
    }
}

/// Every word of a text is found, in order and with its place: a word behind a text that does not end in
/// one is found behind the words of that text, at the place behind the text. A character that belongs to
/// no word adds none.
pub proof fn law_words_are_found_at_their_places(
    start: Position,
    before: Seq<char>,
    word: Seq<char>,
    other: char,
)
    requires
        before.len() == 0 || !is_word_char(before.last()),
        word.len() > 0,
        forall|i: int| 0 <= i < word.len() ==> is_word_char(#[trigger] word[i]),
        !is_word_char(other),
    ensures
        all_words(start, Seq::empty()).len() == 0,
        all_words(start, before + word) == all_words(start, before).push(
            DescribedPositionModel {
                position: Position {
                    line: place_after(start, before).0 as u32,
                    character: place_after(start, before).1 as u32,
                },
                description: word,
            },
        ),
        all_words(start, (before + word).push(other)) == all_words(start, before + word),
        all_words(start, before.push(other)) == all_words(start, before),
{
    lemma_open_word(start, before);
    lemma_word_grows(start, before, word);
    assert((before + word).push(other).drop_last() =~= before + word);
    assert(before.push(other).drop_last() =~= before);
}

proof fn lemma_word_grows(start: Position, before: Seq<char>, word: Seq<char>)
    requires
        words(start, before).1 is None,
        word.len() > 0,
        forall|i: int| 0 <= i < word.len() ==> is_word_char(#[trigger] word[i]),
    ensures
        words(start, before + word) == (
            words(start, before).0,
            Some(
                DescribedPositionModel {
                    position: Position {
                        line: place_after(start, before).0 as u32,
                        character: place_after(start, before).1 as u32,
                    },
                    description: word,
                },
            ),
        ),
    decreases word.len(),
{
    let whole = before + word;
    assert(whole.drop_last() =~= before + word.drop_last());
    assert(whole.last() == word[word.len() - 1]);
    if word.len() == 1 {
        assert(before + word.drop_last() =~= before);
        assert(seq![word.last()] =~= word);
    } else {
        assert forall|i: int| 0 <= i < word.drop_last().len() implies is_word_char(
            #[trigger] word.drop_last()[i],
        ) by {
            assert(word.drop_last()[i] == word[i]);
        }
        lemma_word_grows(start, before, word.drop_last());
        assert(word.drop_last().push(word.last()) =~= word);
    }
}

/// A token stands as many lines below the one before it as it says; in the same line it stands as many
/// characters further on, and in another line as many from its start.
pub proof fn law_tokens_count_from_the_one_before(tokens: Seq<SemanticToken>, token: SemanticToken)
    ensures
        token_place(Seq::empty()) == (0int, 0int),
        token_place(tokens.push(token)).0 == token_place(tokens).0 + token.delta_line,
        token.delta_line == 0 ==> token_place(tokens.push(token)).1 == token_place(tokens).1
            + token.delta_start,
        token.delta_line > 0 ==> token_place(tokens.push(token)).1 == token.delta_start,
{
    assert(tokens.push(token).drop_last() =~= tokens);
}

proof fn lemma_token_place(tokens: Seq<SemanticToken>)
    ensures
        token_place(tokens).0 >= 0 && token_place(tokens).1 >= 0,
    decreases tokens.len(),
{
    if tokens.len() > 0 {
        lemma_token_place(tokens.drop_last());
    }
}

/// A token is relevant where it begins in the range: not before its start, and before its end. It goes
/// behind those before it, with its place and its length.
pub proof fn law_tokens_in_the_range_are_relevant(tokens: Seq<SemanticToken>, range: Range, n: int)
    requires
        0 <= n < tokens.len(),
        tokens_fit(tokens, range),
    ensures
        ({
            let (line, character) = token_place(tokens.take(n + 1));
            let begins = line > range.start.line || (line == range.start.line && character
                >= range.start.character);
            let ends = line < range.end.line || (line == range.end.line && character
                < range.end.character);
            let before = tokens_in(tokens, range, n);
            let after = tokens_in(tokens, range, n + 1);
            &&& begins && ends ==> {
                &&& after.len() == before.len() + 1 && after.drop_last() == before
                &&& after.last().start.line == line && after.last().start.character == character
                &&& after.last().end.line == line && after.last().end.character == character
                    + tokens[n].length
            }
            &&& !(begins && ends) ==> after == before
        }),
{
    assert(last_token_fits(tokens.take(n + 1), range));
    lemma_token_place(tokens.take(n + 1));
    assert(tokens.take(n + 1).last() == tokens[n]);
    let after = tokens_in(tokens, range, n + 1);
    if is_in(token_position(tokens, n), range) {
        assert(after.drop_last() =~= tokens_in(tokens, range, n));
    }
}

/// A symbol stands at the start of its range, and is called by the text of the range.
pub proof fn law_symbols_are_the_texts_of_their_ranges(lines: Seq<Seq<char>>, ranges: Seq<Range>, i: int)
    requires
        0 <= i < ranges.len(),
        snippet(lines, ranges[i]) is Some,
    ensures
        described(lines, ranges).len() == ranges.len(),
        described(lines, ranges)[i].position == ranges[i].start,
        Some(described(lines, ranges)[i].description) == snippet(lines, ranges[i]),
{
}

} // verus!
