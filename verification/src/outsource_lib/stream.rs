//! Replies that come as lines.

use vstd::prelude::*;
use vstd::utf8::{decode_utf8, valid_utf8};
use crate::text::opt_text;

verus! {

/// The text that bytes are in UTF-8, if they are one.
pub open spec fn text_of(bytes: Seq<u8>) -> Option<Seq<char>> {
    if valid_utf8(bytes) {
        Some(decode_utf8(bytes))
    } else {
        None
    }
}

/// `std::str::from_utf8` gives the text that the bytes are in UTF-8, if they are one.
#[verifier::external_body]
pub(crate) fn line_text(bytes: &[u8]) -> (r: Option<String>)
    ensures
        opt_text(r) == text_of(bytes@),
{
    std::str::from_utf8(bytes).ok().map(String::from)
}

/// Bytes that have come and do not make up a line yet.
#[derive(Debug)]
pub struct LineBuffer {
    pub bytes: Vec<u8>,
}

/// The place of the first line break from `from` on.
pub open spec fn line_break(bytes: Seq<u8>, from: int) -> Option<int>
    decreases bytes.len() - from,
{
    if from < 0 || from >= bytes.len() {
        None
    } else if bytes[from] == 10 {
        Some(from)
    } else {
        line_break(bytes, from + 1)
    }
}

/// A line break that is found lies within the bytes.
pub proof fn lemma_line_break(bytes: Seq<u8>, from: int)
    ensures
        line_break(bytes, from) matches Some(i) ==> from <= i < bytes.len() && bytes[i] == 10 && 0 <= from,
    decreases bytes.len() - from,
{
    if 0 <= from < bytes.len() && bytes[from] != 10 {
        lemma_line_break(bytes, from + 1);
    }
}

/// The whole lines in the bytes, each with its line break.
pub open spec fn lines(bytes: Seq<u8>) -> Seq<Seq<u8>>
    decreases bytes.len(),
{
    proof {
        lemma_line_break(bytes, 0);
    }
    match line_break(bytes, 0) {
        Some(i) => seq![bytes.take(i + 1)] + lines(bytes.skip(i + 1)),
        None => Seq::empty(),
    }
}

/// The bytes behind the whole lines.
pub open spec fn rest(bytes: Seq<u8>) -> Seq<u8>
    decreases bytes.len(),
{
    proof {
        lemma_line_break(bytes, 0);
    }
    match line_break(bytes, 0) {
        Some(i) => rest(bytes.skip(i + 1)),
        None => bytes,
    }
}

/// The views of the lines.
pub open spec fn byte_lines(v: Seq<Vec<u8>>) -> Seq<Seq<u8>> {
    v.map_values(|line: Vec<u8>| line@)
}

impl LineBuffer {
    /// A buffer into which nothing has come.
    pub fn new() -> (r: Self)
        ensures
            r.bytes@.len() == 0,
    {
        LineBuffer { bytes: Vec::new() }
    }

    /// Takes up bytes. Gives the lines that are whole now.
    pub fn push(&mut self, more: &[u8]) -> (r: Vec<Vec<u8>>)
        ensures
            byte_lines(r@) == lines(old(self).bytes@ + more@),
            final(self).bytes@ == rest(old(self).bytes@ + more@),
    {
        let mut all: Vec<u8> = Vec::new();
        all.append(&mut self.bytes);
        let mut i: usize = 0;
        let ghost before = all@;
        while i < more.len()
            invariant
                i <= more@.len(),
                all@ == before + more@.take(i as int),
            decreases more.len() - i,
        {
            all.push(more[i]);
            assert(before + more@.take(i + 1) =~= (before + more@.take(i as int)).push(more@[i as int]));
            i = i + 1;
        }
        assert(more@.take(more@.len() as int) =~= more@);
        let ghost whole = all@;
        let mut r: Vec<Vec<u8>> = Vec::new();
        let mut line: Vec<u8> = Vec::new();
        let mut start: usize = 0;
        let mut k: usize = 0;
        assert(whole.skip(0) =~= whole);
        assert(byte_lines(r@) + lines(whole) =~= lines(whole));
        while k < all.len()
            invariant
                all@ == whole,
                start <= k <= all@.len(),
                line@ == whole.subrange(start as int, k as int),
                byte_lines(r@) + lines(whole.skip(start as int)) == lines(whole),
                rest(whole.skip(start as int)) == rest(whole),
                line_break(whole.skip(start as int), 0) == line_break(whole.skip(start as int), k - start),
            decreases all.len() - k,
        {
            let b = all[k];
            let ghost tail = whole.skip(start as int);
            assert(tail[k - start] == b);
            line.push(b);
            assert(line@ =~= whole.subrange(start as int, k + 1));
            if b == 10 {
                assert(line_break(tail, 0) == Some(k - start));
                assert(tail.take(k - start + 1) =~= line@);
                assert(tail.skip(k - start + 1) =~= whole.skip(k + 1));
                let ghost earlier = byte_lines(r@);
                let ghost next = line@;
                r.push(line);
                assert(byte_lines(r@) =~= earlier.push(next));
                assert(earlier + (seq![next] + lines(whole.skip(k + 1))) =~= byte_lines(r@) + lines(
                    whole.skip(k + 1),
                ));
                line = Vec::new();
                start = k + 1;
            }
            k = k + 1;
        }
        assert(line@ =~= whole.skip(start as int));
        assert(byte_lines(r@) + lines(whole.skip(start as int)) =~= byte_lines(r@));
        self.bytes = line;
        r
    }
}

proof fn lemma_break_in_first(a: Seq<u8>, b: Seq<u8>, from: int)
    requires
        0 <= from <= a.len(),
    ensures
        match line_break(a, from) {
            Some(i) => line_break(a + b, from) == Some(i),
            None => line_break(a + b, from) == line_break(a + b, a.len() as int),
        },
    decreases a.len() - from,
{
    if from < a.len() {
        assert((a + b)[from] == a[from]);
        if a[from] != 10 {
            lemma_break_in_first(a, b, from + 1);
        }
    }
}

/// The lines of a reply do not depend on how it is cut into pieces on its way.
pub proof fn law_lines_do_not_depend_on_pieces(a: Seq<u8>, b: Seq<u8>)
    ensures
        lines(a) + lines(rest(a) + b) == lines(a + b),
        rest(rest(a) + b) == rest(a + b),
    decreases a.len(),
{
    lemma_line_break(a, 0);
    lemma_break_in_first(a, b, 0);
    match line_break(a, 0) {
        Some(i) => {
            assert((a + b).skip(i + 1) =~= a.skip(i + 1) + b);
            assert((a + b).take(i + 1) =~= a.take(i + 1));
            law_lines_do_not_depend_on_pieces(a.skip(i + 1), b);
            assert(lines(a) + lines(rest(a) + b) =~= lines(a + b));
        },
        None => {
            assert(Seq::<Seq<u8>>::empty() + lines(a + b) =~= lines(a + b));
        },
    }
}

/// The lines that a buffer gives for pieces that come one after the other, and what it holds then.
pub open spec fn lines_of_pieces(pieces: Seq<Seq<u8>>) -> (Seq<Seq<u8>>, Seq<u8>)
    decreases pieces.len(),
{
    if pieces.len() == 0 {
        (Seq::empty(), Seq::empty())
    } else {
        let (earlier, held) = lines_of_pieces(pieces.drop_last());
        (earlier + lines(held + pieces.last()), rest(held + pieces.last()))
    }
}

/// Whatever the pieces in which a reply comes, the lines are those of the whole.
pub proof fn law_pieces_give_the_lines_of_the_whole(pieces: Seq<Seq<u8>>)
    ensures
        lines_of_pieces(pieces) == (lines(pieces.flatten()), rest(pieces.flatten())),
    decreases pieces.len(),
{
    if pieces.len() > 0 {
        let earlier = pieces.drop_last();
        law_pieces_give_the_lines_of_the_whole(earlier);
        earlier.lemma_flatten_push(pieces.last());
        assert(earlier.push(pieces.last()) =~= pieces);
        law_lines_do_not_depend_on_pieces(earlier.flatten(), pieces.last());
    } else {
        assert(lines(Seq::<u8>::empty()) =~= Seq::<Seq<u8>>::empty());
    }
}

proof fn lemma_no_break(bytes: Seq<u8>, from: int)
    requires
        0 <= from,
        forall|i: int| from <= i < bytes.len() ==> #[trigger] bytes[i] != 10,
    ensures
        line_break(bytes, from) is None,
    decreases bytes.len() - from,
{
    if from < bytes.len() {
        assert(bytes[from] != 10);
        lemma_no_break(bytes, from + 1);
    }
}

proof fn lemma_no_break_in_rest(bytes: Seq<u8>)
    ensures
        line_break(rest(bytes), 0) is None,
    decreases bytes.len(),
{
    lemma_line_break(bytes, 0);
    if let Some(i) = line_break(bytes, 0) {
        lemma_no_break_in_rest(bytes.skip(i + 1));
    }
}

/// Bytes behind the last line break give no line: they are held back.
pub proof fn law_unfinished_line_is_held_back(bytes: Seq<u8>, tail: Seq<u8>)
    requires
        forall|i: int| 0 <= i < tail.len() ==> #[trigger] tail[i] != 10,
    ensures
        lines(bytes + tail) == lines(bytes),
        rest(bytes + tail) == rest(bytes) + tail,
{
    law_lines_do_not_depend_on_pieces(bytes, tail);
    let held = rest(bytes);
    lemma_no_break_in_rest(bytes);
    lemma_break_in_first(held, tail, 0);
    assert forall|i: int| held.len() <= i < (held + tail).len() implies #[trigger] (held + tail)[i] != 10 by {
        assert((held + tail)[i] == tail[i - held.len()]);
    }
    lemma_no_break(held + tail, held.len() as int);
    assert(lines(bytes) + Seq::<Seq<u8>>::empty() =~= lines(bytes));
}

/// Every line ends with its line break, and holds no other.
pub proof fn law_lines_are_cut_at_line_breaks(line: Seq<u8>, after: Seq<u8>)
    requires
        forall|i: int| 0 <= i < line.len() ==> #[trigger] line[i] != 10,
    ensures
        lines(line + seq![10u8] + after) == seq![line + seq![10u8]] + lines(after),
        rest(line + seq![10u8] + after) == rest(after),
{
    let whole = line + seq![10u8] + after;
    lemma_first_break(whole, 0, line.len() as int);
    assert(whole.take((line.len() + 1) as int) =~= line + seq![10u8]);
    assert(whole.skip((line.len() + 1) as int) =~= after);
}

proof fn lemma_first_break(bytes: Seq<u8>, from: int, at: int)
    requires
        0 <= from <= at < bytes.len(),
        bytes[at] == 10,
        forall|i: int| from <= i < at ==> #[trigger] bytes[i] != 10,
    ensures
        line_break(bytes, from) == Some(at),
    decreases at - from,
{
    if from < at {
        assert(bytes[from] != 10);
        lemma_first_break(bytes, from + 1, at);
    }
}

/// No byte is lost: the lines and what is held back are the bytes that came.
pub proof fn law_no_byte_is_lost(bytes: Seq<u8>)
    ensures
        lines(bytes).flatten() + rest(bytes) == bytes,
    decreases bytes.len(),
{
    lemma_line_break(bytes, 0);
    match line_break(bytes, 0) {
        Some(i) => {
            let after = bytes.skip(i + 1);
            law_no_byte_is_lost(after);
            let all = seq![bytes.take(i + 1)] + lines(after);
            assert(all.first() == bytes.take(i + 1));
            assert(all.drop_first() =~= lines(after));
            assert(all.flatten() == all.first() + all.drop_first().flatten());
            assert(bytes.take(i + 1) + after =~= bytes);
            assert(lines(bytes).flatten() + rest(bytes) =~= bytes.take(i + 1) + (lines(after).flatten()
                + rest(after)));
        },
        None => {
            assert(lines(bytes).flatten() + rest(bytes) =~= bytes);
        },
    }
}

} // verus!
