//! Text as sequences of characters: searching, splitting, joining, trimming and numbers in decimal.

use vstd::prelude::*;
use vstd::utf8::{encode_scalar, encode_utf8};

verus! {

broadcast use vstd::string::group_string_axioms;

// ---------------------------------------------------------------------------------------------
// What is taken from the standard library.

/// Whether a character outside ASCII has the Unicode property `White_Space`.
pub uninterp spec fn is_white_outside_ascii(c: char) -> bool;

/// Whether a character outside ASCII is alphabetic or numeric in the sense of Unicode.
pub uninterp spec fn is_alnum_outside_ascii(c: char) -> bool;

/// The lowercase form of a text that is not all of ASCII.
pub uninterp spec fn lowercase_outside_ascii(s: Seq<char>) -> Seq<char>;

/// `String::push` appends the character.
pub assume_specification[ String::push ](s: &mut String, c: char)
    ensures
        final(s)@ == old(s)@.push(c),
;

/// `char::is_whitespace` is a function of the character. Of the ASCII characters it accepts the
/// space and the controls from tab to carriage return.
pub assume_specification[ char::is_whitespace ](c: char) -> (b: bool)
    ensures
        b == is_white(c),
        '\u{80}' <= c ==> b == is_white_outside_ascii(c),
;

/// `char::is_alphanumeric` is a function of the character. Of the ASCII characters it accepts the
/// letters and the digits.
pub assume_specification[ char::is_alphanumeric ](c: char) -> (b: bool)
    ensures
        b == is_alnum(c),
        '\u{80}' <= c ==> b == is_alnum_outside_ascii(c),
;

/// `char::len_utf8` is the number of bytes of the character in UTF-8.
pub assume_specification[ char::len_utf8 ](c: char) -> (n: usize)
    ensures
        n == byte_len(seq![c]),
;

/// `str::to_lowercase` is a function of the text. In a text of ASCII the letters go to lower case.
pub assume_specification[ str::to_lowercase ](s: &str) -> (r: String)
    ensures
        r@ == lowercase(s@),
        !is_all_ascii(s@) ==> r@ == lowercase_outside_ascii(s@),
;

/// `str::trim` drops the whitespace at both ends.
pub assume_specification[ str::trim ](s: &str) -> (r: &str)
    ensures
        r@ == trimmed(s@),
;

/// `str::eq_ignore_ascii_case` compares without regard to the case of ASCII letters.
pub assume_specification[ str::eq_ignore_ascii_case ](s: &str, other: &str) -> (b: bool)
    ensures
        b == (ascii_lowercase(s@) == ascii_lowercase(other@)),
;

/// Equality of `str` is equality of the characters.
#[verifier::external_body]
pub(crate) fn same(a: &str, b: &str) -> (r: bool)
    ensures
        r == (a@ == b@),
{
    a == b
}

/// `str::starts_with` with a text as the pattern.
#[verifier::external_body]
pub(crate) fn starts_with(s: &str, prefix: &str) -> (r: bool)
    ensures
        r == prefix@.is_prefix_of(s@),
{
    s.starts_with(prefix)
}

/// `str::ends_with` with a text as the pattern.
#[verifier::external_body]
pub(crate) fn ends_with(s: &str, suffix: &str) -> (r: bool)
    ensures
        r == suffix@.is_suffix_of(s@),
{
    s.ends_with(suffix)
}

/// `str::parse::<i64>` reads an optional sign and decimal digits, and refuses a number that does
/// not fit.
#[verifier::external_body]
pub(crate) fn parse_i64(s: &str) -> (r: Option<i64>)
    ensures
        r == i64_in(s@),
{
    s.parse::<i64>().ok()
}

/// `str::parse::<usize>` reads an optional plus sign and decimal digits, and refuses a number that
/// does not fit.
#[verifier::external_body]
pub(crate) fn parse_usize(s: &str) -> (r: Option<usize>)
    ensures
        r == usize_in(s@),
{
    s.parse::<usize>().ok()
}

// ---------------------------------------------------------------------------------------------
// The model.

/// Whether a character is an ASCII letter or digit.
pub open spec fn is_ascii_alphanumeric(c: char) -> bool {
    ||| '0' <= c && c <= '9'
    ||| 'a' <= c && c <= 'z'
    ||| 'A' <= c && c <= 'Z'
}

/// The character, in lower case if it is an ASCII letter.
pub open spec fn ascii_lower(c: char) -> char {
    if 'A' <= c && c <= 'Z' {
        (c as u32 + 32) as char
    } else {
        c
    }
}

/// The text with its ASCII letters in lower case.
pub open spec fn ascii_lowercase(s: Seq<char>) -> Seq<char> {
    s.map_values(|c: char| ascii_lower(c))
}

/// Whether a text is all of ASCII.
pub open spec fn is_all_ascii(s: Seq<char>) -> bool {
    forall|i: int| 0 <= i < s.len() ==> #[trigger] s[i] < '\u{80}'
}

/// The lowercase form of a text.
pub open spec fn lowercase(s: Seq<char>) -> Seq<char> {
    if is_all_ascii(s) {
        ascii_lowercase(s)
    } else {
        lowercase_outside_ascii(s)
    }
}

/// Whether a character is whitespace.
pub open spec fn is_white(c: char) -> bool {
    if '\u{80}' <= c {
        is_white_outside_ascii(c)
    } else {
        c == ' ' || ('\u{9}' <= c && c <= '\u{d}')
    }
}

/// Whether a character is a letter or a digit.
pub open spec fn is_alnum(c: char) -> bool {
    if '\u{80}' <= c {
        is_alnum_outside_ascii(c)
    } else {
        is_ascii_alphanumeric(c)
    }
}

/// The text without the whitespace at its start.
pub open spec fn trimmed_start(s: Seq<char>) -> Seq<char>
    decreases s.len(),
{
    if s.len() > 0 && is_white(s[0]) {
        trimmed_start(s.drop_first())
    } else {
        s
    }
}

/// The text without the whitespace at its end.
pub open spec fn trimmed_end(s: Seq<char>) -> Seq<char>
    decreases s.len(),
{
    if s.len() > 0 && is_white(s.last()) {
        trimmed_end(s.drop_last())
    } else {
        s
    }
}

/// The text without the whitespace at both ends.
pub open spec fn trimmed(s: Seq<char>) -> Seq<char> {
    trimmed_end(trimmed_start(s))
}

/// The number of bytes of the text in UTF-8.
pub open spec fn byte_len(s: Seq<char>) -> nat {
    encode_utf8(s).len()
}

/// The views of a sequence of strings.
pub open spec fn texts(v: Seq<String>) -> Seq<Seq<char>> {
    v.map_values(|s: String| s@)
}

/// The view of an optional string.
pub open spec fn opt_text(s: Option<String>) -> Option<Seq<char>> {
    match s {
        Some(s) => Some(s@),
        None => None,
    }
}

/// The text without its last `n` bytes, if these are whole characters.
pub open spec fn cut(s: Seq<char>, n: nat) -> Option<Seq<char>>
    decreases s.len(),
{
    if n == 0 {
        Some(s)
    } else if s.len() == 0 || byte_len(seq![s.last()]) > n {
        None
    } else {
        cut(s.drop_last(), (n - byte_len(seq![s.last()])) as nat)
    }
}

/// How many characters the first `n` bytes of the text are, if they are whole characters.
pub open spec fn at_byte(s: Seq<char>, n: nat) -> Option<int>
    decreases s.len(),
{
    if n == 0 {
        Some(0)
    } else if s.len() == 0 || byte_len(seq![s[0]]) > n {
        None
    } else {
        match at_byte(s.drop_first(), (n - byte_len(seq![s[0]])) as nat) {
            Some(i) => Some(i + 1),
            None => None,
        }
    }
}

/// The text from one byte to another, if these are between whole characters and in order.
pub open spec fn byte_slice(s: Seq<char>, from: nat, to: nat) -> Option<Seq<char>> {
    match (at_byte(s, from), at_byte(s, to)) {
        (Some(a), Some(b)) => if from <= to {
            Some(s.subrange(a, b))
        } else {
            None
        },
        _ => None,
    }
}

/// Whether `pat` stands in `s` at `i`.
pub open spec fn occurs_at(s: Seq<char>, pat: Seq<char>, i: int) -> bool {
    &&& 0 <= i
    &&& i + pat.len() <= s.len()
    &&& s.subrange(i, i + pat.len()) == pat
}

/// Whether `pat` stands somewhere in `s`.
pub open spec fn contains(s: Seq<char>, pat: Seq<char>) -> bool {
    exists|i: int| #[trigger] occurs_at(s, pat, i)
}

/// The first place from `from` on at which `pat` stands in `s`.
pub open spec fn find_from(s: Seq<char>, pat: Seq<char>, from: int) -> Option<int>
    decreases s.len() + 1 - from,
{
    if from < 0 || from + pat.len() > s.len() {
        None
    } else if occurs_at(s, pat, from) {
        Some(from)
    } else {
        find_from(s, pat, from + 1)
    }
}

/// The pieces of `s` between the occurrences of the character `sep`.
pub open spec fn split(s: Seq<char>, sep: char) -> Seq<Seq<char>>
    decreases s.len(),
{
    if s.len() == 0 {
        seq![Seq::empty()]
    } else {
        let before = split(s.drop_last(), sep);
        if s.last() == sep {
            before.push(Seq::empty())
        } else {
            before.drop_last().push(before.last().push(s.last()))
        }
    }
}

/// The text without a carriage return at its end.
pub open spec fn without_return(s: Seq<char>) -> Seq<char> {
    if s.len() > 0 && s.last() == '\r' {
        s.drop_last()
    } else {
        s
    }
}

/// The lines of a text. A line ends with a newline, or with a carriage return and a newline, neither
/// of which belongs to it. What is behind the last newline is a line too, unless it is empty.
pub open spec fn lines(s: Seq<char>) -> Seq<Seq<char>> {
    let pieces = split(s, '\n');
    let ended = pieces.drop_last().map_values(|piece: Seq<char>| without_return(piece));
    if pieces.last().len() == 0 {
        ended
    } else {
        ended.push(pieces.last())
    }
}

/// The pieces one after the other with `sep` between them.
pub open spec fn join(parts: Seq<Seq<char>>, sep: Seq<char>) -> Seq<char>
    decreases parts.len(),
{
    if parts.len() == 0 {
        Seq::empty()
    } else if parts.len() == 1 {
        parts[0]
    } else {
        join(parts.drop_last(), sep) + sep + parts.last()
    }
}

/// Whether the first text comes before the second in the order of their characters.
pub open spec fn before(a: Seq<char>, b: Seq<char>) -> bool
    decreases a.len(),
{
    if b.len() == 0 {
        false
    } else if a.len() == 0 {
        true
    } else if a[0] == b[0] {
        before(a.drop_first(), b.drop_first())
    } else {
        a[0] < b[0]
    }
}

/// The character of a decimal digit.
pub open spec fn digit(d: int) -> char {
    (48 + d) as char
}

/// A number in decimal.
pub open spec fn decimal(n: nat) -> Seq<char>
    decreases n,
{
    if n < 10 {
        seq![digit(n as int)]
    } else {
        decimal(n / 10).push(digit((n % 10) as int))
    }
}

/// Whether the text is one or more decimal digits.
pub open spec fn is_digits(s: Seq<char>) -> bool {
    s.len() > 0 && forall|i: int| 0 <= i < s.len() ==> '0' <= #[trigger] s[i] && s[i] <= '9'
}

/// The number that decimal digits stand for.
pub open spec fn digits_value(s: Seq<char>) -> nat
    decreases s.len(),
{
    if s.len() == 0 {
        0
    } else {
        digits_value(s.drop_last()) * 10 + (s.last() as nat - 48) as nat
    }
}

/// The natural number that the text stands for, with or without a plus sign.
pub open spec fn natural_in(s: Seq<char>) -> Option<nat> {
    if is_digits(s) {
        Some(digits_value(s))
    } else if s.len() > 0 && s[0] == '+' && is_digits(s.drop_first()) {
        Some(digits_value(s.drop_first()))
    } else {
        None
    }
}

/// The `usize` that the text stands for.
pub open spec fn usize_in(s: Seq<char>) -> Option<usize> {
    match natural_in(s) {
        Some(n) => if n <= usize::MAX {
            Some(n as usize)
        } else {
            None
        },
        None => None,
    }
}

/// The `i64` that the text stands for.
pub open spec fn i64_in(s: Seq<char>) -> Option<i64> {
    if s.len() > 0 && s[0] == '-' && is_digits(s.drop_first()) {
        let n = -(digits_value(s.drop_first()) as int);
        if i64::MIN <= n {
            Some(n as i64)
        } else {
            None
        }
    } else {
        match natural_in(s) {
            Some(n) => if n <= i64::MAX {
                Some(n as i64)
            } else {
                None
            },
            None => None,
        }
    }
}

// ---------------------------------------------------------------------------------------------
// Operations.

/// The characters of a text.
pub fn chars_of(s: &str) -> (r: Vec<char>)
    ensures
        r@ == s@,
{
    let mut r: Vec<char> = Vec::new();
    for c in it: s.chars()
        invariant
            it.seq() == s@,
            r@ == s@.take(it.index() as int),
    {
        r.push(c);
        assert(s@.take(it.index() + 1) == s@.take(it.index() as int).push(c));
    }
    assert(s@.take(s@.len() as int) == s@);
    r
}

/// The text of the characters from `from` to `to`.
pub fn string_of(chars: &Vec<char>, from: usize, to: usize) -> (r: String)
    requires
        from <= to <= chars@.len(),
    ensures
        r@ == chars@.subrange(from as int, to as int),
{
    let mut r = String::new();
    let mut i: usize = from;
    while i < to
        invariant
            from <= i <= to <= chars@.len(),
            r@ == chars@.subrange(from as int, i as int),
        decreases to - i,
    {
        r.push(chars[i]);
        i = i + 1;
        assert(chars@.subrange(from as int, i as int) == chars@.subrange(
            from as int,
            i - 1,
        ).push(chars@[i - 1]));
    }
    r
}

/// Two texts one after the other.
pub fn concat(a: &str, b: &str) -> (r: String)
    ensures
        r@ == a@ + b@,
{
    let mut r = a.to_owned();
    r.append(b);
    r
}

/// The text behind a prefix, if it begins with it.
pub fn strip_prefix(s: &str, prefix: &str) -> (r: Option<String>)
    ensures
        match r {
            Some(rest) => s@ == prefix@ + rest@,
            None => !prefix@.is_prefix_of(s@),
        },
{
    if !starts_with(s, prefix) {
        return None;
    }
    let chars = chars_of(s);
    let start = chars_of(prefix);
    let rest = string_of(&chars, start.len(), chars.len());
    assert(s@ =~= prefix@ + rest@);
    Some(rest)
}

/// The text without its last `n` bytes, if these are whole characters.
pub fn cut_off(s: &str, n: usize) -> (r: Option<String>)
    ensures
        r.deep_view() == cut(s@, n as nat),
{
    let chars = chars_of(s);
    let mut end: usize = chars.len();
    let mut left: usize = n;
    assert(chars@.take(end as int) =~= s@);
    while left > 0
        invariant
            end <= chars@.len(),
            cut(s@, n as nat) == cut(chars@.take(end as int), left as nat),
        decreases end,
    {
        if end == 0 {
            return None;
        }
        let last = string_of(&chars, end - 1, end);
        assert(last@ =~= seq![chars@.take(end as int).last()]);
        let width: usize = last.as_str().as_bytes().len();
        if width > left {
            return None;
        }
        assert(chars@.take(end as int).drop_last() =~= chars@.take(end - 1));
        end = end - 1;
        left = left - width;
    }
    let r = string_of(&chars, 0, end);
    assert(r@ =~= chars@.take(end as int));
    Some(r)
}

/// How many characters the first `n` bytes of the text are, if they are whole characters.
pub fn char_count(s: &Vec<char>, n: usize) -> (r: Option<usize>)
    ensures
        match r {
            Some(i) => at_byte(s@, n as nat) == Some(i as int) && i <= s@.len(),
            None => at_byte(s@, n as nat) is None,
        },
{
    let mut i: usize = 0;
    let mut left: usize = n;
    assert(s@.skip(0) =~= s@);
    while left > 0
        invariant
            i <= s@.len(),
            at_byte(s@, n as nat) == (match at_byte(s@.skip(i as int), left as nat) {
                Some(k) => Some(k + i),
                None => None,
            }),
        decreases s.len() - i,
    {
        if i == s.len() {
            return None;
        }
        assert(s@.skip(i as int)[0] == s@[i as int]);
        let width: usize = s[i].len_utf8();
        if width > left {
            return None;
        }
        assert(s@.skip(i as int).drop_first() =~= s@.skip(i + 1));
        i = i + 1;
        left = left - width;
    }
    Some(i)
}

/// The text from one byte to another, if these are between whole characters and in order.
pub fn slice(s: &str, from: usize, to: usize) -> (r: Option<String>)
    ensures
        r.deep_view() == byte_slice(s@, from as nat, to as nat),
{
    let chars = chars_of(s);
    match (char_count(&chars, from), char_count(&chars, to)) {
        (Some(a), Some(b)) => if from <= to {
            proof {
                lemma_at_byte_ordered(s@, from as nat, to as nat);
            }
            Some(string_of(&chars, a, b))
        } else {
            None
        },
        _ => None,
    }
}

/// The number of bytes of the text.
pub fn size(s: &str) -> (r: usize)
    ensures
        r == byte_len(s@),
{
    s.as_bytes().len()
}

/// Whether the pattern stands at `at`.
pub fn matches_at(s: &Vec<char>, pat: &Vec<char>, at: usize) -> (r: bool)
    ensures
        r == occurs_at(s@, pat@, at as int),
{
    if pat.len() > s.len() || at > s.len() - pat.len() {
        return false;
    }
    let n: usize = s.len();
    let mut i: usize = 0;
    while i < pat.len()
        invariant
            n == s@.len(),
            at + pat@.len() <= n,
            i <= pat@.len(),
            forall|k: int| 0 <= k < i ==> s@[at + k] == #[trigger] pat@[k],
        decreases pat.len() - i,
    {
        if s[at + i] != pat[i] {
            assert(s@.subrange(at as int, at + pat@.len())[i as int] != pat@[i as int]);
            return false;
        }
        i = i + 1;
    }
    assert(s@.subrange(at as int, at + pat@.len()) =~= pat@);
    true
}

/// The first place from `from` on at which the pattern stands.
pub fn find(s: &Vec<char>, pat: &Vec<char>, from: usize) -> (r: Option<usize>)
    ensures
        match r {
            Some(i) => find_from(s@, pat@, from as int) == Some(i as int) && i + pat@.len() <= s@.len(),
            None => find_from(s@, pat@, from as int) is None,
        },
{
    let mut i: usize = from;
    while i <= s.len() && pat.len() <= s.len() - i
        invariant
            find_from(s@, pat@, from as int) == find_from(s@, pat@, i as int),
            i <= s@.len() + 1 || i == from,
        decreases s.len() + 1 - i,
    {
        if matches_at(s, pat, i) {
            return Some(i);
        }
        if i == s.len() {
            assert(find_from(s@, pat@, i + 1) is None);
            return None;
        }
        i = i + 1;
    }
    None
}

/// Whether the pattern stands somewhere in the text.
pub fn contains_text(s: &str, pat: &str) -> (r: bool)
    ensures
        r == contains(s@, pat@),
{
    let chars = chars_of(s);
    let pattern = chars_of(pat);
    let r = find(&chars, &pattern, 0);
    proof {
        lemma_find_contains(s@, pat@, 0);
    }
    r.is_some()
}

/// The pieces of the text between the occurrences of a character.
pub fn split_on(s: &str, sep: char) -> (r: Vec<String>)
    ensures
        texts(r@) == split(s@, sep),
        r@.len() > 0,
{
    let chars = chars_of(s);
    let mut r: Vec<String> = Vec::new();
    let mut piece = String::new();
    let mut i: usize = 0;
    assert(chars@.take(0) =~= Seq::<char>::empty());
    assert(texts(r@).push(piece@) =~= split(chars@.take(0), sep));
    while i < chars.len()
        invariant
            i <= chars@.len(),
            texts(r@).push(piece@) == split(chars@.take(i as int), sep),
        decreases chars.len() - i,
    {
        let c = chars[i];
        let ghost before = texts(r@).push(piece@);
        assert(chars@.take(i + 1).drop_last() =~= chars@.take(i as int));
        if c == sep {
            let ghost pieces = r@;
            r.push(piece);
            assert(texts(r@) =~= before);
            piece = String::new();
        } else {
            piece.push(c);
            assert(before.drop_last() =~= texts(r@));
        }
        i = i + 1;
    }
    assert(chars@.take(chars@.len() as int) =~= chars@);
    let ghost before = texts(r@).push(piece@);
    r.push(piece);
    assert(texts(r@) =~= before);
    r
}

/// The lines of the text.
pub fn split_lines(s: &str) -> (r: Vec<String>)
    ensures
        texts(r@) == lines(s@),
{
    let pieces = split_on(s, '\n');
    let ghost all = texts(pieces@);
    let ghost ended = all.drop_last().map_values(|piece: Seq<char>| without_return(piece));
    let count: usize = pieces.len();
    let mut r: Vec<String> = Vec::new();
    let mut i: usize = 0;
    assert(texts(r@) =~= ended.take(0));
    while i < count - 1
        invariant
            count == pieces@.len(),
            i < count,
            all == texts(pieces@),
            ended == all.drop_last().map_values(|piece: Seq<char>| without_return(piece)),
            texts(r@) == ended.take(i as int),
        decreases count - i,
    {
        let chars = chars_of(pieces[i].as_str());
        let n: usize = chars.len();
        let line = if n > 0 && chars[n - 1] == '\r' {
            string_of(&chars, 0, n - 1)
        } else {
            string_of(&chars, 0, n)
        };
        assert(line@ =~= without_return(all[i as int]));
        let ghost earlier = texts(r@);
        let ghost said = line@;
        r.push(line);
        assert(texts(r@) =~= earlier.push(said));
        assert(ended.take(i + 1) =~= earlier.push(ended[i as int]));
        i = i + 1;
    }
    assert(ended.take(ended.len() as int) =~= ended);
    let last = chars_of(pieces[count - 1].as_str());
    if last.len() > 0 {
        let ghost earlier = texts(r@);
        let line = string_of(&last, 0, last.len());
        assert(line@ =~= all.last());
        r.push(line);
        assert(texts(r@) =~= earlier.push(all.last()));
    }
    r
}

/// The texts one after the other with `sep` between them.
pub fn join_with(parts: &Vec<String>, sep: &str) -> (r: String)
    ensures
        r@ == join(texts(parts@), sep@),
{
    let mut r = String::new();
    let mut i: usize = 0;
    let ghost all = texts(parts@);
    while i < parts.len()
        invariant
            i <= parts@.len(),
            all == texts(parts@),
            r@ == join(all.take(i as int), sep@),
        decreases parts.len() - i,
    {
        assert(all.take(i + 1).drop_last() =~= all.take(i as int));
        assert(all.take(i + 1).last() == parts@[i as int]@);
        if i > 0 {
            r.append(sep);
        }
        r.append(parts[i].as_str());
        if i == 0 {
            assert(r@ =~= parts@[0]@);
        }
        i = i + 1;
    }
    assert(all.take(all.len() as int) =~= all);
    r
}

/// The number in decimal.
pub fn decimal_of(n: u64) -> (r: String)
    ensures
        r@ == decimal(n as nat),
    decreases n,
{
    let d = (48 + (n % 10) as u8) as char;
    let mut r = if n < 10 {
        String::new()
    } else {
        decimal_of(n / 10)
    };
    r.push(d);
    if n < 10 {
        assert(r@ =~= decimal(n as nat));
    }
    r
}

// ---------------------------------------------------------------------------------------------
// Facts.

/// What is found lies in the text, at the place where the search began or after it.
pub proof fn lemma_find_bounds(s: Seq<char>, pat: Seq<char>, from: int)
    ensures
        find_from(s, pat, from) matches Some(i) ==> {
            &&& from <= i
            &&& i + pat.len() <= s.len()
            &&& occurs_at(s, pat, i)
        },
    decreases s.len() + 1 - from,
{
    if 0 <= from && from + pat.len() <= s.len() && !occurs_at(s, pat, from) {
        lemma_find_bounds(s, pat, from + 1);
    }
}

/// An ASCII character is one byte.
pub proof fn lemma_ascii_byte(c: char)
    requires
        c as u32 <= 127,
    ensures
        byte_len(seq![c]) == 1,
{
    reveal_with_fuel(encode_utf8, 2);
    assert(seq![c].drop_first() =~= Seq::<char>::empty());
}

/// From its first byte to its last, a text is all of itself.
pub proof fn lemma_byte_slice_whole(s: Seq<char>)
    ensures
        byte_slice(s, 0, byte_len(s)) == Some(s),
{
    lemma_at_byte_end(s);
    assert(s.subrange(0, s.len() as int) =~= s);
}

/// All bytes of a text are all of its characters.
proof fn lemma_at_byte_end(s: Seq<char>)
    ensures
        at_byte(s, byte_len(s)) == Some(s.len() as int),
        s.len() > 0 ==> byte_len(s) > 0,
    decreases s.len(),
{
    if s.len() > 0 {
        lemma_at_byte_end(s.drop_first());
        reveal_with_fuel(encode_utf8, 2);
        assert(seq![s[0]].drop_first() =~= Seq::<char>::empty());
        assert(byte_len(seq![s[0]]) == encode_scalar(s[0] as u32).len());
    }
}

/// No text comes before itself.
pub proof fn lemma_before_irreflexive(a: Seq<char>)
    ensures
        !before(a, a),
    decreases a.len(),
{
    if a.len() > 0 {
        lemma_before_irreflexive(a.drop_first());
    }
}

/// The order of texts is transitive.
pub proof fn lemma_before_transitive(a: Seq<char>, b: Seq<char>, c: Seq<char>)
    requires
        before(a, b),
        before(b, c),
    ensures
        before(a, c),
    decreases a.len(),
{
    if a.len() > 0 && a[0] == b[0] && b[0] == c[0] {
        lemma_before_transitive(a.drop_first(), b.drop_first(), c.drop_first());
    }
}

/// Of two texts one at most comes before the other.
pub proof fn lemma_before_asymmetric(a: Seq<char>, b: Seq<char>)
    requires
        before(a, b),
    ensures
        !before(b, a),
{
    if before(b, a) {
        lemma_before_transitive(a, b, a);
        lemma_before_irreflexive(a);
    }
}

/// Of two different texts one comes before the other.
pub proof fn lemma_before_total(a: Seq<char>, b: Seq<char>)
    requires
        a != b,
    ensures
        before(a, b) || before(b, a),
    decreases a.len(),
{
    if a.len() > 0 && b.len() > 0 && a[0] == b[0] {
        assert(a =~= seq![a[0]] + a.drop_first());
        assert(b =~= seq![b[0]] + b.drop_first());
        lemma_before_total(a.drop_first(), b.drop_first());
    } else if a.len() == 0 && b.len() == 0 {
        assert(a =~= b);
    }
}

/// Not to come before another text is transitive too.
pub proof fn lemma_not_before_transitive(a: Seq<char>, b: Seq<char>, c: Seq<char>)
    requires
        !before(a, b),
        !before(b, c),
    ensures
        !before(a, c),
    decreases a.len(),
{
    if a.len() > 0 && b.len() > 0 && c.len() > 0 && a[0] == b[0] && b[0] == c[0] {
        lemma_not_before_transitive(a.drop_first(), b.drop_first(), c.drop_first());
    }
}

/// More bytes are not fewer characters.
pub proof fn lemma_at_byte_ordered(s: Seq<char>, a: nat, b: nat)
    requires
        a <= b,
        at_byte(s, a) is Some,
        at_byte(s, b) is Some,
    ensures
        0 <= at_byte(s, a)->0 <= at_byte(s, b)->0 <= s.len(),
    decreases s.len(),
{
    if b > 0 {
        let w = byte_len(seq![s[0]]);
        if a > 0 {
            lemma_at_byte_ordered(s.drop_first(), (a - w) as nat, (b - w) as nat);
        } else {
            lemma_at_byte_ordered(s.drop_first(), 0, (b - w) as nat);
        }
    }
}

/// A text without the separator is one piece.
pub proof fn lemma_split_whole(s: Seq<char>, sep: char)
    requires
        !s.contains(sep),
    ensures
        split(s, sep) == seq![s],
    decreases s.len(),
{
    if s.len() > 0 {
        assert(s.contains(s.last()));
        assert forall|c: char| s.drop_last().contains(c) implies s.contains(c) by {
            let i = choose|i: int| 0 <= i < s.drop_last().len() && s.drop_last()[i] == c;
            assert(s[i] == c);
        }
        lemma_split_whole(s.drop_last(), sep);
        assert(s.drop_last().push(s.last()) =~= s);
        assert(seq![s.drop_last()].drop_last().push(s) =~= seq![s]);
    } else {
        assert(s =~= Seq::<char>::empty());
    }
}

/// The first place at which the pattern stands is what is found.
pub proof fn lemma_found(s: Seq<char>, pat: Seq<char>, from: int, at: int)
    requires
        0 <= from <= at,
        occurs_at(s, pat, at),
        forall|k: int| from <= k < at ==> !#[trigger] occurs_at(s, pat, k),
    ensures
        find_from(s, pat, from) == Some(at),
    decreases at - from,
{
    if from < at {
        assert(!occurs_at(s, pat, from));
        lemma_found(s, pat, from + 1, at);
    }
}

/// The first place at which a character stands is what is found.
pub proof fn lemma_char_found(s: Seq<char>, c: char, from: int, at: int)
    requires
        0 <= from <= at < s.len(),
        s[at] == c,
        forall|k: int| from <= k < at ==> #[trigger] s[k] != c,
    ensures
        find_from(s, seq![c], from) == Some(at),
{
    assert(s.subrange(at, at + 1) =~= seq![c]);
    assert forall|k: int| from <= k < at implies !#[trigger] occurs_at(s, seq![c], k) by {
        if occurs_at(s, seq![c], k) {
            assert(s.subrange(k, k + 1)[0] == s[k]);
        }
    }
    lemma_found(s, seq![c], from, at);
}

pub proof fn lemma_find_contains(s: Seq<char>, pat: Seq<char>, from: int)
    requires
        0 <= from,
    ensures
        find_from(s, pat, from) is Some <==> exists|i: int| from <= i && #[trigger] occurs_at(s, pat, i),
        find_from(s, pat, from) matches Some(i) ==> occurs_at(s, pat, i) && from <= i,
    decreases s.len() + 1 - from,
{
    if from + pat.len() <= s.len() && !occurs_at(s, pat, from) {
        lemma_find_contains(s, pat, from + 1);
        if exists|i: int| from <= i && #[trigger] occurs_at(s, pat, i) {
            let i = choose|i: int| from <= i && #[trigger] occurs_at(s, pat, i);
            assert(from + 1 <= i);
        }
    }
}

/// Two lists of pieces, joined one after the other.
pub proof fn lemma_join_sum(a: Seq<Seq<char>>, b: Seq<Seq<char>>, sep: Seq<char>)
    requires
        a.len() > 0,
        b.len() > 0,
    ensures
        join(a + b, sep) == join(a, sep) + sep + join(b, sep),
    decreases b.len(),
{
    if b.len() == 1 {
        assert((a + b).drop_last() =~= a);
        assert((a + b).last() == b[0]);
    } else {
        assert((a + b).drop_last() =~= a + b.drop_last());
        lemma_join_sum(a, b.drop_last(), sep);
        assert(join(a, sep) + sep + join(b.drop_last(), sep) + sep + b.last() =~= join(a, sep) + sep + (
        join(b.drop_last(), sep) + sep + b.last()));
    }
}

/// A text is split into at least one piece.
pub proof fn lemma_split_nonempty(s: Seq<char>, sep: char)
    ensures
        split(s, sep).len() > 0,
    decreases s.len(),
{
    if s.len() > 0 {
        lemma_split_nonempty(s.drop_last(), sep);
    }
}

/// What is split at a separator and joined with it is the text again.
pub proof fn law_join_undoes_split(s: Seq<char>, sep: char)
    ensures
        join(split(s, sep), seq![sep]) == s,
    decreases s.len(),
{
    if s.len() == 0 {
        assert(s =~= Seq::<char>::empty());
    } else {
        let before = split(s.drop_last(), sep);
        lemma_split_nonempty(s.drop_last(), sep);
        law_join_undoes_split(s.drop_last(), sep);
        assert(s.drop_last().push(s.last()) =~= s);
        if s.last() == sep {
            assert(split(s, sep).drop_last() =~= before);
            assert(join(split(s, sep), seq![sep]) =~= join(before, seq![sep]) + seq![sep]);
        } else {
            let after = before.drop_last().push(before.last().push(s.last()));
            assert(after.drop_last() =~= before.drop_last());
            if before.len() == 1 {
                assert(after[0] =~= before[0].push(s.last()));
            } else {
                assert(join(after, seq![sep]) =~= join(before, seq![sep]).push(s.last()));
            }
        }
    }
}

/// Splitting at a separator goes on from piece to piece.
pub proof fn lemma_split_sum(a: Seq<char>, b: Seq<char>, sep: char)
    ensures
        split(a + seq![sep] + b, sep) == split(a, sep) + split(b, sep),
    decreases b.len(),
{
    let whole = a + seq![sep] + b;
    if b.len() == 0 {
        assert(whole.drop_last() =~= a);
        assert(whole.last() == sep);
        assert(split(whole, sep) =~= split(a, sep) + split(b, sep));
    } else {
        let shorter = a + seq![sep] + b.drop_last();
        assert(whole.drop_last() =~= shorter);
        assert(whole.last() == b.last());
        lemma_split_sum(a, b.drop_last(), sep);
        lemma_split_nonempty(b.drop_last(), sep);
        let left = split(a, sep);
        let right = split(b.drop_last(), sep);
        assert((left + right).last() == right.last());
        assert((left + right).drop_last() =~= left + right.drop_last());
        assert(split(whole, sep) =~= left + split(b, sep));
    }
}

/// Pieces that do not hold the separator come back from being joined and split.
pub proof fn law_split_undoes_join(parts: Seq<Seq<char>>, sep: char)
    requires
        parts.len() > 0,
        forall|i: int| 0 <= i < parts.len() ==> !(#[trigger] parts[i]).contains(sep),
    ensures
        split(join(parts, seq![sep]), sep) == parts,
    decreases parts.len(),
{
    if parts.len() == 1 {
        lemma_split_whole(parts[0], sep);
        assert(seq![parts[0]] =~= parts);
    } else {
        let rest = parts.drop_last();
        assert forall|i: int| 0 <= i < rest.len() implies !(#[trigger] rest[i]).contains(sep) by {
            assert(rest[i] == parts[i]);
        }
        law_split_undoes_join(rest, sep);
        lemma_split_sum(join(rest, seq![sep]), parts.last(), sep);
        assert(!parts[parts.len() - 1].contains(sep));
        lemma_split_whole(parts.last(), sep);
        assert(rest + seq![parts.last()] =~= parts);
    }
}

/// A text without newlines stands in lines that are joined only where it stands in one of them.
pub proof fn lemma_contains_joined(parts: Seq<Seq<char>>, pat: Seq<char>)
    requires
        pat.len() > 0,
        !pat.contains('\n'),
        contains(join(parts, seq!['\n']), pat),
    ensures
        exists|k: int| 0 <= k < parts.len() && contains(#[trigger] parts[k], pat),
    decreases parts.len(),
{
    let whole = join(parts, seq!['\n']);
    let i = choose|i: int| #[trigger] occurs_at(whole, pat, i);
    assert(whole.subrange(i, i + pat.len()) == pat);
    if parts.len() == 0 {
    } else if parts.len() == 1 {
        assert(contains(parts[0], pat));
    } else {
        let head = join(parts.drop_last(), seq!['\n']);
        let last = parts.last();
        assert(whole =~= head + seq!['\n'] + last);
        let n = head.len() as int;
        assert(whole[n] == '\n');
        if i + pat.len() <= n {
            assert(head.subrange(i, i + pat.len()) =~= pat);
            assert(occurs_at(head, pat, i));
            lemma_contains_joined(parts.drop_last(), pat);
            let k = choose|k: int|
                0 <= k < parts.drop_last().len() && contains(#[trigger] parts.drop_last()[k], pat);
            assert(parts[k] == parts.drop_last()[k]);
        } else if i > n {
            let at = i - n - 1;
            assert(last.subrange(at, at + pat.len()) =~= pat);
            assert(occurs_at(last, pat, at));
            assert(contains(parts[parts.len() - 1], pat));
        } else {
            assert(pat[n - i] == whole.subrange(i, i + pat.len())[n - i]);
            assert(pat[n - i] == '\n');
        }
    }
}

/// A number is read back from its decimal form.
pub proof fn law_decimal_is_read_back(n: nat)
    ensures
        natural_in(decimal(n)) == Some(n),
{
    lemma_decimal(n);
}

/// The decimal form is made of digits, and stands for the number.
pub proof fn lemma_decimal(n: nat)
    ensures
        is_digits(decimal(n)),
        digits_value(decimal(n)) == n,
    decreases n,
{
    if n < 10 {
        let s = decimal(n);
        assert(s =~= seq![digit(n as int)]);
        assert(s.drop_last() =~= Seq::<char>::empty());
        assert(digits_value(s.drop_last()) == 0);
    } else {
        lemma_decimal(n / 10);
        let s = decimal(n);
        assert(s.drop_last() =~= decimal(n / 10));
    }
}

/// Whitespace behind a text does not count where the text is trimmed.
pub proof fn lemma_trimmed_with_line_end(s: Seq<char>)
    requires
        s.len() > 0,
        trimmed(s) == s,
    ensures
        trimmed(s + seq!['\r', '\n']) == s,
{
    lemma_trimmed_start_len(s);
    lemma_trimmed_end_len(trimmed_start(s));
    assert(!is_white(s[0])) by {
        if is_white(s[0]) {
            lemma_trimmed_start_len(s.drop_first());
        }
    }
    let t = s + seq!['\r', '\n'];
    assert(t[0] == s[0]);
    assert(trimmed_start(t) == t);
    assert(t.drop_last() =~= s + seq!['\r']);
    assert(t.drop_last().drop_last() =~= s);
    assert(trimmed_end(t) == trimmed_end(t.drop_last()));
    assert(trimmed_end(t.drop_last()) == trimmed_end(s));
}

proof fn lemma_trimmed_start_len(s: Seq<char>)
    ensures
        trimmed_start(s).len() <= s.len(),
    decreases s.len(),
{
    if s.len() > 0 && is_white(s[0]) {
        lemma_trimmed_start_len(s.drop_first());
    }
}

proof fn lemma_trimmed_end_len(s: Seq<char>)
    ensures
        trimmed_end(s).len() <= s.len(),
    decreases s.len(),
{
    if s.len() > 0 && is_white(s.last()) {
        lemma_trimmed_end_len(s.drop_last());
    }
}

/// A number in decimal: its digits, the highest first.
pub proof fn law_decimal_digits(n: nat, d: nat)
    requires
        d < 10,
    ensures
        decimal(d) == seq![(48 + d) as char],
        n > 0 ==> decimal(n * 10 + d) == decimal(n).push((48 + d) as char),
{
    if n > 0 {
        assert((n * 10 + d) / 10 == n);
        assert((n * 10 + d) % 10 == d);
    }
}

proof fn lemma_trimmed_start_cut(s: Seq<char>)
    ensures
        ({
            let t = trimmed_start(s);
            &&& t.is_suffix_of(s)
            &&& t.len() > 0 ==> !is_white(t[0])
            &&& forall|i: int| 0 <= i < s.len() - t.len() ==> is_white(#[trigger] s[i])
        }),
    decreases s.len(),
{
    if s.len() > 0 && is_white(s[0]) {
        lemma_trimmed_start_cut(s.drop_first());
        let t = trimmed_start(s);
        let r = s.drop_first();
        assert(t =~= s.subrange(s.len() - t.len(), s.len() as int)) by {
            assert(t =~= r.subrange(r.len() - t.len(), r.len() as int));
        }
        assert forall|i: int| 0 <= i < s.len() - t.len() implies is_white(#[trigger] s[i]) by {
            if i > 0 {
                assert(is_white(r[i - 1]));
            }
        }
    } else {
        assert(s.subrange(0, s.len() as int) =~= s);
    }
}

proof fn lemma_trimmed_end_cut(s: Seq<char>)
    ensures
        ({
            let t = trimmed_end(s);
            &&& t.is_prefix_of(s)
            &&& t.len() > 0 ==> !is_white(t.last())
            &&& forall|i: int| t.len() <= i < s.len() ==> is_white(#[trigger] s[i])
        }),
    decreases s.len(),
{
    if s.len() > 0 && is_white(s.last()) {
        lemma_trimmed_end_cut(s.drop_last());
        let t = trimmed_end(s);
        let r = s.drop_last();
        assert(t =~= s.subrange(0, t.len() as int)) by {
            assert(t =~= r.subrange(0, t.len() as int));
        }
        assert forall|i: int| t.len() <= i < s.len() implies is_white(#[trigger] s[i]) by {
            if i < s.len() - 1 {
                assert(is_white(r[i]));
            }
        }
    } else {
        assert(s.subrange(0, s.len() as int) =~= s);
    }
}

/// A trimmed text stands in the text between nothing but white space, and neither begins nor ends with
/// any.
pub proof fn law_trimming_takes_white_space_only(s: Seq<char>)
    ensures
        exists|from: int|
            #![trigger s.skip(from)]
            {
                &&& 0 <= from && from + trimmed(s).len() <= s.len()
                &&& trimmed(s) == s.skip(from).take(trimmed(s).len() as int)
                &&& forall|i: int| 0 <= i < from ==> is_white(#[trigger] s[i])
                &&& forall|i: int| from + trimmed(s).len() <= i < s.len() ==> is_white(#[trigger] s[i])
            },
        trimmed(s).len() > 0 ==> !is_white(trimmed(s)[0]) && !is_white(trimmed(s).last()),
{
    let a = trimmed_start(s);
    let t = trimmed(s);
    lemma_trimmed_start_cut(s);
    lemma_trimmed_end_cut(a);
    let from = s.len() - a.len();
    assert(a =~= s.subrange(from, s.len() as int));
    assert(t =~= a.subrange(0, t.len() as int));
    assert(s.skip(from).take(t.len() as int) =~= t);
    assert forall|i: int| from + t.len() <= i < s.len() implies is_white(#[trigger] s[i]) by {
        assert(is_white(a[i - from]));
    }
    if t.len() > 0 {
        assert(t[0] == a[0]);
    }
}

/// What is found is the first place at which the pattern stands, and where nothing is found it stands
/// nowhere.
pub proof fn law_first_place_is_found(s: Seq<char>, pat: Seq<char>, from: int)
    requires
        0 <= from,
    ensures
        find_from(s, pat, from) matches Some(i) ==> occurs_at(s, pat, i) && from <= i && forall|k: int|
            from <= k < i ==> !#[trigger] occurs_at(s, pat, k),
        find_from(s, pat, from) is None ==> forall|k: int| from <= k ==> !#[trigger] occurs_at(s, pat, k),
    decreases s.len() + 1 - from,
{
    if from + pat.len() <= s.len() && !occurs_at(s, pat, from) {
        law_first_place_is_found(s, pat, from + 1);
    }
}

/// Lines end with a newline, or with a carriage return and a newline, and come back without these. A
/// last line without a newline counts.
pub proof fn law_lines_come_back(line: Seq<char>)
    requires
        !line.contains('\n'),
        line.len() > 0,
        line.last() != '\r',
    ensures
        lines(Seq::empty()).len() == 0,
        lines(line) == seq![line],
        lines(line + seq!['\n']) == seq![line],
        lines(line + seq!['\r', '\n']) == seq![line],
{
    let empty = Seq::<char>::empty();
    let back = line + seq!['\r'];
    lemma_split_whole(line, '\n');
    lemma_split_whole(empty, '\n');
    assert(!back.contains('\n')) by {
        if back.contains('\n') {
            let i = choose|i: int| 0 <= i < back.len() && back[i] == '\n';
            assert(line[i] == '\n');
        }
    }
    lemma_split_whole(back, '\n');
    lemma_split_sum(line, empty, '\n');
    lemma_split_sum(back, empty, '\n');
    assert(line + seq!['\n'] + empty =~= line + seq!['\n']);
    assert(back + seq!['\n'] + empty =~= line + seq!['\r', '\n']);
    assert(back.drop_last() =~= line);
    let one = seq![line] + seq![empty];
    let other = seq![back] + seq![empty];
    assert(lines(line) =~= seq![line]);
    assert(lines(empty) =~= Seq::<Seq<char>>::empty());
    assert(lines(line + seq!['\n']) =~= seq![line]);
    assert(lines(line + seq!['\r', '\n']) =~= seq![line]);
}

/// The order of texts is that of the first characters in which they differ, and a text comes before its
/// longer forms.
pub proof fn law_texts_are_in_order(start: Seq<char>, a: char, b: char, x: Seq<char>, y: Seq<char>)
    requires
        a < b,
    ensures
        before(start + seq![a] + x, start + seq![b] + y),
        !before(start + seq![b] + y, start + seq![a] + x),
        before(start, start + seq![a] + x),
        !before(start, start),
    decreases start.len(),
{
    let one = start + seq![a] + x;
    let other = start + seq![b] + y;
    if start.len() > 0 {
        let rest = start.drop_first();
        law_texts_are_in_order(rest, a, b, x, y);
        assert(one.drop_first() =~= rest + seq![a] + x);
        assert(other.drop_first() =~= rest + seq![b] + y);
        assert(one[0] == start[0] && other[0] == start[0]);
    } else {
        assert(one[0] == a && other[0] == b);
    }
}

} // verus!
