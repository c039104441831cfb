//! Messages on the wire: how they are written and read, and the numbers of the requests made here.

use vstd::prelude::*;
use vstd::utf8::encode_utf8;
use crate::codeassist::jsonrpc::{
    is_plain, law_sent_message_is_written, message_in, JsonRpcMessage, JsonRpcMessageModel,
    JsonRpcRequestModel,
};
use crate::codeassist::lsp::{
    Header, HeaderModel, LspMessage, LspMessageModel, CONTENT_LENGTH_HEADER,
};
use crate::json::{is_null, parse_bytes, parsed_bytes, text_value, Json};
use crate::text::{
    byte_len, chars_of, concat, decimal, decimal_of, find, find_from, is_white, law_decimal_is_read_back,
    lemma_decimal, lemma_find_contains, lemma_found, lemma_trimmed_with_line_end, natural_in, occurs_at,
    parse_usize, same, size, string_of, trimmed, trimmed_end, trimmed_start, usize_in,
};

verus! {

/// What the number of a request begins with that is made here.
pub const OUR_REQ_ID_PREFIX: &'static str = "llmvm/";

// ---------------------------------------------------------------------------------------------
// Writing.

/// A header on the wire.
pub open spec fn header_line(key: Seq<char>, value: Seq<char>) -> Seq<char> {
    key + ": "@ + value + "\r\n"@
}

/// The headers without the one that tells the length, which is always written anew.
pub open spec fn kept_headers(headers: Seq<HeaderModel>) -> Seq<HeaderModel> {
    headers.filter(|h: HeaderModel| h.key != CONTENT_LENGTH_HEADER@)
}

/// The header that tells the length of a message.
pub open spec fn length_header(message: LspMessageModel) -> HeaderModel {
    HeaderModel { key: CONTENT_LENGTH_HEADER@, value: decimal(byte_len(message.payload.text())) }
}

/// The headers that are written for a message.
pub open spec fn written_headers(message: LspMessageModel) -> Seq<HeaderModel> {
    kept_headers(message.headers).push(length_header(message))
}

/// The lines before the text of a message: its headers, and an empty line.
pub open spec fn head_lines(message: LspMessageModel) -> Seq<Seq<char>> {
    written_headers(message).map_values(|h: HeaderModel| header_line(h.key, h.value)).push("\r\n"@)
}

/// The texts one after the other.
pub open spec fn flat(parts: Seq<Seq<char>>) -> Seq<char>
    decreases parts.len(),
{
    if parts.len() == 0 {
        Seq::empty()
    } else {
        flat(parts.drop_last()) + parts.last()
    }
}

/// A message on the wire.
pub open spec fn frame(message: LspMessageModel) -> Seq<char> {
    flat(head_lines(message)) + message.payload.text()
}

fn write_header(key: &str, value: &str) -> (r: String)
    ensures
        r@ == header_line(key@, value@),
{
    let mut r = key.to_owned();
    r.append(": ");
    r.append(value);
    r.append("\r\n");
    r
}

/// A message on the wire.
pub fn write_message(message: &LspMessage) -> (r: String)
    ensures
        r@ == frame(message.deep_view()),
{
    let ghost said = message.deep_view();
    let ghost kept = |h: HeaderModel| h.key != CONTENT_LENGTH_HEADER@;
    let ghost line = |h: HeaderModel| header_line(h.key, h.value);
    let text = message.payload.to_text();
    let mut r = String::new();
    let mut i: usize = 0;
    assert(said.headers.take(0) =~= Seq::<HeaderModel>::empty());
    assert(r@ =~= flat(said.headers.take(0).filter(kept).map_values(line))) by {
        reveal(Seq::filter);
    }
    while i < message.headers.len()
        invariant
            i <= message.headers@.len(),
            said == message.deep_view(),
            kept == (|h: HeaderModel| h.key != CONTENT_LENGTH_HEADER@),
            line == (|h: HeaderModel| header_line(h.key, h.value)),
            r@ == flat(said.headers.take(i as int).filter(kept).map_values(line)),
        decreases message.headers.len() - i,
    {
        assert(said.headers.take(i + 1).drop_last() =~= said.headers.take(i as int));
        assert(said.headers.take(i + 1).last() == message.headers@[i as int].deep_view());
        let header = &message.headers[i];
        let ghost earlier = said.headers.take(i as int).filter(kept);
        if !same(header.key.as_str(), CONTENT_LENGTH_HEADER) {
            r.append(write_header(header.key.as_str(), header.value.as_str()).as_str());
            let ghost all = earlier.push(header.deep_view()).map_values(line);
            assert(all.drop_last() =~= earlier.map_values(line));
            assert(all.last() == header_line(header.key@, header.value@));
        }
        assert(r@ == flat(said.headers.take(i + 1).filter(kept).map_values(line))) by {
            reveal(Seq::filter);
        }
        i = i + 1;
    }
    assert(said.headers.take(said.headers.len() as int) =~= said.headers);
    let length = decimal_of(size(text.as_str()) as u64);
    r.append(write_header(CONTENT_LENGTH_HEADER, length.as_str()).as_str());
    r.append("\r\n");
    let ghost headers = kept_headers(said.headers);
    assert(head_lines(said).drop_last().drop_last() =~= headers.map_values(line));
    assert(head_lines(said).drop_last().last() == header_line(
        CONTENT_LENGTH_HEADER@,
        length_header(said).value,
    ));
    assert(flat(head_lines(said)) == flat(head_lines(said).drop_last()) + "\r\n"@);
    r.append(text.as_str());
    r
}

// ---------------------------------------------------------------------------------------------
// Reading.

/// What has been read of the headers of a message.
#[verifier::ext_equal]
pub ghost struct HeadModel {
    pub headers: Seq<HeaderModel>,
    pub content_length: Option<usize>,
}

/// The headers with one more, in place of one with the same name.
pub open spec fn with_header(headers: Seq<HeaderModel>, header: HeaderModel) -> Seq<HeaderModel>
    decreases headers.len(),
{
    if headers.len() == 0 {
        seq![header]
    } else if headers[0].key == header.key {
        headers.update(0, header)
    } else {
        seq![headers[0]] + with_header(headers.drop_first(), header)
    }
}

/// The header in a line, if there is one. What is behind a second colon with a space does not count.
pub open spec fn header_in(line: Seq<char>) -> Option<HeaderModel> {
    let text = trimmed(line);
    match find_from(text, ": "@, 0) {
        Some(i) => {
            let rest = text.skip(i + 2);
            Some(
                HeaderModel {
                    key: text.take(i),
                    value: match find_from(rest, ": "@, 0) {
                        Some(k) => rest.take(k),
                        None => rest,
                    },
                },
            )
        },
        None => None,
    }
}

/// What is known of the headers after one more line, unless that line ends them. They end with an
/// empty line, with a line that holds no header and with a length that is no number.
pub open spec fn head_after(head: HeadModel, line: Seq<char>) -> Option<HeadModel> {
    match header_in(line) {
        Some(header) => if header.key == CONTENT_LENGTH_HEADER@ {
            match usize_in(header.value) {
                Some(n) => Some(
                    HeadModel {
                        headers: with_header(head.headers, header),
                        content_length: Some(n),
                    },
                ),
                None => None,
            }
        } else {
            Some(HeadModel { headers: with_header(head.headers, header), ..head })
        },
        None => None,
    }
}

fn add_header(headers: &mut Vec<Header>, header: Header)
    ensures
        final(headers).deep_view() == with_header(old(headers).deep_view(), header.deep_view()),
{
    let ghost all = headers.deep_view();
    let ghost said = header.deep_view();
    let mut i: usize = 0;
    assert(all.skip(0) =~= all);
    assert(all.take(0) + with_header(all.skip(0), said) =~= with_header(all, said));
    while i < headers.len()
        invariant
            i <= headers@.len(),
            headers.deep_view() == all,
            all == old(headers).deep_view(),
            said == header.deep_view(),
            with_header(all, said) == all.take(i as int) + with_header(all.skip(i as int), said),
        decreases headers.len() - i,
    {
        assert(all.skip(i as int)[0] == headers@[i as int].deep_view());
        if same(headers[i].key.as_str(), header.key.as_str()) {
            headers.set(i, header);
            assert(headers.deep_view() =~= all.take(i as int) + all.skip(i as int).update(0, said));
            return;
        }
        assert(all.skip(i as int).drop_first() =~= all.skip(i + 1));
        assert(all.take(i as int) + (seq![all.skip(i as int)[0]] + with_header(all.skip(i + 1), said))
            =~= all.take(i + 1) + with_header(all.skip(i + 1), said));
        i = i + 1;
    }
    headers.push(header);
    assert(all.skip(i as int).len() == 0);
    assert(headers.deep_view() =~= all.take(i as int) + seq![said]);
}

fn read_header(line: &str) -> (r: Option<Header>)
    ensures
        r.deep_view() == header_in(line@),
{
    let text = chars_of(line.trim());
    let colon = chars_of(": ");
    proof {
        reveal_strlit(": ");
    }
    match find(&text, &colon, 0) {
        Some(i) => {
            assert(i + 2 <= text.len());
            let rest_text = string_of(&text, i + 2, text.len());
            let rest = chars_of(rest_text.as_str());
            assert(rest@ =~= text@.skip(i + 2));
            let key = string_of(&text, 0, i);
            assert(key@ =~= text@.take(i as int));
            let value = match find(&rest, &colon, 0) {
                Some(k) => {
                    let value = string_of(&rest, 0, k);
                    assert(value@ =~= rest@.take(k as int));
                    value
                },
                None => rest_text,
            };
            Some(Header { key, value })
        },
        None => None,
    }
}

/// Reads the headers of a message line by line.
#[derive(Debug)]
pub struct HeaderReader {
    pub headers: Vec<Header>,
    pub content_length: Option<usize>,
}

impl HeaderReader {
    /// What has been read.
    pub open spec fn head(self) -> HeadModel {
        HeadModel { headers: self.headers.deep_view(), content_length: self.content_length }
    }

    /// Nothing has been read yet.
    pub fn new() -> (r: Self)
        ensures
            r.head() == (HeadModel { headers: Seq::empty(), content_length: None }),
    {
        let r = HeaderReader { headers: Vec::new(), content_length: None };
        assert(r.headers.deep_view() =~= Seq::<HeaderModel>::empty());
        r
    }

    /// Takes a line, and tells whether there are more to come.
    pub fn on_line(&mut self, line: &str) -> (r: bool)
        ensures
            match head_after(old(self).head(), line@) {
                Some(head) => r && final(self).head() == head,
                None => !r && final(self).head() == old(self).head(),
            },
    {
        match read_header(line) {
            Some(header) => {
                if same(header.key.as_str(), CONTENT_LENGTH_HEADER) {
                    match parse_usize(header.value.as_str()) {
                        Some(n) => {
                            self.content_length = Some(n);
                        },
                        None => {
                            return false;
                        },
                    }
                }
                add_header(&mut self.headers, header);
                true
            },
            None => false,
        }
    }
}

/// The message in the bytes that follow the headers. Nothing, if they hold none. A message that was
/// written is read back, if it leaves out what is `null` and can be, and if it can be read at all.
pub fn read_message_payload(bytes: &[u8]) -> (r: Option<JsonRpcMessage>)
    ensures
        r.deep_view() == (match parsed_bytes(bytes@) {
            Some(value) => message_in(value),
            None => None,
        }),
        forall|message: JsonRpcMessageModel|
            is_plain(message) && message.can_be_read() && #[trigger] encode_utf8(message.text())
                == bytes@ ==> r.deep_view() == Some(message),
{
    let document = parse_bytes(bytes);
    proof {
        assert forall|message: JsonRpcMessageModel|
            is_plain(message) && message.can_be_read() && #[trigger] encode_utf8(message.text())
                == bytes@ implies parsed_bytes(bytes@) == Some(message.written().document())
            && message_in(message.written().document()) == Some(message) by {
            law_sent_message_is_written(message);
            assert(encode_utf8(message.written().text()) == bytes@);
        }
    }
    match document {
        Some(value) => match JsonRpcMessage::try_from_value(&value) {
            Ok(message) => Some(message),
            Err(_) => None,
        },
        None => None,
    }
}

// ---------------------------------------------------------------------------------------------
// Requests made here.

/// The number of a request that is made here.
pub open spec fn our_id(n: nat) -> Seq<char> {
    OUR_REQ_ID_PREFIX@ + decimal(n)
}

/// Numbers the requests that are made here.
#[derive(Debug)]
pub struct RequestNumbers {
    pub new_request_last_id: usize,
}

impl RequestNumbers {
    /// No number has been given out.
    pub fn new() -> (r: Self)
        ensures
            r.new_request_last_id == 0,
    {
        RequestNumbers { new_request_last_id: 0 }
    }

    /// Gives a request a number, unless it has one. Other messages stay as they are.
    pub fn number(&mut self, payload: JsonRpcMessage) -> (r: JsonRpcMessage)
        requires
            old(self).new_request_last_id < usize::MAX,
        ensures
            match payload.deep_view() {
                JsonRpcMessageModel::Request(request) => if request.id is Null {
                    &&& final(self).new_request_last_id == old(self).new_request_last_id + 1
                    &&& r.deep_view() == JsonRpcMessageModel::Request(
                        JsonRpcRequestModel {
                            id: Json::Text(our_id(final(self).new_request_last_id as nat)),
                            ..request
                        },
                    )
                } else {
                    r.deep_view() == payload.deep_view() && *final(self) == *old(self)
                },
                _ => r.deep_view() == payload.deep_view() && *final(self) == *old(self),
            },
    {
        match payload {
            JsonRpcMessage::Request(request) => {
                let mut request = request;
                if is_null(&request.id) {
                    let new_id: usize = self.new_request_last_id + 1;
                    let number = decimal_of(new_id as u64);
                    request.id = text_value(concat(OUR_REQ_ID_PREFIX, number.as_str()));
                    self.new_request_last_id = new_id;
                }
                JsonRpcMessage::Request(request)
            },
            other => other,
        }
    }
}

// ---------------------------------------------------------------------------------------------
// Laws.

/// Two requests that are numbered here have different numbers.
pub proof fn law_numbers_differ(a: nat, b: nat)
    requires
        a != b,
    ensures
        our_id(a) != our_id(b),
{
    if our_id(a) == our_id(b) {
        let n = OUR_REQ_ID_PREFIX@.len() as int;
        assert(our_id(a).skip(n) =~= decimal(a));
        assert(our_id(b).skip(n) =~= decimal(b));
        law_decimal_is_read_back(a);
        law_decimal_is_read_back(b);
    }
}

/// What is known of the headers after some lines, and whether they have ended.
pub open spec fn head_of(lines: Seq<Seq<char>>) -> (HeadModel, bool)
    decreases lines.len(),
{
    if lines.len() == 0 {
        (HeadModel { headers: Seq::empty(), content_length: None }, false)
    } else {
        let (head, ended) = head_of(lines.drop_last());
        if ended {
            (head, true)
        } else {
            match head_after(head, lines.last()) {
                Some(head) => (head, false),
                None => (head, true),
            }
        }
    }
}

/// Whether a header can be written on a line of its own: there is no other colon with a space in it,
/// and no whitespace at its ends.
pub open spec fn is_plain_header(header: HeaderModel) -> bool {
    let line = header.key + ": "@ + header.value;
    &&& trimmed(line) == line
    &&& find_from(line, ": "@, 0) == Some(header.key.len() as int)
    &&& find_from(header.value, ": "@, 0) is None
}

proof fn lemma_header_is_read(header: HeaderModel)
    requires
        is_plain_header(header),
    ensures
        header_in(header_line(header.key, header.value)) == Some(header),
{
    reveal_strlit(": ");
    reveal_strlit("\r\n");
    let line = header.key + ": "@ + header.value;
    assert("\r\n"@ =~= seq!['\r', '\n']);
    assert(header_line(header.key, header.value) =~= line + seq!['\r', '\n']);
    lemma_trimmed_with_line_end(line);
    assert(line.take(header.key.len() as int) =~= header.key);
    assert(line.skip(header.key.len() as int + 2) =~= header.value);
}

proof fn lemma_length_header_is_plain(message: LspMessageModel)
    ensures
        is_plain_header(length_header(message)),
{
    reveal_strlit(": ");
    reveal_strlit("Content-Length");
    let key = CONTENT_LENGTH_HEADER@;
    let n = byte_len(message.payload.text());
    let value = decimal(n);
    lemma_decimal(n);
    let line = key + ": "@ + value;
    assert(line[0] == 'C');
    assert(line.last() == value.last());
    assert('0' <= value[value.len() - 1]);
    assert(trimmed_start(line) == line);
    assert(trimmed_end(line) == line);
    assert(line.subrange(14, 16) =~= ": "@);
    assert(occurs_at(line, ": "@, 14));
    assert forall|k: int| 0 <= k < 14 implies !#[trigger] occurs_at(line, ": "@, k) by {
        if occurs_at(line, ": "@, k) {
            assert(line.subrange(k, k + 2)[0] == line[k]);
            assert(line[k] == key[k]);
        }
    }
    lemma_found(line, ": "@, 0, 14);
    lemma_find_contains(value, ": "@, 0);
    if find_from(value, ": "@, 0) is Some {
        let i = find_from(value, ": "@, 0)->0;
        assert(value.subrange(i, i + 2)[0] == value[i]);
    }
}

proof fn lemma_with_new_header(headers: Seq<HeaderModel>, header: HeaderModel)
    requires
        forall|i: int| 0 <= i < headers.len() ==> (#[trigger] headers[i]).key != header.key,
    ensures
        with_header(headers, header) == headers.push(header),
    decreases headers.len(),
{
    if headers.len() == 0 {
        assert(headers.push(header) =~= seq![header]);
    } else {
        let rest = headers.drop_first();
        assert forall|i: int| 0 <= i < rest.len() implies (#[trigger] rest[i]).key != header.key by {
            assert(rest[i] == headers[i + 1]);
        }
        lemma_with_new_header(rest, header);
        assert(headers.push(header) =~= seq![headers[0]] + rest.push(header));
    }
}

proof fn lemma_headers_are_read(headers: Seq<HeaderModel>)
    requires
        forall|i: int| 0 <= i < headers.len() ==> is_plain_header(#[trigger] headers[i]),
        forall|i: int|
            0 <= i < headers.len() ==> (#[trigger] headers[i]).key != CONTENT_LENGTH_HEADER@,
        forall|i: int, j: int|
            0 <= i < j < headers.len() ==> (#[trigger] headers[i]).key != (#[trigger] headers[j]).key,
    ensures
        head_of(headers.map_values(|h: HeaderModel| header_line(h.key, h.value))) == (
            HeadModel { headers, content_length: None },
            false,
        ),
    decreases headers.len(),
{
    let line = |h: HeaderModel| header_line(h.key, h.value);
    let lines = headers.map_values(line);
    if headers.len() == 0 {
        assert(headers =~= Seq::<HeaderModel>::empty());
    } else {
        let before = headers.drop_last();
        assert(lines.drop_last() =~= before.map_values(line));
        lemma_headers_are_read(before);
        lemma_header_is_read(headers.last());
        lemma_with_new_header(before, headers.last());
        assert(before.push(headers.last()) =~= headers);
    }
}

/// The headers of a message on the wire are read back, with the length of the text that follows.
pub proof fn law_frame_is_read_back(message: LspMessageModel)
    requires
        forall|i: int|
            0 <= i < message.headers.len() ==> is_plain_header(#[trigger] message.headers[i]),
        forall|i: int, j: int|
            0 <= i < j < message.headers.len() ==> (#[trigger] message.headers[i]).key != (
            #[trigger] message.headers[j]).key,
        byte_len(message.payload.text()) <= usize::MAX,
    ensures
        head_of(head_lines(message)) == (
            HeadModel {
                headers: written_headers(message),
                content_length: Some(byte_len(message.payload.text()) as usize),
            },
            true,
        ),
{
    let line = |h: HeaderModel| header_line(h.key, h.value);
    let kept = kept_headers(message.headers);
    let pred = |h: HeaderModel| h.key != CONTENT_LENGTH_HEADER@;
    assert forall|i: int| 0 <= i < kept.len() implies is_plain_header(#[trigger] kept[i]) && kept[i].key
        != CONTENT_LENGTH_HEADER@ by {
        message.headers.lemma_filter_pred(pred, i);
        message.headers.lemma_filter_contains_rev(pred, kept[i]);
        let k = choose|k: int| 0 <= k < message.headers.len() && message.headers[k] == kept[i];
        assert(is_plain_header(message.headers[k]));
    }
    lemma_kept_headers_are_apart(message.headers);
    lemma_headers_are_read(kept);
    let length = length_header(message);
    lemma_length_header_is_plain(message);
    lemma_header_is_read(length);
    lemma_with_new_header(kept, length);
    law_decimal_is_read_back(byte_len(message.payload.text()));
    let lines = head_lines(message);
    assert(lines.drop_last().drop_last() =~= kept.map_values(line));
    assert(lines.drop_last().last() == header_line(length.key, length.value));
    assert(lines.last() == "\r\n"@);
    assert(head_of(lines.drop_last()).0.headers == written_headers(message));
    assert(header_in("\r\n"@) is None) by {
        reveal_strlit("\r\n");
        reveal_strlit(": ");
        let end = "\r\n"@;
        assert(is_white(end[0]));
        assert(end.drop_first().len() == 1);
        assert(is_white(end.drop_first()[0]));
        assert(end.drop_first().drop_first() =~= Seq::<char>::empty());
        assert(trimmed_start(end.drop_first()) =~= trimmed_start(Seq::<char>::empty()));
        assert(trimmed_start(end).len() == 0);
        assert(trimmed(end).len() == 0);
    }
}

proof fn lemma_kept_headers_are_apart(headers: Seq<HeaderModel>)
    requires
        forall|i: int, j: int|
            0 <= i < j < headers.len() ==> (#[trigger] headers[i]).key != (#[trigger] headers[j]).key,
    ensures
        forall|i: int, j: int|
            0 <= i < j < kept_headers(headers).len() ==> (#[trigger] kept_headers(headers)[i]).key != (
            #[trigger] kept_headers(headers)[j]).key,
    decreases headers.len(),
{
    reveal(Seq::filter);
    let pred = |h: HeaderModel| h.key != CONTENT_LENGTH_HEADER@;
    if headers.len() > 0 {
        let before = headers.drop_last();
        lemma_kept_headers_are_apart(before);
        let kept = kept_headers(before);
        assert forall|i: int| 0 <= i < kept.len() implies (#[trigger] kept[i]).key != headers.last().key by {
            before.lemma_filter_contains_rev(pred, kept[i]);
            let k = choose|k: int| 0 <= k < before.len() && before[k] == kept[i];
            assert(headers[k] == before[k]);
            assert(headers[headers.len() - 1] == headers.last());
        }
    }
}

/// A message on the wire ends with its text, whole, behind an empty line. The header that tells its
/// length tells the number of its bytes; every other header that it has is written, and no other.
pub proof fn law_frame_holds_the_message(message: LspMessageModel, header: HeaderModel)
    ensures
        ({
            let lines = head_lines(message);
            &&& frame(message) == flat(lines) + message.payload.text()
            &&& lines.len() == written_headers(message).len() + 1
            &&& lines.last() == seq!['\r', '\n']
            &&& written_headers(message).last().key == "Content-Length"@
            &&& written_headers(message).last().value == decimal(byte_len(message.payload.text()))
            &&& header.key != "Content-Length"@ ==> (written_headers(message).contains(header)
                <==> message.headers.contains(header))
            &&& lines[lines.len() - 2] == "Content-Length"@ + seq![':', ' '] + decimal(
                byte_len(message.payload.text()),
            ) + seq!['\r', '\n']
        }),
{
    broadcast use vstd::seq_lib::group_filter_ensures;

    reveal_strlit("\r\n");
    reveal_strlit(": ");
    assert("\r\n"@ =~= seq!['\r', '\n']);
    assert(": "@ =~= seq![':', ' ']);
    let wanted = |h: HeaderModel| h.key != CONTENT_LENGTH_HEADER@;
    let kept = kept_headers(message.headers);
    let written = written_headers(message);
    if header.key != "Content-Length"@ {
        if message.headers.contains(header) {
            let i = choose|i: int| 0 <= i < message.headers.len() && message.headers[i] == header;
            assert(wanted(message.headers[i]));
            assert(kept.contains(header));
            let k = choose|k: int| 0 <= k < kept.len() && kept[k] == header;
            assert(written[k] == header);
        }
        if written.contains(header) {
            let k = choose|k: int| 0 <= k < written.len() && written[k] == header;
            assert(kept[k] == header);
            assert(kept.contains(header));
            message.headers.lemma_filter_contains_rev(wanted, header);
        }
    }
}

/// A line with a name, a colon, a space and a value is read as that header. An empty line ends the
/// headers, and so does a length that is no number.
pub proof fn law_headers_are_read(head: HeadModel, key: Seq<char>, value: Seq<char>, n: usize)
    requires
        is_plain_header(HeaderModel { key, value }),
    ensures
        header_in(key + ": "@ + value) == Some((HeaderModel { key, value })),
        header_in("\r\n"@) is None,
        head_after(head, "\r\n"@) is None,
        key != "Content-Length"@ ==> (head_after(head, key + ": "@ + value) matches Some(after)
            && after.content_length == head.content_length && after.headers.contains(
            (HeaderModel { key, value }),
        )),
        key == "Content-Length"@ && value == decimal(n as nat) ==> (head_after(head, key + ": "@ + value)
            matches Some(after) && after.content_length == Some(n)),
        key == "Content-Length"@ && usize_in(value) is None ==> head_after(
            head,
            key + ": "@ + value,
        ) is None,
{
    reveal_strlit(": ");
    reveal_strlit("\r\n");
    let line = key + ": "@ + value;
    assert(line.take(key.len() as int) =~= key);
    assert(line.skip(key.len() as int + 2) =~= value);
    law_decimal_is_read_back(n as nat);
    lemma_header_is_held(head.headers, HeaderModel { key, value });
    let end = "\r\n"@;
    assert(end.len() == 2);
    assert(end.drop_first().drop_first() =~= Seq::<char>::empty());
    assert(is_white('\r') && is_white('\n'));
    assert(end[0] == '\r' && end.drop_first()[0] == '\n');
    reveal_with_fuel(trimmed_start, 3);
    assert(trimmed_start(end) =~= Seq::<char>::empty());
    assert(trimmed(end) =~= Seq::<char>::empty());
}

proof fn lemma_header_is_held(headers: Seq<HeaderModel>, header: HeaderModel)
    ensures
        with_header(headers, header).contains(header),
    decreases headers.len(),
{
    let after = with_header(headers, header);
    if headers.len() == 0 || headers[0].key == header.key {
        assert(after[0] == header);
    } else {
        lemma_header_is_held(headers.drop_first(), header);
        let rest = with_header(headers.drop_first(), header);
        let k = choose|k: int| 0 <= k < rest.len() && rest[k] == header;
        assert(after[k + 1] == header);
    }
}

/// A request that is made here is numbered with a text that begins as none of the numbers of the editor
/// should.
pub proof fn law_our_numbers_are_marked(n: nat)
    ensures
        our_id(n) == "llmvm/"@ + decimal(n),
        natural_in(our_id(n).skip(6)) == Some(n),
{
    reveal_strlit("llmvm/");
    assert(our_id(n).skip(6) =~= decimal(n));
    law_decimal_is_read_back(n);
}

} // verus!
