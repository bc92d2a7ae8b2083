//! The request encoder: an inbound HTTP request as one text, the raw
//! HTTP/1.1 form that a tunnel peer receives.

use vstd::prelude::*;
use vstd::string::*;
use vstd::utf8::*;
use crate::text::{find_from, lemma_find_first, lemma_find_none, occurs_at, split};

verus! {

/// One header of an inbound request. The value is held as the bytes that
/// arrived: not every header value is text.
#[derive(Clone, Debug, PartialEq, Eq)]
pub struct Header {
    pub name: String,
    pub value: Vec<u8>,
}

/// Mathematical value of a [`Header`].
pub struct HeaderView {
    pub name: Seq<char>,
    pub value: Seq<u8>,
}

impl View for Header {
    type V = HeaderView;

    open spec fn view(&self) -> HeaderView {
        HeaderView { name: self.name@, value: self.value@ }
    }
}

/// An inbound HTTP request as plain values: the three parts of its request
/// line, its headers in the order in which they arrived, and its body.
#[derive(Clone, Debug, PartialEq, Eq)]
pub struct RawRequest {
    pub method: String,
    /// Path and query.
    pub target: String,
    /// The protocol version as it stands in a request line, `HTTP/1.1`.
    pub version: String,
    pub headers: Vec<Header>,
    pub body: Vec<u8>,
}

/// Mathematical value of a [`RawRequest`].
pub struct RequestView {
    pub method: Seq<char>,
    pub target: Seq<char>,
    pub version: Seq<char>,
    pub headers: Seq<HeaderView>,
    pub body: Seq<u8>,
}

impl View for RawRequest {
    type V = RequestView;

    open spec fn view(&self) -> RequestView {
        RequestView {
            method: self.method@,
            target: self.target@,
            version: self.version@,
            headers: self.headers@.map_values(|h: Header| h@),
            body: self.body@,
        }
    }
}

/// Why a request has no text form.
#[derive(Clone, Copy, Debug, PartialEq, Eq)]
pub enum EncodingError {
    /// The value of the header at `index`, the first such header, holds a
    /// byte that is neither a visible ASCII character nor a tab.
    HeaderNotText { index: usize },
    /// Every header value is text, and the body is not valid UTF-8.
    BodyNotUtf8,
}

/// Whether `b` may stand in a header value that is text: a visible ASCII
/// character, a space or a tab.
pub open spec fn is_visible(b: u8) -> bool {
    32 <= b < 127 || b == 9
}

/// Whether a header value is text.
pub open spec fn is_text(value: Seq<u8>) -> bool {
    forall|i: int| 0 <= i < value.len() ==> is_visible(#[trigger] value[i])
}

/// A header value that is text, character by character.
pub open spec fn as_text(value: Seq<u8>) -> Seq<char> {
    Seq::new(value.len(), |i: int| value[i] as char)
}

/// The line terminator of the text form.
pub open spec fn crlf() -> Seq<char> {
    seq!['\r', '\n']
}

impl HeaderView {
    /// `Name: Value` and the line terminator.
    pub open spec fn line(self) -> Seq<char> {
        self.name + seq![':', ' '] + as_text(self.value) + crlf()
    }
}

/// The header lines, one after the other, in the order of `headers`.
pub open spec fn header_lines(headers: Seq<HeaderView>) -> Seq<char>
    decreases headers.len(),
{
    if headers.len() == 0 {
        Seq::empty()
    } else {
        header_lines(headers.drop_last()) + headers.last().line()
    }
}

impl RequestView {
    /// `METHOD PATH VERSION` and the line terminator.
    pub open spec fn request_line(self) -> Seq<char> {
        self.method + seq![' '] + self.target + seq![' '] + self.version + crlf()
    }

    /// Whether the values of the first `n` headers are all text.
    pub open spec fn headers_are_text(self, n: int) -> bool {
        forall|i: int| 0 <= i < n ==> is_text(#[trigger] self.headers[i].value)
    }

    /// Whether the request has a text form: every header value is text and
    /// the body is valid UTF-8.
    pub open spec fn encodable(self) -> bool {
        self.headers_are_text(self.headers.len() as int) && valid_utf8(self.body)
    }

    /// Whether encoding fails with `error`. No request fails with two
    /// errors, and one that is encodable fails with none.
    pub open spec fn fails_with(self, error: EncodingError) -> bool {
        match error {
            EncodingError::HeaderNotText { index } => {
                &&& index < self.headers.len()
                &&& self.headers_are_text(index as int)
                &&& !is_text(self.headers[index as int].value)
            },
            EncodingError::BodyNotUtf8 => {
                &&& self.headers_are_text(self.headers.len() as int)
                &&& !valid_utf8(self.body)
            },
        }
    }

    /// The text form: the request line, the header lines, a blank line,
    /// and the body decoded as UTF-8.
    pub open spec fn encoded(self) -> Seq<char> {
        self.request_line() + header_lines(self.headers) + crlf() + decode_utf8(self.body)
    }
}

/// `std::string::FromUtf8Error`, held as it is.
#[verifier::external_type_specification]
#[verifier::external_body]
pub struct ExFromUtf8Error(std::string::FromUtf8Error);

/// `String::from_utf8` succeeds on exactly the byte vectors that are valid
/// UTF-8, and the string it gives is made of the bytes it was given.
pub assume_specification[ String::from_utf8 ](vec: Vec<u8>) -> (result: Result<
    String,
    std::string::FromUtf8Error,
>)
    ensures
        result is Ok <==> valid_utf8(vec@),
        result matches Ok(text) ==> encode_utf8(text@) == vec@,
;

/// `hyper::header::HeaderValue::from_bytes`, and `to_str` on the header
/// value it makes. The first takes the tab and every byte from 32 on but
/// 127; the second takes the tab and the bytes from 32 to 126. So the two
/// in a row succeed on exactly the values that are text, and the text has
/// one ASCII character for each byte.
#[verifier::external_body]
pub(crate) fn header_value_text(value: &[u8]) -> (text: Option<String>)
    ensures
        text is Some <==> is_text(value@),
        text matches Some(t) ==> t@ == as_text(value@),
{
    match hyper::header::HeaderValue::from_bytes(value) {
        Ok(held) => match held.to_str() {
            Ok(text) => Some(text.to_string()),
            Err(_) => None,
        },
        Err(_) => None,
    }
}

/// Serializes an inbound request into its text form, or says why it has
/// none. Header values are examined in order, the body last.
pub fn request_to_raw_http(req: RawRequest) -> (result: Result<String, EncodingError>)
    ensures
        match result {
            Ok(raw) => req@.encodable() && raw@ == req@.encoded(),
            Err(error) => req@.fails_with(error),
        },
{
    proof {
        reveal_strlit(" ");
        reveal_strlit(": ");
        reveal_strlit("\r\n");
    }
    let mut raw = String::new();
    raw.append(req.method.as_str());
    raw.append(" ");
    raw.append(req.target.as_str());
    raw.append(" ");
    raw.append(req.version.as_str());
    raw.append("\r\n");
    assert(raw@ == req@.request_line());
    let mut i: usize = 0;
    while i < req.headers.len()
        invariant
            i <= req.headers.len(),
            req@.headers_are_text(i as int),
            raw@ == req@.request_line() + header_lines(req@.headers.take(i as int)),
            ": "@ == seq![':', ' '],
            "\r\n"@ == crlf(),
        decreases req.headers.len() - i,
    {
        let header = &req.headers[i];
        assert(req@.headers[i as int] == header@);
        let text = match header_value_text(header.value.as_slice()) {
            Some(text) => text,
            None => {
                return Err(EncodingError::HeaderNotText { index: i });
            },
        };
        raw.append(header.name.as_str());
        raw.append(": ");
        raw.append(text.as_str());
        raw.append("\r\n");
        proof {
            let seen = req@.headers.take(i as int);
            let next = req@.headers.take(i + 1);
            assert(next.drop_last() == seen);
            assert(next.last() == header@);
        }
        i += 1;
    }
    assert(req@.headers.take(i as int) == req@.headers);
    let body = match String::from_utf8(req.body) {
        Ok(body) => body,
        Err(_) => {
            return Err(EncodingError::BodyNotUtf8);
        },
    };
    proof {
        encode_utf8_decode_utf8(body@);
    }
    raw.append("\r\n");
    raw.append(body.as_str());
    Ok(raw)
}

/// Whether `text` holds neither a carriage return nor a line feed.
pub open spec fn is_line(text: Seq<char>) -> bool {
    forall|i: int| 0 <= i < text.len() ==> #[trigger] text[i] != '\r' && text[i] != '\n'
}

/// Lines one after the other, with a line terminator between each two.
pub open spec fn joined(lines: Seq<Seq<char>>) -> Seq<char>
    decreases lines.len(),
{
    if lines.len() == 0 {
        Seq::empty()
    } else if lines.len() == 1 {
        lines[0]
    } else {
        lines[0] + crlf() + joined(lines.drop_first())
    }
}

impl HeaderView {
    /// `Name: Value`, without the line terminator.
    pub open spec fn text(self) -> Seq<char> {
        self.name + seq![':', ' '] + as_text(self.value)
    }
}

impl RequestView {
    /// `METHOD PATH VERSION`, without the line terminator.
    pub open spec fn start_line(self) -> Seq<char> {
        self.method + seq![' '] + self.target + seq![' '] + self.version
    }

    /// The lines of the head: the request line, then one line for each
    /// header, in the order of the headers.
    pub open spec fn head(self) -> Seq<Seq<char>> {
        seq![self.start_line()] + self.headers.map_values(|h: HeaderView| h.text())
    }

    /// Whether no part of the request line and no header name holds a
    /// carriage return or a line feed.
    pub open spec fn single_lined(self) -> bool {
        &&& is_line(self.method)
        &&& is_line(self.target)
        &&& is_line(self.version)
        &&& forall|i: int| 0 <= i < self.headers.len() ==> is_line(#[trigger] self.headers[i].name)
    }
}

/// A line in more is a line terminator and that line in more.
proof fn lemma_joined_push(lines: Seq<Seq<char>>, line: Seq<char>)
    requires
        lines.len() >= 1,
    ensures
        joined(lines.push(line)) == joined(lines) + crlf() + line,
    decreases lines.len(),
{
    let all = lines.push(line);
    assert(all.drop_first() == lines.drop_first().push(line));
    assert(all[0] == lines[0]);
    if lines.len() == 1 {
        assert(lines.drop_first().push(line) == seq![line]);
        assert(joined(seq![line]) == line);
    } else {
        lemma_joined_push(lines.drop_first(), line);
        assert(joined(all) == lines[0] + crlf() + (joined(lines.drop_first()) + crlf() + line));
        assert(joined(all) == joined(lines) + crlf() + line);
    }
}

/// The request line and the header lines are the lines of the head,
/// joined, and one line terminator.
proof fn lemma_head_joined(start: Seq<char>, headers: Seq<HeaderView>)
    ensures
        start + crlf() + header_lines(headers) == joined(
            seq![start] + headers.map_values(|h: HeaderView| h.text()),
        ) + crlf(),
    decreases headers.len(),
{
    let texts = headers.map_values(|h: HeaderView| h.text());
    if headers.len() == 0 {
        assert(seq![start] + texts == seq![start]);
        assert(start + crlf() + header_lines(headers) == start + crlf());
    } else {
        let init = headers.drop_last();
        let last = headers.last();
        let init_texts = init.map_values(|h: HeaderView| h.text());
        lemma_head_joined(start, init);
        assert(seq![start] + texts == (seq![start] + init_texts).push(last.text()));
        lemma_joined_push(seq![start] + init_texts, last.text());
        assert(last.line() == last.text() + crlf());
        assert(start + crlf() + header_lines(headers) == (start + crlf() + header_lines(init))
            + last.text() + crlf());
        assert(joined(seq![start] + texts) + crlf() == (joined(seq![start] + init_texts) + crlf())
            + last.text() + crlf());
    }
}

/// Where a line terminator stands, a carriage return stands.
proof fn lemma_terminator_begins(text: Seq<char>, at: int)
    requires
        occurs_at(text, crlf(), at) || occurs_at(text, crlf() + crlf(), at),
    ensures
        0 <= at < text.len(),
        text[at] == '\r',
        occurs_at(text, crlf() + crlf(), at) ==> at + 2 < text.len() && text[at + 2] == '\r',
{
    if occurs_at(text, crlf(), at) {
        assert(text.subrange(at, at + 2)[0] == '\r');
    }
    if occurs_at(text, crlf() + crlf(), at) {
        let blank = crlf() + crlf();
        assert(blank.len() == 4);
        assert(text.subrange(at, at + 4)[0] == blank[0]);
        assert(text.subrange(at, at + 4)[2] == blank[2]);
    }
}

/// A line holds no line terminator.
proof fn lemma_no_terminator(line: Seq<char>)
    requires
        is_line(line),
    ensures
        find_from(line, crlf(), 0) is None,
{
    assert forall|j: int| 0 <= j implies !occurs_at(line, crlf(), j) by {
        if occurs_at(line, crlf(), j) {
            lemma_terminator_begins(line, j);
        }
    }
    lemma_find_none(line, crlf());
}

/// The first line terminator of a text stands after its first line.
proof fn lemma_first_terminator(first: Seq<char>, rest: Seq<char>)
    requires
        is_line(first),
    ensures
        find_from(first + crlf() + rest, crlf(), 0) == Some(first.len() as int),
{
    let text = first + crlf() + rest;
    let at = first.len() as int;
    assert(occurs_at(text, crlf(), at)) by {
        assert(text.subrange(at, at + 2) =~= crlf());
    }
    assert forall|j: int| 0 <= j < at implies !occurs_at(text, crlf(), j) by {
        if occurs_at(text, crlf(), j) {
            lemma_terminator_begins(text, j);
            assert(text[j] == first[j]);
        }
    }
    lemma_find_first(text, crlf(), at);
}

/// Lines that are joined split into those lines.
proof fn lemma_split_joined(lines: Seq<Seq<char>>)
    requires
        lines.len() >= 1,
        forall|i: int| 0 <= i < lines.len() ==> is_line(#[trigger] lines[i]),
    ensures
        split(joined(lines), crlf()) == lines,
    decreases lines.len(),
{
    let text = joined(lines);
    let first = lines[0];
    assert(is_line(first));
    if lines.len() == 1 {
        lemma_no_terminator(first);
        assert(split(text, crlf()) == seq![text]);
        assert(lines == seq![text]);
    } else {
        let tail = lines.drop_first();
        let rest = joined(tail);
        let at = first.len() as int;
        assert(text == first + crlf() + rest);
        lemma_first_terminator(first, rest);
        assert(text.take(at) == first);
        assert(text.skip(at + 2) == rest);
        assert(split(text, crlf()) == seq![first] + split(rest, crlf()));
        assert forall|i: int| 0 <= i < tail.len() implies is_line(#[trigger] tail[i]) by {
            assert(tail[i] == lines[i + 1]);
        }
        lemma_split_joined(tail);
        assert(seq![first] + tail == lines);
    }
}

/// In joined lines that are not empty, two places after a carriage return
/// stands something else.
proof fn lemma_no_blank_line(lines: Seq<Seq<char>>, at: int)
    requires
        lines.len() >= 1,
        forall|i: int| 0 <= i < lines.len() ==> is_line(#[trigger] lines[i]) && lines[i].len() > 0,
        0 <= at < joined(lines).len(),
        joined(lines)[at] == '\r',
    ensures
        at + 2 < joined(lines).len(),
        joined(lines)[at + 2] != '\r',
    decreases lines.len(),
{
    let text = joined(lines);
    let first = lines[0];
    assert(is_line(first) && first.len() > 0);
    if lines.len() == 1 {
        assert(text[at] == first[at]);
    } else {
        let tail = lines.drop_first();
        let rest = joined(tail);
        let cut = first.len() as int;
        assert(text == first + crlf() + rest);
        assert forall|i: int| 0 <= i < tail.len() implies is_line(#[trigger] tail[i]) && tail[i].len()
            > 0 by {
            assert(tail[i] == lines[i + 1]);
        }
        assert(is_line(tail[0]) && tail[0].len() > 0);
        assert(rest.len() > 0 && rest[0] == tail[0][0]) by {
            if tail.len() > 1 {
                assert(rest == tail[0] + crlf() + joined(tail.drop_first()));
            }
        }
        if at < cut {
            assert(text[at] == first[at]);
        } else if at == cut {
            assert(text[at + 2] == rest[0]);
        } else if at == cut + 1 {
            assert(text[at] == '\n');
        } else {
            assert(text[at] == rest[at - cut - 2]);
            lemma_no_blank_line(tail, at - cut - 2);
            assert(text[at + 2] == rest[at - cut]);
        }
    }
}

/// The text form of a request can be read back. Where no part of the
/// request line and no header name holds a carriage return or a line
/// feed, the first blank line of the text ends the head; what stands
/// before it splits at the line terminators into the request line and
/// the headers, in their order; and what stands after it is the body.
pub proof fn encoded_request_reads_back(request: RequestView)
    requires
        request.encodable(),
        request.single_lined(),
    ensures
        ({
            let text = request.encoded();
            let end = joined(request.head()).len() as int;
            &&& find_from(text, crlf() + crlf(), 0) == Some(end)
            &&& split(text.take(end), crlf()) == request.head()
            &&& text.skip(end + 4) == decode_utf8(request.body)
        }),
{
    let text = request.encoded();
    let lines = request.head();
    let head = joined(lines);
    let end = head.len() as int;
    let blank = crlf() + crlf();
    let body = decode_utf8(request.body);
    let texts = request.headers.map_values(|h: HeaderView| h.text());
    lemma_head_joined(request.start_line(), request.headers);
    assert(request.request_line() == request.start_line() + crlf());
    assert(text == head + blank + body);
    assert forall|i: int| 0 <= i < lines.len() implies is_line(#[trigger] lines[i]) && lines[i].len()
        > 0 by {
        if i == 0 {
            let start = request.start_line();
            assert(lines[0] == start);
            assert(start[request.method.len() as int] == ' ');
            assert forall|k: int| 0 <= k < start.len() implies #[trigger] start[k] != '\r'
                && start[k] != '\n' by {
                let m = request.method.len() as int;
                let t = request.target.len() as int;
                if k < m {
                    assert(start[k] == request.method[k]);
                } else if k == m {
                } else if k < m + 1 + t {
                    assert(start[k] == request.target[k - m - 1]);
                } else if k == m + 1 + t {
                } else {
                    assert(start[k] == request.version[k - m - t - 2]);
                }
            }
        } else {
            let header = request.headers[i - 1];
            let line = header.text();
            assert(lines[i] == texts[i - 1]);
            assert(lines[i] == line);
            assert(is_line(header.name));
            assert(is_text(header.value));
            assert(line[header.name.len() as int] == ':');
            assert forall|k: int| 0 <= k < line.len() implies #[trigger] line[k] != '\r' && line[k]
                != '\n' by {
                let n = header.name.len() as int;
                if k < n {
                    assert(line[k] == header.name[k]);
                } else if k < n + 2 {
                } else {
                    assert(line[k] == as_text(header.value)[k - n - 2]);
                    assert(is_visible(header.value[k - n - 2]));
                }
            }
        }
    }
    assert(text.subrange(end, end + 4) == blank);
    assert(occurs_at(text, blank, end));
    assert forall|j: int| 0 <= j < end implies !occurs_at(text, blank, j) by {
        if occurs_at(text, blank, j) {
            lemma_terminator_begins(text, j);
            assert(text[j] == head[j]);
            lemma_no_blank_line(lines, j);
            assert(text[j + 2] == head[j + 2]);
        }
    }
    lemma_find_first(text, blank, end);
    assert(text.take(end) == head);
    lemma_split_joined(lines);
    assert(text.skip(end + 4) == body);
}

} // verus!
