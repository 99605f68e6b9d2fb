//! What crosses the tunnel: binary frames, HTTP messages inside them, and the
//! registration that opens it.

use crate::outside::{
    from_utf8_lossy, json_error_text, trim, trimmed, trimmed_end, trimmed_start, white_space,
};
use crate::seqs;
use crate::seqs::{contents, first_index, first_match, pieces};
use crate::text;
use crate::text::{all_digits, bounded_value, decimal_text, text_of};
use vstd::prelude::*;
use vstd::slice::{slice_subrange, slice_to_vec};
use vstd::utf8::{encode_utf8, valid_utf8};

verus! {

/// The most headers that are read from one message.
pub const MAX_HEADERS: usize = 100;

/// What can be wrong with a frame or with what it carries.
#[derive(Debug)]
pub enum ProtoError {
    /// The frame, of this length, has no room for a request ID.
    FrameTooShort(usize),
    /// The HTTP message cannot be read.
    InvalidHttp(String),
    /// The JSON cannot be read.
    Json(serde_json::Error),
}

/// What is wrong with JSON, given what its parser says.
pub open spec fn json_message(detail: Seq<char>) -> Seq<char> {
    "JSON error: "@ + detail
}

/// Tells what is wrong with JSON, given what its parser says.
pub fn json_error_message(detail: &str) -> (message: String)
    ensures
        message@ == json_message(detail@),
{
    let mut message = text_owned("JSON error: ");
    message.append(detail);
    message
}

impl ProtoError {
    /// Tells what is wrong.
    pub fn message(&self) -> (message: String)
        ensures
            match *self {
                ProtoError::FrameTooShort(length) => message@
                    == "frame too short: need at least 4 bytes, got "@ + decimal_text(
                    length as nat,
                ),
                ProtoError::InvalidHttp(detail) => message@ == "invalid HTTP data: "@ + detail@,
                ProtoError::Json(_) => exists|detail: Seq<char>|
                    message@ == #[trigger] json_message(detail),
            },
    {
        match self {
            ProtoError::FrameTooShort(length) => {
                let mut message = text_owned("frame too short: need at least 4 bytes, got ");
                text::push_decimal(&mut message, *length as u64);
                message
            },
            ProtoError::InvalidHttp(detail) => {
                let mut message = text_owned("invalid HTTP data: ");
                message.append(detail.as_str());
                message
            },
            ProtoError::Json(error) => {
                let detail = json_error_text(error);
                json_error_message(detail.as_str())
            },
        }
    }
}

/// Header names with their values, in order.
pub type Fields = Seq<(Seq<char>, Seq<char>)>;

/// What a list of headers holds.
pub open spec fn fields(headers: Seq<(String, String)>) -> Fields {
    headers.map_values(|header: (String, String)| (header.0@, header.1@))
}

/// A request ID, most significant byte first.
pub open spec fn id_bytes(id: u32) -> Seq<u8> {
    seq![
        (id / 0x100_0000) as u8,
        (id / 0x1_0000 % 0x100) as u8,
        (id / 0x100 % 0x100) as u8,
        (id % 0x100) as u8,
    ]
}

/// The request ID at the start of a frame.
pub open spec fn frame_id(frame: Seq<u8>) -> u32 {
    (frame[0] * 0x100_0000 + frame[1] * 0x1_0000 + frame[2] * 0x100 + frame[3]) as u32
}

/// A frame: a request ID and what is said about that request.
pub open spec fn frame_bytes(id: u32, data: Seq<u8>) -> Seq<u8> {
    id_bytes(id) + data
}

/// Makes a frame.
pub fn encode_frame(request_id: u32, data: &[u8]) -> (frame: Vec<u8>)
    ensures
        frame@ == frame_bytes(request_id, data@),
{
    let mut frame: Vec<u8> = Vec::new();
    frame.push((request_id / 0x100_0000) as u8);
    frame.push((request_id / 0x1_0000 % 0x100) as u8);
    frame.push((request_id / 0x100 % 0x100) as u8);
    frame.push((request_id % 0x100) as u8);
    assert(frame@ =~= id_bytes(request_id));
    seqs::append_bytes(&mut frame, data);
    frame
}

/// Takes a frame apart.
pub fn decode_frame(frame: &[u8]) -> (decoded: Result<(u32, &[u8]), ProtoError>)
    ensures
        match decoded {
            Ok((id, payload)) => {
                &&& frame@.len() >= 4
                &&& id == frame_id(frame@)
                &&& payload@ == frame@.skip(4)
            },
            Err(error) => frame@.len() < 4 && error == ProtoError::FrameTooShort(frame.len()),
        },
{
    if frame.len() < 4 {
        return Err(ProtoError::FrameTooShort(frame.len()));
    }
    let id: u32 = frame[0] as u32 * 0x100_0000 + frame[1] as u32 * 0x1_0000 + frame[2] as u32
        * 0x100 + frame[3] as u32;
    Ok((id, slice_subrange(frame, 4, frame.len())))
}

/// The end of a line.
pub open spec fn crlf() -> Seq<u8> {
    seq![13u8, 10u8]
}

/// The end of the last header and the empty line after it.
pub open spec fn header_end() -> Seq<u8> {
    seq![13u8, 10u8, 13u8, 10u8]
}

/// One header line.
pub open spec fn header_line(field: (Seq<char>, Seq<char>)) -> Seq<u8> {
    encode_utf8(field.0) + seq![58u8, 32u8] + encode_utf8(field.1) + crlf()
}

/// Header lines, one after the other.
pub open spec fn header_lines(headers: Fields) -> Seq<u8>
    decreases headers.len(),
{
    if headers.len() == 0 {
        Seq::empty()
    } else {
        header_lines(headers.drop_last()) + header_line(headers.last())
    }
}

/// A message: its first line, its headers, an empty line and its body.
pub open spec fn message_bytes(first_line: Seq<u8>, headers: Fields, body: Seq<u8>) -> Seq<u8> {
    first_line + crlf() + header_lines(headers) + crlf() + body
}

/// The first line of a request.
pub open spec fn request_line(method: Seq<char>, uri: Seq<char>) -> Seq<u8> {
    encode_utf8(method) + seq![32u8] + encode_utf8(uri)
}

/// A request on the wire.
pub open spec fn request_bytes(
    method: Seq<char>,
    uri: Seq<char>,
    headers: Fields,
    body: Seq<u8>,
) -> Seq<u8> {
    message_bytes(request_line(method, uri), headers, body)
}

/// A response on the wire.
pub open spec fn response_bytes(status: u16, headers: Fields, body: Seq<u8>) -> Seq<u8> {
    message_bytes(encode_utf8(decimal_text(status as nat)), headers, body)
}

fn push_crlf(buf: &mut Vec<u8>)
    ensures
        final(buf)@ == old(buf)@ + crlf(),
{
    buf.push(13u8);
    buf.push(10u8);
    assert(buf@ =~= old(buf)@ + crlf());
}

fn push_header_lines(buf: &mut Vec<u8>, headers: &[(String, String)])
    ensures
        final(buf)@ == old(buf)@ + header_lines(fields(headers@)),
{
    let mut i: usize = 0;
    let ghost all = fields(headers@);
    assert(buf@ =~= old(buf)@ + header_lines(all.take(0)));
    while i < headers.len()
        invariant
            i <= headers@.len(),
            all == fields(headers@),
            buf@ == old(buf)@ + header_lines(all.take(i as int)),
        decreases headers@.len() - i,
    {
        let ghost before = buf@;
        let (name, value) = &headers[i];
        seqs::append_bytes(buf, name.as_str().as_bytes());
        buf.push(58u8);
        buf.push(32u8);
        seqs::append_bytes(buf, value.as_str().as_bytes());
        push_crlf(buf);
        i = i + 1;
        assert(all.take(i as int).drop_last() =~= all.take(i - 1));
        assert(all.take(i as int).last() == (name@, value@));
        assert(buf@ =~= before + header_line((name@, value@)));
        assert(buf@ =~= old(buf)@ + header_lines(all.take(i as int)));
    }
    assert(all.take(i as int) =~= all);
}

/// Writes a request.
pub fn serialize_request(
    method: &str,
    uri: &str,
    headers: &[(String, String)],
    body: &[u8],
) -> (buf: Vec<u8>)
    ensures
        buf@ == request_bytes(method@, uri@, fields(headers@), body@),
{
    let mut buf: Vec<u8> = Vec::new();
    seqs::append_bytes(&mut buf, method.as_bytes());
    buf.push(32u8);
    seqs::append_bytes(&mut buf, uri.as_bytes());
    assert(buf@ =~= request_line(method@, uri@));
    push_crlf(&mut buf);
    push_header_lines(&mut buf, headers);
    push_crlf(&mut buf);
    seqs::append_bytes(&mut buf, body);
    buf
}

/// Writes a response.
pub fn serialize_response(status: u16, headers: &[(String, String)], body: &[u8]) -> (buf: Vec<u8>)
    ensures
        buf@ == response_bytes(status, fields(headers@), body@),
{
    let mut buf: Vec<u8> = Vec::new();
    let mut code = String::new();
    text::push_decimal(&mut code, status as u64);
    assert(code@ =~= decimal_text(status as nat));
    seqs::append_bytes(&mut buf, code.as_str().as_bytes());
    assert(buf@ =~= encode_utf8(decimal_text(status as nat)));
    push_crlf(&mut buf);
    push_header_lines(&mut buf, headers);
    push_crlf(&mut buf);
    seqs::append_bytes(&mut buf, body);
    buf
}

/// What stands before the first empty line, and what stands after it.
pub open spec fn head_and_body(data: Seq<u8>) -> (Seq<u8>, Seq<u8>) {
    match first_match(data, header_end()) {
        Some(i) => (data.take(i), data.skip(i + 4)),
        None => (data, Seq::empty()),
    }
}

/// A line without the carriage return at its end.
pub open spec fn without_cr(line: Seq<u8>) -> Seq<u8> {
    if line.len() > 0 && line.last() == 13 {
        line.drop_last()
    } else {
        line
    }
}

/// The lines of a message's head.
pub open spec fn head_lines(head: Seq<u8>) -> Seq<Seq<u8>> {
    pieces(head, 10u8)
}

/// The header in a line, if there is one.
pub open spec fn header_field(line: Seq<u8>) -> Option<(Seq<char>, Seq<char>)> {
    let line = without_cr(line);
    let colon = first_index(line, 58u8);
    if colon < line.len() {
        Some((trimmed(text_of(line.take(colon))), trimmed(text_of(line.skip(colon + 1)))))
    } else {
        None
    }
}

/// All the headers in some lines.
pub open spec fn all_fields(lines: Seq<Seq<u8>>) -> Fields
    decreases lines.len(),
{
    if lines.len() == 0 {
        Seq::empty()
    } else {
        let before = all_fields(lines.drop_last());
        match header_field(lines.last()) {
            Some(field) => before.push(field),
            None => before,
        }
    }
}

/// The headers in some lines, as many as are read.
pub open spec fn header_fields(lines: Seq<Seq<u8>>) -> Fields {
    let all = all_fields(lines);
    if all.len() <= MAX_HEADERS {
        all
    } else {
        all.take(MAX_HEADERS as int)
    }
}

/// What a request says.
pub struct RequestView {
    pub method: Seq<char>,
    pub uri: Seq<char>,
    pub headers: Fields,
    pub body: Seq<u8>,
}

/// What a response says.
pub struct ResponseView {
    pub status: u16,
    pub headers: Fields,
    pub body: Seq<u8>,
}

/// The request that some bytes stand for: none if there is no space in the
/// first line.
pub open spec fn parsed_request(data: Seq<u8>) -> Option<RequestView> {
    let (head, body) = head_and_body(data);
    let lines = head_lines(head);
    let first = without_cr(lines[0]);
    let space = first_index(first, 32u8);
    if space < first.len() {
        Some(
            RequestView {
                method: text_of(first.take(space)),
                uri: text_of(first.skip(space + 1)),
                headers: header_fields(lines.skip(1)),
                body,
            },
        )
    } else {
        None
    }
}

/// The line where a response has its status.
pub open spec fn status_line(data: Seq<u8>) -> Seq<u8> {
    without_cr(head_lines(head_and_body(data).0)[0])
}

/// The text where a response has its status.
pub open spec fn status_text(data: Seq<u8>) -> Seq<char> {
    text_of(status_line(data))
}

/// The response that some bytes stand for: none if the first line is no status
/// code.
pub open spec fn parsed_response(data: Seq<u8>) -> Option<ResponseView> {
    let (head, body) = head_and_body(data);
    match bounded_value(trimmed(status_text(data)), u16::MAX as nat) {
        Some(status) => Some(
            ResponseView {
                status: status as u16,
                headers: header_fields(head_lines(head).skip(1)),
                body,
            },
        ),
        None => None,
    }
}

/// A body; nothing if it could not be read.
pub open spec fn body_in(body: Option<Vec<u8>>) -> Seq<u8> {
    match body {
        Some(body) => body@,
        None => Seq::empty(),
    }
}

/// A request taken from the wire.
pub struct DeserializedRequest {
    pub method: String,
    pub uri: String,
    pub headers: Vec<(String, String)>,
    pub body: Vec<u8>,
}

impl View for DeserializedRequest {
    type V = RequestView;

    open spec fn view(&self) -> RequestView {
        RequestView {
            method: self.method@,
            uri: self.uri@,
            headers: fields(self.headers@),
            body: self.body@,
        }
    }
}

/// A response taken from the wire.
pub struct DeserializedResponse {
    pub status: u16,
    pub headers: Vec<(String, String)>,
    pub body: Vec<u8>,
}

impl View for DeserializedResponse {
    type V = ResponseView;

    open spec fn view(&self) -> ResponseView {
        ResponseView {
            status: self.status,
            headers: fields(self.headers@),
            body: self.body@,
        }
    }
}

/// Splits a message at its first empty line.
pub fn split_head_body(data: &[u8]) -> (parts: (&[u8], &[u8]))
    ensures
        (parts.0@, parts.1@) == head_and_body(data@),
{
    let end: [u8; 4] = [13u8, 10u8, 13u8, 10u8];
    let end = end.as_slice();
    let len: usize = data.len();
    assert(end@ =~= header_end());
    match seqs::find(data, end) {
        Some(i) => (slice_subrange(data, 0, i), slice_subrange(data, i + 4, len)),
        None => {
            let empty = slice_subrange(data, len, len);
            assert(empty@ =~= Seq::empty());
            (data, empty)
        },
    }
}

/// Takes the carriage return off the end of a line.
pub fn strip_cr(line: &[u8]) -> (stripped: &[u8])
    ensures
        stripped@ == without_cr(line@),
{
    if line.len() > 0 && line[line.len() - 1] == 13u8 {
        slice_subrange(line, 0, line.len() - 1)
    } else {
        line
    }
}

proof fn lemma_all_fields_prefix(lines: Seq<Seq<u8>>, i: int)
    requires
        0 <= i <= lines.len(),
    ensures
        all_fields(lines.take(i)).is_prefix_of(all_fields(lines)),
    decreases lines.len(),
{
    if i < lines.len() {
        assert(lines.drop_last().take(i) =~= lines.take(i));
        lemma_all_fields_prefix(lines.drop_last(), i);
    } else {
        assert(lines.take(i) =~= lines);
    }
}

/// Reads the headers in some lines.
pub fn parse_headers(lines: &[&[u8]]) -> (headers: Vec<(String, String)>)
    ensures
        fields(headers@) == header_fields(contents(lines@)),
        headers@.len() <= MAX_HEADERS,
{
    let mut headers: Vec<(String, String)> = Vec::new();
    let mut i: usize = 0;
    let ghost all = contents(lines@);
    assert(fields(headers@) =~= all_fields(all.take(0)));
    while i < lines.len() && headers.len() < MAX_HEADERS
        invariant
            i <= lines@.len(),
            all == contents(lines@),
            headers@.len() <= MAX_HEADERS,
            fields(headers@) == all_fields(all.take(i as int)),
        decreases lines@.len() - i,
    {
        let line = strip_cr(lines[i]);
        let colon: usize = seqs::index_of(line, 58u8);
        let ghost before = headers@;
        if colon < line.len() {
            let name = from_utf8_lossy(slice_subrange(line, 0, colon));
            let value = from_utf8_lossy(slice_subrange(line, colon + 1, line.len()));
            headers.push((text_owned(trim(name.as_str())), text_owned(trim(value.as_str()))));
        }
        i = i + 1;
        assert(all.take(i as int).drop_last() =~= all.take(i - 1));
        assert(all.take(i as int).last() == lines@[i - 1]@);
        assert(fields(headers@) =~= all_fields(all.take(i as int)));
    }
    proof {
        lemma_all_fields_prefix(all, i as int);
        if i == lines.len() {
            assert(all.take(i as int) =~= all);
        }
        assert(fields(headers@) =~= header_fields(all));
    }
    headers
}

fn text_owned(s: &str) -> (owned: String)
    ensures
        owned@ == s@,
{
    s.to_owned()
}

fn split_lines<'a>(head: &'a [u8]) -> (lines: Vec<&'a [u8]>)
    ensures
        contents(lines@) == head_lines(head@),
        lines@.len() > 0,
{
    let lines = seqs::split(head, 10u8);
    assert(contents(lines@).len() == lines@.len());
    lines
}

/// Reads a request.
pub fn deserialize_request(data: &[u8]) -> (request: Result<DeserializedRequest, ProtoError>)
    ensures
        match request {
            Ok(request) => parsed_request(data@) == Some(request@) && request.headers@.len()
                <= MAX_HEADERS,
            Err(error) => {
                &&& parsed_request(data@) is None
                &&& error matches ProtoError::InvalidHttp(message)
                &&& message@ == "no space in request line"@
            },
        },
{
    let (head, body) = split_head_body(data);
    let lines = split_lines(head);
    assert(contents(lines@)[0] == lines@[0]@);
    let first = strip_cr(lines[0]);
    let space: usize = seqs::index_of(first, 32u8);
    if space >= first.len() {
        return Err(ProtoError::InvalidHttp(text_owned("no space in request line")));
    }
    let method = from_utf8_lossy(slice_subrange(first, 0, space));
    let uri = from_utf8_lossy(slice_subrange(first, space + 1, first.len()));
    let rest = slice_subrange(lines.as_slice(), 1, lines.len());
    let headers = parse_headers(rest);
    assert(contents(rest@) =~= head_lines(head@).skip(1));
    Ok(DeserializedRequest { method, uri, headers, body: slice_to_vec(body) })
}

/// Trimming keeps the characters that are no white space.
proof fn lemma_trimmed_keeps(s: Seq<char>, c: char)
    requires
        s.contains(c),
        !white_space(c),
    ensures
        trimmed_start(s).contains(c),
        trimmed_end(s).contains(c),
    decreases s.len(),
{
    let i = choose|i: int| 0 <= i < s.len() && s[i] == c;
    if white_space(s[0]) {
        assert(s.skip(1)[i - 1] == c);
        lemma_trimmed_keeps(s.skip(1), c);
    }
    if white_space(s.last()) {
        assert(s.drop_last()[i] == c);
        lemma_trimmed_keeps(s.drop_last(), c);
    }
}

/// A text with a character in it that is neither a digit, nor a plus sign, nor
/// white space is no number.
proof fn lemma_no_number(s: Seq<char>, c: char)
    requires
        s.contains(c),
        !white_space(c),
        c != '+',
        !text::is_digit(c),
    ensures
        bounded_value(trimmed(s), u16::MAX as nat) is None,
{
    lemma_trimmed_keeps(s, c);
    lemma_trimmed_keeps(trimmed_start(s), c);
    let inner = trimmed(s);
    let i = choose|i: int| 0 <= i < inner.len() && inner[i] == c;
    if inner[0] == '+' {
        assert(inner.skip(1)[i - 1] == c);
        assert(!all_digits(inner.skip(1)));
    } else {
        assert(!all_digits(inner));
    }
}

/// Reads a response.
pub fn deserialize_response(data: &[u8]) -> (response: Result<DeserializedResponse, ProtoError>)
    ensures
        match response {
            Ok(response) => parsed_response(data@) == Some(response@) && response.headers@.len()
                <= MAX_HEADERS,
            Err(error) => {
                &&& parsed_response(data@) is None
                &&& error matches ProtoError::InvalidHttp(message)
                &&& message@ == "invalid status code: "@ + status_text(data@)
            },
        },
        !valid_utf8(status_line(data@)) ==> response is Err,
{
    let (head, body) = split_head_body(data);
    let lines = split_lines(head);
    assert(contents(lines@)[0] == lines@[0]@);
    let status_line = from_utf8_lossy(strip_cr(lines[0]));
    proof {
        if status_line@.contains('\u{fffd}') {
            lemma_no_number(status_line@, '\u{fffd}');
        }
    }
    match text::parse_decimal(trim(status_line.as_str()), u16::MAX as u64) {
        Some(status) => {
            let rest = slice_subrange(lines.as_slice(), 1, lines.len());
            let headers = parse_headers(rest);
            assert(contents(rest@) =~= head_lines(head@).skip(1));
            Ok(DeserializedResponse { status: status as u16, headers, body: slice_to_vec(body) })
        },
        None => {
            let mut message = text_owned("invalid status code: ");
            message.append(status_line.as_str());
            Err(ProtoError::InvalidHttp(message))
        },
    }
}

/// What a client asks for when it opens a tunnel.
#[derive(Debug, Clone)]
pub struct RegistrationRequest {
    pub subdomain: Option<String>,
    pub token: Option<String>,
    pub password: Option<String>,
}

/// What the relay answers.
#[derive(Debug, Clone)]
pub struct RegistrationResponse {
    pub ok: bool,
    pub url: String,
    pub subdomain: String,
    pub error: Option<String>,
}

} // verus!
