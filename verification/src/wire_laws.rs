//! What stands on the wire, and what is read from it, byte by byte.

use crate::headers::{first_value, header_text, text_fields, RawFields};
use crate::outside::{ascii_text, trimmed, visible, visible_byte};
use crate::proto::{
    all_fields, body_in, crlf, fields, frame_bytes, frame_id, head_and_body, header_end,
    header_field, header_fields, header_line, header_lines, id_bytes, json_message, message_bytes,
    parsed_request, parsed_response, request_bytes, request_line, response_bytes, status_line,
    status_text, without_cr, DeserializedRequest, DeserializedResponse, Fields, RequestView,
    ResponseView,
};
use crate::seq_laws::{first_place_is_found, place_is_found, stands_at};
use crate::seqs::{first_match, lemma_first_index, lemma_first_index_is, pieces};
use crate::text::{bounded_value, decimal_text, lower, text_of};
use vstd::prelude::*;
use vstd::utf8::encode_utf8;

verus! {

/// A frame has the request ID in its first four bytes, the most significant one
/// first, and what is said about the request after them.
pub proof fn frames_begin_with_the_id(id: u32, data: Seq<u8>, frame: Seq<u8>)
    ensures
        ({
            let made = frame_bytes(id, data);
            &&& made.len() == data.len() + 4
            &&& made[0] * 0x100_0000 + made[1] * 0x1_0000 + made[2] * 0x100 + made[3] == id
            &&& forall|i: int| 0 <= i < data.len() ==> made[i + 4] == #[trigger] data[i]
        }),
        frame.len() >= 4 ==> frame_id(frame) == frame[0] * 0x100_0000 + frame[1] * 0x1_0000
            + frame[2] * 0x100 + frame[3],
{
    let made = frame_bytes(id, data);
    assert(made[0] == id_bytes(id)[0]);
    assert(made[1] == id_bytes(id)[1]);
    assert(made[2] == id_bytes(id)[2]);
    assert(made[3] == id_bytes(id)[3]);
    assert forall|i: int| 0 <= i < data.len() implies made[i + 4] == #[trigger] data[i] by {}
}

/// A request is its method, a space and its URI, a line for each header, an empty
/// line, and its body.
pub proof fn requests_are_written(
    method: Seq<char>,
    uri: Seq<char>,
    headers: Fields,
    field: (Seq<char>, Seq<char>),
    body: Seq<u8>,
)
    ensures
        request_bytes(method, uri, Seq::empty(), body) == encode_utf8(method) + seq![32u8]
            + encode_utf8(uri) + seq![13u8, 10u8, 13u8, 10u8] + body,
        request_bytes(method, uri, headers.push(field), body) == request_bytes(
            method,
            uri,
            headers,
            Seq::empty(),
        ).drop_last().drop_last() + encode_utf8(field.0) + seq![58u8, 32u8] + encode_utf8(field.1)
            + seq![13u8, 10u8, 13u8, 10u8] + body,
{
    lemma_message_written(request_line(method, uri), headers, field, body);
    assert(request_bytes(method, uri, Seq::empty(), body) =~= encode_utf8(method) + seq![32u8]
        + encode_utf8(uri) + seq![13u8, 10u8, 13u8, 10u8] + body);
}

/// A response is its status in decimal, a line for each header, an empty line, and
/// its body.
pub proof fn responses_are_written(
    status: u16,
    headers: Fields,
    field: (Seq<char>, Seq<char>),
    body: Seq<u8>,
)
    ensures
        response_bytes(status, Seq::empty(), body) == encode_utf8(decimal_text(status as nat))
            + seq![13u8, 10u8, 13u8, 10u8] + body,
        response_bytes(status, headers.push(field), body) == response_bytes(
            status,
            headers,
            Seq::empty(),
        ).drop_last().drop_last() + encode_utf8(field.0) + seq![58u8, 32u8] + encode_utf8(field.1)
            + seq![13u8, 10u8, 13u8, 10u8] + body,
{
    lemma_message_written(encode_utf8(decimal_text(status as nat)), headers, field, body);
}

proof fn lemma_message_written(
    first: Seq<u8>,
    headers: Fields,
    field: (Seq<char>, Seq<char>),
    body: Seq<u8>,
)
    ensures
        message_bytes(first, Seq::empty(), body) == first + seq![13u8, 10u8, 13u8, 10u8] + body,
        message_bytes(first, headers.push(field), body) == message_bytes(
            first,
            headers,
            Seq::empty(),
        ).drop_last().drop_last() + encode_utf8(field.0) + seq![58u8, 32u8] + encode_utf8(field.1)
            + seq![13u8, 10u8, 13u8, 10u8] + body,
{
    let lines = header_lines(headers);
    assert(headers.push(field).drop_last() =~= headers);
    assert(header_lines(headers.push(field)) == lines + header_line(field));
    assert(message_bytes(first, Seq::empty(), body) =~= first + seq![13u8, 10u8, 13u8, 10u8]
        + body);
    let shorter = message_bytes(first, headers, Seq::empty()).drop_last().drop_last();
    assert(shorter =~= first + crlf() + lines);
    assert(message_bytes(first, headers.push(field), body) =~= shorter + encode_utf8(field.0)
        + seq![58u8, 32u8] + encode_utf8(field.1) + seq![13u8, 10u8, 13u8, 10u8] + body);
}

/// A message falls apart at its first empty line; without one it has no body.
pub proof fn messages_part_at_the_empty_line(head: Seq<u8>, body: Seq<u8>)
    ensures
        ({
            let end = seq![13u8, 10u8, 13u8, 10u8];
            let data = head + end + body;
            &&& (forall|j: int| 0 <= j < head.len() ==> !#[trigger] stands_at(data, end, j))
                ==> head_and_body(data) == (head, body)
            &&& (forall|j: int| !#[trigger] stands_at(head, end, j)) ==> head_and_body(head) == (
                head,
                Seq::<u8>::empty(),
            )
        }),
{
    let end = seq![13u8, 10u8, 13u8, 10u8];
    let data = head + end + body;
    assert(header_end() =~= end);
    let n = head.len() as int;
    assert(data.subrange(n, n + 4) =~= end);
    if forall|j: int| 0 <= j < n ==> !#[trigger] stands_at(data, end, j) {
        place_is_found(data, end, n);
        assert(data.take(n) =~= head);
        assert(data.skip(n + 4) =~= body);
    }
    first_place_is_found(head, end);
    if let Some(i) = first_match(head, end) {
        assert(stands_at(head, end, i));
    }
}

/// One carriage return is taken off the end of a line, if there is one.
pub proof fn carriage_returns_are_stripped(line: Seq<u8>)
    ensures
        without_cr(line.push(13u8)) == line,
        line.len() == 0 || line.last() != 13 ==> without_cr(line) == line,
{
    assert(line.push(13u8).drop_last() =~= line);
}

/// A header is what stands before the first colon of a line and what stands after
/// it, both as text without the white space around it. A line without a colon is
/// no header.
pub proof fn header_lines_are_read(name: Seq<u8>, value: Seq<u8>)
    requires
        !name.contains(58u8),
    ensures
        value.len() == 0 || value.last() != 13 ==> header_field(name + seq![58u8] + value) == Some(
            (trimmed(text_of(name)), trimmed(text_of(value))),
        ),
        header_field((name + seq![58u8] + value).push(13u8)) == Some(
            (trimmed(text_of(name)), trimmed(text_of(value))),
        ),
        header_field(name) is None,
{
    let line = name + seq![58u8] + value;
    assert forall|i: int| 0 <= i < name.len() implies line[i] != 58 by {
        assert(name.contains(name[i]));
    }
    lemma_first_index_is(line, 58u8, name.len() as int);
    assert(line.take(name.len() as int) =~= name);
    assert(line.skip((name.len() + 1) as int) =~= value);
    assert(line.push(13u8).drop_last() =~= line);
    if value.len() == 0 || value.last() != 13 {
        assert(line.last() != 13);
    }
    let bare = without_cr(name);
    lemma_first_index(bare, 58u8);
    if bare.contains(58u8) {
        let i = choose|i: int| 0 <= i < bare.len() && bare[i] == 58;
        assert(name[i] == 58);
    }
}

/// Headers are read line by line, in order, and no more than a hundred of them.
pub proof fn headers_are_read_in_order(lines: Seq<Seq<u8>>, line: Seq<u8>)
    ensures
        all_fields(Seq::empty()) == Fields::empty(),
        all_fields(lines.push(line)) == (match header_field(line) {
            Some(field) => all_fields(lines).push(field),
            None => all_fields(lines),
        }),
        all_fields(lines).len() <= 100 ==> header_fields(lines) == all_fields(lines),
        all_fields(lines).len() > 100 ==> header_fields(lines) == all_fields(lines).take(100),
{
    assert(lines.push(line).drop_last() =~= lines);
}

/// A request has its method before the first space of its first line, its URI
/// after it, its headers in the lines that follow, and its body after the empty
/// line. Without a space there is no request.
pub proof fn requests_are_read(data: Seq<u8>, method: Seq<u8>, uri: Seq<u8>)
    ensures
        ({
            let (head, body) = head_and_body(data);
            let lines = pieces(head, 10u8);
            let first = without_cr(lines[0]);
            &&& !method.contains(32u8) && first == method + seq![32u8] + uri ==> parsed_request(
                data,
            ) == Some(
                RequestView {
                    method: text_of(method),
                    uri: text_of(uri),
                    headers: header_fields(lines.skip(1)),
                    body,
                },
            )
            &&& !first.contains(32u8) ==> parsed_request(data) is None
        }),
{
    let first = without_cr(pieces(head_and_body(data).0, 10u8)[0]);
    lemma_first_index(first, 32u8);
    if !method.contains(32u8) && first == method + seq![32u8] + uri {
        assert forall|i: int| 0 <= i < method.len() implies first[i] != 32 by {
            assert(method.contains(method[i]));
        }
        lemma_first_index_is(first, 32u8, method.len() as int);
        assert(first.take(method.len() as int) =~= method);
        assert(first.skip((method.len() + 1) as int) =~= uri);
    }
}

/// A response has its status, a number below 65536, in its first line, its headers
/// in the lines that follow, and its body after the empty line. Without such a
/// number there is no response.
pub proof fn responses_are_read(data: Seq<u8>)
    ensures
        ({
            let (head, body) = head_and_body(data);
            let lines = pieces(head, 10u8);
            let said = trimmed(text_of(without_cr(lines[0])));
            &&& status_line(data) == without_cr(lines[0])
            &&& status_text(data) == text_of(without_cr(lines[0]))
            &&& match bounded_value(said, 65535) {
                Some(status) => parsed_response(data) == Some(
                    ResponseView {
                        status: status as u16,
                        headers: header_fields(lines.skip(1)),
                        body,
                    },
                ),
                None => parsed_response(data) is None,
            }
        }),
{
}

/// A body that could not be read is empty; and messages say what is in them.
pub proof fn messages_say_what_is_in_them(
    body: Vec<u8>,
    request: DeserializedRequest,
    response: DeserializedResponse,
)
    ensures
        body_in(Some(body)) == body@,
        body_in(None).len() == 0,
        json_message(request.uri@) == "JSON error: "@ + request.uri@,
        request@.method == request.method@,
        request@.uri == request.uri@,
        request@.headers == fields(request.headers@),
        request@.body == request.body@,
        response@.status == response.status,
        response@.headers == fields(response.headers@),
        response@.body == response.body@,
{
}

/// Looking up a header gives the first one whose name is the same but for case,
/// as text if all its bytes are visible; anything else gives nothing.
pub proof fn first_header_is_found(headers: RawFields, name: Seq<char>, i: int)
    ensures
        0 <= i < headers.len() && lower(headers[i].0) == lower(name) && (forall|j: int|
            0 <= j < i ==> lower(#[trigger] headers[j].0) != lower(name)) ==> {
            let value = headers[i].1;
            if forall|k: int|
                0 <= k < value.len() ==> 32 <= #[trigger] value[k] <= 126 || value[k] == 9 {
                &&& header_text(headers, name) matches Some(text)
                &&& text.len() == value.len()
                &&& forall|k: int| 0 <= k < value.len() ==> #[trigger] text[k] as u32 == value[k]
            } else {
                header_text(headers, name) is None
            }
        },
        (forall|j: int| 0 <= j < headers.len() ==> lower(#[trigger] headers[j].0) != lower(name))
            ==> header_text(headers, name) is None,
{
    if 0 <= i < headers.len() && lower(headers[i].0) == lower(name) && (forall|j: int|
        0 <= j < i ==> lower(#[trigger] headers[j].0) != lower(name)) {
        lemma_first_value(headers, name, i);
        lemma_visible(headers[i].1);
    }
    if forall|j: int| 0 <= j < headers.len() ==> lower(#[trigger] headers[j].0) != lower(name) {
        lemma_no_value(headers, name);
    }
}

proof fn lemma_first_value(headers: RawFields, name: Seq<char>, i: int)
    requires
        0 <= i < headers.len(),
        lower(headers[i].0) == lower(name),
        forall|j: int| 0 <= j < i ==> lower(#[trigger] headers[j].0) != lower(name),
    ensures
        first_value(headers, name) == Some(headers[i].1),
    decreases headers.len(),
{
    if i > 0 {
        assert(lower(headers[0].0) != lower(name));
        assert forall|j: int| 0 <= j < i - 1 implies lower(#[trigger] headers.skip(1)[j].0)
            != lower(name) by {
            assert(headers.skip(1)[j] == headers[j + 1]);
        }
        lemma_first_value(headers.skip(1), name, i - 1);
    }
}

proof fn lemma_no_value(headers: RawFields, name: Seq<char>)
    requires
        forall|j: int| 0 <= j < headers.len() ==> lower(#[trigger] headers[j].0) != lower(name),
    ensures
        first_value(headers, name) is None,
    decreases headers.len(),
{
    if headers.len() > 0 {
        assert(lower(headers[0].0) != lower(name));
        assert forall|j: int| 0 <= j < headers.skip(1).len() implies lower(
            #[trigger] headers.skip(1)[j].0,
        ) != lower(name) by {
            assert(headers.skip(1)[j] == headers[j + 1]);
        }
        lemma_no_value(headers.skip(1), name);
    }
}

proof fn lemma_visible(value: Seq<u8>)
    ensures
        visible(value) <==> forall|k: int|
            0 <= k < value.len() ==> 32 <= #[trigger] value[k] <= 126 || value[k] == 9,
        visible(value) ==> forall|k: int|
            0 <= k < value.len() ==> #[trigger] ascii_text(value)[k] as u32 == value[k],
{
    if visible(value) {
        assert forall|k: int| 0 <= k < value.len() implies #[trigger] ascii_text(value)[k] as u32
            == value[k] && (32 <= value[k] <= 126 || value[k] == 9) by {
            assert(visible_byte(value[k]));
        }
        assert forall|k: int| 0 <= k < value.len() implies 32 <= #[trigger] value[k] <= 126
            || value[k] == 9 by {
            assert(visible_byte(value[k]));
        }
    }
}

/// As text, headers keep their names and their order; a value keeps its characters
/// if all its bytes are visible, and is empty otherwise.
pub proof fn headers_become_text(headers: RawFields, i: int)
    ensures
        text_fields(headers).len() == headers.len(),
        0 <= i < headers.len() ==> {
            let (name, value) = headers[i];
            let (text_name, text) = text_fields(headers)[i];
            &&& text_name == name
            &&& if forall|k: int|
                0 <= k < value.len() ==> 32 <= #[trigger] value[k] <= 126 || value[k] == 9 {
                &&& text.len() == value.len()
                &&& forall|k: int| 0 <= k < value.len() ==> #[trigger] text[k] as u32 == value[k]
            } else {
                text.len() == 0
            }
        },
{
    if 0 <= i < headers.len() {
        lemma_visible(headers[i].1);
    }
}

} // verus!
