//! What holds of the relay and the client together: a visitor's request reaches
//! the local server, and the local server's response reaches that visitor.

use crate::client::forward::{
    answer_for, end_to_end, error_frame, failure_html, nonempty, plan_for, served_at,
    timeout_html, LocalOutcome, LocalRequestView, PlanView,
};
use crate::headers::{raw_fields, text_field, text_fields, text_or_nothing, RawFields};
use crate::message::{IncomingView, MessageView};
use crate::outside::{
    header_name_text, header_value_text, is_token, token_char, trimmed, visible, visible_byte,
    white_space,
};
use crate::proto::{
    body_in, frame_bytes, frame_id, response_bytes, Fields, RequestView, ResponseView, MAX_HEADERS,
};
use crate::proto_laws::{
    clean_field, clean_fields, clean_request, frame_roundtrip, request_roundtrip,
    response_roundtrip,
};
use crate::relay::handler::{forwarded_request, is_sound, relayed};
use crate::relay::http::HeadView;
use crate::relay::registry::ConnectionView;
use crate::relay::session::{session_step, SessionActionView, SessionEventView, Stage};
use crate::text::{decimal_text, lower};
use vstd::prelude::*;
use vstd::utf8::encode_utf8;

verus! {

/// Whether a byte is a space or a tab.
pub open spec fn blank(b: u8) -> bool {
    b == 32 || b == 9
}

/// A header as HTTP has it: its name is a token, and its value has no blanks
/// around it.
pub open spec fn is_http_field(field: (Seq<char>, Seq<u8>)) -> bool {
    &&& header_name_text(field.0)
    &&& field.1.len() > 0 ==> !blank(field.1[0]) && !blank(field.1.last())
}

/// Headers as HTTP has them, and no more of them than are passed on.
pub open spec fn are_http_fields(headers: RawFields) -> bool {
    &&& headers.len() <= MAX_HEADERS
    &&& forall|i: int| 0 <= i < headers.len() ==> is_http_field(#[trigger] headers[i])
}

proof fn lemma_token_is_clean(s: Seq<char>)
    requires
        is_token(s),
    ensures
        !s.contains(' '),
        !s.contains('\n'),
        !s.contains(':'),
        trimmed(s) == s,
{
    assert forall|c: char| s.contains(c) implies token_char(c) by {
        let i = choose|i: int| 0 <= i < s.len() && s[i] == c;
        assert(token_char(s[i]));
    }
    assert(token_char(s[0]));
    assert(token_char(s.last()));
}

/// A header as HTTP has it survives the wire as text, and can be given to a
/// visitor.
proof fn lemma_http_field(field: (Seq<char>, Seq<u8>))
    requires
        is_http_field(field),
    ensures
        clean_field(text_field(field)),
        header_value_text(text_field(field).1),
{
    lemma_token_is_clean(field.0);
    let value = text_or_nothing(field.1);
    if visible(field.1) {
        assert forall|i: int| 0 <= i < value.len() implies value[i] != '\n' && ((' '
            <= #[trigger] value[i] && value[i] != '\u{7f}') || value[i] == '\t') by {
            assert(visible_byte(field.1[i]));
        }
        if value.len() > 0 {
            assert(visible_byte(field.1[0]));
            assert(visible_byte(field.1[field.1.len() - 1]));
            assert(!white_space(value[0]));
            assert(!white_space(value.last()));
        }
    }
    assert(trimmed(value) == value);
}

/// The headers that go on are among those that came.
proof fn lemma_end_to_end(headers: Fields)
    ensures
        end_to_end(headers).len() <= headers.len(),
        forall|i: int|
            0 <= i < end_to_end(headers).len() ==> headers.contains(
                #[trigger] end_to_end(headers)[i],
            ),
    decreases headers.len(),
{
    if headers.len() > 0 {
        let before = headers.drop_last();
        lemma_end_to_end(before);
        assert forall|i: int| 0 <= i < end_to_end(headers).len() implies headers.contains(
            #[trigger] end_to_end(headers)[i],
        ) by {
            let field = end_to_end(headers)[i];
            if i < end_to_end(before).len() {
                assert(field == end_to_end(before)[i]);
                let k = choose|k: int| 0 <= k < before.len() && before[k] == field;
                assert(headers[k] == field);
            } else {
                assert(headers[headers.len() - 1] == field);
            }
        }
    }
}

/// Headers as HTTP has them survive the wire, and what goes on of them can be
/// given to a visitor.
pub proof fn http_headers_survive(headers: RawFields)
    requires
        are_http_fields(headers),
    ensures
        clean_fields(text_fields(headers)),
        clean_fields(end_to_end(text_fields(headers))),
        forall|status: u16, body: Seq<u8>|
            100 <= status <= 999 ==> #[trigger] is_sound(
                ResponseView { status, headers: end_to_end(text_fields(headers)), body },
            ),
{
    let all = text_fields(headers);
    let kept = end_to_end(all);
    assert forall|i: int| 0 <= i < all.len() implies clean_field(#[trigger] all[i])
        && header_name_text(all[i].0) && header_value_text(all[i].1) by {
        assert(is_http_field(headers[i]));
        lemma_http_field(headers[i]);
    }
    lemma_end_to_end(all);
    assert forall|i: int| 0 <= i < kept.len() implies clean_field(#[trigger] kept[i])
        && header_name_text(kept[i].0) && header_value_text(kept[i].1) by {
        let k = choose|k: int| 0 <= k < all.len() && all[k] == kept[i];
        assert(clean_field(all[k]));
    }
}

/// A request as it is read from the wire, once it was sent there.
pub open spec fn sent_request(head: HeadView, body: Seq<u8>) -> RequestView {
    RequestView {
        method: head.method,
        uri: head.uri,
        headers: text_fields(head.headers),
        body,
    }
}

/// The local server is asked what the visitor asked: the same method, URI and
/// body, and the same headers but for those between neighbours.
pub proof fn request_arrives(head: HeadView, body: Seq<u8>, id: u32, port: u16)
    requires
        is_token(head.method),
        clean_request(sent_request(head, body)),
    ensures
        plan_for(frame_bytes(id, forwarded_request(head, body)), port) == PlanView::Ask(
            LocalRequestView {
                request_id: id,
                method: head.method,
                url: served_at(port, head.uri),
                headers: end_to_end(text_fields(head.headers)),
                body: nonempty(body),
            },
        ),
        ({
            let start = "http://127.0.0.1:"@ + decimal_text(port as nat);
            &&& plan_for(
                frame_bytes(id, forwarded_request(head, body)),
                port,
            ) matches PlanView::Ask(asked)
            &&& asked.url.len() == start.len() + head.uri.len()
            &&& asked.url.take(start.len() as int) == start
            &&& asked.url.skip(asked.url.len() - head.uri.len()) == head.uri
            &&& body.len() > 0 ==> asked.body == Some(body)
            &&& body.len() == 0 ==> asked.body is None
        }),
{
    let start = "http://127.0.0.1:"@ + decimal_text(port as nat);
    assert((start + head.uri).take(start.len() as int) =~= start);
    assert((start + head.uri).skip(start.len() as int) =~= head.uri);
    request_roundtrip(sent_request(head, body));
    frame_roundtrip(id, forwarded_request(head, body));
}

/// A request as HTTP has it, with a token for its method and its URI on one
/// line, survives the wire.
pub proof fn http_requests_survive(head: HeadView, body: Seq<u8>)
    requires
        is_token(head.method),
        !head.uri.contains('\n'),
        !head.uri.contains('\r'),
        are_http_fields(head.headers),
    ensures
        clean_request(sent_request(head, body)),
{
    lemma_token_is_clean(head.method);
    http_headers_survive(head.headers);
    if head.uri.len() > 0 {
        assert(head.uri.contains(head.uri.last()));
    }
}

/// What a visitor is answered who waits for what the client sends back in a
/// frame.
pub open spec fn delivered<R>(conn: ConnectionView<R>, frame: Seq<u8>, waiter: R) -> Option<
    ResponseView,
> {
    match session_step(
        Stage::Serving,
        conn,
        SessionEventView::Received(IncomingView::Message(MessageView::Binary(frame))),
    ).2 {
        SessionActionView::Deliver(receiver, data) => if receiver == waiter {
            Some(relayed(data))
        } else {
            None
        },
        _ => None,
    }
}

/// What goes back of a local server's response.
pub open spec fn sent_response(
    status: u16,
    headers: Vec<(String, Vec<u8>)>,
    body: Option<Vec<u8>>,
) -> ResponseView {
    ResponseView {
        status,
        headers: end_to_end(text_fields(raw_fields(headers@))),
        body: body_in(body),
    }
}

/// The visitor is answered what the local server responded: the same status and
/// body, and the same headers but for those between neighbours.
pub proof fn response_arrives<R>(
    conn: ConnectionView<R>,
    waiter: R,
    port: u16,
    status: u16,
    headers: Vec<(String, Vec<u8>)>,
    body: Option<Vec<u8>>,
)
    requires
        conn.wf(),
        !conn.is_full(),
        clean_fields(sent_response(status, headers, body).headers),
        is_sound(sent_response(status, headers, body)),
    ensures
        delivered(
            conn.with_waiter(waiter),
            answer_for(conn.next_id, port, LocalOutcome::Responded { status, headers, body }),
            waiter,
        ) == Some(sent_response(status, headers, body)),
{
    let response = sent_response(status, headers, body);
    response_roundtrip(response);
    frame_roundtrip(
        conn.next_id,
        response_bytes(response.status, response.headers, response.body),
    );
}

proof fn lemma_error_frame(id: u32, status: u16, html: Seq<char>)
    requires
        100 <= status <= 999,
    ensures
        error_frame(id, status, html).len() >= 4,
        frame_id(error_frame(id, status, html)) == id,
        relayed(error_frame(id, status, html).skip(4)) == (ResponseView {
            status,
            headers: seq![("content-type"@, "text/html"@)],
            body: encode_utf8(html),
        }),
{
    reveal_strlit("content-type");
    reveal_strlit("text/html");
    let name = "content-type"@;
    let value = "text/html"@;
    let response = ResponseView {
        status,
        headers: seq![(name, value)],
        body: encode_utf8(html),
    };
    assert(is_token(name));
    lemma_token_is_clean(name);
    assert(header_value_text(value));
    assert(!value.contains('\n'));
    assert(trimmed(value) == value);
    assert(clean_fields(response.headers));
    response_roundtrip(response);
    frame_roundtrip(id, response_bytes(status, response.headers, response.body));
    assert(is_sound(response));
}

/// The visitor is told if the local server does not answer in time, and if it
/// cannot be reached.
pub proof fn failure_arrives<R>(
    conn: ConnectionView<R>,
    waiter: R,
    port: u16,
    reason: String,
)
    requires
        conn.wf(),
        !conn.is_full(),
    ensures
        delivered(
            conn.with_waiter(waiter),
            answer_for(conn.next_id, port, LocalOutcome::TimedOut),
            waiter,
        ) == Some(
            ResponseView {
                status: 504,
                headers: seq![("content-type"@, "text/html"@)],
                body: encode_utf8(timeout_html(port)),
            },
        ),
        delivered(
            conn.with_waiter(waiter),
            answer_for(conn.next_id, port, LocalOutcome::Failed(reason)),
            waiter,
        ) == Some(
            ResponseView {
                status: 502,
                headers: seq![("content-type"@, "text/html"@)],
                body: encode_utf8(failure_html(port, reason@)),
            },
        ),
{
    lemma_error_frame(conn.next_id, 504, timeout_html(port));
    lemma_error_frame(conn.next_id, 502, failure_html(port, reason@));
}

/// No header between neighbours goes on, and every other one does.
pub proof fn neighbours_headers_stay(headers: Fields, field: (Seq<char>, Seq<char>))
    ensures
        end_to_end(headers).contains(field) <==> headers.contains(field) && lower(field.0)
            != "connection"@ && lower(field.0) != "host"@ && lower(field.0) != "keep-alive"@
            && lower(field.0) != "proxy-authenticate"@ && lower(field.0)
            != "proxy-authorization"@ && lower(field.0) != "te"@ && lower(field.0) != "trailer"@
            && lower(field.0) != "transfer-encoding"@ && lower(field.0) != "upgrade"@,
    decreases headers.len(),
{
    if headers.len() > 0 {
        let before = headers.drop_last();
        let last = headers.last();
        neighbours_headers_stay(before, field);
        lemma_push_contains(before, last, field);
        lemma_push_contains(end_to_end(before), last, field);
        assert(before.push(last) =~= headers);
    }
}

proof fn lemma_push_contains<T>(s: Seq<T>, last: T, x: T)
    ensures
        s.push(last).contains(x) <==> s.contains(x) || last == x,
{
    if s.contains(x) {
        let k = choose|k: int| 0 <= k < s.len() && s[k] == x;
        assert(s.push(last)[k] == x);
    }
    assert(s.push(last).last() == last);
}

} // verus!
