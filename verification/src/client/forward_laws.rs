//! What the client asks of the local server, and what it sends back.

use crate::client::forward::{
    answer_for, end_to_end, plan_for, LocalOutcome, LocalRequest, Plan, PlanView,
};
use crate::headers::{raw_fields, text_fields};
use crate::outside::is_token;
use crate::proto::{fields, frame_bytes, parsed_request, response_bytes, Fields, RequestView};
use crate::text::{decimal_text, lower};
use vstd::prelude::*;
use vstd::utf8::encode_utf8;

verus! {

/// The headers that go on are those whose names are none of nine, whatever their
/// case; all of them do, in order.
pub proof fn nine_headers_stay_behind(headers: Fields)
    ensures
        end_to_end(headers) == headers.filter(
            |field: (Seq<char>, Seq<char>)|
                {
                    let name = lower(field.0);
                    &&& name != "connection"@
                    &&& name != "host"@
                    &&& name != "keep-alive"@
                    &&& name != "proxy-authenticate"@
                    &&& name != "proxy-authorization"@
                    &&& name != "te"@
                    &&& name != "trailer"@
                    &&& name != "transfer-encoding"@
                    &&& name != "upgrade"@
                },
        ),
    decreases headers.len(),
{
    reveal(Seq::filter);
    if headers.len() > 0 {
        nine_headers_stay_behind(headers.drop_last());
    }
}

/// A header whose name is none of the nine goes on, with its value as it is; one
/// whose name is does not.
pub proof fn other_headers_go_on(headers: Fields, field: (Seq<char>, Seq<char>))
    ensures
        lower(field.0) != "connection"@ && lower(field.0) != "host"@ && lower(field.0)
            != "keep-alive"@ && lower(field.0) != "proxy-authenticate"@ && lower(field.0)
            != "proxy-authorization"@ && lower(field.0) != "te"@ && lower(field.0) != "trailer"@
            && lower(field.0) != "transfer-encoding"@ && lower(field.0) != "upgrade"@
            ==> end_to_end(headers.push(field)) == end_to_end(headers).push(field),
        lower(field.0) == "connection"@ || lower(field.0) == "host"@ || lower(field.0)
            == "keep-alive"@ || lower(field.0) == "proxy-authenticate"@ || lower(field.0)
            == "proxy-authorization"@ || lower(field.0) == "te"@ || lower(field.0) == "trailer"@
            || lower(field.0) == "transfer-encoding"@ || lower(field.0) == "upgrade"@
            ==> end_to_end(headers.push(field)) == end_to_end(headers),
{
    assert(headers.push(field).drop_last() =~= headers);
}

/// A request that comes in a frame is asked of the local server under the frame's
/// ID: with its method, at its whole URI on the local port, with its headers but
/// for those between neighbours, and with its body if it has one.
pub proof fn whole_request_is_asked(frame: Seq<u8>, port: u16, request: RequestView)
    requires
        frame.len() >= 4,
        parsed_request(frame.skip(4)) == Some(request),
        is_token(request.method),
    ensures
        ({
            let start = "http://127.0.0.1:"@ + decimal_text(port as nat);
            &&& plan_for(frame, port) matches PlanView::Ask(asked)
            &&& asked.request_id == frame[0] * 0x100_0000 + frame[1] * 0x1_0000 + frame[2] * 0x100
                + frame[3]
            &&& asked.method == request.method
            &&& asked.url.len() == start.len() + request.uri.len()
            &&& asked.url.take(start.len() as int) == start
            &&& asked.url.skip(asked.url.len() - request.uri.len()) == request.uri
            &&& asked.headers == end_to_end(request.headers)
            &&& request.body.len() > 0 ==> asked.body == Some(request.body)
            &&& request.body.len() == 0 ==> asked.body is None
        }),
{
    let start = "http://127.0.0.1:"@ + decimal_text(port as nat);
    let asked = plan_for(frame, port)->Ask_0;
    assert(asked.url.take(start.len() as int) =~= start);
    assert(asked.url.skip(asked.url.len() - request.uri.len()) =~= request.uri);
}

/// What is too short for an ID is ignored; what carries no request, or one whose
/// method is no token, is answered under its ID with the status 400.
pub proof fn bad_requests_are_refused(frame: Seq<u8>, port: u16)
    ensures
        plan_for(frame, port) == PlanView::Ignore <==> frame.len() < 4,
        frame.len() >= 4 ==> {
            let id = (frame[0] * 0x100_0000 + frame[1] * 0x1_0000 + frame[2] * 0x100 + frame[3]) as
                u32;
            match parsed_request(frame.skip(4)) {
                None => plan_for(frame, port) == PlanView::Answer(
                    frame_bytes(
                        id,
                        response_bytes(
                            400,
                            seq![("content-type"@, "text/html"@)],
                            encode_utf8("Bad Request"@),
                        ),
                    ),
                ),
                Some(request) => !is_token(request.method) ==> plan_for(frame, port)
                    == PlanView::Answer(
                    frame_bytes(
                        id,
                        response_bytes(
                            400,
                            seq![("content-type"@, "text/html"@)],
                            encode_utf8("Invalid method"@),
                        ),
                    ),
                ),
            }
        },
{
}

/// A local server's response goes back under the request's ID with its status, its
/// headers as text but for those between neighbours, and its body; one that could
/// not be read is empty.
pub proof fn whole_response_goes_back(
    id: u32,
    port: u16,
    status: u16,
    headers: Vec<(String, Vec<u8>)>,
    body: Vec<u8>,
)
    ensures
        answer_for(id, port, LocalOutcome::Responded { status, headers, body: Some(body) })
            == frame_bytes(
            id,
            response_bytes(status, end_to_end(text_fields(raw_fields(headers@))), body@),
        ),
        answer_for(id, port, LocalOutcome::Responded { status, headers, body: None })
            == frame_bytes(
            id,
            response_bytes(status, end_to_end(text_fields(raw_fields(headers@))), Seq::empty()),
        ),
{
}

/// A local server that does not answer in time is told of with the status 504, one
/// that cannot be asked with 502 and the reason; both name the port.
pub proof fn failures_go_back(id: u32, port: u16, reason: String)
    ensures
        answer_for(id, port, LocalOutcome::TimedOut) == frame_bytes(
            id,
            response_bytes(
                504,
                seq![("content-type"@, "text/html"@)],
                encode_utf8(
                    "<html><body style=\"font-family:system-ui;text-align:center;padding:40px\"><h1>504 Gateway Timeout</h1><p>localhost:"@
                        + decimal_text(port as nat)
                        + " did not respond within 30 seconds</p></body></html>"@,
                ),
            ),
        ),
        answer_for(id, port, LocalOutcome::Failed(reason)) == frame_bytes(
            id,
            response_bytes(
                502,
                seq![("content-type"@, "text/html"@)],
                encode_utf8(
                    "<html><body style=\"font-family:system-ui;text-align:center;padding:40px\"><h1>502 Bad Gateway</h1><p>Could not connect to localhost:"@
                        + decimal_text(port as nat) + "</p><p style=\"color:#999\">"@ + reason@
                        + "</p></body></html>"@,
                ),
            ),
        ),
{
}

/// Requests and plans say what is in them.
pub proof fn plans_say_what_is_in_them(request: LocalRequest, frame: Vec<u8>)
    ensures
        request@.request_id == request.request_id,
        request@.method == request.method@,
        request@.url == request.url@,
        request@.headers == fields(request.headers@),
        request@.body == (match request.body {
            Some(body) => Some(body@),
            None => None,
        }),
        Plan::Ignore@ == PlanView::Ignore,
        Plan::Answer(frame)@ == PlanView::Answer(frame@),
        Plan::Ask(request)@ == PlanView::Ask(request@),
{
}

} // verus!
