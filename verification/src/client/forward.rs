//! What the client makes of a request that comes through the tunnel, and of the
//! local server's response.

use crate::headers::{raw_fields, text_fields, text_headers};
use crate::outside::{is_method, is_token};
use crate::proto::{
    body_in, decode_frame, deserialize_request, encode_frame, fields, frame_bytes, frame_id,
    parsed_request, response_bytes, serialize_response, Fields,
};
use crate::text::{decimal_text, lower, push_decimal, same_text, to_lower};
use vstd::prelude::*;
use vstd::utf8::encode_utf8;

verus! {

/// Headers that are between two neighbours and go no further.
pub open spec fn hop_by_hop(name: Seq<char>) -> bool {
    let name = lower(name);
    ||| name == "connection"@
    ||| name == "host"@
    ||| name == "keep-alive"@
    ||| name == "proxy-authenticate"@
    ||| name == "proxy-authorization"@
    ||| name == "te"@
    ||| name == "trailer"@
    ||| name == "transfer-encoding"@
    ||| name == "upgrade"@
}

/// Whether a header goes no further than to the next neighbour.
pub fn is_hop_by_hop_header(name: &str) -> (yes: bool)
    ensures
        yes == hop_by_hop(name@),
{
    let name = to_lower(name);
    let name = name.as_str();
    same_text(name, "connection") || same_text(name, "host") || same_text(name, "keep-alive")
        || same_text(name, "proxy-authenticate") || same_text(name, "proxy-authorization")
        || same_text(name, "te") || same_text(name, "trailer") || same_text(
        name,
        "transfer-encoding",
    ) || same_text(name, "upgrade")
}

/// The headers that go on.
pub open spec fn end_to_end(headers: Fields) -> Fields
    decreases headers.len(),
{
    if headers.len() == 0 {
        headers
    } else if hop_by_hop(headers.last().0) {
        end_to_end(headers.drop_last())
    } else {
        end_to_end(headers.drop_last()).push(headers.last())
    }
}

/// Picks the headers that go on.
pub fn end_to_end_headers(headers: Vec<(String, String)>) -> (kept: Vec<(String, String)>)
    ensures
        fields(kept@) == end_to_end(fields(headers@)),
{
    let ghost all = fields(headers@);
    let mut kept: Vec<(String, String)> = Vec::new();
    let mut i: usize = 0;
    assert(fields(kept@) =~= end_to_end(all.take(0)));
    while i < headers.len()
        invariant
            i <= headers@.len(),
            all == fields(headers@),
            fields(kept@) == end_to_end(all.take(i as int)),
        decreases headers@.len() - i,
    {
        let ghost before = fields(kept@);
        let (name, value) = &headers[i];
        if !is_hop_by_hop_header(name.as_str()) {
            kept.push((name.as_str().to_owned(), value.as_str().to_owned()));
            assert(fields(kept@) =~= before.push((name@, value@)));
        }
        i = i + 1;
        assert(all.take(i as int).drop_last() =~= all.take(i - 1));
        assert(all.take(i as int).last() == (name@, value@));
    }
    assert(all.take(i as int) =~= all);
    kept
}

/// The frame that tells the relay of an error.
pub open spec fn error_frame(id: u32, status: u16, body: Seq<char>) -> Seq<u8> {
    frame_bytes(
        id,
        response_bytes(status, seq![("content-type"@, "text/html"@)], encode_utf8(body)),
    )
}

/// Makes the frame that tells the relay of an error.
pub fn send_error_response(request_id: u32, status: u16, body: &str) -> (frame: Vec<u8>)
    ensures
        frame@ == error_frame(request_id, status, body@),
{
    let mut headers: Vec<(String, String)> = Vec::new();
    headers.push(("content-type".to_owned(), "text/html".to_owned()));
    assert(fields(headers@) =~= seq![("content-type"@, "text/html"@)]);
    let response = serialize_response(status, headers.as_slice(), body.as_bytes());
    encode_frame(request_id, response.as_slice())
}

/// A request for the local server.
#[derive(Debug)]
pub struct LocalRequest {
    pub request_id: u32,
    pub method: String,
    pub url: String,
    pub headers: Vec<(String, String)>,
    pub body: Option<Vec<u8>>,
}

/// What is to be done about a frame.
#[derive(Debug)]
pub enum Plan {
    /// Nothing: it is no frame.
    Ignore,
    /// Send this frame back.
    Answer(Vec<u8>),
    /// Ask the local server.
    Ask(LocalRequest),
}

/// What a request for the local server says.
pub struct LocalRequestView {
    pub request_id: u32,
    pub method: Seq<char>,
    pub url: Seq<char>,
    pub headers: Fields,
    pub body: Option<Seq<u8>>,
}

/// What is to be done about a frame.
pub enum PlanView {
    Ignore,
    Answer(Seq<u8>),
    Ask(LocalRequestView),
}

impl View for LocalRequest {
    type V = LocalRequestView;

    open spec fn view(&self) -> LocalRequestView {
        LocalRequestView {
            request_id: self.request_id,
            method: self.method@,
            url: self.url@,
            headers: fields(self.headers@),
            body: match self.body {
                Some(body) => Some(body@),
                None => None,
            },
        }
    }
}

impl View for Plan {
    type V = PlanView;

    open spec fn view(&self) -> PlanView {
        match *self {
            Plan::Ignore => PlanView::Ignore,
            Plan::Answer(frame) => PlanView::Answer(frame@),
            Plan::Ask(request) => PlanView::Ask(request@),
        }
    }
}

/// Where the local server serves a URI.
pub open spec fn served_at(port: u16, uri: Seq<char>) -> Seq<char> {
    "http://127.0.0.1:"@ + decimal_text(port as nat) + uri
}

/// A body, if it is not empty.
pub open spec fn nonempty(body: Seq<u8>) -> Option<Seq<u8>> {
    if body.len() > 0 {
        Some(body)
    } else {
        None
    }
}

/// What is to be done about a frame: what is no frame is ignored, what carries
/// no request or one with a bad method is answered with an error, and any other
/// request goes to the local server.
pub open spec fn plan_for(frame: Seq<u8>, port: u16) -> PlanView {
    if frame.len() < 4 {
        PlanView::Ignore
    } else {
        match parsed_request(frame.skip(4)) {
            Some(request) => if is_token(request.method) {
                PlanView::Ask(
                    LocalRequestView {
                        request_id: frame_id(frame),
                        method: request.method,
                        url: served_at(port, request.uri),
                        headers: end_to_end(request.headers),
                        body: nonempty(request.body),
                    },
                )
            } else {
                PlanView::Answer(error_frame(frame_id(frame), 400, "Invalid method"@))
            },
            None => PlanView::Answer(error_frame(frame_id(frame), 400, "Bad Request"@)),
        }
    }
}

/// Decides what is to be done about a frame.
pub fn handle_request(data: &[u8], port: u16) -> (plan: Plan)
    ensures
        plan@ == plan_for(data@, port),
{
    let (request_id, payload) = match decode_frame(data) {
        Ok(decoded) => decoded,
        Err(_) => {
            return Plan::Ignore;
        },
    };
    let request = match deserialize_request(payload) {
        Ok(request) => request,
        Err(_) => {
            return Plan::Answer(send_error_response(request_id, 400, "Bad Request"));
        },
    };
    if !is_method(request.method.as_str()) {
        return Plan::Answer(send_error_response(request_id, 400, "Invalid method"));
    }
    let mut url = "http://127.0.0.1:".to_owned();
    push_decimal(&mut url, port as u64);
    url.append(request.uri.as_str());
    let headers = end_to_end_headers(request.headers);
    let body = if request.body.len() > 0 {
        Some(request.body)
    } else {
        None
    };
    Plan::Ask(LocalRequest { request_id, method: request.method, url, headers, body })
}

/// How asking the local server ended.
#[derive(Debug)]
pub enum LocalOutcome {
    /// It did not answer in time.
    TimedOut,
    /// It could not be asked, for this reason.
    Failed(String),
    /// It answered; the body may not have been readable.
    Responded { status: u16, headers: Vec<(String, Vec<u8>)>, body: Option<Vec<u8>> },
}

/// The page for a local server that does not answer in time.
pub open spec fn timeout_html(port: u16) -> Seq<char> {
    "<html><body style=\"font-family:system-ui;text-align:center;padding:40px\"><h1>504 Gateway Timeout</h1><p>localhost:"@
        + decimal_text(port as nat) + " did not respond within 30 seconds</p></body></html>"@
}

/// The page for a local server that cannot be asked.
pub open spec fn failure_html(port: u16, reason: Seq<char>) -> Seq<char> {
    "<html><body style=\"font-family:system-ui;text-align:center;padding:40px\"><h1>502 Bad Gateway</h1><p>Could not connect to localhost:"@
        + decimal_text(port as nat) + "</p><p style=\"color:#999\">"@ + reason
        + "</p></body></html>"@
}

/// The frame that goes back to the relay once the local server was asked. A
/// header whose value is not text goes without one.
pub open spec fn answer_for(id: u32, port: u16, outcome: LocalOutcome) -> Seq<u8> {
    match outcome {
        LocalOutcome::TimedOut => error_frame(id, 504, timeout_html(port)),
        LocalOutcome::Failed(reason) => error_frame(id, 502, failure_html(port, reason@)),
        LocalOutcome::Responded { status, headers, body } => frame_bytes(
            id,
            response_bytes(status, end_to_end(text_fields(raw_fields(headers@))), body_in(body)),
        ),
    }
}

/// Makes the frame that goes back to the relay once the local server was asked.
pub fn answer_request(request_id: u32, port: u16, outcome: LocalOutcome) -> (frame: Vec<u8>)
    ensures
        frame@ == answer_for(request_id, port, outcome),
{
    match outcome {
        LocalOutcome::TimedOut => {
            let mut html =
                "<html><body style=\"font-family:system-ui;text-align:center;padding:40px\"><h1>504 Gateway Timeout</h1><p>localhost:".to_owned();
            push_decimal(&mut html, port as u64);
            html.append(" did not respond within 30 seconds</p></body></html>");
            send_error_response(request_id, 504, html.as_str())
        },
        LocalOutcome::Failed(reason) => {
            let mut html =
                "<html><body style=\"font-family:system-ui;text-align:center;padding:40px\"><h1>502 Bad Gateway</h1><p>Could not connect to localhost:".to_owned();
            push_decimal(&mut html, port as u64);
            html.append("</p><p style=\"color:#999\">");
            html.append(reason.as_str());
            html.append("</p></body></html>");
            send_error_response(request_id, 502, html.as_str())
        },
        LocalOutcome::Responded { status, headers, body } => {
            let headers = end_to_end_headers(text_headers(headers.as_slice()));
            let body: Vec<u8> = match body {
                Some(body) => body,
                None => Vec::new(),
            };
            let response = serialize_response(status, headers.as_slice(), body.as_slice());
            encode_frame(request_id, response.as_slice())
        },
    }
}

} // verus!
