//! What visitors ask and what they are answered.

use crate::headers::{raw_fields, RawFields};
use crate::proto::{fields, ResponseView};
use vstd::prelude::*;
use vstd::slice::slice_to_vec;
use vstd::utf8::encode_utf8;

verus! {

/// What a request says before its body.
#[derive(Debug)]
pub struct RequestHead {
    pub method: String,
    pub path: String,
    pub uri: String,
    pub headers: Vec<(String, Vec<u8>)>,
}

/// What a request says before its body.
pub struct HeadView {
    pub method: Seq<char>,
    pub path: Seq<char>,
    pub uri: Seq<char>,
    pub headers: RawFields,
}

impl View for RequestHead {
    type V = HeadView;

    open spec fn view(&self) -> HeadView {
        HeadView {
            method: self.method@,
            path: self.path@,
            uri: self.uri@,
            headers: raw_fields(self.headers@),
        }
    }
}

/// An answer to a visitor.
#[derive(Debug)]
pub struct Reply {
    pub status: u16,
    pub headers: Vec<(String, String)>,
    pub body: Vec<u8>,
}

impl View for Reply {
    type V = ResponseView;

    open spec fn view(&self) -> ResponseView {
        ResponseView { status: self.status, headers: fields(self.headers@), body: self.body@ }
    }
}

/// An answer that is an HTML page.
pub open spec fn html_response(status: u16, html: Seq<char>) -> ResponseView {
    ResponseView {
        status,
        headers: seq![("content-type"@, "text/html; charset=utf-8"@)],
        body: encode_utf8(html),
    }
}

/// Answers with an HTML page.
pub fn html_reply(status: u16, html: &str) -> (reply: Reply)
    ensures
        reply@ == html_response(status, html@),
{
    let mut headers: Vec<(String, String)> = Vec::new();
    headers.push(("content-type".to_owned(), "text/html; charset=utf-8".to_owned()));
    assert(fields(headers@) =~= seq![("content-type"@, "text/html; charset=utf-8"@)]);
    Reply { status, headers, body: slice_to_vec(html.as_bytes()) }
}

/// The page for a tunnel that is not there.
pub const NOT_FOUND_PAGE: &'static str =
    "<!DOCTYPE html>\n<html><head><title>Tunnel Not Found</title></head>\n<body style=\"font-family:system-ui;display:flex;justify-content:center;align-items:center;min-height:100vh;margin:0;background:#f5f5f5\">\n<div style=\"text-align:center\">\n<h2>Tunnel Not Found</h2>\n<p style=\"color:#666\">This tunnel doesn't exist or has been disconnected.</p>\n</div></body></html>";

/// The page for a client that cannot be reached.
pub const BAD_GATEWAY_PAGE: &'static str =
    "<!DOCTYPE html>\n<html><head><title>Bad Gateway</title></head>\n<body style=\"font-family:system-ui;display:flex;justify-content:center;align-items:center;min-height:100vh;margin:0;background:#f5f5f5\">\n<div style=\"text-align:center\">\n<h2>502 Bad Gateway</h2>\n<p style=\"color:#666\">The tunnel client is unreachable.</p>\n</div></body></html>";

/// The page for an answer that does not come in time.
pub const GATEWAY_TIMEOUT_PAGE: &'static str =
    "<!DOCTYPE html>\n<html><head><title>Gateway Timeout</title></head>\n<body style=\"font-family:system-ui;display:flex;justify-content:center;align-items:center;min-height:100vh;margin:0;background:#f5f5f5\">\n<div style=\"text-align:center\">\n<h2>504 Gateway Timeout</h2>\n<p style=\"color:#666\">The local server didn't respond in time.</p>\n</div></body></html>";

/// The page for a body that is too large.
pub const PAYLOAD_TOO_LARGE_PAGE: &'static str =
    "<!DOCTYPE html>\n<html><head><title>Payload Too Large</title></head>\n<body style=\"font-family:system-ui;display:flex;justify-content:center;align-items:center;min-height:100vh;margin:0;background:#f5f5f5\">\n<div style=\"text-align:center\">\n<h2>413 Payload Too Large</h2>\n<p style=\"color:#666\">Request body exceeds the size limit.</p>\n</div></body></html>";

/// The page for an address that asks too often.
pub const TOO_MANY_REQUESTS_PAGE: &'static str =
    "<!DOCTYPE html>\n<html><head><title>Too Many Requests</title></head>\n<body style=\"font-family:system-ui;display:flex;justify-content:center;align-items:center;min-height:100vh;margin:0;background:#f5f5f5\">\n<div style=\"text-align:center\">\n<h2>429 Too Many Requests</h2>\n<p style=\"color:#666\">You are sending too many requests. Please slow down.</p>\n</div></body></html>";

/// The page for a tunnel through which too many requests wait.
pub const SERVICE_UNAVAILABLE_PAGE: &'static str =
    "<!DOCTYPE html>\n<html><head><title>Service Unavailable</title></head>\n<body style=\"font-family:system-ui;display:flex;justify-content:center;align-items:center;min-height:100vh;margin:0;background:#f5f5f5\">\n<div style=\"text-align:center\">\n<h2>503 Service Unavailable</h2>\n<p style=\"color:#666\">The tunnel has too many pending requests. Please try again later.</p>\n</div></body></html>";

/// Answers that there is no such tunnel.
pub fn not_found_page() -> (reply: Reply)
    ensures
        reply@ == html_response(404, NOT_FOUND_PAGE@),
{
    html_reply(404, NOT_FOUND_PAGE)
}

/// Answers that the client cannot be reached.
pub fn bad_gateway_page() -> (reply: Reply)
    ensures
        reply@ == html_response(502, BAD_GATEWAY_PAGE@),
{
    html_reply(502, BAD_GATEWAY_PAGE)
}

/// Answers that no answer came in time.
pub fn gateway_timeout_page() -> (reply: Reply)
    ensures
        reply@ == html_response(504, GATEWAY_TIMEOUT_PAGE@),
{
    html_reply(504, GATEWAY_TIMEOUT_PAGE)
}

/// Answers that the body is too large.
pub fn payload_too_large_page() -> (reply: Reply)
    ensures
        reply@ == html_response(413, PAYLOAD_TOO_LARGE_PAGE@),
{
    html_reply(413, PAYLOAD_TOO_LARGE_PAGE)
}

/// Answers that there were too many requests.
pub fn too_many_requests_page() -> (reply: Reply)
    ensures
        reply@ == html_response(429, TOO_MANY_REQUESTS_PAGE@),
{
    html_reply(429, TOO_MANY_REQUESTS_PAGE)
}

/// Answers that too many requests are waiting.
pub fn service_unavailable_page() -> (reply: Reply)
    ensures
        reply@ == html_response(503, SERVICE_UNAVAILABLE_PAGE@),
{
    html_reply(503, SERVICE_UNAVAILABLE_PAGE)
}

} // verus!
