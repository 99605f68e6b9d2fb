//! What becomes of a visitor's request: which tunnel it goes through, what is
//! sent there, and what the visitor is answered.

use crate::headers::{find_header, header_text, raw_fields, text_fields, text_headers};
use crate::outside::{
    header_name_text, header_value_text, is_header_name, is_header_value, is_status_code, trim,
    trimmed,
};
use crate::proto::{
    body_in, deserialize_response, encode_frame, fields, frame_bytes, parsed_response,
    request_bytes, serialize_request, status_line, ResponseView,
};
use crate::relay::access::{belongs, may_pass, Admission, Visit};
use crate::relay::http::{
    bad_gateway_page, gateway_timeout_page, html_response, not_found_page, payload_too_large_page,
    service_unavailable_page, too_many_requests_page, HeadView, Reply, RequestHead,
    BAD_GATEWAY_PAGE, GATEWAY_TIMEOUT_PAGE, NOT_FOUND_PAGE, PAYLOAD_TOO_LARGE_PAGE,
    SERVICE_UNAVAILABLE_PAGE, TOO_MANY_REQUESTS_PAGE,
};
use crate::relay::rate_limit::ClientIp;
use crate::relay::registry::{Registry, RegistryView, TunnelConnection};
use crate::seqs;
use crate::seqs::{first_index, pieces};
use crate::text::{chars_of, empty_text, split_text, string_of, text_in, texts};
use vstd::prelude::*;
use vstd::slice::slice_subrange;
use vstd::utf8::valid_utf8;

verus! {

/// How long an answer may take, in seconds.
pub const REQUEST_TIMEOUT_SECS: u64 = 30;

/// What the headers say of the address that a request comes from, in the order
/// in which they are believed.
#[derive(Debug)]
pub struct ClientIpTexts {
    pub cf_connecting_ip: Option<String>,
    pub x_forwarded_for: Option<String>,
    pub x_real_ip: Option<String>,
}

/// The first address in a list of forwarders, which is the client's own.
pub open spec fn first_forwarder(list: Seq<char>) -> Seq<char> {
    trimmed(pieces(list, ',')[0])
}

/// Finds what the headers say of the address that a request comes from.
pub fn client_ip_texts(headers: &[(String, Vec<u8>)]) -> (found: ClientIpTexts)
    ensures
        ({
            let headers = raw_fields(headers@);
            &&& text_in(found.cf_connecting_ip) == header_text(headers, "cf-connecting-ip"@)
            &&& text_in(found.x_forwarded_for) == match header_text(headers, "x-forwarded-for"@) {
                Some(list) => Some(first_forwarder(list)),
                None => None,
            }
            &&& text_in(found.x_real_ip) == header_text(headers, "x-real-ip"@)
        }),
{
    let x_forwarded_for = match find_header(headers, "x-forwarded-for") {
        Some(list) => {
            let entries = split_text(list.as_str(), ',');
            assert(texts(entries@).len() == entries@.len());
            assert(texts(entries@)[0] == entries@[0]@);
            Some(trim(entries[0].as_str()).to_owned())
        },
        None => None,
    };
    ClientIpTexts {
        cf_connecting_ip: find_header(headers, "cf-connecting-ip"),
        x_forwarded_for,
        x_real_ip: find_header(headers, "x-real-ip"),
    }
}

/// The address that is believed, given what each text in the headers stands for.
pub open spec fn believed(
    cf_connecting_ip: Option<ClientIp>,
    x_forwarded_for: Option<ClientIp>,
    x_real_ip: Option<ClientIp>,
) -> Option<ClientIp> {
    if cf_connecting_ip is Some {
        cf_connecting_ip
    } else if x_forwarded_for is Some {
        x_forwarded_for
    } else {
        x_real_ip
    }
}

/// The address that a request comes from, given what each text in the headers
/// stands for: the first that stands for an address counts.
pub fn extract_client_ip(
    cf_connecting_ip: Option<ClientIp>,
    x_forwarded_for: Option<ClientIp>,
    x_real_ip: Option<ClientIp>,
) -> (ip: Option<ClientIp>)
    ensures
        ip == believed(cf_connecting_ip, x_forwarded_for, x_real_ip),
{
    if cf_connecting_ip.is_some() {
        cf_connecting_ip
    } else if x_forwarded_for.is_some() {
        x_forwarded_for
    } else {
        x_real_ip
    }
}

/// The subdomain in a host name: what stands before the domain, where that is
/// one label. A port is left out of account.
pub open spec fn subdomain_in(host: Seq<char>, domain: Seq<char>) -> Option<Seq<char>> {
    let name = host.take(first_index(host, ':'));
    let suffix = "."@ + domain;
    let subdomain = name.take(name.len() - suffix.len());
    if suffix.is_suffix_of(name) && subdomain.len() > 0 && !subdomain.contains('.') {
        Some(subdomain)
    } else {
        None
    }
}

/// Finds the subdomain in a host name.
pub fn extract_subdomain(host: &str, domain: &str) -> (subdomain: Option<String>)
    ensures
        text_in(subdomain) == subdomain_in(host@, domain@),
{
    let host = chars_of(host);
    let host = host.as_slice();
    let name = slice_subrange(host, 0, seqs::index_of(host, ':'));
    let mut suffix = ".".to_owned();
    suffix.append(domain);
    let suffix = chars_of(suffix.as_str());
    let suffix = suffix.as_slice();
    if seqs::ends_with(name, suffix) {
        let subdomain = slice_subrange(name, 0, name.len() - suffix.len());
        let dot: usize = seqs::index_of(subdomain, '.');
        proof {
            seqs::lemma_first_index(subdomain@, '.');
        }
        if subdomain.len() > 0 && dot == subdomain.len() {
            return Some(string_of(subdomain));
        }
    }
    None
}

/// The host that a request is for.
pub open spec fn host_of(head: HeadView) -> Seq<char> {
    match header_text(head.headers, "host"@) {
        Some(host) => host,
        None => Seq::empty(),
    }
}

/// The subdomain of the open tunnel that a request is for.
pub open spec fn tunnel_for<C>(registry: RegistryView<C>, head: HeadView) -> Option<Seq<char>> {
    match subdomain_in(host_of(head), registry.domain) {
        Some(subdomain) => if registry.tunnels.contains_key(subdomain) {
            Some(subdomain)
        } else {
            None
        },
        None => None,
    }
}

/// Lets a client open a WebSocket whose frames have at most so many bytes,
/// unless its address asks too often.
pub fn ws_handler<C>(registry: &mut Registry<C>, ip: Option<ClientIp>, now: u128) -> (limit: Result<
    usize,
    Reply,
>)
    ensures
        final(registry)@ == (match ip {
            Some(ip) => old(registry)@.counted(ip, now),
            None => old(registry)@,
        }),
        match limit {
            Ok(limit) => {
                &&& ip matches Some(ip) ==> old(registry)@.rate_limiter.allows(ip, now)
                &&& limit == old(registry)@.max_body_size
            },
            Err(reply) => {
                &&& ip matches Some(ip) && !old(registry)@.rate_limiter.allows(ip, now)
                &&& reply@ == html_response(429, TOO_MANY_REQUESTS_PAGE@)
            },
        },
{
    if registry.allow_request(ip, now) {
        Ok(registry.max_body_size())
    } else {
        Err(too_many_requests_page())
    }
}

/// Finds the tunnel that a request is for, unless its address asks too often or
/// there is no such tunnel.
pub fn public_handler<C>(
    registry: &mut Registry<C>,
    ip: Option<ClientIp>,
    now: u128,
    head: RequestHead,
) -> (visit: Result<Visit, Reply>)
    ensures
        final(registry)@ == (match ip {
            Some(ip) => old(registry)@.counted(ip, now),
            None => old(registry)@,
        }),
        ({
            let allowed = ip matches Some(ip) ==> old(registry)@.rate_limiter.allows(ip, now);
            match visit {
                Ok(visit) => {
                    &&& allowed
                    &&& tunnel_for(old(registry)@, head@) == Some(visit@.subdomain)
                    &&& visit@.head == head@
                },
                Err(reply) => if !allowed {
                    reply@ == html_response(429, TOO_MANY_REQUESTS_PAGE@)
                } else {
                    &&& tunnel_for(old(registry)@, head@) is None
                    &&& reply@ == html_response(404, NOT_FOUND_PAGE@)
                },
            }
        }),
{
    if !registry.allow_request(ip, now) {
        return Err(too_many_requests_page());
    }
    let host = match find_header(head.headers.as_slice(), "host") {
        Some(host) => host,
        None => empty_text(),
    };
    match extract_subdomain(host.as_str(), registry.domain()) {
        Some(subdomain) => if registry.is_taken(subdomain.as_str()) {
            Ok(Visit::new(subdomain, head))
        } else {
            Err(not_found_page())
        },
        None => Err(not_found_page()),
    }
}

/// Finds the tunnel that a request is for, as long as it is open.
pub fn tunnel_of<'a, C>(registry: &'a Registry<C>, visit: &Visit) -> (conn: Option<&'a C>)
    ensures
        match conn {
            Some(conn) => registry@.tunnels.contains_key(visit@.subdomain) && *conn
                == registry@.tunnels[visit@.subdomain],
            None => !registry@.tunnels.contains_key(visit@.subdomain),
        },
{
    registry.get(visit.subdomain())
}

/// A request as it goes through the tunnel. A header whose value is not text goes
/// without one.
pub open spec fn forwarded_request(head: HeadView, body: Seq<u8>) -> Seq<u8> {
    request_bytes(head.method, head.uri, text_fields(head.headers), body)
}

/// Makes the frame that takes a request through the tunnel, and lets the request
/// wait for its answer; unless its body is too large or too many are waiting.
/// No request goes through a tunnel that it may not go through.
pub fn forward<W, R>(
    conn: &mut TunnelConnection<W, R>,
    admission: &Admission,
    body: Option<Vec<u8>>,
    max_body_size: usize,
    waiter: R,
) -> (sent: Result<(u32, Vec<u8>), Reply>)
    requires
        old(conn)@.wf(),
        belongs(admission@, old(conn)@),
    ensures
        may_pass(old(conn)@.password, admission@.subdomain, admission@.head),
        match sent {
            Ok((id, frame)) => {
                &&& body_in(body).len() <= max_body_size
                &&& !old(conn)@.is_full()
                &&& id == old(conn)@.next_id
                &&& frame@ == frame_bytes(id, forwarded_request(admission@.head, body_in(body)))
                &&& final(conn)@ == old(conn)@.with_waiter(waiter)
            },
            Err(reply) => {
                &&& final(conn)@ == old(conn)@
                &&& if body_in(body).len() > max_body_size {
                    reply@ == html_response(413, PAYLOAD_TOO_LARGE_PAGE@)
                } else {
                    &&& old(conn)@.is_full()
                    &&& reply@ == html_response(503, SERVICE_UNAVAILABLE_PAGE@)
                }
            },
        },
        final(conn)@.wf(),
        final(conn).writer() == old(conn).writer(),
{
    let head = admission.head();
    let ghost said = body_in(body);
    let body: Vec<u8> = match body {
        Some(body) => body,
        None => Vec::new(),
    };
    assert(body@ =~= said);
    if body.len() > max_body_size {
        return Err(payload_too_large_page());
    }
    let headers = text_headers(head.headers.as_slice());
    let request = serialize_request(
        head.method.as_str(),
        head.uri.as_str(),
        headers.as_slice(),
        body.as_slice(),
    );
    match conn.add_waiter(waiter) {
        Some(id) => Ok((id, encode_frame(id, request.as_slice()))),
        None => Err(service_unavailable_page()),
    }
}

/// How waiting for an answer ended.
#[derive(Debug)]
pub enum Outcome {
    /// The frame could not be sent.
    Unsent,
    /// The answer came.
    Answered(Vec<u8>),
    /// The tunnel was closed before the answer came.
    Dropped,
    /// The answer did not come in time.
    TimedOut,
}

/// Whether a response can be given to a visitor as it is.
pub open spec fn is_sound(response: ResponseView) -> bool {
    &&& 100 <= response.status <= 999
    &&& forall|i: int|
        0 <= i < response.headers.len() ==> header_name_text((#[trigger] response.headers[i]).0)
            && header_value_text(response.headers[i].1)
}

/// What a visitor is answered when an answer comes through the tunnel.
pub open spec fn relayed(data: Seq<u8>) -> ResponseView {
    match parsed_response(data) {
        Some(response) => if is_sound(response) {
            response
        } else {
            html_response(502, BAD_GATEWAY_PAGE@)
        },
        None => html_response(502, BAD_GATEWAY_PAGE@),
    }
}

/// Whether all headers can be given to a visitor.
fn are_sound(headers: &[(String, String)]) -> (sound: bool)
    ensures
        sound <==> forall|i: int|
            0 <= i < fields(headers@).len() ==> header_name_text(
                (#[trigger] fields(headers@)[i]).0,
            ) && header_value_text(fields(headers@)[i].1),
{
    let ghost all = fields(headers@);
    let mut i: usize = 0;
    while i < headers.len()
        invariant
            i <= headers@.len(),
            all == fields(headers@),
            forall|j: int|
                0 <= j < i ==> header_name_text((#[trigger] all[j]).0) && header_value_text(
                    all[j].1,
                ),
        decreases headers@.len() - i,
    {
        let header = &headers[i];
        assert(all[i as int] == (header.0@, header.1@));
        if !is_header_name(header.0.as_str()) || !is_header_value(header.1.as_str()) {
            return false;
        }
        i = i + 1;
    }
    true
}

/// Answers a visitor with what came through the tunnel.
pub fn relay_answer(data: &[u8]) -> (reply: Reply)
    ensures
        reply@ == relayed(data@),
        !valid_utf8(status_line(data@)) ==> reply@ == html_response(502, BAD_GATEWAY_PAGE@),
{
    match deserialize_response(data) {
        Ok(response) => if is_status_code(response.status) && are_sound(
            response.headers.as_slice(),
        ) {
            Reply { status: response.status, headers: response.headers, body: response.body }
        } else {
            bad_gateway_page()
        },
        Err(_) => bad_gateway_page(),
    }
}

/// What a visitor is answered once the waiting has ended.
pub open spec fn settled(outcome: Outcome) -> ResponseView {
    match outcome {
        Outcome::Answered(data) => relayed(data@),
        Outcome::TimedOut => html_response(504, GATEWAY_TIMEOUT_PAGE@),
        _ => html_response(502, BAD_GATEWAY_PAGE@),
    }
}

/// Answers a visitor once the waiting has ended. A request that got no answer
/// waits no longer.
pub fn settle<W, R>(conn: &mut TunnelConnection<W, R>, id: u32, outcome: Outcome) -> (reply: Reply)
    requires
        old(conn)@.wf(),
    ensures
        reply@ == settled(outcome),
        final(conn)@ == (if outcome is Answered {
            old(conn)@
        } else {
            old(conn)@.without(id)
        }),
        final(conn)@.wf(),
        final(conn).writer() == old(conn).writer(),
{
    match outcome {
        Outcome::Answered(data) => relay_answer(data.as_slice()),
        Outcome::TimedOut => {
            conn.take_waiter(id);
            gateway_timeout_page()
        },
        _ => {
            conn.take_waiter(id);
            bad_gateway_page()
        },
    }
}

} // verus!
