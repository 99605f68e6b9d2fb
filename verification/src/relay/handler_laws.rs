//! Which tunnel a request goes through, what goes through it, and what the visitor
//! is answered.

use crate::headers::{header_text, raw_fields, text_fields};
use crate::outside::{header_name_text, header_value_text, trimmed};
use crate::proto::{fields, parsed_response, request_bytes, ResponseView};
use crate::relay::handler::{
    believed, first_forwarder, forwarded_request, host_of, is_sound, relayed, settled,
    subdomain_in, tunnel_for, Outcome, REQUEST_TIMEOUT_SECS,
};
use crate::relay::http::{
    html_response, HeadView, Reply, RequestHead, BAD_GATEWAY_PAGE, GATEWAY_TIMEOUT_PAGE,
};
use crate::relay::rate_limit::ClientIp;
use crate::relay::registry::RegistryView;
use crate::seq_laws::pieces_part_at_separators;
use crate::seqs::lemma_first_index_is;
use vstd::prelude::*;
use vstd::utf8::encode_utf8;

verus! {

/// A host name, with a port after it or without, has a subdomain if and only if it
/// is one label, a dot and the domain; and then it is that label.
pub proof fn subdomain_is_the_label_before_the_domain(
    name: Seq<char>,
    port: Seq<char>,
    domain: Seq<char>,
    subdomain: Seq<char>,
)
    requires
        !name.contains(':'),
        port.len() == 0 || port[0] == ':',
    ensures
        subdomain_in(name + port, domain) == Some(subdomain) <==> {
            &&& subdomain.len() > 0
            &&& !subdomain.contains('.')
            &&& name == subdomain + seq!['.'] + domain
        },
{
    reveal_strlit(".");
    let host = name + port;
    assert forall|i: int| 0 <= i < name.len() implies host[i] != ':' by {
        assert(name.contains(name[i]));
    }
    lemma_first_index_is(host, ':', name.len() as int);
    assert(host.take(name.len() as int) =~= name);
    let suffix = "."@ + domain;
    assert(suffix =~= seq!['.'] + domain);
    if name == subdomain + seq!['.'] + domain {
        assert(suffix =~= name.subrange(name.len() - suffix.len(), name.len() as int));
        assert(name.take(name.len() - suffix.len()) =~= subdomain);
    }
    if suffix.is_suffix_of(name) {
        let front = name.take(name.len() - suffix.len());
        assert(name =~= front + suffix);
        assert(front + suffix =~= front + seq!['.'] + domain);
    }
}

/// A request is for the tunnel under the subdomain in its host header, if that one
/// is open; without such a header, or such a tunnel, it is for none.
pub proof fn requests_are_for_the_tunnel_in_the_host<C>(
    registry: RegistryView<C>,
    head: HeadView,
    host: Seq<char>,
)
    ensures
        header_text(head.headers, "host"@) == Some(host) ==> host_of(head) == host,
        header_text(head.headers, "host"@) is None ==> host_of(head).len() == 0,
        match subdomain_in(host_of(head), registry.domain) {
            Some(subdomain) => tunnel_for(registry, head) == if registry.tunnels.contains_key(
                subdomain,
            ) {
                Some(subdomain)
            } else {
                None
            },
            None => tunnel_for(registry, head) is None,
        },
{
}

/// Of a list of forwarders the first one counts, without the white space around it.
pub proof fn first_forwarder_counts(first: Seq<char>, rest: Seq<char>)
    requires
        !first.contains(','),
    ensures
        first_forwarder(first) == trimmed(first),
        first_forwarder(first + seq![','] + rest) == trimmed(first),
{
    pieces_part_at_separators(first, rest, ',');
}

/// The address from the first header that has one is believed, in the order
/// `CF-Connecting-IP`, `X-Forwarded-For`, `X-Real-IP`.
pub proof fn first_address_is_believed(
    ip: ClientIp,
    forwarded: Option<ClientIp>,
    last: Option<ClientIp>,
)
    ensures
        believed(Some(ip), forwarded, last) == Some(ip),
        believed(None, Some(ip), last) == Some(ip),
        believed(None, None, last) == last,
{
}

/// An answer that comes is given on; one that does not come in time is a timeout;
/// and if nothing could be sent, or the tunnel was closed, the gateway is bad.
pub proof fn waiting_ends_in_these_answers(data: Vec<u8>)
    ensures
        settled(Outcome::Answered(data)) == relayed(data@),
        settled(Outcome::TimedOut).status == 504,
        settled(Outcome::TimedOut) == html_response(504, GATEWAY_TIMEOUT_PAGE@),
        settled(Outcome::Unsent).status == 502,
        settled(Outcome::Unsent) == html_response(502, BAD_GATEWAY_PAGE@),
        settled(Outcome::Dropped).status == 502,
        settled(Outcome::Dropped) == html_response(502, BAD_GATEWAY_PAGE@),
{
}

/// What goes through the tunnel is the request's method, its whole URI, all its
/// headers as text, and its body.
pub proof fn whole_request_goes_through(head: HeadView, body: Seq<u8>)
    ensures
        forwarded_request(head, body) == request_bytes(
            head.method,
            head.uri,
            text_fields(head.headers),
            body,
        ),
{
}

/// A response whose status has three digits, and whose headers can stand in HTTP,
/// is what the visitor is answered; anything else is a bad gateway.
pub proof fn sound_responses_are_given(data: Seq<u8>, response: ResponseView)
    ensures
        is_sound(response) <==> {
            &&& 100 <= response.status <= 999
            &&& forall|i: int|
                0 <= i < response.headers.len() ==> header_name_text(
                    (#[trigger] response.headers[i]).0,
                )
            &&& forall|i: int|
                0 <= i < response.headers.len() ==> header_value_text(
                    (#[trigger] response.headers[i]).1,
                )
        },
        parsed_response(data) == Some(response) && is_sound(response) ==> relayed(data) == response,
        parsed_response(data) == Some(response) && !is_sound(response) ==> relayed(data)
            == html_response(502, BAD_GATEWAY_PAGE@),
        parsed_response(data) is None ==> relayed(data) == html_response(502, BAD_GATEWAY_PAGE@),
{
}

/// A page has its status, says that it is HTML, and has the page for its body.
pub proof fn pages_are_html(status: u16, html: Seq<char>)
    ensures
        html_response(status, html).status == status,
        html_response(status, html).headers == seq![
            ("content-type"@, "text/html; charset=utf-8"@),
        ],
        html_response(status, html).body == encode_utf8(html),
{
}

/// An answer has half a minute to come.
pub proof fn answers_have_half_a_minute()
    ensures
        REQUEST_TIMEOUT_SECS == 30,
{
}

/// Requests and replies say what is in them.
pub proof fn replies_say_what_is_in_them(head: RequestHead, reply: Reply)
    ensures
        head@.method == head.method@,
        head@.path == head.path@,
        head@.uri == head.uri@,
        head@.headers == raw_fields(head.headers@),
        reply@.status == reply.status,
        reply@.headers == fields(reply.headers@),
        reply@.body == reply.body@,
{
}

} // verus!
