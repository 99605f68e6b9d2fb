//! The password that visitors give before they get to a tunnel.

use crate::headers::{raw_fields, text_of_value, text_or_nothing, RawFields};
use crate::outside::{
    compute_hmac_sha256, from_utf8_lossy, header_value_text, hex_encode, hex_text, hmac_sha256,
    is_header_value, percent_decode, percent_decoded, trim, trimmed,
};
use crate::proto::{fields, ResponseView};
use crate::relay::http::{
    bad_gateway_page, html_reply, html_response, payload_too_large_page, HeadView, Reply,
    RequestHead, BAD_GATEWAY_PAGE, PAYLOAD_TOO_LARGE_PAGE,
};
use crate::relay::registry::{ConnectionView, TunnelConnection};
use crate::seqs::pieces;
use crate::text::{
    empty_text, lower, parted, same_ignoring_case, same_secret, same_text, split_once, split_text,
    text_in, text_of, texts,
};
use vstd::prelude::*;
use vstd::utf8::{decode_utf8, encode_utf8, valid_utf8};

verus! {

/// Where the password form is sent to.
pub const AUTH_PATH: &'static str = "/__peek_auth";

/// What the cookie says that lets a visitor through.
pub open spec fn auth_cookie(password: Seq<char>, subdomain: Seq<char>) -> Seq<char> {
    hex_text(hmac_sha256(encode_utf8(password), encode_utf8(subdomain)))
}

/// Makes what the cookie says that lets a visitor through.
pub fn generate_auth_cookie(password: &str, subdomain: &str) -> (cookie: String)
    ensures
        cookie@ == auth_cookie(password@, subdomain@),
        cookie@.len() == 64,
{
    let code = compute_hmac_sha256(password.as_bytes(), subdomain.as_bytes());
    hex_encode(code.as_slice())
}

/// The name of a tunnel's cookie.
pub open spec fn cookie_name(subdomain: Seq<char>) -> Seq<char> {
    "peek_auth_"@ + subdomain
}

/// Makes the name of a tunnel's cookie.
fn generate_cookie_name(subdomain: &str) -> (name: String)
    ensures
        name@ == cookie_name(subdomain@),
{
    let mut name = "peek_auth_".to_owned();
    name.append(subdomain);
    name
}

/// The cookie as it is set: for the whole site, for a day, and out of reach of
/// scripts, other sites and connections that are not secure.
pub open spec fn cookie_setting(subdomain: Seq<char>, value: Seq<char>) -> Seq<char> {
    cookie_name(subdomain) + "="@ + value
        + "; Path=/; HttpOnly; SameSite=Lax; Secure; Max-Age=86400"@
}

/// What a visitor is answered who gave the right password: the cookie is set
/// and the way leads to the tunnel. Where the cookie cannot stand in a header,
/// there is no way.
pub open spec fn entry(subdomain: Seq<char>, value: Seq<char>) -> ResponseView {
    if header_value_text(cookie_setting(subdomain, value)) {
        ResponseView {
            status: 303,
            headers: seq![
                ("location"@, "/"@),
                ("set-cookie"@, cookie_setting(subdomain, value)),
            ],
            body: Seq::empty(),
        }
    } else {
        html_response(502, BAD_GATEWAY_PAGE@)
    }
}

/// Answers a visitor who gave the right password, with this value for the
/// cookie.
pub fn let_in(subdomain: &str, value: &str) -> (reply: Reply)
    ensures
        reply@ == entry(subdomain@, value@),
{
    let mut cookie = generate_cookie_name(subdomain);
    cookie.append("=");
    cookie.append(value);
    cookie.append("; Path=/; HttpOnly; SameSite=Lax; Secure; Max-Age=86400");
    if !is_header_value(cookie.as_str()) {
        return bad_gateway_page();
    }
    let mut headers: Vec<(String, String)> = Vec::new();
    headers.push(("location".to_owned(), "/".to_owned()));
    headers.push(("set-cookie".to_owned(), cookie));
    assert(fields(headers@) =~= seq![
        ("location"@, "/"@),
        ("set-cookie"@, cookie_setting(subdomain@, value@)),
    ]);
    let body: Vec<u8> = Vec::new();
    assert(body@ =~= Seq::empty());
    Reply { status: 303, headers, body }
}

/// The page that asks for a password, with what was wrong before.
pub open spec fn password_html(subdomain: Seq<char>, error: Option<Seq<char>>) -> Seq<char> {
    PASSWORD_PAGE_START@ + subdomain + PASSWORD_PAGE_MIDDLE@ + (match error {
        Some(message) => "<p style=\"color:#e53e3e;margin-bottom:16px\">"@ + message + "</p>"@,
        None => Seq::empty(),
    }) + PASSWORD_PAGE_END@
}

/// That page before the name of the tunnel.
pub const PASSWORD_PAGE_START: &'static str =
    "<!DOCTYPE html>\n<html><head>\n<title>Password Required \u{2014} ";

/// That page after the name of the tunnel and before what was wrong.
pub const PASSWORD_PAGE_MIDDLE: &'static str =
    "</title>\n<meta name=\"viewport\" content=\"width=device-width,initial-scale=1\">\n</head>\n<body style=\"font-family:system-ui,-apple-system,sans-serif;display:flex;justify-content:center;align-items:center;min-height:100vh;margin:0;background:#f5f5f5\">\n<div style=\"background:white;padding:40px;border-radius:12px;box-shadow:0 2px 8px rgba(0,0,0,0.08);max-width:360px;width:100%;text-align:center\">\n<h2 style=\"margin:0 0 8px\">\u{1f512} Password Required</h2>\n<p style=\"color:#666;margin:0 0 24px;font-size:14px\">This tunnel is protected</p>\n";

/// That page after what was wrong.
pub const PASSWORD_PAGE_END: &'static str =
    "\n<form method=\"POST\" action=\"/__peek_auth\">\n<input type=\"password\" name=\"password\" placeholder=\"Enter password\" required autofocus\n  style=\"width:100%;padding:12px;border:1px solid #ddd;border-radius:8px;font-size:16px;box-sizing:border-box;margin-bottom:12px\">\n<button type=\"submit\"\n  style=\"width:100%;padding:12px;background:#111;color:white;border:none;border-radius:8px;font-size:16px;cursor:pointer\">\n  Continue\n</button>\n</form>\n</div></body></html>";

/// Answers with the page that asks for a password.
pub fn password_page(subdomain: &str, error: Option<&str>) -> (reply: Reply)
    ensures
        reply@ == html_response(
            200,
            password_html(
                subdomain@,
                match error {
                    Some(message) => Some(message@),
                    None => None,
                },
            ),
        ),
{
    let mut html = PASSWORD_PAGE_START.to_owned();
    html.append(subdomain);
    html.append(PASSWORD_PAGE_MIDDLE);
    if let Some(message) = error {
        html.append("<p style=\"color:#e53e3e;margin-bottom:16px\">");
        html.append(message);
        html.append("</p>");
    }
    html.append(PASSWORD_PAGE_END);
    assert(html@ =~= password_html(
        subdomain@,
        match error {
            Some(message) => Some(message@),
            None => None,
        },
    ));
    html_reply(200, html.as_str())
}

/// A form value without its percent encoding; nothing if it cannot be undone.
pub open spec fn form_value(value: Seq<char>) -> Seq<char> {
    let bytes = percent_decoded(encode_utf8(value));
    if valid_utf8(bytes) {
        decode_utf8(bytes)
    } else {
        Seq::empty()
    }
}

/// The first password among the pairs of a form; nothing if there is none.
pub open spec fn first_password(pairs: Seq<Seq<char>>) -> Seq<char>
    decreases pairs.len(),
{
    if pairs.len() == 0 {
        Seq::empty()
    } else {
        match parted(pairs[0], '=') {
            Some((key, value)) => if key == "password"@ {
                form_value(value)
            } else {
                first_password(pairs.skip(1))
            },
            None => first_password(pairs.skip(1)),
        }
    }
}

/// The password that a form gives.
pub open spec fn submitted(form: Seq<u8>) -> Seq<char> {
    first_password(pieces(text_of(form), '&'))
}

/// Reads the password from a form.
pub fn submitted_password(form: &[u8]) -> (password: String)
    ensures
        password@ == submitted(form@),
{
    let form_data = from_utf8_lossy(form);
    let pairs = split_text(form_data.as_str(), '&');
    let ghost all = texts(pairs@);
    let mut i: usize = 0;
    assert(all.skip(0) =~= all);
    while i < pairs.len()
        invariant
            i <= pairs@.len(),
            all == texts(pairs@),
            first_password(all) == submitted(form@),
            first_password(all) == first_password(all.skip(i as int)),
        decreases pairs@.len() - i,
    {
        assert(all.skip(i as int)[0] == pairs@[i as int]@);
        if let Some((key, value)) = split_once(pairs[i].as_str(), '=') {
            if same_text(key.as_str(), "password") {
                return match percent_decode(value.as_str()) {
                    Some(password) => password,
                    None => empty_text(),
                };
            }
        }
        i = i + 1;
        assert(all.skip(i - 1).skip(1) =~= all.skip(i as int));
    }
    empty_text()
}

/// What a visitor is answered who gave a password: the right one sets the
/// cookie and leads to the tunnel, another is asked for again, and so is one
/// that could not be read. A form that is too large is refused.
pub open spec fn form_answer(
    password: Seq<char>,
    subdomain: Seq<char>,
    form: Option<Seq<u8>>,
    max_body_size: usize,
) -> ResponseView {
    match form {
        Some(form) => if form.len() > max_body_size {
            html_response(413, PAYLOAD_TOO_LARGE_PAGE@)
        } else if submitted(form) != password {
            html_response(200, password_html(subdomain, Some("Incorrect password"@)))
        } else {
            entry(subdomain, auth_cookie(password, subdomain))
        },
        None => html_response(200, password_html(subdomain, Some("Invalid request"@))),
    }
}

/// Answers a visitor who gave a password, in a form that could be read or not
/// and may have at most so many bytes.
pub fn answer_form(
    password: &str,
    subdomain: &str,
    form: Option<&[u8]>,
    max_body_size: usize,
) -> (reply: Reply)
    ensures
        reply@ == form_answer(
            password@,
            subdomain@,
            match form {
                Some(form) => Some(form@),
                None => None,
            },
            max_body_size,
        ),
{
    let form = match form {
        Some(form) => form,
        None => {
            return password_page(subdomain, Some("Invalid request"));
        },
    };
    if form.len() > max_body_size {
        return payload_too_large_page();
    }
    let submitted = submitted_password(form);
    if !same_secret(submitted.as_str(), password) {
        return password_page(subdomain, Some("Incorrect password"));
    }
    let_in(subdomain, generate_auth_cookie(password, subdomain).as_str())
}

/// Whether a part of a cookie header is the cookie with this name and value.
pub open spec fn is_cookie(part: Seq<char>, name: Seq<char>, value: Seq<char>) -> bool {
    match parted(trimmed(part), '=') {
        Some((key, said)) => trimmed(key) == name && trimmed(said) == value,
        None => false,
    }
}

/// Whether one of some parts is the cookie with this name and value.
pub open spec fn any_is_cookie(parts: Seq<Seq<char>>, name: Seq<char>, value: Seq<char>) -> bool {
    exists|i: int| 0 <= i < parts.len() && is_cookie(#[trigger] parts[i], name, value)
}

/// Whether a cookie header's value has the cookie with this name and value.
pub open spec fn has_cookie(header: Seq<u8>, name: Seq<char>, value: Seq<char>) -> bool {
    any_is_cookie(pieces(text_or_nothing(header), ';'), name, value)
}

/// Whether the headers have the cookie with this name and value.
pub open spec fn carries(headers: RawFields, name: Seq<char>, value: Seq<char>) -> bool {
    exists|i: int|
        0 <= i < headers.len() && lower(#[trigger] headers[i].0) == lower("cookie"@) && has_cookie(
            headers[i].1,
            name,
            value,
        )
}

/// Looks for a cookie in the value of a cookie header.
fn find_cookie(header: &[u8], name: &str, value: &str) -> (found: bool)
    ensures
        found == has_cookie(header@, name@, value@),
{
    let text = text_of_value(header);
    let parts = split_text(text.as_str(), ';');
    let ghost all = texts(parts@);
    let mut i: usize = 0;
    while i < parts.len()
        invariant
            i <= parts@.len(),
            all == texts(parts@),
            all == pieces(text_or_nothing(header@), ';'),
            forall|j: int| 0 <= j < i ==> !is_cookie(#[trigger] all[j], name@, value@),
        decreases parts@.len() - i,
    {
        assert(all[i as int] == parts@[i as int]@);
        if let Some((key, said)) = split_once(trim(parts[i].as_str()), '=') {
            let name_matches = same_text(trim(key.as_str()), name);
            let value_matches = same_secret(trim(said.as_str()), value);
            if name_matches && value_matches {
                assert(is_cookie(all[i as int], name@, value@));
                return true;
            }
        }
        i = i + 1;
    }
    false
}

/// Looks for a cookie in all the cookie headers.
pub fn carries_cookie(headers: &[(String, Vec<u8>)], name: &str, value: &str) -> (found: bool)
    ensures
        found == carries(raw_fields(headers@), name@, value@),
{
    let ghost all = raw_fields(headers@);
    let mut i: usize = 0;
    while i < headers.len()
        invariant
            i <= headers@.len(),
            all == raw_fields(headers@),
            forall|j: int|
                0 <= j < i ==> !(lower(#[trigger] all[j].0) == lower("cookie"@) && has_cookie(
                    all[j].1,
                    name@,
                    value@,
                )),
        decreases headers@.len() - i,
    {
        let header = &headers[i];
        assert(all[i as int] == (header.0@, header.1@));
        if same_ignoring_case(header.0.as_str(), "cookie") && find_cookie(
            header.1.as_slice(),
            name,
            value,
        ) {
            assert(lower(all[i as int].0) == lower("cookie"@));
            return true;
        }
        i = i + 1;
    }
    false
}

/// Whether the headers have the cookie that lets a visitor through.
pub fn has_valid_cookie(headers: &[(String, Vec<u8>)], password: &str, subdomain: &str) -> (found:
    bool)
    ensures
        found == carries(
            raw_fields(headers@),
            cookie_name(subdomain@),
            auth_cookie(password@, subdomain@),
        ),
{
    let name = generate_cookie_name(subdomain);
    let expected = generate_auth_cookie(password, subdomain);
    carries_cookie(headers, name.as_str(), expected.as_str())
}

/// Whether a visitor gives a password.
pub open spec fn gives_password(head: HeadView) -> bool {
    head.method == "POST"@ && head.path == AUTH_PATH@
}

/// Whether a visitor gets to the tunnel: no password is needed, or the visitor
/// has the cookie.
pub open spec fn may_pass(
    password: Option<Seq<char>>,
    subdomain: Seq<char>,
    head: HeadView,
) -> bool {
    match password {
        Some(password) => !gives_password(head) && carries(
            head.headers,
            cookie_name(subdomain),
            auth_cookie(password, subdomain),
        ),
        None => true,
    }
}

/// A request that was found to be for an open tunnel.
#[derive(Debug)]
pub struct Visit {
    subdomain: String,
    head: RequestHead,
}

/// A request that was found to be for an open tunnel.
pub struct VisitView {
    pub subdomain: Seq<char>,
    pub head: HeadView,
}

impl View for Visit {
    type V = VisitView;

    closed spec fn view(&self) -> VisitView {
        VisitView { subdomain: self.subdomain@, head: self.head@ }
    }
}

impl Visit {
    pub(crate) fn new(subdomain: String, head: RequestHead) -> (visit: Self)
        ensures
            visit@ == (VisitView { subdomain: subdomain@, head: head@ }),
    {
        Visit { subdomain, head }
    }

    /// The subdomain of the tunnel.
    pub fn subdomain(&self) -> (subdomain: &str)
        ensures
            subdomain@ == self@.subdomain,
    {
        self.subdomain.as_str()
    }
}

/// A request that may go through the tunnel. There is none that may not.
#[derive(Debug)]
pub struct Admission {
    password: Option<String>,
    subdomain: String,
    head: RequestHead,
}

/// A request that may go through the tunnel, and the password that the tunnel
/// has.
pub struct AdmissionView {
    pub password: Option<Seq<char>>,
    pub subdomain: Seq<char>,
    pub head: HeadView,
}

/// Whether a tunnel is the one that a request may go through: the one with the
/// password that was asked for and, if it is said, with the same subdomain.
pub open spec fn belongs<R>(admission: AdmissionView, conn: ConnectionView<R>) -> bool {
    admission.password == conn.password && conn.serves(admission.subdomain)
}

impl View for Admission {
    type V = AdmissionView;

    closed spec fn view(&self) -> AdmissionView {
        AdmissionView {
            password: text_in(self.password),
            subdomain: self.subdomain@,
            head: self.head@,
        }
    }
}

impl Admission {
    #[verifier::type_invariant]
    spec fn earned(self) -> bool {
        may_pass(text_in(self.password), self.subdomain@, self.head@)
    }

    /// Whether this tunnel is the one that the request may go through: the one
    /// with that password and, if it is said, that subdomain.
    pub fn is_for<W, R>(&self, conn: &TunnelConnection<W, R>) -> (yes: bool)
        ensures
            yes == belongs(self@, conn@),
    {
        let same_password = match (&self.password, conn.visitor_password()) {
            (Some(own), Some(other)) => same_secret(own.as_str(), other),
            (None, None) => true,
            _ => false,
        };
        let same_subdomain = match conn.subdomain() {
            Some(other) => same_text(self.subdomain.as_str(), other),
            None => true,
        };
        same_password && same_subdomain
    }

    /// The request.
    pub fn head(&self) -> (head: &RequestHead)
        ensures
            head@ == self@.head,
            may_pass(self@.password, self@.subdomain, self@.head),
    {
        proof {
            use_type_invariant(self);
        }
        &self.head
    }
}

/// A password form that a visitor sends for a tunnel with a password.
#[derive(Debug)]
pub struct Submission {
    password: String,
    subdomain: String,
}

/// A password form that a visitor sends for a tunnel with a password.
pub struct SubmissionView {
    pub password: Seq<char>,
    pub subdomain: Seq<char>,
}

impl View for Submission {
    type V = SubmissionView;

    closed spec fn view(&self) -> SubmissionView {
        SubmissionView { password: self.password@, subdomain: self.subdomain@ }
    }
}

impl Submission {
    /// Answers the visitor once the form was read, or could not be. It may have
    /// at most so many bytes.
    pub fn answer(&self, form: Option<&[u8]>, max_body_size: usize) -> (reply: Reply)
        ensures
            reply@ == form_answer(
                self@.password,
                self@.subdomain,
                match form {
                    Some(form) => Some(form@),
                    None => None,
                },
                max_body_size,
            ),
    {
        answer_form(self.password.as_str(), self.subdomain.as_str(), form, max_body_size)
    }
}

/// What becomes of a visitor.
#[derive(Debug)]
pub enum Passage {
    /// The request goes through the tunnel.
    Granted(Admission),
    /// The visitor gives a password: the form is to be read.
    FormGiven(Submission),
    /// The visitor is answered without getting to the tunnel.
    Denied(Reply),
}

/// Decides what becomes of a visitor to a tunnel.
pub fn decide_access<W, R>(visit: Visit, conn: &TunnelConnection<W, R>) -> (passage: Passage)
    ensures
        ({
            let VisitView { subdomain, head } = visit@;
            match passage {
                Passage::Granted(admission) => {
                    &&& may_pass(conn@.password, subdomain, head)
                    &&& admission@ == (AdmissionView { password: conn@.password, subdomain, head })
                    &&& conn@.serves(subdomain) ==> belongs(admission@, conn@)
                },
                Passage::FormGiven(submission) => {
                    &&& conn@.password == Some(submission@.password)
                    &&& submission@.subdomain == subdomain
                    &&& gives_password(head)
                },
                Passage::Denied(reply) => {
                    &&& !may_pass(conn@.password, subdomain, head)
                    &&& !gives_password(head)
                    &&& reply@ == html_response(200, password_html(subdomain, None))
                },
            }
        }),
        passage is FormGiven <==> conn@.password is Some && visit@.head.method == "POST"@
            && visit@.head.path == "/__peek_auth"@,
        visit@.head.method != "POST"@ || visit@.head.path != "/__peek_auth"@ ==> (
        passage is Granted <==> (conn@.password matches Some(password) ==> carries(
            visit@.head.headers,
            "peek_auth_"@ + visit@.subdomain,
            auth_cookie(password, visit@.subdomain),
        ))),
{
    let Visit { subdomain, head } = visit;
    let password = match conn.visitor_password() {
        Some(password) => password,
        None => {
            return Passage::Granted(Admission { password: None, subdomain, head });
        },
    };
    if same_text(head.method.as_str(), "POST") && same_text(head.path.as_str(), AUTH_PATH) {
        return Passage::FormGiven(Submission { password: password.to_owned(), subdomain });
    }
    if has_valid_cookie(head.headers.as_slice(), password, subdomain.as_str()) {
        Passage::Granted(Admission { password: Some(password.to_owned()), subdomain, head })
    } else {
        Passage::Denied(password_page(subdomain.as_str(), None))
    }
}

} // verus!
