//! What becomes of a visitor at a tunnel with a password.

use crate::headers::{text_or_nothing, RawFields};
use crate::outside::{header_value_text, hex_digit, hmac_sha256, trimmed};
use crate::relay::access::{
    any_is_cookie, auth_cookie, belongs, carries, first_password, form_answer, form_value,
    gives_password, has_cookie, is_cookie, may_pass, password_html, submitted, AdmissionView,
    PASSWORD_PAGE_END, PASSWORD_PAGE_MIDDLE, PASSWORD_PAGE_START,
};
use crate::relay::http::{html_response, HeadView, BAD_GATEWAY_PAGE, PAYLOAD_TOO_LARGE_PAGE};
use crate::relay::registry::ConnectionView;
use crate::seq_laws::pieces_part_at_separators;
use crate::seqs::pieces;
use crate::text::{lower, parted, text_of};
use crate::text_laws::text_is_parted;
use vstd::prelude::*;
use vstd::utf8::encode_utf8;

verus! {

/// Only what is posted to the place where passwords go is a password; with any
/// other method, or at any other path, it is a request for the tunnel.
pub proof fn passwords_are_posted_to_one_place(head: HeadView)
    ensures
        gives_password(head) <==> head.method == "POST"@ && head.path == "/__peek_auth"@,
{
}

/// Everyone gets to a tunnel without a password. To one with a password those get
/// who have its cookie, with whatever method and at whatever path but that of the
/// password form; and nobody else does.
pub proof fn cookie_holders_get_to_the_tunnel(
    password: Seq<char>,
    subdomain: Seq<char>,
    head: HeadView,
)
    ensures
        may_pass(None, subdomain, head),
        (head.method != "POST"@ || head.path != "/__peek_auth"@) && carries(
            head.headers,
            "peek_auth_"@ + subdomain,
            auth_cookie(password, subdomain),
        ) ==> may_pass(Some(password), subdomain, head),
        !carries(head.headers, "peek_auth_"@ + subdomain, auth_cookie(password, subdomain))
            ==> !may_pass(Some(password), subdomain, head),
        head.method == "POST"@ && head.path == "/__peek_auth"@ ==> !may_pass(
            Some(password),
            subdomain,
            head,
        ),
{
}

/// Whether one part of one header is a cookie with this name and value: the header
/// is a cookie header, its parts stand between semicolons, and the name stands
/// before the first equals sign of the part and the value after it.
pub open spec fn is_in_part(
    headers: RawFields,
    i: int,
    k: int,
    name: Seq<char>,
    value: Seq<char>,
) -> bool {
    &&& 0 <= i < headers.len()
    &&& lower(headers[i].0) == lower("cookie"@)
    &&& 0 <= k < pieces(text_or_nothing(headers[i].1), ';').len()
    &&& parted(trimmed(pieces(text_or_nothing(headers[i].1), ';')[k]), '=') matches Some((key, said))
    &&& trimmed(key) == name
    &&& trimmed(said) == value
}

/// A cookie is found wherever it stands: in any cookie header, and in any part of
/// it; and nowhere else.
pub proof fn cookies_are_found_anywhere(headers: RawFields, name: Seq<char>, value: Seq<char>)
    ensures
        carries(headers, name, value) <==> exists|i: int, k: int| #[trigger]
            is_in_part(headers, i, k, name, value),
{
    if carries(headers, name, value) {
        let i = choose|i: int|
            0 <= i < headers.len() && lower(#[trigger] headers[i].0) == lower("cookie"@)
                && has_cookie(headers[i].1, name, value);
        let parts = pieces(text_or_nothing(headers[i].1), ';');
        let k = choose|k: int| 0 <= k < parts.len() && is_cookie(#[trigger] parts[k], name, value);
        assert(is_in_part(headers, i, k, name, value));
    }
    if exists|i: int, k: int| #[trigger] is_in_part(headers, i, k, name, value) {
        let (i, k) = choose|i: int, k: int| #[trigger] is_in_part(headers, i, k, name, value);
        let parts = pieces(text_or_nothing(headers[i].1), ';');
        assert(is_cookie(parts[k], name, value));
        assert(lower(headers[i].0) == lower("cookie"@));
        assert(has_cookie(headers[i].1, name, value));
    }
}

/// A cookie is found among others, before and after it.
pub proof fn cookies_are_found_among_others(
    before: Seq<char>,
    part: Seq<char>,
    after: Seq<char>,
    name: Seq<char>,
    value: Seq<char>,
)
    requires
        !part.contains(';'),
        !name.contains('='),
        trimmed(part) == name + seq!['='] + value,
        trimmed(name) == name,
        trimmed(value) == value,
    ensures
        any_is_cookie(pieces(part, ';'), name, value),
        any_is_cookie(pieces(before + seq![';'] + part, ';'), name, value),
        any_is_cookie(pieces(part + seq![';'] + after, ';'), name, value),
        any_is_cookie(
            pieces(before + seq![';'] + (part + seq![';'] + after), ';'),
            name,
            value,
        ),
{
    text_is_parted(name, value, '=');
    assert(is_cookie(part, name, value));
    pieces_part_at_separators(part, after, ';');
    pieces_part_at_separators(before, part, ';');
    pieces_part_at_separators(before, part + seq![';'] + after, ';');
    let n = pieces(before, ';').len() as int;
    assert(pieces(part, ';')[0] == part);
    assert(pieces(before + seq![';'] + part, ';')[n] == part);
    assert(pieces(part + seq![';'] + after, ';')[0] == part);
    assert(pieces(before + seq![';'] + (part + seq![';'] + after), ';')[n] == part);
}

/// The value of a hexadecimal digit.
pub open spec fn digit_value(c: char) -> int {
    if '0' <= c <= '9' {
        c as u32 - 48
    } else {
        c as u32 - 87
    }
}

/// The cookie is the authentication code of the subdomain under the password, in
/// small hexadecimal digits, two for each byte.
pub proof fn cookies_are_codes_in_hex(password: Seq<char>, subdomain: Seq<char>, i: int)
    ensures
        ({
            let code = hmac_sha256(encode_utf8(password), encode_utf8(subdomain));
            let cookie = auth_cookie(password, subdomain);
            &&& cookie.len() == 2 * code.len()
            &&& 0 <= i < code.len() ==> {
                &&& '0' <= cookie[2 * i] <= '9' || 'a' <= cookie[2 * i] <= 'f'
                &&& '0' <= cookie[2 * i + 1] <= '9' || 'a' <= cookie[2 * i + 1] <= 'f'
                &&& digit_value(cookie[2 * i]) * 16 + digit_value(cookie[2 * i + 1]) == code[i]
            }
        }),
{
    let code = hmac_sha256(encode_utf8(password), encode_utf8(subdomain));
    let cookie = auth_cookie(password, subdomain);
    if 0 <= i < code.len() {
        let b = code[i] as int;
        assert((2 * i) / 2 == i && (2 * i + 1) / 2 == i);
        assert(cookie[2 * i] == hex_digit(b / 16));
        assert(cookie[2 * i + 1] == hex_digit(b % 16));
    }
}

/// A form that could not be read, and one with a wrong password, are answered with
/// the page that asks for one and says what was wrong; one that is too large is
/// refused; and the right password is answered with a way to the tunnel.
pub proof fn forms_are_answered(
    password: Seq<char>,
    subdomain: Seq<char>,
    form: Seq<u8>,
    max_body_size: usize,
)
    ensures
        form_answer(password, subdomain, None, max_body_size) == html_response(
            200,
            password_html(subdomain, Some("Invalid request"@)),
        ),
        form.len() > max_body_size ==> form_answer(password, subdomain, Some(form), max_body_size)
            == html_response(413, PAYLOAD_TOO_LARGE_PAGE@),
        form.len() <= max_body_size && submitted(form) != password ==> form_answer(
            password,
            subdomain,
            Some(form),
            max_body_size,
        ) == html_response(200, password_html(subdomain, Some("Incorrect password"@))),
        form.len() <= max_body_size && submitted(form) == password ==> ({
            let cookie = "peek_auth_"@ + subdomain + "="@ + auth_cookie(password, subdomain)
                + "; Path=/; HttpOnly; SameSite=Lax; Secure; Max-Age=86400"@;
            let answer = form_answer(password, subdomain, Some(form), max_body_size);
            if header_value_text(cookie) {
                &&& answer.status == 303
                &&& answer.headers == seq![("location"@, "/"@), ("set-cookie"@, cookie)]
                &&& answer.body.len() == 0
            } else {
                answer == html_response(502, BAD_GATEWAY_PAGE@)
            }
        }),
{
}

/// The password of a form is the value of its first pair that is named so, as it
/// was before it was percent encoded; a form without one says nothing.
pub proof fn first_password_counts(pair: Seq<char>, rest: Seq<Seq<char>>, value: Seq<char>)
    ensures
        first_password(Seq::empty()) == Seq::<char>::empty(),
        first_password(seq!["password="@ + value] + rest) == form_value(value),
        (match parted(pair, '=') {
            Some((key, _)) => key != "password"@,
            None => true,
        }) ==> first_password(seq![pair] + rest) == first_password(rest),
{
    reveal_strlit("password=");
    reveal_strlit("password");
    let own = "password="@ + value;
    assert(own =~= "password"@ + seq!['='] + value);
    text_is_parted("password"@, value, '=');
    assert((seq![own] + rest)[0] == own);
    assert((seq![pair] + rest)[0] == pair);
    assert((seq![pair] + rest).skip(1) =~= rest);
}

/// A form's pairs stand between ampersands.
pub proof fn pairs_stand_between_ampersands(form: Seq<u8>)
    ensures
        submitted(form) == first_password(pieces(text_of(form), '&')),
{
}

/// The page that asks for a password sends it, under that name, to the place where
/// passwords go.
pub proof fn password_page_sends_the_form_back(subdomain: Seq<char>, error: Option<Seq<char>>)
    ensures
        exists|a: Seq<char>, b: Seq<char>|
            password_html(subdomain, error) == #[trigger] (a + "<form method=\"POST\" action=\"/__peek_auth\">"@ + b),
        exists|a: Seq<char>, b: Seq<char>|
            password_html(subdomain, error) == #[trigger] (a + "<input type=\"password\" name=\"password\""@ + b),
{
    reveal_strlit("\n<form method=\"POST\" action=\"/__peek_auth\">\n<input type=\"password\" name=\"password\" placeholder=\"Enter password\" required autofocus\n  style=\"width:100%;padding:12px;border:1px solid #ddd;border-radius:8px;font-size:16px;box-sizing:border-box;margin-bottom:12px\">\n<button type=\"submit\"\n  style=\"width:100%;padding:12px;background:#111;color:white;border:none;border-radius:8px;font-size:16px;cursor:pointer\">\n  Continue\n</button>\n</form>\n</div></body></html>");
    reveal_strlit("<form method=\"POST\" action=\"/__peek_auth\">");
    reveal_strlit("<input type=\"password\" name=\"password\"");
    let page = password_html(subdomain, error);
    let n = page.len() - 456;
    let end = PASSWORD_PAGE_END@;
    assert(page.skip(n) =~= end);
    assert(end.subrange(1, 43) =~= "<form method=\"POST\" action=\"/__peek_auth\">"@);
    assert(end.subrange(44, 82) =~= "<input type=\"password\" name=\"password\""@);
    assert(page =~= page.take(n + 1) + end.subrange(1, 43) + end.skip(43));
    assert(page =~= page.take(n + 44) + end.subrange(44, 82) + end.skip(82));
}

/// The page that asks for a password names the tunnel, and tells what was wrong.
pub proof fn password_page_tells_what_was_wrong(subdomain: Seq<char>, message: Seq<char>)
    ensures
        exists|a: Seq<char>, b: Seq<char>|
            password_html(subdomain, None) == #[trigger] (a + subdomain + b),
        exists|a: Seq<char>, b: Seq<char>|
            password_html(subdomain, Some(message)) == #[trigger] (a + subdomain + b),
        exists|a: Seq<char>, b: Seq<char>|
            password_html(subdomain, Some(message)) == #[trigger] (a + message + b),
{
    let start = PASSWORD_PAGE_START@;
    let middle = PASSWORD_PAGE_MIDDLE@;
    let end = PASSWORD_PAGE_END@;
    let open = "<p style=\"color:#e53e3e;margin-bottom:16px\">"@;
    let close = "</p>"@;
    assert(password_html(subdomain, None) =~= start + subdomain + (middle + end));
    assert(password_html(subdomain, Some(message)) =~= start + subdomain + (middle + open + message
        + close + end));
    assert(password_html(subdomain, Some(message)) =~= (start + subdomain + middle + open)
        + message + (close + end));
}

/// A request that was let in belongs to a tunnel with the password that was asked
/// for.
pub proof fn admissions_belong_to_one_tunnel<R>(
    admission: AdmissionView,
    conn: ConnectionView<R>,
)
    ensures
        belongs(admission, conn) <==> admission.password == conn.password && (
        conn.subdomain matches Some(own) ==> own == admission.subdomain),
{
}

} // verus!
