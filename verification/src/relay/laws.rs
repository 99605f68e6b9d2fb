//! What holds of the relay as a whole: the address it gives out leads to the
//! tunnel it was given out for, and the cookie it sets lets a visitor in.

use crate::outside::{ascii_text, hex_digit, hex_text, hmac_sha256, trimmed, visible_byte};
use crate::relay::access::{
    auth_cookie, carries, cookie_name, cookie_setting, form_answer, is_cookie,
    may_pass, submitted,
};
use crate::relay::handler::{host_of, subdomain_in, tunnel_for};
use crate::relay::http::HeadView;
use crate::relay::registry::{is_made_up, RegistryView};
use crate::relay::session::public_url;
use crate::seqs::{first_index, lemma_first_index, lemma_first_index_is, pieces};
use crate::text::lower;
use vstd::prelude::*;
use vstd::utf8::encode_utf8;

verus! {

/// What a host name may have after it: nothing, or a port.
pub open spec fn is_port_part(part: Seq<char>) -> bool {
    part.len() == 0 || part[0] == ':'
}

/// A subdomain that can be told from the domain: one label.
pub open spec fn is_label(subdomain: Seq<char>) -> bool {
    subdomain.len() > 0 && !subdomain.contains('.') && !subdomain.contains(':')
}

/// The host in the address that is given out for a tunnel has that tunnel's
/// subdomain in it, with a port after it or without.
pub proof fn address_has_subdomain(subdomain: Seq<char>, domain: Seq<char>, port: Seq<char>)
    requires
        is_label(subdomain),
        !domain.contains(':'),
        is_port_part(port),
    ensures
        public_url(subdomain, domain) == "https://"@ + (subdomain + "."@ + domain),
        subdomain_in(subdomain + "."@ + domain + port, domain) == Some(subdomain),
{
    reveal_strlit(".");
    let suffix = "."@ + domain;
    let name = subdomain + "."@ + domain;
    let host = name + port;
    assert(public_url(subdomain, domain) =~= "https://"@ + name);
    assert forall|i: int| 0 <= i < name.len() implies host[i] != ':' by {
        if i < subdomain.len() {
            assert(subdomain.contains(subdomain[i]));
        } else if i > subdomain.len() {
            assert(domain.contains(domain[i - subdomain.len() - 1]));
        }
    }
    lemma_first_index_is(host, ':', name.len() as int);
    assert(host.take(name.len() as int) =~= name);
    assert(suffix =~= name.subrange(name.len() - suffix.len(), name.len() as int));
    assert(name.take(name.len() - suffix.len()) =~= subdomain);
}

/// Every subdomain that the relay makes up is one label.
pub proof fn made_up_is_label(name: Seq<char>)
    requires
        is_made_up(name),
    ensures
        is_label(name),
{
    if name.contains('.') {
        let i = choose|i: int| 0 <= i < name.len() && name[i] == '.';
        assert(name[i] == '.');
    }
    if name.contains(':') {
        let i = choose|i: int| 0 <= i < name.len() && name[i] == ':';
        assert(name[i] == ':');
    }
}

/// A request for the address that was given out for a tunnel goes through that
/// tunnel, as long as it is open and to no other one.
pub proof fn address_leads_to_tunnel<C>(
    registry: RegistryView<C>,
    subdomain: Seq<char>,
    conn: C,
    head: HeadView,
    port: Seq<char>,
)
    requires
        registry.wf(),
        registry.has_room_for(subdomain),
        is_label(subdomain),
        !registry.domain.contains(':'),
        is_port_part(port),
        host_of(head) == subdomain + "."@ + registry.domain + port,
    ensures
        tunnel_for(registry.registered(subdomain, conn), head) == Some(subdomain),
        registry.registered(subdomain, conn).tunnels[subdomain] == conn,
        tunnel_for(registry.registered(subdomain, conn).removed(subdomain), head) is None,
{
    address_has_subdomain(subdomain, registry.domain, port);
}

/// A subdomain whose cookie survives the way to a browser and back: visible,
/// without the characters that mean something in a cookie header, and not
/// ending with a space or a tab.
pub open spec fn suits_cookie(subdomain: Seq<char>) -> bool {
    &&& forall|i: int|
        0 <= i < subdomain.len() ==> (' ' <= #[trigger] subdomain[i] <= '~' || subdomain[i] == '\t')
    &&& !subdomain.contains(';')
    &&& !subdomain.contains('=')
    &&& subdomain.len() > 0 ==> subdomain.last() != ' ' && subdomain.last() != '\t'
}

/// Bytes that are the characters of a text, one for one.
pub open spec fn ascii_bytes(text: Seq<char>) -> Seq<u8> {
    text.map_values(|c: char| c as u8)
}

proof fn lemma_hex_text(bytes: Seq<u8>)
    ensures
        forall|i: int|
            0 <= i < hex_text(bytes).len() ==> '0' <= #[trigger] hex_text(bytes)[i] <= '9' || 'a'
                <= hex_text(bytes)[i] <= 'f',
{
    assert forall|i: int| 0 <= i < hex_text(bytes).len() implies '0' <= #[trigger] hex_text(
        bytes,
    )[i] <= '9' || 'a' <= hex_text(bytes)[i] <= 'f' by {
        let n = if i % 2 == 0 {
            bytes[i / 2] as int / 16
        } else {
            bytes[i / 2] as int % 16
        };
        assert(hex_text(bytes)[i] == hex_digit(n));
    }
}

/// A wrong password sets no cookie, and neither does one that cannot be read or is
/// in a form that is too large; and without the cookie no visitor gets to a
/// protected tunnel.
pub proof fn only_the_password_lets_in(
    password: Seq<char>,
    subdomain: Seq<char>,
    form: Option<Seq<u8>>,
    max_body_size: usize,
    head: HeadView,
)
    ensures
        ({
            let answer = form_answer(password, subdomain, form, max_body_size);
            let too_large = form matches Some(form) && form.len() > max_body_size;
            form is None || too_large || submitted(form->0) != password ==> {
                &&& answer.status == if too_large {
                    413
                } else {
                    200u16
                }
                &&& answer.headers.len() == 1
                &&& answer.headers[0].0 == "content-type"@
            }
        }),
        may_pass(Some(password), subdomain, head) ==> carries(
            head.headers,
            cookie_name(subdomain),
            auth_cookie(password, subdomain),
        ),
{
}

/// What a browser keeps, and sends back, of a cookie that is set.
pub open spec fn kept_cookie(setting: Seq<char>) -> Seq<char> {
    setting.take(first_index(setting, ';'))
}

/// The right password sets a cookie, and that cookie lets a visitor in once the
/// browser sends it back in a cookie header, for any request but another
/// password.
pub proof fn password_grants_access(
    password: Seq<char>,
    subdomain: Seq<char>,
    form: Seq<u8>,
    max_body_size: usize,
    head: HeadView,
    i: int,
)
    requires
        suits_cookie(subdomain),
        form.len() <= max_body_size,
        submitted(form) == password,
        head.method != "POST"@ || head.path != "/__peek_auth"@,
        0 <= i < head.headers.len(),
        head.headers[i].0 == "cookie"@,
        head.headers[i].1 == ascii_bytes(
            kept_cookie(form_answer(password, subdomain, Some(form), max_body_size).headers[1].1),
        ),
    ensures
        form_answer(password, subdomain, Some(form), max_body_size).status == 303,
        form_answer(password, subdomain, Some(form), max_body_size).headers[1].0 == "set-cookie"@,
        may_pass(Some(password), subdomain, head),
{
    reveal_strlit("peek_auth_");
    reveal_strlit("=");
    reveal_strlit("; Path=/; HttpOnly; SameSite=Lax; Secure; Max-Age=86400");
    let name = cookie_name(subdomain);
    let value = auth_cookie(password, subdomain);
    let text = name + "="@ + value;
    let bytes = ascii_bytes(text);
    lemma_hex_text(hmac_sha256(encode_utf8(password), encode_utf8(subdomain)));
    assert forall|k: int| 0 <= k < text.len() implies {
        &&& ' ' <= #[trigger] text[k] <= '~' || text[k] == '\t'
        &&& text[k] != ';'
        &&& k < name.len() ==> text[k] != '='
    } by {
        if 10 <= k < name.len() {
            assert(text[k] == subdomain[k - 10]);
            assert(subdomain.contains(subdomain[k - 10]));
        } else if k > name.len() {
            assert(text[k] == value[k - name.len() - 1]);
        }
    }
    assert forall|k: int| 0 <= k < bytes.len() implies {
        &&& visible_byte(#[trigger] bytes[k])
        &&& bytes[k] as char == text[k]
    } by {
        assert(bytes[k] == text[k] as u8);
    }
    assert(ascii_text(bytes) =~= text);
    let setting = cookie_setting(subdomain, value);
    let rest = "; Path=/; HttpOnly; SameSite=Lax; Secure; Max-Age=86400"@;
    assert(setting =~= text + rest);
    lemma_first_index_is(setting, ';', text.len() as int);
    assert(kept_cookie(setting) =~= text);
    assert forall|k: int| 0 <= k < setting.len() implies ((' ' <= #[trigger] setting[k]
        && setting[k] != '\u{7f}') || setting[k] == '\t') by {
        if k < text.len() {
            assert(setting[k] == text[k]);
        } else {
            assert(setting[k] == rest[k - text.len()]);
        }
    }
    lemma_first_index(text, ';');
    assert(!text.contains(';'));
    assert(pieces(text, ';') =~= seq![text]);
    assert(trimmed(text) == text) by {
        assert(text[0] == 'p');
        if value.len() > 0 {
            assert(text.last() == value.last());
        } else {
            assert(text.last() == '=');
        }
    }
    lemma_first_index_is(text, '=', name.len() as int);
    assert(text.take(name.len() as int) =~= name);
    assert(text.skip((name.len() + 1) as int) =~= value);
    assert(trimmed(name) == name) by {
        assert(name[0] == 'p');
        if subdomain.len() > 0 {
            assert(name.last() == subdomain.last());
        } else {
            assert(name.last() == '_');
        }
    }
    assert(trimmed(value) == value);
    assert(is_cookie(pieces(text, ';')[0], name, value));
    assert(lower(head.headers[i].0) == lower("cookie"@));
}

} // verus!
