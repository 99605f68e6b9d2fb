//! The functions of other crates and of the standard library that this crate
//! calls, with what it takes for granted of each.

use axum::http::{HeaderName, HeaderValue, StatusCode};
use hmac::{Hmac, KeyInit, Mac};
use rand::RngExt;
use reqwest::Method;
use sha2::Sha256;
use std::time::Duration;
use subtle::ConstantTimeEq;
use vstd::prelude::*;
use vstd::utf8::{decode_utf8, encode_utf8, valid_utf8};

verus! {

/// `serde_json`'s error, carried through and never looked into.
#[verifier::external_type_specification]
#[verifier::external_body]
pub struct ExJsonError(serde_json::Error);

/// `serde_json`'s error, written down by its `Display`. Errors are never looked
/// into, so nothing is said of the text.
#[verifier::external_body]
pub(crate) fn json_error_text(error: &serde_json::Error) -> (text: String) {
    error.to_string()
}

/// `url`'s parse error, carried through and never looked into.
#[verifier::external_type_specification]
#[verifier::external_body]
pub struct ExUrlError(url::ParseError);

/// The WebSocket client's error, carried through and never looked into.
#[verifier::external_type_specification]
#[verifier::external_body]
pub struct ExWebSocketError(tokio_tungstenite::tungstenite::Error);

/// The HTTP client's error, carried through and never looked into.
#[verifier::external_type_specification]
#[verifier::external_body]
pub struct ExHttpClientError(reqwest::Error);

/// The HTTP client, carried through and never looked into.
#[verifier::external_type_specification]
#[verifier::external_body]
pub struct ExHttpClient(reqwest::Client);

/// The limits of an HTTP client: how long a request and reaching a server may
/// take, in seconds, and how many idle connections are kept for each host.
#[derive(Debug, Clone, Copy, PartialEq, Eq, Structural)]
pub struct HttpLimits {
    pub timeout_secs: u64,
    pub connect_timeout_secs: u64,
    pub max_idle_per_host: usize,
}

/// An HTTP client and the limits that it was made with.
#[derive(Debug)]
pub struct HttpClient {
    client: reqwest::Client,
    limits: HttpLimits,
}

impl HttpClient {
    /// The limits that the client was made with.
    pub closed spec fn limits(&self) -> HttpLimits {
        self.limits
    }

    /// `reqwest`'s client.
    pub closed spec fn sender(&self) -> reqwest::Client {
        self.client
    }

    /// `reqwest`'s client, to send requests with.
    pub fn client(&self) -> (client: &reqwest::Client)
        ensures
            *client == self.sender(),
    {
        &self.client
    }
}

/// `reqwest`'s `ClientBuilder` makes a client with these limits. Whether it can
/// depends on the machine, and what the client does with the limits shows only on
/// the network: nothing is said of either.
#[verifier::external_body]
pub(crate) fn build_http_client(limits: HttpLimits) -> (client: Result<HttpClient, reqwest::Error>)
    ensures
        client matches Ok(client) ==> client.limits() == limits,
{
    let client = reqwest::Client::builder()
        .timeout(Duration::from_secs(limits.timeout_secs))
        .connect_timeout(Duration::from_secs(limits.connect_timeout_secs))
        .pool_max_idle_per_host(limits.max_idle_per_host)
        .build()?;
    Ok(HttpClient { client, limits })
}

/// `String::push` appends one character.
pub assume_specification[ String::push ](s: &mut String, c: char)
    ensures
        final(s)@ == old(s)@.push(c),
;

/// What the standard library makes of bytes that are not UTF-8: some text with
/// replacement characters in it.
pub uninterp spec fn repaired_utf8(bytes: Seq<u8>) -> Seq<char>;

/// `String::from_utf8_lossy` decodes UTF-8, and repairs what is not UTF-8: the
/// replacement character stands for what is wrong.
#[verifier::external_body]
pub(crate) fn from_utf8_lossy(bytes: &[u8]) -> (text: String)
    ensures
        text@ == (if valid_utf8(bytes@) {
            decode_utf8(bytes@)
        } else {
            repaired_utf8(bytes@)
        }),
        !valid_utf8(bytes@) ==> text@.contains('\u{fffd}'),
{
    String::from_utf8_lossy(bytes).into_owned()
}

/// The characters with Unicode's `White_Space` property.
pub open spec fn white_space(c: char) -> bool {
    ||| '\u{9}' <= c <= '\u{d}'
    ||| c == ' '
    ||| c == '\u{85}'
    ||| c == '\u{a0}'
    ||| c == '\u{1680}'
    ||| '\u{2000}' <= c <= '\u{200a}'
    ||| c == '\u{2028}'
    ||| c == '\u{2029}'
    ||| c == '\u{202f}'
    ||| c == '\u{205f}'
    ||| c == '\u{3000}'
}

/// `s` without the white space it begins with.
pub open spec fn trimmed_start(s: Seq<char>) -> Seq<char>
    decreases s.len(),
{
    if s.len() > 0 && white_space(s[0]) {
        trimmed_start(s.skip(1))
    } else {
        s
    }
}

/// `s` without the white space it ends with.
pub open spec fn trimmed_end(s: Seq<char>) -> Seq<char>
    decreases s.len(),
{
    if s.len() > 0 && white_space(s.last()) {
        trimmed_end(s.drop_last())
    } else {
        s
    }
}

/// `s` without the white space around it.
pub open spec fn trimmed(s: Seq<char>) -> Seq<char> {
    trimmed_end(trimmed_start(s))
}

/// `str::trim` takes away the white space, as Unicode's `White_Space` property
/// has it, at both ends.
#[verifier::external_body]
pub(crate) fn trim(text: &str) -> (inner: &str)
    ensures
        inner@ == trimmed(text@),
{
    text.trim()
}

/// `subtle`'s `ct_eq` on byte slices tells whether they hold the same bytes.
#[verifier::external_body]
pub(crate) fn constant_time_eq(a: &[u8], b: &[u8]) -> (same: bool)
    ensures
        same == (a@ == b@),
{
    a.ct_eq(b).into()
}

/// The authentication code that HMAC with SHA-256 gives a message under a key.
pub uninterp spec fn hmac_sha256(key: Seq<u8>, message: Seq<u8>) -> Seq<u8>;

/// `hmac`'s `Hmac` over `sha2`'s `Sha256`, which takes keys of any length. The
/// code has 32 bytes and depends on the key and the message alone; which bytes
/// they are is not said.
#[verifier::external_body]
pub(crate) fn compute_hmac_sha256(key: &[u8], message: &[u8]) -> (code: Vec<u8>)
    ensures
        code@ == hmac_sha256(key@, message@),
        code@.len() == 32,
{
    let mut mac = Hmac::<Sha256>::new_from_slice(key).expect("HMAC can take key of any size");
    mac.update(message);
    mac.finalize().into_bytes().to_vec()
}

/// The small hexadecimal digit for a number below sixteen.
pub open spec fn hex_digit(n: int) -> char {
    if n < 10 {
        ('0' as u32 + n) as char
    } else {
        ('a' as u32 + n - 10) as char
    }
}

/// Bytes in hexadecimal, two digits for each.
pub open spec fn hex_text(bytes: Seq<u8>) -> Seq<char> {
    Seq::new(
        2 * bytes.len(),
        |i: int|
            hex_digit(
                if i % 2 == 0 {
                    bytes[i / 2] as int / 16
                } else {
                    bytes[i / 2] as int % 16
                },
            ),
    )
}

/// `hex::encode` writes each byte as two small hexadecimal digits.
#[verifier::external_body]
pub(crate) fn hex_encode(bytes: &[u8]) -> (text: String)
    requires
        bytes@.len() <= usize::MAX / 2,
    ensures
        text@ == hex_text(bytes@),
{
    hex::encode(bytes)
}

/// The value of a hexadecimal digit, small or capital.
pub open spec fn hex_value(b: u8) -> Option<int> {
    if 48 <= b <= 57 {
        Some(b - 48)
    } else if 65 <= b <= 70 {
        Some(b - 55)
    } else if 97 <= b <= 102 {
        Some(b - 87)
    } else {
        None
    }
}

/// Bytes with every percent sign that two hexadecimal digits follow, and those
/// digits, replaced by the byte that they stand for.
pub open spec fn percent_decoded(bytes: Seq<u8>) -> Seq<u8>
    decreases bytes.len(),
{
    if bytes.len() == 0 {
        bytes
    } else if bytes.len() >= 3 && bytes[0] == 37 && hex_value(bytes[1]) is Some && hex_value(
        bytes[2],
    ) is Some {
        seq![(hex_value(bytes[1])->0 * 16 + hex_value(bytes[2])->0) as u8] + percent_decoded(
            bytes.skip(3),
        )
    } else {
        seq![bytes[0]] + percent_decoded(bytes.skip(1))
    }
}

/// `urlencoding::decode` undoes percent encoding, leaves a percent sign alone
/// that no two hexadecimal digits follow, and fails where what comes out is not
/// UTF-8.
#[verifier::external_body]
pub(crate) fn percent_decode(text: &str) -> (decoded: Option<String>)
    ensures
        match decoded {
            Some(decoded) => {
                &&& valid_utf8(percent_decoded(encode_utf8(text@)))
                &&& decoded@ == decode_utf8(percent_decoded(encode_utf8(text@)))
            },
            None => !valid_utf8(percent_decoded(encode_utf8(text@))),
        },
{
    match urlencoding::decode(text) {
        Ok(decoded) => Some(decoded.into_owned()),
        Err(_) => None,
    }
}

/// `rand`'s thread-local generator draws a number below `bound`. Which one it
/// is, is left to chance.
#[verifier::external_body]
pub(crate) fn random_below(bound: u8) -> (index: u8)
    requires
        0 < bound,
    ensures
        index < bound,
{
    rand::rng().random_range(0..bound)
}

/// What `url` finds in a text: nothing if it is no absolute URL, otherwise the
/// port that it names or that its scheme is known for, if there is one.
pub uninterp spec fn url_port(text: Seq<char>) -> Option<Option<u16>>;

/// `url::Url::parse`, then `port_or_known_default` on what it gives. The outcome
/// depends on the text alone; which texts are URLs is not said.
#[verifier::external_body]
pub(crate) fn parse_url_port(text: &str) -> (port: Result<Option<u16>, url::ParseError>)
    ensures
        match port {
            Ok(port) => url_port(text@) == Some(port),
            Err(_) => url_port(text@) is None,
        },
{
    match url::Url::parse(text) {
        Ok(url) => Ok(url.port_or_known_default()),
        Err(error) => Err(error),
    }
}

/// The characters of an HTTP token.
pub open spec fn token_char(c: char) -> bool {
    ||| '0' <= c <= '9'
    ||| 'A' <= c <= 'Z'
    ||| 'a' <= c <= 'z'
    ||| c == '!' || c == '#' || c == '$' || c == '%' || c == '&' || c == '\'' || c == '*'
    ||| c == '+' || c == '-' || c == '.' || c == '^' || c == '_' || c == '`' || c == '|'
    ||| c == '~'
}

/// An HTTP token: one or more token characters.
pub open spec fn is_token(s: Seq<char>) -> bool {
    s.len() > 0 && forall|i: int| 0 <= i < s.len() ==> token_char(#[trigger] s[i])
}

/// A header name: a token of at most 65535 characters.
pub open spec fn header_name_text(s: Seq<char>) -> bool {
    is_token(s) && s.len() <= 65535
}

/// A header value: no control characters but the tab.
pub open spec fn header_value_text(s: Seq<char>) -> bool {
    forall|i: int|
        0 <= i < s.len() ==> (' ' <= #[trigger] s[i] && s[i] != '\u{7f}') || s[i] == '\t'
}

/// `StatusCode::from_u16`, as `axum` has it from `http`, takes the numbers of
/// three digits.
#[verifier::external_body]
pub(crate) fn is_status_code(status: u16) -> (valid: bool)
    ensures
        valid == (100 <= status <= 999),
{
    StatusCode::from_u16(status).is_ok()
}

/// `HeaderName::from_bytes`, as `axum` has it from `http`, takes tokens that are
/// not too long.
#[verifier::external_body]
pub(crate) fn is_header_name(name: &str) -> (valid: bool)
    ensures
        valid == header_name_text(name@),
{
    HeaderName::from_bytes(name.as_bytes()).is_ok()
}

/// `HeaderValue::from_str`, as `axum` has it from `http`, takes text without
/// control characters other than the tab.
#[verifier::external_body]
pub(crate) fn is_header_value(value: &str) -> (valid: bool)
    ensures
        valid == header_value_text(value@),
{
    HeaderValue::from_str(value).is_ok()
}

/// A byte that a header value may have to be text: visible ASCII, the space or
/// the tab.
pub open spec fn visible_byte(b: u8) -> bool {
    32 <= b < 127 || b == 9
}

/// Whether all bytes are visible.
pub open spec fn visible(bytes: Seq<u8>) -> bool {
    forall|i: int| 0 <= i < bytes.len() ==> visible_byte(#[trigger] bytes[i])
}

/// The text that ASCII bytes stand for.
pub open spec fn ascii_text(bytes: Seq<u8>) -> Seq<char> {
    bytes.map_values(|b: u8| b as char)
}

/// `HeaderValue::from_bytes`, as `axum` has it from `http`, and `to_str` on what
/// it gives: the value as text where all its bytes are visible, and nothing
/// otherwise.
#[verifier::external_body]
pub(crate) fn visible_text(value: &[u8]) -> (text: Option<String>)
    ensures
        match text {
            Some(text) => visible(value@) && text@ == ascii_text(value@),
            None => !visible(value@),
        },
{
    match HeaderValue::from_bytes(value) {
        Ok(value) => match value.to_str() {
            Ok(text) => Some(text.to_owned()),
            Err(_) => None,
        },
        Err(_) => None,
    }
}

/// `Method::from_bytes`, as `reqwest` has it from `http`, takes tokens.
#[verifier::external_body]
pub(crate) fn is_method(method: &str) -> (valid: bool)
    ensures
        valid == is_token(method@),
{
    Method::from_bytes(method.as_bytes()).is_ok()
}

} // verus!
