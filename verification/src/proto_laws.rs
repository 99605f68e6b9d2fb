//! What is written to the wire is read back from it.

use crate::outside::{trimmed, trimmed_end, trimmed_start, white_space};
use crate::proto::{
    all_fields, crlf, frame_bytes, frame_id, head_and_body, head_lines, header_end, header_field,
    header_fields, header_line, header_lines, id_bytes, message_bytes, parsed_request,
    parsed_response, request_bytes, request_line, response_bytes, without_cr, Fields, RequestView,
    ResponseView, MAX_HEADERS,
};
use crate::seqs::{first_index, first_match, lemma_first_index, lemma_first_index_is, pieces};
use crate::text::{decimal_roundtrip, decimal_text, is_digit, text_of};
use vstd::prelude::*;
use vstd::utf8::{
    encode_scalar, encode_utf8, encode_utf8_decode_utf8, encode_utf8_valid_utf8,
};

verus! {

/// A frame gives back the request ID and the data it was made of.
pub proof fn frame_roundtrip(id: u32, data: Seq<u8>)
    ensures
        frame_bytes(id, data).len() >= 4,
        frame_id(frame_bytes(id, data)) == id,
        frame_bytes(id, data).skip(4) == data,
{
    let frame = frame_bytes(id, data);
    assert(frame[0] == id_bytes(id)[0]);
    assert(frame[1] == id_bytes(id)[1]);
    assert(frame[2] == id_bytes(id)[2]);
    assert(frame[3] == id_bytes(id)[3]);
    assert(frame.skip(4) =~= data);
}

proof fn lemma_id_parts(a: int, b: int, c: int, d: int)
    requires
        0 <= a < 0x100,
        0 <= b < 0x100,
        0 <= c < 0x100,
        0 <= d < 0x100,
    ensures
        ({
            let n = a * 0x100_0000 + b * 0x1_0000 + c * 0x100 + d;
            &&& 0 <= n < 0x1_0000_0000
            &&& n / 0x100_0000 == a
            &&& n / 0x1_0000 % 0x100 == b
            &&& n / 0x100 % 0x100 == c
            &&& n % 0x100 == d
        }),
{
    let n = a * 0x100_0000 + b * 0x1_0000 + c * 0x100 + d;
    assert(n / 0x1_0000 == a * 0x100 + b);
    assert(n / 0x100 == a * 0x1_0000 + b * 0x100 + c);
}

/// What a frame gives back makes the same frame again.
pub proof fn frame_restored(frame: Seq<u8>)
    requires
        frame.len() >= 4,
    ensures
        frame_bytes(frame_id(frame), frame.skip(4)) == frame,
{
    lemma_id_parts(frame[0] as int, frame[1] as int, frame[2] as int, frame[3] as int);
    let id = id_bytes(frame_id(frame));
    assert(id[0] == frame[0] && id[1] == frame[1] && id[2] == frame[2] && id[3] == frame[3]);
    assert(frame_bytes(frame_id(frame), frame.skip(4)) =~= frame);
}

/// A header that survives the wire: one line, no colon in its name, and no
/// white space around its name or its value.
pub open spec fn clean_field(field: (Seq<char>, Seq<char>)) -> bool {
    &&& !field.0.contains('\n')
    &&& !field.0.contains(':')
    &&& trimmed(field.0) == field.0
    &&& !field.1.contains('\n')
    &&& trimmed(field.1) == field.1
}

/// Headers that survive the wire.
pub open spec fn clean_fields(headers: Fields) -> bool {
    &&& headers.len() <= MAX_HEADERS
    &&& forall|i: int| 0 <= i < headers.len() ==> clean_field(#[trigger] headers[i])
}

/// The head of a message: its lines, with line ends between them.
spec fn head_text(first: Seq<u8>, headers: Fields) -> Seq<u8>
    decreases headers.len(),
{
    if headers.len() == 0 {
        first
    } else {
        head_text(first, headers.drop_last()) + crlf() + field_bytes(headers.last())
    }
}

spec fn field_bytes(field: (Seq<char>, Seq<char>)) -> Seq<u8> {
    encode_utf8(field.0) + seq![58u8, 32u8] + encode_utf8(field.1)
}

/// No two line feeds stand closer than three apart.
spec fn spaced(s: Seq<u8>) -> bool {
    forall|k: int| 2 <= k < s.len() && #[trigger] s[k] == 10 ==> s[k - 2] != 10
}

proof fn lemma_encode_concat(a: Seq<char>, b: Seq<char>)
    ensures
        encode_utf8(a + b) == encode_utf8(a) + encode_utf8(b),
    decreases a.len(),
{
    if a.len() == 0 {
        assert(a + b =~= b);
        assert(encode_utf8(a + b) =~= encode_utf8(a) + encode_utf8(b));
    } else {
        assert((a + b).drop_first() =~= a.drop_first() + b);
        lemma_encode_concat(a.drop_first(), b);
        assert(encode_utf8(a + b) =~= encode_utf8(a) + encode_utf8(b));
    }
}

pub(crate) proof fn lemma_encode_ascii_scalar(c: char)
    ensures
        encode_scalar(c as u32).len() > 0,
        (c as u32) < 128 ==> encode_scalar(c as u32) == seq![c as u8],
        (c as u32) >= 128 ==> forall|i: int|
            0 <= i < encode_scalar(c as u32).len() ==> #[trigger] encode_scalar(c as u32)[i] >= 128,
        forall|d: char, i: int|
            (d as u32) < 128 && d != c && 0 <= i < encode_scalar(c as u32).len()
                ==> #[trigger] encode_scalar(c as u32)[i] != #[trigger] (d as u8),
{
    let v = c as u32;
    assert(v < 128 ==> (v & 0x7F) as u8 == v as u8) by (bit_vector);
    assert(forall|x: u8| #[trigger] (0xC0 | x) >= 128u8) by (bit_vector);
    assert(forall|x: u8| #[trigger] (0xE0 | x) >= 128u8) by (bit_vector);
    assert(forall|x: u8| #[trigger] (0xF0 | x) >= 128u8) by (bit_vector);
    assert(forall|x: u8| #[trigger] (0x80 | x) >= 128u8) by (bit_vector);
    assert(v < 128 ==> encode_scalar(v) =~= seq![c as u8]);
    assert forall|d: char, i: int|
        (d as u32) < 128 && d != c && 0 <= i < encode_scalar(
            c as u32,
        ).len() implies #[trigger] encode_scalar(c as u32)[i] != #[trigger] (d as u8) by {
        let w = d as u32;
        assert(w < 128 && v < 128 && w != v ==> w as u8 != v as u8) by (bit_vector);
    }
}

proof fn lemma_encode_ascii(c: char)
    requires
        (c as u32) < 128,
    ensures
        encode_utf8(seq![c]) == seq![c as u8],
{
    lemma_encode_ascii_scalar(c);
    assert(seq![c].drop_first() =~= Seq::empty());
    assert(encode_utf8(seq![c].drop_first()) =~= Seq::empty());
    assert(encode_utf8(seq![c]) =~= seq![c as u8]);
}

/// An ASCII byte in encoded text comes from that character.
pub(crate) proof fn lemma_ascii_byte(s: Seq<char>, c: char)
    requires
        (c as u32) < 128,
        !s.contains(c),
    ensures
        forall|i: int| 0 <= i < encode_utf8(s).len() ==> #[trigger] encode_utf8(s)[i] != c as u8,
    decreases s.len(),
{
    if s.len() > 0 {
        let rest = s.drop_first();
        assert forall|x: char| rest.contains(x) implies s.contains(x) by {
            let k = choose|k: int| 0 <= k < rest.len() && rest[k] == x;
            assert(s[k + 1] == x);
        }
        lemma_ascii_byte(rest, c);
        lemma_encode_ascii_scalar(s[0]);
        let first = encode_scalar(s[0] as u32);
        assert(s.contains(s[0]));
        assert forall|i: int| 0 <= i < encode_utf8(s).len() implies #[trigger] encode_utf8(s)[i]
            != c as u8 by {
            if i >= first.len() {
                assert(encode_utf8(s)[i] == encode_utf8(rest)[i - first.len()]);
            } else {
                assert(encode_utf8(s)[i] == first[i]);
            }
        }
    }
}

/// Encoded text ends with an ASCII byte only if the text ends with that
/// character.
proof fn lemma_last_byte(s: Seq<char>)
    requires
        s.len() > 0,
    ensures
        encode_utf8(s).len() > 0,
        forall|c: char|
            (c as u32) < 128 && #[trigger] (c as u8) == encode_utf8(s).last() ==> c == s.last(),
{
    assert(s =~= s.drop_last() + seq![s.last()]);
    lemma_encode_concat(s.drop_last(), seq![s.last()]);
    lemma_encode_ascii_scalar(s.last());
    assert(seq![s.last()].drop_first() =~= Seq::empty());
    assert(encode_utf8(seq![s.last()].drop_first()) =~= Seq::empty());
    assert(encode_utf8(seq![s.last()]) =~= encode_scalar(s.last() as u32));
}

pub(crate) proof fn lemma_text_of_encoded(s: Seq<char>)
    ensures
        text_of(encode_utf8(s)) == s,
{
    encode_utf8_valid_utf8(s);
    encode_utf8_decode_utf8(s);
}

proof fn lemma_trimmed_end(s: Seq<char>)
    ensures
        trimmed_end(s).len() <= s.len(),
        trimmed_end(s).len() > 0 ==> !white_space(trimmed_end(s).last()),
    decreases s.len(),
{
    if s.len() > 0 && white_space(s.last()) {
        lemma_trimmed_end(s.drop_last());
    }
}

proof fn lemma_trimmed_is(s: Seq<char>)
    requires
        s.len() > 0 ==> !white_space(s[0]) && !white_space(s.last()),
    ensures
        trimmed(s) == s,
{
}

proof fn lemma_first_match_is<T>(s: Seq<T>, pattern: Seq<T>, p: int)
    requires
        0 <= p <= s.len(),
        pattern.is_prefix_of(s.skip(p)),
        forall|q: int| 0 <= q < p ==> !pattern.is_prefix_of(#[trigger] s.skip(q)),
    ensures
        first_match(s, pattern) == Some(p),
    decreases s.len(),
{
    assert(s.skip(0) =~= s);
    if p > 0 {
        let rest = s.skip(1);
        assert(rest.skip(p - 1) =~= s.skip(p));
        assert forall|q: int| 0 <= q < p - 1 implies !pattern.is_prefix_of(
            #[trigger] rest.skip(q),
        ) by {
            assert(rest.skip(q) =~= s.skip(q + 1));
        }
        lemma_first_match_is(rest, pattern, p - 1);
    }
}

proof fn lemma_pieces_push<T>(a: Seq<T>, b: Seq<T>, sep: T)
    requires
        !b.contains(sep),
    ensures
        pieces(a + seq![sep] + b, sep) == pieces(a, sep).push(b),
        pieces(b, sep) == seq![b],
    decreases a.len(),
{
    lemma_first_index(b, sep);
    lemma_first_index(a, sep);
    let i = first_index(a, sep);
    let whole = a + seq![sep] + b;
    lemma_first_index_is(whole, sep, i);
    assert(pieces(b, sep) =~= seq![b]);
    if i == a.len() {
        assert(pieces(a, sep) =~= seq![a]);
        assert(whole.take(i) =~= a);
        assert(whole.skip(i + 1) =~= b);
        assert(pieces(whole, sep) =~= pieces(a, sep).push(b));
    } else {
        assert(whole.take(i) =~= a.take(i));
        assert(whole.skip(i + 1) =~= a.skip(i + 1) + seq![sep] + b);
        lemma_pieces_push(a.skip(i + 1), b, sep);
        assert(pieces(whole, sep) =~= pieces(a, sep).push(b));
    }
}

/// A clean header's line reads back as that header.
proof fn lemma_header_field(field: (Seq<char>, Seq<char>))
    requires
        clean_field(field),
    ensures
        header_field(field_bytes(field)) == Some(field),
        header_field(field_bytes(field).push(13u8)) == Some(field),
        !field_bytes(field).contains(10u8),
        field_bytes(field).len() > 0,
{
    let line = field_bytes(field);
    let name = encode_utf8(field.0);
    let value = encode_utf8(field.1);
    lemma_ascii_byte(field.0, '\n');
    lemma_ascii_byte(field.0, ':');
    lemma_ascii_byte(field.1, '\n');
    lemma_first_index_is(line, 58u8, name.len() as int);
    assert(line.take(name.len() as int) =~= name);
    lemma_text_of_encoded(field.0);
    let spaced = seq![' '] + field.1;
    lemma_encode_concat(seq![' '], field.1);
    lemma_encode_ascii(' ');
    assert(line.skip((name.len() + 1) as int) =~= encode_utf8(spaced));
    lemma_text_of_encoded(spaced);
    assert(spaced.skip(1) =~= field.1);
    assert(trimmed_start(spaced) == trimmed_start(field.1));
    assert(line.last() != 13) by {
        if field.1.len() > 0 {
            lemma_trimmed_end(trimmed_start(field.1));
            lemma_last_byte(field.1);
            assert(line.last() == value.last());
            assert('\r' as u8 == 13u8);
        } else {
            assert(line.last() == 32u8);
        }
    }
    assert(line.push(13u8).drop_last() =~= line);
    assert(without_cr(line) == line);
    assert(without_cr(line.push(13u8)) == line);
}

/// A message's head, with a carriage return after it or without one, falls into
/// its lines again.
proof fn lemma_head_text(first: Seq<u8>, headers: Fields)
    requires
        first.len() > 0,
        !first.contains(10u8),
        forall|i: int| 0 <= i < headers.len() ==> clean_field(#[trigger] headers[i]),
    ensures
        has_lines(head_text(first, headers).push(13u8), first, headers),
        headers.len() > 0 || first.last() != 13 ==> has_lines(
            head_text(first, headers),
            first,
            headers,
        ),
    decreases headers.len(),
{
    let text = head_text(first, headers);
    if headers.len() == 0 {
        let ended = first.push(13u8);
        assert forall|i: int| 0 <= i < ended.len() implies ended[i] != 10 by {
            assert(i < first.len() ==> first.contains(first[i]));
        }
        lemma_pieces_push(first, ended, 10u8);
        lemma_pieces_push(first, first, 10u8);
        assert(ended.drop_last() =~= first);
        assert(pieces(ended, 10u8).skip(1) =~= Seq::empty());
        assert(pieces(first, 10u8).skip(1) =~= Seq::empty());
        assert(headers =~= Seq::empty());
    } else {
        let before = headers.drop_last();
        let field = headers.last();
        let prev = head_text(first, before);
        lemma_head_text(first, before);
        lemma_header_field(field);
        let line = field_bytes(field);
        let ended = line.push(13u8);
        assert forall|i: int| 0 <= i < ended.len() implies ended[i] != 10 by {
            assert(i < line.len() ==> line.contains(line[i]));
        }
        assert(text =~= prev.push(13u8) + seq![10u8] + line);
        assert(text.push(13u8) =~= prev.push(13u8) + seq![10u8] + ended);
        lemma_pieces_push(prev.push(13u8), line, 10u8);
        lemma_pieces_push(prev.push(13u8), ended, 10u8);
        let shared = pieces(prev.push(13u8), 10u8);
        assert(before.push(field) =~= headers);
        lemma_one_more_field(shared, line, before, field);
        lemma_one_more_field(shared, ended, before, field);
    }
}

/// Whether a head falls into this first line and these headers.
spec fn has_lines(head: Seq<u8>, first: Seq<u8>, headers: Fields) -> bool {
    let lines = pieces(head, 10u8);
    &&& lines.len() == headers.len() + 1
    &&& without_cr(lines[0]) == first
    &&& all_fields(lines.skip(1)) == headers
}

proof fn lemma_one_more_field(
    lines: Seq<Seq<u8>>,
    line: Seq<u8>,
    before: Fields,
    field: (Seq<char>, Seq<char>),
)
    requires
        lines.len() > 0,
        all_fields(lines.skip(1)) == before,
        header_field(line) == Some(field),
    ensures
        all_fields(lines.push(line).skip(1)) == before.push(field),
        lines.push(line)[0] == lines[0],
{
    assert(lines.push(line).skip(1) =~= lines.skip(1).push(line));
    assert(lines.skip(1).push(line).drop_last() =~= lines.skip(1));
}

/// The lines of a message's head make the head, and no two line feeds in it
/// stand close together.
proof fn lemma_head_spaced(first: Seq<u8>, headers: Fields)
    requires
        first.len() > 0,
        !first.contains(10u8),
        forall|i: int| 0 <= i < headers.len() ==> clean_field(#[trigger] headers[i]),
    ensures
        spaced(head_text(first, headers) + crlf()),
        first + crlf() + header_lines(headers) == head_text(first, headers) + crlf(),
    decreases headers.len(),
{
    let text = head_text(first, headers);
    let core = text + crlf();
    if headers.len() == 0 {
        assert forall|k: int| 2 <= k < core.len() && #[trigger] core[k] == 10 implies core[k - 2]
            != 10 by {
            assert(k < first.len() ==> first.contains(first[k]));
            assert(k - 2 < first.len() ==> first.contains(first[k - 2]));
        }
        assert(first + crlf() + header_lines(headers) =~= text + crlf());
    } else {
        let field = headers.last();
        let line = field_bytes(field);
        let core_before = head_text(first, headers.drop_last()) + crlf();
        lemma_head_spaced(first, headers.drop_last());
        lemma_header_field(field);
        assert(core =~= core_before + line + crlf());
        assert forall|k: int| 2 <= k < core.len() && #[trigger] core[k] == 10 implies core[k - 2]
            != 10 by {
            let n = core_before.len();
            if k < n {
                assert(core_before[k] == core[k]);
            } else if k < n + line.len() {
                assert(line.contains(line[k - n]));
            } else {
                assert(k == n + line.len() + 1);
                assert(line.contains(line[line.len() - 1]));
            }
        }
        assert(header_line(field) =~= line + crlf());
        assert(first + crlf() + header_lines(headers) =~= core_before + header_line(field));
        assert(first + crlf() + header_lines(headers) =~= text + crlf());
    }
}

/// A message falls into its lines and its body again.
proof fn lemma_message(first: Seq<u8>, headers: Fields, body: Seq<u8>)
    requires
        first.len() > 0,
        !first.contains(10u8),
        headers.len() > 0 || first.last() != 13,
        clean_fields(headers),
    ensures
        ({
            let (head, rest) = head_and_body(message_bytes(first, headers, body));
            &&& rest == body
            &&& without_cr(head_lines(head)[0]) == first
            &&& header_fields(head_lines(head).skip(1)) == headers
        }),
{
    let data = message_bytes(first, headers, body);
    let text = head_text(first, headers);
    let core = text + crlf();
    lemma_head_text(first, headers);
    lemma_head_spaced(first, headers);
    assert(data =~= core + crlf() + body);
    let p = text.len() as int;
    assert(header_end().is_prefix_of(data.skip(p))) by {
        assert(data.skip(p).subrange(0, 4) =~= header_end());
    }
    assert forall|q: int| 0 <= q < p implies !header_end().is_prefix_of(#[trigger] data.skip(q)) by {
        if header_end().is_prefix_of(data.skip(q)) {
            let found = data.skip(q).subrange(0, 4);
            assert(found[1] == 10 && found[3] == 10);
            assert(data[q + 1] == 10 && data[q + 3] == 10);
            if q + 3 < core.len() {
                assert(core[q + 3] == 10);
                assert(core[q + 1] == 10);
            } else {
                assert(data[core.len() as int] == 13);
            }
        }
    }
    lemma_first_match_is(data, header_end(), p);
    assert(data.take(p) =~= text);
    assert(data.skip(p + 4) =~= body);
}

/// A request that survives the wire: neither its method nor its URI has a line
/// feed in it, its method has no space in it, its headers are clean, and if it
/// has none its URI does not end with a carriage return.
pub open spec fn clean_request(request: RequestView) -> bool {
    &&& !request.method.contains(' ')
    &&& !request.method.contains('\n')
    &&& !request.uri.contains('\n')
    &&& clean_fields(request.headers)
    &&& request.headers.len() == 0 && request.uri.len() > 0 ==> request.uri.last() != '\r'
}

/// A request that is written and read again is the same request.
pub proof fn request_roundtrip(request: RequestView)
    requires
        clean_request(request),
    ensures
        parsed_request(
            request_bytes(request.method, request.uri, request.headers, request.body),
        ) == Some(request),
{
    let first = request_line(request.method, request.uri);
    let method = encode_utf8(request.method);
    let uri = encode_utf8(request.uri);
    lemma_ascii_byte(request.method, '\n');
    lemma_ascii_byte(request.method, ' ');
    lemma_ascii_byte(request.uri, '\n');
    assert(request.headers.len() > 0 || first.last() != 13) by {
        if request.uri.len() > 0 {
            lemma_last_byte(request.uri);
            assert(first.last() == uri.last());
            assert('\r' as u8 == 13u8);
        } else {
            assert(first.last() == 32u8);
        }
    }
    lemma_message(first, request.headers, request.body);
    lemma_first_index_is(first, 32u8, method.len() as int);
    assert(first.take(method.len() as int) =~= method);
    assert(first.skip((method.len() + 1) as int) =~= uri);
    lemma_text_of_encoded(request.method);
    lemma_text_of_encoded(request.uri);
}

/// A response that is written and read again is the same response.
pub proof fn response_roundtrip(response: ResponseView)
    requires
        clean_fields(response.headers),
    ensures
        parsed_response(response_bytes(response.status, response.headers, response.body)) == Some(
            response,
        ),
{
    let code = decimal_text(response.status as nat);
    let first = encode_utf8(code);
    decimal_roundtrip(response.status as nat);
    assert(is_digit(code[0]));
    assert(is_digit(code.last()));
    assert(!code.contains('\n'));
    lemma_ascii_byte(code, '\n');
    lemma_last_byte(code);
    assert('\r' as u8 == 13u8);
    lemma_message(first, response.headers, response.body);
    lemma_text_of_encoded(code);
    lemma_trimmed_is(code);
}

} // verus!
