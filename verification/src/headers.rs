//! HTTP headers: their values as bytes and as text.

use crate::outside::{ascii_text, visible, visible_text};
use crate::proto::{fields, Fields};
use crate::text::{empty_text, lower, same_ignoring_case, text_in};
use vstd::prelude::*;

verus! {

/// Header names with the bytes of their values, in order.
pub type RawFields = Seq<(Seq<char>, Seq<u8>)>;

/// What a list of raw headers holds.
pub open spec fn raw_fields(headers: Seq<(String, Vec<u8>)>) -> RawFields {
    headers.map_values(|header: (String, Vec<u8>)| (header.0@, header.1@))
}

/// A header value as text, if it is text.
pub open spec fn value_text(value: Seq<u8>) -> Option<Seq<char>> {
    if visible(value) {
        Some(ascii_text(value))
    } else {
        None
    }
}

/// A header value as text; nothing if it is not text.
pub open spec fn text_or_nothing(value: Seq<u8>) -> Seq<char> {
    match value_text(value) {
        Some(text) => text,
        None => Seq::empty(),
    }
}

/// Makes text of a header value; nothing if it is not text.
pub fn text_of_value(value: &[u8]) -> (text: String)
    ensures
        text@ == text_or_nothing(value@),
{
    match visible_text(value) {
        Some(text) => text,
        None => empty_text(),
    }
}

/// A header with its value as text.
pub open spec fn text_field(field: (Seq<char>, Seq<u8>)) -> (Seq<char>, Seq<char>) {
    (field.0, text_or_nothing(field.1))
}

/// Headers with their values as text.
pub open spec fn text_fields(headers: RawFields) -> Fields {
    headers.map_values(|field: (Seq<char>, Seq<u8>)| text_field(field))
}

/// Makes text of all header values.
pub fn text_headers(headers: &[(String, Vec<u8>)]) -> (made: Vec<(String, String)>)
    ensures
        fields(made@) == text_fields(raw_fields(headers@)),
{
    let ghost all = raw_fields(headers@);
    let mut made: Vec<(String, String)> = Vec::new();
    let mut i: usize = 0;
    while i < headers.len()
        invariant
            i <= headers@.len(),
            all == raw_fields(headers@),
            fields(made@) == text_fields(all).take(i as int),
        decreases headers@.len() - i,
    {
        let ghost before = fields(made@);
        let (name, value) = &headers[i];
        made.push((name.as_str().to_owned(), text_of_value(value.as_slice())));
        i = i + 1;
        assert(all[i - 1] == (name@, value@));
        assert(fields(made@) =~= before.push(text_field(all[i - 1])));
        assert(fields(made@) =~= text_fields(all).take(i as int));
    }
    assert(text_fields(all).take(i as int) =~= text_fields(all));
    made
}

/// The value of the first header with some name.
pub open spec fn first_value(headers: RawFields, name: Seq<char>) -> Option<Seq<u8>>
    decreases headers.len(),
{
    if headers.len() == 0 {
        None
    } else if lower(headers[0].0) == lower(name) {
        Some(headers[0].1)
    } else {
        first_value(headers.skip(1), name)
    }
}

/// The first header with some name, if there is one and it is text.
pub open spec fn header_text(headers: RawFields, name: Seq<char>) -> Option<Seq<char>> {
    match first_value(headers, name) {
        Some(value) => value_text(value),
        None => None,
    }
}

/// Looks up the first header with some name.
pub fn find_header(headers: &[(String, Vec<u8>)], name: &str) -> (value: Option<String>)
    ensures
        text_in(value) == header_text(raw_fields(headers@), name@),
{
    let ghost all = raw_fields(headers@);
    let mut i: usize = 0;
    assert(all.skip(0) =~= all);
    while i < headers.len()
        invariant
            i <= headers@.len(),
            all == raw_fields(headers@),
            first_value(all, name@) == first_value(all.skip(i as int), name@),
        decreases headers@.len() - i,
    {
        let header = &headers[i];
        assert(all.skip(i as int)[0] == (header.0@, header.1@));
        if same_ignoring_case(header.0.as_str(), name) {
            return visible_text(header.1.as_slice());
        }
        i = i + 1;
        assert(all.skip(i - 1).skip(1) =~= all.skip(i as int));
    }
    None
}

} // verus!
