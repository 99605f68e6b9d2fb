//! What comparing text, changing its case, and reading and writing decimal
//! numbers comes to.

use crate::html::escaped;
use crate::outside::{trimmed, trimmed_end, trimmed_start, white_space};
use crate::proto::fields;
use crate::headers::raw_fields;
use crate::seqs::{contents, lemma_first_index, lemma_first_index_is};
use crate::text::{
    all_digits, bounded_value, decimal_roundtrip, decimal_text, decimal_value, digits_value,
    is_digit, lower, parted, text_in, text_of, texts,
};
use vstd::prelude::*;
use vstd::utf8::{encode_utf8, encode_utf8_decode_utf8, encode_utf8_valid_utf8};

verus! {

/// Only the capital letters from A to Z change, each to its small letter.
pub proof fn only_capitals_change(s: Seq<char>)
    ensures
        lower(s).len() == s.len(),
        forall|i: int|
            0 <= i < s.len() ==> if 'A' <= s[i] <= 'Z' {
                #[trigger] lower(s)[i] as u32 == s[i] as u32 + 32
            } else {
                lower(s)[i] == s[i]
            },
{
}

/// Two texts are the same but for case as soon as their small letters are.
pub proof fn case_is_forgotten(s: Seq<char>)
    ensures
        lower(lower(s)) == lower(s),
{
    assert(lower(lower(s)) =~= lower(s));
}

/// Text that was encoded is decoded to itself.
pub proof fn encoded_text_reads_back(s: Seq<char>)
    ensures
        text_of(encode_utf8(s)) == s,
{
    encode_utf8_valid_utf8(s);
    encode_utf8_decode_utf8(s);
}

/// A further digit stands for itself, and those before it for ten times as much.
pub proof fn digits_count_in_tens(s: Seq<char>, digit: char)
    requires
        '0' <= digit <= '9',
    ensures
        digits_value(Seq::empty()) == 0,
        digits_value(s.push(digit)) == 10 * digits_value(s) + (digit as u32 - 48),
{
    assert(s.push(digit).drop_last() =~= s);
}

/// A number is written with digits only, without a zero in front, so that the
/// digits stand for it.
pub proof fn numbers_are_written_in_digits(n: nat)
    ensures
        decimal_text(n).len() > 0,
        forall|i: int| 0 <= i < decimal_text(n).len() ==> '0' <= #[trigger] decimal_text(n)[i] <= '9',
        digits_value(decimal_text(n)) == n,
        n > 0 ==> decimal_text(n)[0] != '0',
    decreases n,
{
    decimal_roundtrip(n);
    assert forall|i: int| 0 <= i < decimal_text(n).len() implies '0' <= #[trigger] decimal_text(
        n,
    )[i] <= '9' by {
        assert(is_digit(decimal_text(n)[i]));
    }
    assert(decimal_text(n)[0] != '+');
    if n >= 10 {
        numbers_are_written_in_digits(n / 10);
        assert(decimal_text(n)[0] == decimal_text(n / 10)[0]);
    }
}

/// One or more digits are a number, with a plus sign before them or without; what
/// has anything else in it is none.
pub proof fn numbers_are_digits(s: Seq<char>)
    ensures
        s.len() > 0 && (forall|i: int| 0 <= i < s.len() ==> '0' <= #[trigger] s[i] <= '9') ==> {
            &&& decimal_value(s) == Some(digits_value(s))
            &&& decimal_value(seq!['+'] + s) == Some(digits_value(s))
        },
        s.len() == 0 ==> decimal_value(s) is None && decimal_value(seq!['+'] + s) is None,
        forall|i: int|
            0 <= i < s.len() && !('0' <= #[trigger] s[i] <= '9') ==> decimal_value(seq!['+'] + s)
                is None && (i > 0 || s[i] != '+' ==> decimal_value(s) is None),
{
    let signed = seq!['+'] + s;
    assert(signed.skip(1) =~= s);
    if s.len() > 0 && (forall|i: int| 0 <= i < s.len() ==> '0' <= #[trigger] s[i] <= '9') {
        assert(all_digits(s));
        assert('0' <= s[0] <= '9');
    }
    assert forall|i: int| 0 <= i < s.len() && !('0' <= #[trigger] s[i] <= '9') implies decimal_value(
        signed,
    ) is None && (i > 0 || s[i] != '+' ==> decimal_value(s) is None) by {
        assert(!is_digit(s[i]));
        if i > 0 {
            assert(s.skip(1)[i - 1] == s[i]);
        }
    }
}

/// A number that may not be above `max` is read if it is one and is not.
pub proof fn bounds_are_kept(s: Seq<char>, max: nat, n: nat)
    ensures
        bounded_value(s, max) == Some(n) <==> decimal_value(s) == Some(n) && n <= max,
{
}

/// A text is parted at the first separator: put together again it is the same.
pub proof fn parts_make_the_text(s: Seq<char>, sep: char)
    ensures
        match parted(s, sep) {
            Some((before, after)) => {
                &&& !before.contains(sep)
                &&& before + seq![sep] + after == s
            },
            None => !s.contains(sep),
        },
{
    lemma_first_index(s, sep);
    if let Some((before, after)) = parted(s, sep) {
        assert(before + seq![sep] + after =~= s);
    }
}

/// A text is parted wherever its first separator stands.
pub proof fn text_is_parted(before: Seq<char>, after: Seq<char>, sep: char)
    requires
        !before.contains(sep),
    ensures
        parted(before + seq![sep] + after, sep) == Some((before, after)),
{
    let s = before + seq![sep] + after;
    assert forall|i: int| 0 <= i < before.len() implies s[i] != sep by {
        assert(before.contains(before[i]));
    }
    lemma_first_index_is(s, sep, before.len() as int);
    assert(s.take(before.len() as int) =~= before);
    assert(s.skip((before.len() + 1) as int) =~= after);
}

proof fn lemma_blank_start(blank: Seq<char>, s: Seq<char>)
    requires
        forall|i: int| 0 <= i < blank.len() ==> white_space(#[trigger] blank[i]),
    ensures
        trimmed_start(blank + s) == trimmed_start(s),
    decreases blank.len(),
{
    if blank.len() > 0 {
        assert(white_space(blank[0]));
        assert((blank + s).skip(1) =~= blank.skip(1) + s);
        assert forall|i: int| 0 <= i < blank.skip(1).len() implies white_space(
            #[trigger] blank.skip(1)[i],
        ) by {
            assert(blank.skip(1)[i] == blank[i + 1]);
        }
        lemma_blank_start(blank.skip(1), s);
    } else {
        assert(blank + s =~= s);
    }
}

proof fn lemma_blank_end(s: Seq<char>, blank: Seq<char>)
    requires
        forall|i: int| 0 <= i < blank.len() ==> white_space(#[trigger] blank[i]),
    ensures
        trimmed_end(s + blank) == trimmed_end(s),
    decreases blank.len(),
{
    if blank.len() > 0 {
        assert(white_space(blank[blank.len() - 1]));
        assert((s + blank).drop_last() =~= s + blank.drop_last());
        assert forall|i: int| 0 <= i < blank.drop_last().len() implies white_space(
            #[trigger] blank.drop_last()[i],
        ) by {
            assert(blank.drop_last()[i] == blank[i]);
        }
        lemma_blank_end(s, blank.drop_last());
    } else {
        assert(s + blank =~= s);
    }
}

/// White space around a text is taken away, and nothing else.
pub proof fn white_space_is_taken_away(before: Seq<char>, inner: Seq<char>, after: Seq<char>)
    requires
        forall|i: int| 0 <= i < before.len() ==> white_space(#[trigger] before[i]),
        forall|i: int| 0 <= i < after.len() ==> white_space(#[trigger] after[i]),
        inner.len() > 0 ==> !white_space(inner[0]) && !white_space(inner.last()),
    ensures
        trimmed(before + inner + after) == inner,
{
    assert(before + inner + after =~= before + (inner + after));
    lemma_blank_start(before, inner + after);
    if inner.len() > 0 {
        assert((inner + after)[0] == inner[0]);
        lemma_blank_end(inner, after);
    } else {
        assert(inner + after =~= after);
        assert(after + Seq::<char>::empty() =~= after);
        lemma_blank_start(after, Seq::empty());
        assert(inner =~= Seq::empty());
    }
}

/// Escaping goes character by character: five of them are replaced, and all
/// others stay.
pub proof fn characters_are_escaped_one_by_one(s: Seq<char>, c: char)
    ensures
        escaped(Seq::empty()) == Seq::<char>::empty(),
        escaped(s.push('&')) == escaped(s) + "&amp;"@,
        escaped(s.push('<')) == escaped(s) + "&lt;"@,
        escaped(s.push('>')) == escaped(s) + "&gt;"@,
        escaped(s.push('"')) == escaped(s) + "&quot;"@,
        escaped(s.push('\'')) == escaped(s) + "&#39;"@,
        c != '&' && c != '<' && c != '>' && c != '"' && c != '\'' ==> escaped(s.push(c)) == escaped(
            s,
        ).push(c),
{
    assert(s.push('&').drop_last() =~= s);
    assert(s.push('<').drop_last() =~= s);
    assert(s.push('>').drop_last() =~= s);
    assert(s.push('"').drop_last() =~= s);
    assert(s.push('\'').drop_last() =~= s);
    assert(s.push(c).drop_last() =~= s);
    if c != '&' && c != '<' && c != '>' && c != '"' && c != '\'' {
        assert(escaped(s.push(c)) =~= escaped(s).push(c));
    }
}

/// Lists of headers and of texts hold each name, value and text as it is, in
/// order.
pub proof fn lists_hold_what_is_in_them(
    headers: Seq<(String, String)>,
    raw: Seq<(String, Vec<u8>)>,
    list: Seq<String>,
    slices: Seq<&[u8]>,
    i: int,
)
    ensures
        contents(slices).len() == slices.len(),
        0 <= i < slices.len() ==> contents(slices)[i] == slices[i]@,
        fields(headers).len() == headers.len(),
        raw_fields(raw).len() == raw.len(),
        texts(list).len() == list.len(),
        0 <= i < headers.len() ==> fields(headers)[i] == (headers[i].0@, headers[i].1@),
        0 <= i < raw.len() ==> raw_fields(raw)[i] == (raw[i].0@, raw[i].1@),
        0 <= i < list.len() ==> texts(list)[i] == list[i]@,
        text_in(None) is None,
        0 <= i < list.len() ==> text_in(Some(list[i])) == Some(list[i]@),
{
}

} // verus!
