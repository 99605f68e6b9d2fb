//! A password form says the password that was put into it.

use crate::outside::{hex_digit, hex_value, percent_decoded};
use crate::proto_laws::{lemma_ascii_byte, lemma_encode_ascii_scalar, lemma_text_of_encoded};
use crate::relay::access::{form_value, submitted};
use crate::relay::laws::ascii_bytes;
use crate::seqs::{lemma_first_index, lemma_first_index_is, pieces};
use vstd::prelude::*;
use vstd::utf8::{
    decode_utf8, encode_utf8, encode_utf8_decode_utf8, encode_utf8_valid_utf8, valid_utf8,
};

verus! {

/// Bytes with each of them percent encoded.
pub open spec fn percent_coded(bytes: Seq<u8>) -> Seq<char>
    decreases bytes.len(),
{
    if bytes.len() == 0 {
        Seq::empty()
    } else {
        seq!['%', hex_digit(bytes[0] as int / 16), hex_digit(bytes[0] as int % 16)]
            + percent_coded(bytes.skip(1))
    }
}

/// A form with one value in it, which is the password.
pub open spec fn password_form(value: Seq<char>) -> Seq<u8> {
    encode_utf8("password="@ + value)
}

proof fn lemma_encode_ascii_text(s: Seq<char>)
    requires
        forall|i: int| 0 <= i < s.len() ==> (#[trigger] s[i] as u32) < 128,
    ensures
        encode_utf8(s) == ascii_bytes(s),
    decreases s.len(),
{
    if s.len() > 0 {
        let rest = s.drop_first();
        assert forall|i: int| 0 <= i < rest.len() implies (#[trigger] rest[i] as u32) < 128 by {
            assert(rest[i] == s[i + 1]);
        }
        lemma_encode_ascii_text(rest);
        lemma_encode_ascii_scalar(s[0]);
        assert(encode_utf8(s) =~= seq![s[0] as u8] + encode_utf8(rest));
        assert(encode_utf8(s) =~= ascii_bytes(s));
    } else {
        assert(encode_utf8(s) =~= ascii_bytes(s));
    }
}

proof fn lemma_percent_coded(bytes: Seq<u8>)
    ensures
        percent_coded(bytes).len() == 3 * bytes.len(),
        forall|i: int|
            0 <= i < percent_coded(bytes).len() ==> {
                let c = #[trigger] percent_coded(bytes)[i];
                c == '%' || '0' <= c <= '9' || 'a' <= c <= 'f'
            },
        percent_decoded(ascii_bytes(percent_coded(bytes))) == bytes,
    decreases bytes.len(),
{
    let coded = percent_coded(bytes);
    let raw = ascii_bytes(coded);
    if bytes.len() > 0 {
        let rest = bytes.skip(1);
        let tail = percent_coded(rest);
        lemma_percent_coded(rest);
        let high = bytes[0] as int / 16;
        let low = bytes[0] as int % 16;
        assert forall|i: int| 0 <= i < coded.len() implies {
            let c = #[trigger] coded[i];
            c == '%' || '0' <= c <= '9' || 'a' <= c <= 'f'
        } by {
            if i >= 3 {
                assert(coded[i] == tail[i - 3]);
            }
        }
        assert(raw[0] == 37);
        assert(hex_value(raw[1]) == Some(high));
        assert(hex_value(raw[2]) == Some(low));
        assert(raw.skip(3) =~= ascii_bytes(tail));
        assert(high * 16 + low == bytes[0]);
        assert(percent_decoded(raw) =~= seq![bytes[0]] + rest);
        assert(seq![bytes[0]] + rest =~= bytes);
    } else {
        assert(raw =~= Seq::<u8>::empty());
        assert(percent_decoded(raw) =~= bytes);
    }
}

proof fn lemma_nothing_coded(bytes: Seq<u8>)
    requires
        forall|i: int| 0 <= i < bytes.len() ==> #[trigger] bytes[i] != 37,
    ensures
        percent_decoded(bytes) == bytes,
    decreases bytes.len(),
{
    if bytes.len() > 0 {
        assert(bytes[0] != 37);
        assert forall|i: int| 0 <= i < bytes.skip(1).len() implies #[trigger] bytes.skip(1)[i]
            != 37 by {
            assert(bytes.skip(1)[i] == bytes[i + 1]);
        }
        lemma_nothing_coded(bytes.skip(1));
        assert(percent_decoded(bytes) =~= bytes);
    }
}

/// A form's value is its bytes without percent encoding, if they are text; anything
/// else says nothing.
pub proof fn values_are_decoded(value: Seq<char>)
    ensures
        ({
            let bytes = percent_decoded(encode_utf8(value));
            &&& valid_utf8(bytes) ==> form_value(value) == decode_utf8(bytes)
            &&& !valid_utf8(bytes) ==> form_value(value).len() == 0
        }),
{
}

/// A form with one value says what the value says.
proof fn lemma_password_form(value: Seq<char>)
    requires
        !value.contains('&'),
    ensures
        submitted(password_form(value)) == form_value(value),
{
    reveal_strlit("password=");
    reveal_strlit("password");
    let form = "password="@ + value;
    lemma_text_of_encoded(form);
    assert forall|i: int| 0 <= i < form.len() implies form[i] != '&' by {
        if i >= 9 {
            assert(form[i] == value[i - 9]);
            assert(value.contains(value[i - 9]));
        }
    }
    lemma_first_index(form, '&');
    assert(!form.contains('&'));
    assert(pieces(form, '&') =~= seq![form]);
    lemma_first_index_is(form, '=', 8);
    assert(form.take(8) =~= "password"@);
    assert(form.skip(9) =~= value);
}

/// A password without percent signs and ampersands is understood as it is.
pub proof fn plain_password_is_understood(password: Seq<char>)
    requires
        !password.contains('%'),
        !password.contains('&'),
    ensures
        submitted(password_form(password)) == password,
{
    lemma_password_form(password);
    lemma_ascii_byte(password, '%');
    assert('%' as u8 == 37u8);
    lemma_nothing_coded(encode_utf8(password));
    encode_utf8_valid_utf8(password);
    encode_utf8_decode_utf8(password);
}

/// Any password is understood that is percent encoded.
pub proof fn encoded_password_is_understood(password: Seq<char>)
    ensures
        submitted(password_form(percent_coded(encode_utf8(password)))) == password,
{
    let bytes = encode_utf8(password);
    let value = percent_coded(bytes);
    lemma_percent_coded(bytes);
    assert forall|i: int| 0 <= i < value.len() implies (#[trigger] value[i] as u32) < 128
        && value[i] != '&' by {}
    lemma_encode_ascii_text(value);
    lemma_password_form(value);
    encode_utf8_valid_utf8(password);
    encode_utf8_decode_utf8(password);
}

} // verus!
