//! Addresses written as `0x`-prefixed hexadecimal text.

use vstd::prelude::*;
use vstd::string::StringSliceAdditionalSpecFns;
use crate::hexcodec::{
    decode_hex, hex_decode_spec, hex_encode_spec, lemma_hex_roundtrip, lemma_hex_text_ascii,
    lemma_first_non_hex, prefixed_hex, prefixed_hex_string, hex_digit_value, all_hex_digits,
    hex_pair_value,
};
use crate::routes::{ascii_lower_char, ascii_lowercase};

verus! {

/// The bytes of `s` without one leading `0x`, if it has one.
pub open spec fn strip_0x(s: Seq<u8>) -> Seq<u8> {
    if s.len() >= 2 && s[0] == 0x30 && s[1] == 0x78 {
        s.subrange(2, s.len() as int)
    } else {
        s
    }
}

/// The bytes after one leading `0x`, or all of them when there is none.
pub fn strip_hex_prefix(bytes: &[u8]) -> (res: &[u8])
    ensures
        res@ == strip_0x(bytes@),
{
    if bytes.len() >= 2 && bytes[0] == 0x30 && bytes[1] == 0x78 {
        &bytes[2..bytes.len()]
    } else {
        bytes
    }
}

/// True when two addresses hold the same bytes.
pub fn same_address(a: &[u8; 20], b: &[u8; 20]) -> (res: bool)
    ensures
        res == (a@ == b@),
{
    let mut i: usize = 0;
    while i < 20
        invariant
            0 <= i <= 20,
            a@.len() == 20,
            b@.len() == 20,
            forall|j: int| 0 <= j < i ==> a@[j] == b@[j],
        decreases 20 - i,
    {
        if a[i] != b[i] {
            return false;
        }
        i = i + 1;
    }
    assert(a@ =~= b@);
    true
}

/// The 20-byte address spelled by the text bytes `s`, if it spells one: an
/// optional `0x`, then forty hexadecimal digits of either case.
pub open spec fn parse_address_spec(s: Seq<u8>) -> Option<Seq<u8>> {
    match hex_decode_spec(strip_0x(s)) {
        Ok(v) => if v.len() == 20 {
            Some(v)
        } else {
            None
        },
        Err(_) => None,
    }
}

/// Reads a 20-byte address from text, with or without a `0x` prefix.
pub fn parse_address(s: &str) -> (res: Option<[u8; 20]>)
    ensures
        match parse_address_spec(s.spec_bytes()) {
            Some(a) => res matches Some(r) && r@ == a,
            None => res is None,
        },
{
    let body = strip_hex_prefix(s.as_bytes());
    match decode_hex(body) {
        Ok(v) => {
            if v.len() == 20 {
                let mut arr = [0u8; 20];
                let mut i: usize = 0;
                while i < 20
                    invariant
                        0 <= i <= 20,
                        v@.len() == 20,
                        arr@.len() == 20,
                        forall|j: int| 0 <= j < i ==> arr@[j] == v@[j],
                    decreases 20 - i,
                {
                    arr[i] = v[i];
                    i = i + 1;
                }
                assert(arr@ =~= v@);
                Some(arr)
            } else {
                None
            }
        },
        Err(_) => None,
    }
}

/// Writes an address as `0x` and forty lower-case hexadecimal digits.
pub fn format_address(addr: &[u8; 20]) -> (res: String)
    ensures
        res@ == prefixed_hex(addr@),
{
    prefixed_hex_string(addr)
}

/// The text `0x` and hexadecimal digits, as bytes, without its `0x`, is the
/// bytes of the digits.
pub proof fn lemma_strip_prefixed_hex(data: Seq<u8>)
    ensures
        strip_0x(vstd::utf8::encode_utf8(prefixed_hex(data))) == vstd::utf8::encode_utf8(
            hex_encode_spec(data),
        ),
{
    let chars = prefixed_hex(data);
    let hex = hex_encode_spec(data);
    lemma_hex_text_ascii(data);
    assert(vstd::utf8::is_ascii_chars(chars));
    vstd::utf8::is_ascii_chars_encode_utf8(chars);
    vstd::utf8::is_ascii_chars_encode_utf8(hex);
    assert(strip_0x(vstd::utf8::encode_utf8(chars)) =~= vstd::utf8::encode_utf8(hex));
}

/// Reading back the text that `format_address` writes gives the same address:
/// `parse_address(format_address(a)) == Some(a)`.
pub proof fn lemma_address_text_roundtrip(addr: Seq<u8>)
    requires
        addr.len() == 20,
    ensures
        parse_address_spec(vstd::utf8::encode_utf8(prefixed_hex(addr))) == Some(addr),
{
    lemma_strip_prefixed_hex(addr);
    lemma_hex_roundtrip(addr);
}

/// The case of the hexadecimal letters and the `0x` prefix do not matter when
/// an address is read: text whose letters, made small, are the digits that
/// `hex::encode` writes for `addr` reads back as `addr`, with or without `0x`.
pub proof fn lemma_address_text_any_case(addr: Seq<u8>, text: Seq<char>)
    requires
        addr.len() == 20,
        ascii_lowercase(text) == hex_encode_spec(addr),
    ensures
        parse_address_spec(vstd::utf8::encode_utf8(text)) == Some(addr),
        parse_address_spec(vstd::utf8::encode_utf8(seq!['0', 'x'] + text)) == Some(addr),
{
    let hex = hex_encode_spec(addr);
    lemma_hex_text_ascii(addr);
    lemma_hex_roundtrip(addr);
    vstd::utf8::is_ascii_chars_encode_utf8(hex);
    let lower = vstd::utf8::encode_utf8(hex);
    lemma_first_non_hex(lower);
    assert(text.len() == hex.len());
    assert forall|i: int| 0 <= i < text.len() implies '\0' <= #[trigger] text[i] <= '\u{7f}' by {
        assert(hex[i] == ascii_lower_char(text[i]));
    };
    vstd::utf8::is_ascii_chars_encode_utf8(text);
    let upper = vstd::utf8::encode_utf8(text);
    assert forall|i: int| 0 <= i < upper.len() implies #[trigger] hex_digit_value(upper[i])
        == hex_digit_value(lower[i]) by {
        assert(hex[i] == ascii_lower_char(text[i]));
        assert(hex_digit_value(lower[i]) is Some);
    };
    assert(all_hex_digits(upper));
    lemma_first_non_hex(upper);
    assert(strip_0x(upper) == upper);
    assert(hex_decode_spec(upper) == hex_decode_spec(lower)) by {
        assert forall|k: int| 0 <= k < upper.len() / 2 implies #[trigger] hex_pair_value(upper, k)
            == hex_pair_value(lower, k) by {
            assert(hex_digit_value(upper[2 * k]) == hex_digit_value(lower[2 * k]));
            assert(hex_digit_value(upper[2 * k + 1]) == hex_digit_value(lower[2 * k + 1]));
        };
        assert(Seq::new((upper.len() / 2) as nat, |k: int| hex_pair_value(upper, k)) =~= Seq::new(
            (lower.len() / 2) as nat,
            |k: int| hex_pair_value(lower, k),
        ));
    };
    let prefixed = seq!['0', 'x'] + text;
    assert forall|i: int| 0 <= i < prefixed.len() implies '\0' <= #[trigger] prefixed[i]
        <= '\u{7f}' by {
        if i >= 2 {
            assert(prefixed[i] == text[i - 2]);
        }
    };
    vstd::utf8::is_ascii_chars_encode_utf8(prefixed);
    let bytes = vstd::utf8::encode_utf8(prefixed);
    assert(bytes[0] == 0x30 && bytes[1] == 0x78);
    assert forall|i: int| 0 <= i < upper.len() implies #[trigger] bytes.subrange(
        2,
        bytes.len() as int,
    )[i] == upper[i] by {
        assert(prefixed[i + 2] == text[i]);
    };
    assert(strip_0x(bytes) =~= upper);
}

} // verus!
