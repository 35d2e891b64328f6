//! Hexadecimal text, as the `hex` crate reads and writes it.

use vstd::prelude::*;
use vstd::string::StringExecFns;

verus! {

/// Why a hexadecimal text could not be read (mirrors `hex::FromHexError`).
#[derive(Debug, Clone, Copy, PartialEq, Eq)]
pub enum HexError {
    /// A byte that is not `0-9`, `a-f` or `A-F`, with its position.
    InvalidHexCharacter { c: char, index: usize },
    /// The text has an odd number of digits.
    OddLength,
    /// The text does not fit the fixed-size container it was read into.
    InvalidStringLength,
}

/// The value of one hexadecimal digit, upper or lower case.
pub open spec fn hex_digit_value(b: u8) -> Option<u8> {
    if 0x30 <= b <= 0x39 {
        Some((b - 0x30) as u8)
    } else if 0x61 <= b <= 0x66 {
        Some((b - 0x61 + 10) as u8)
    } else if 0x41 <= b <= 0x46 {
        Some((b - 0x41 + 10) as u8)
    } else {
        None
    }
}

/// The position of the first byte of `s` that is not a hexadecimal digit.
pub open spec fn first_non_hex(s: Seq<u8>) -> Option<int>
    decreases s.len(),
{
    if s.len() == 0 {
        None
    } else if hex_digit_value(s[0]) is None {
        Some(0)
    } else {
        match first_non_hex(s.drop_first()) {
            Some(i) => Some(i + 1),
            None => None,
        }
    }
}

/// The byte spelled by the two digits at `2 * k` and `2 * k + 1`.
pub open spec fn hex_pair_value(s: Seq<u8>, k: int) -> u8 {
    (hex_digit_value(s[2 * k]).unwrap() * 16 + hex_digit_value(s[2 * k + 1]).unwrap()) as u8
}

/// What `hex::decode` gives for the bytes `s`: an odd length is refused first,
/// then the first byte that is not a digit, else every pair of digits is a byte.
pub open spec fn hex_decode_spec(s: Seq<u8>) -> Result<Seq<u8>, HexError> {
    if s.len() % 2 != 0 {
        Err(HexError::OddLength)
    } else {
        match first_non_hex(s) {
            Some(i) => Err(HexError::InvalidHexCharacter { c: s[i] as char, index: i as usize }),
            None => Ok(Seq::new((s.len() / 2) as nat, |k: int| hex_pair_value(s, k))),
        }
    }
}

/// The lower-case digit for a value below sixteen.
pub open spec fn hex_lower_digit(n: int) -> char {
    if n < 10 {
        (0x30 + n) as char
    } else {
        (0x61 + n - 10) as char
    }
}

/// What `hex::encode` gives: two lower-case digits per byte, high half first.
pub open spec fn hex_encode_spec(data: Seq<u8>) -> Seq<char> {
    Seq::new(
        2 * data.len(),
        |i: int|
            if i % 2 == 0 {
                hex_lower_digit(data[i / 2] as int / 16)
            } else {
                hex_lower_digit(data[i / 2] as int % 16)
            },
    )
}

/// True when every byte of `s` is a hexadecimal digit.
pub open spec fn all_hex_digits(s: Seq<u8>) -> bool {
    forall|i: int| 0 <= i < s.len() ==> (#[trigger] hex_digit_value(s[i])) is Some
}

/// `first_non_hex` finds nothing exactly when every byte is a digit, and what it
/// finds is a non-digit preceded by digits only.
pub proof fn lemma_first_non_hex(s: Seq<u8>)
    ensures
        first_non_hex(s) is None <==> all_hex_digits(s),
        first_non_hex(s) matches Some(i) ==> {
            &&& 0 <= i < s.len()
            &&& hex_digit_value(s[i]) is None
            &&& all_hex_digits(s.subrange(0, i))
        },
    decreases s.len(),
{
    if s.len() > 0 {
        let t = s.drop_first();
        lemma_first_non_hex(t);
        if hex_digit_value(s[0]) is Some {
            if all_hex_digits(t) {
                assert forall|i: int| 0 <= i < s.len() implies (#[trigger] hex_digit_value(
                    s[i],
                )) is Some by {
                    if i > 0 {
                        assert(s[i] == t[i - 1]);
                    }
                };
            } else {
                let j = first_non_hex(t)->0;
                assert(s[j + 1] == t[j]);
                assert forall|i: int| 0 <= i < j + 1 implies (#[trigger] hex_digit_value(
                    s.subrange(0, j + 1)[i],
                )) is Some by {
                    if i > 0 {
                        assert(s.subrange(0, j + 1)[i] == t.subrange(0, j)[i - 1]);
                    }
                };
            }
        }
    }
}

/// The byte of a lower-case digit.
pub proof fn lemma_hex_lower_digit_byte(n: int)
    requires
        0 <= n < 16,
    ensures
        hex_digit_value(hex_lower_digit(n) as u8) == Some(n as u8),
        '\0' <= hex_lower_digit(n) <= '\u{7f}',
{
}

/// The hexadecimal text of any bytes is ASCII.
pub proof fn lemma_hex_text_ascii(data: Seq<u8>)
    ensures
        vstd::utf8::is_ascii_chars(hex_encode_spec(data)),
{
    let chars = hex_encode_spec(data);
    assert forall|i: int| 0 <= i < chars.len() implies '\0' <= #[trigger] chars[i] <= '\u{7f}' by {
        if i % 2 == 0 {
            lemma_hex_lower_digit_byte(data[i / 2] as int / 16);
        } else {
            lemma_hex_lower_digit_byte(data[i / 2] as int % 16);
        }
    };
}

/// Reading back the text that `hex::encode` writes gives the same bytes:
/// `decode(encode(data)) == data`.
pub proof fn lemma_hex_roundtrip(data: Seq<u8>)
    ensures
        hex_decode_spec(vstd::utf8::encode_utf8(hex_encode_spec(data))) == Ok::<Seq<u8>, HexError>(
            data,
        ),
{
    let chars = hex_encode_spec(data);
    lemma_hex_text_ascii(data);
    vstd::utf8::is_ascii_chars_encode_utf8(chars);
    let bytes = vstd::utf8::encode_utf8(chars);
    assert forall|i: int| 0 <= i < bytes.len() implies (#[trigger] hex_digit_value(
        bytes[i],
    )) is Some by {
        assert(bytes[i] == chars[i] as u8);
        let k = i / 2;
        if i % 2 == 0 {
            lemma_hex_lower_digit_byte(data[k] as int / 16);
        } else {
            lemma_hex_lower_digit_byte(data[k] as int % 16);
        }
    };
    lemma_first_non_hex(bytes);
    let decoded = Seq::new((bytes.len() / 2) as nat, |k: int| hex_pair_value(bytes, k));
    assert forall|k: int| 0 <= k < data.len() implies decoded[k] == data[k] by {
        lemma_hex_lower_digit_byte(data[k] as int / 16);
        lemma_hex_lower_digit_byte(data[k] as int % 16);
        assert(bytes[2 * k] == chars[2 * k] as u8);
        assert(bytes[2 * k + 1] == chars[2 * k + 1] as u8);
    };
    assert(decoded =~= data);
}

/// The text that `Debug` gives for a character (quoted and escaped).
pub uninterp spec fn char_debug_text(c: char) -> Seq<char>;

/// The `Display` text of a hex decoding error, as the `hex` crate words it.
pub open spec fn hex_error_display(e: HexError) -> Seq<char> {
    match e {
        HexError::InvalidHexCharacter { c, index } => "Invalid character "@ + char_debug_text(c)
            + " at position "@ + crate::decimal::decimal_chars(index as nat),
        HexError::OddLength => "Odd number of digits"@,
        HexError::InvalidStringLength => "Invalid string length"@,
    }
}

/// `0x` followed by the lower-case hexadecimal digits of `data`.
pub open spec fn prefixed_hex(data: Seq<u8>) -> Seq<char> {
    seq!['0', 'x'] + hex_encode_spec(data)
}

/// `hex::decode`: reads the bytes as hexadecimal digits. Claims the result of
/// the crate's source: `OddLength` for an odd count, else the first byte that is
/// not a digit with its position, else one byte per pair of digits.
#[verifier::external_body]
pub(crate) fn decode_hex(data: &[u8]) -> (res: Result<Vec<u8>, HexError>)
    ensures
        match res {
            Ok(v) => hex_decode_spec(data@) == Ok::<Seq<u8>, HexError>(v@),
            Err(e) => hex_decode_spec(data@) == Err::<Seq<u8>, HexError>(e),
        },
{
    match hex::decode(data) {
        Ok(v) => Ok(v),
        Err(hex::FromHexError::InvalidHexCharacter { c, index }) => Err(
            HexError::InvalidHexCharacter { c, index },
        ),
        Err(hex::FromHexError::OddLength) => Err(HexError::OddLength),
        Err(hex::FromHexError::InvalidStringLength) => Err(HexError::InvalidStringLength),
    }
}

/// `hex::encode`: claims two lower-case digits per byte, high half first.
#[verifier::external_body]
pub(crate) fn encode_hex(data: &[u8]) -> (res: String)
    ensures
        res@ == hex_encode_spec(data@),
{
    hex::encode(data)
}

/// The `Display` text of `hex::FromHexError`. Claims the crate's wording for each
/// variant (`hex_error_display`); the quoting of the offending character is
/// `char`'s `Debug` text, which is only named (`char_debug_text`).
#[verifier::external_body]
pub(crate) fn hex_error_text(e: &HexError) -> (res: String)
    ensures
        match *e {
            HexError::InvalidHexCharacter { c, index } => res@ == "Invalid character "@
                + char_debug_text(c) + " at position "@ + crate::decimal::decimal_chars(
                index as nat,
            ),
            HexError::OddLength => res@ == "Odd number of digits"@,
            HexError::InvalidStringLength => res@ == "Invalid string length"@,
        },
{
    let err = match *e {
        HexError::InvalidHexCharacter { c, index } => hex::FromHexError::InvalidHexCharacter {
            c,
            index,
        },
        HexError::OddLength => hex::FromHexError::OddLength,
        HexError::InvalidStringLength => hex::FromHexError::InvalidStringLength,
    };
    err.to_string()
}

/// Writes `0x` and the lower-case hexadecimal digits of `data`.
pub fn prefixed_hex_string(data: &[u8]) -> (res: String)
    ensures
        res@ == prefixed_hex(data@),
{
    proof {
        reveal_strlit("0x");
    }
    let mut text = String::from_str("0x");
    text.append(encode_hex(data).as_str());
    text
}

} // verus!
