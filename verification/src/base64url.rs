//! The unpadded URL-safe base64 text of byte strings (RFC 4648, section 5).

use vstd::prelude::*;

verus! {

/// The character that stands for the six-bit value `v`.
pub open spec fn sextet_char(v: int) -> char {
    if v < 26 {
        (v + 65) as u8 as char
    } else if v < 52 {
        (v + 71) as u8 as char
    } else if v < 62 {
        (v - 4) as u8 as char
    } else if v == 62 {
        '-'
    } else {
        '_'
    }
}

/// The six-bit value that `c` stands for, or 64 where `c` is not in the alphabet.
pub open spec fn char_sextet(c: char) -> int {
    let n = c as u32 as int;
    if 65 <= n <= 90 {
        n - 65
    } else if 97 <= n <= 122 {
        n - 71
    } else if 48 <= n <= 57 {
        n + 4
    } else if c == '-' {
        62
    } else if c == '_' {
        63
    } else {
        64
    }
}

/// The encoding of `data`: four characters for every three bytes, and two or
/// three characters for a last group of one or two bytes.
pub open spec fn encode_spec(data: Seq<u8>) -> Seq<char>
    decreases data.len(),
{
    if data.len() == 0 {
        Seq::empty()
    } else if data.len() == 1 {
        let a = data[0] as int;
        seq![sextet_char(a / 4), sextet_char(a % 4 * 16)]
    } else if data.len() == 2 {
        let a = data[0] as int;
        let b = data[1] as int;
        seq![sextet_char(a / 4), sextet_char(a % 4 * 16 + b / 16), sextet_char(b % 16 * 4)]
    } else {
        let a = data[0] as int;
        let b = data[1] as int;
        let c = data[2] as int;
        seq![
            sextet_char(a / 4),
            sextet_char(a % 4 * 16 + b / 16),
            sextet_char(b % 16 * 4 + c / 64),
            sextet_char(c % 64),
        ] + encode_spec(data.skip(3))
    }
}

/// The bytes that the six-bit values of `text` spell, four characters to
/// three bytes, whether or not `text` is an encoding.
pub open spec fn unpack(text: Seq<char>) -> Seq<u8>
    decreases text.len(),
{
    if text.len() < 2 {
        Seq::empty()
    } else if text.len() == 2 {
        seq![(char_sextet(text[0]) * 4 + char_sextet(text[1]) / 16) as u8]
    } else if text.len() == 3 {
        seq![
            (char_sextet(text[0]) * 4 + char_sextet(text[1]) / 16) as u8,
            (char_sextet(text[1]) % 16 * 16 + char_sextet(text[2]) / 4) as u8,
        ]
    } else {
        seq![
            (char_sextet(text[0]) * 4 + char_sextet(text[1]) / 16) as u8,
            (char_sextet(text[1]) % 16 * 16 + char_sextet(text[2]) / 4) as u8,
            (char_sextet(text[2]) % 4 * 64 + char_sextet(text[3])) as u8,
        ] + unpack(text.skip(4))
    }
}

/// Whether `text` is the encoding of some bytes (then of `unpack(text)`).
pub open spec fn is_encoding(text: Seq<char>) -> bool {
    encode_spec(unpack(text)) == text
}

/// What the decoder makes of a text that is no encoding: it takes some texts
/// with `=` padding, and refuses characters outside the alphabet, impossible
/// lengths and stray low bits in the last character.
pub uninterp spec fn decode_irregular(text: Seq<char>) -> Option<Seq<u8>>;

/// The bytes that `text` decodes to, if any.
pub open spec fn decode_spec(text: Seq<char>) -> Option<Seq<u8>> {
    if is_encoding(text) {
        Some(unpack(text))
    } else {
        decode_irregular(text)
    }
}

/// Every character of the alphabet maps back to its value.
pub proof fn lemma_sextet_roundtrip(v: int)
    requires
        0 <= v < 64,
    ensures
        char_sextet(sextet_char(v)) == v,
        sextet_char(v) != '.',
        sextet_char(v) != '+',
{
}

/// Unpacking an encoding gives the bytes back, so every encoding decodes to
/// the bytes it was made from.
pub proof fn lemma_encode_roundtrip(data: Seq<u8>)
    ensures
        unpack(encode_spec(data)) == data,
        is_encoding(encode_spec(data)),
        decode_spec(encode_spec(data)) == Some(data),
    decreases data.len(),
{
    let text = encode_spec(data);
    if data.len() == 0 {
        assert(unpack(text) =~= data);
    } else if data.len() == 1 {
        lemma_sextet_roundtrip(data[0] as int / 4);
        lemma_sextet_roundtrip(data[0] as int % 4 * 16);
        assert(unpack(text) =~= data);
    } else if data.len() == 2 {
        lemma_sextet_roundtrip(data[0] as int / 4);
        lemma_sextet_roundtrip(data[0] as int % 4 * 16 + data[1] as int / 16);
        lemma_sextet_roundtrip(data[1] as int % 16 * 4);
        assert(unpack(text) =~= data);
    } else {
        let rest = data.skip(3);
        lemma_encode_roundtrip(rest);
        lemma_sextet_roundtrip(data[0] as int / 4);
        lemma_sextet_roundtrip(data[0] as int % 4 * 16 + data[1] as int / 16);
        lemma_sextet_roundtrip(data[1] as int % 16 * 4 + data[2] as int / 64);
        lemma_sextet_roundtrip(data[2] as int % 64);
        assert(text.skip(4) =~= encode_spec(rest));
        assert(unpack(text) =~= data);
    }
}

/// No character of an encoding is a dot.
pub proof fn lemma_encoding_has_no_dot(data: Seq<u8>)
    ensures
        !encode_spec(data).contains('.'),
    decreases data.len(),
{
    let text = encode_spec(data);
    if data.len() >= 3 {
        lemma_encoding_has_no_dot(data.skip(3));
        lemma_sextet_roundtrip(data[0] as int / 4);
        lemma_sextet_roundtrip(data[0] as int % 4 * 16 + data[1] as int / 16);
        lemma_sextet_roundtrip(data[1] as int % 16 * 4 + data[2] as int / 64);
        lemma_sextet_roundtrip(data[2] as int % 64);
        assert forall|i: int| 0 <= i < text.len() implies text[i] != '.' by {
            if i >= 4 {
                assert(text[i] == encode_spec(data.skip(3))[i - 4]);
            }
        }
    } else if data.len() == 2 {
        lemma_sextet_roundtrip(data[0] as int / 4);
        lemma_sextet_roundtrip(data[0] as int % 4 * 16 + data[1] as int / 16);
        lemma_sextet_roundtrip(data[1] as int % 16 * 4);
    } else if data.len() == 1 {
        lemma_sextet_roundtrip(data[0] as int / 4);
        lemma_sextet_roundtrip(data[0] as int % 4 * 16);
    }
}

/// Calls `base64::encode_config` with `base64::URL_SAFE_NO_PAD`: the result
/// is the unpadded URL-safe encoding of the thirty-two bytes.
#[verifier::external_body]
pub(crate) fn encode(data: &[u8; 32]) -> (text: String)
    ensures
        text@ == encode_spec(data@),
{
    base64::encode_config(data, base64::URL_SAFE_NO_PAD)
}

/// Calls `base64::decode_config` with `base64::URL_SAFE_NO_PAD`: a text that
/// is the encoding of some bytes decodes to those bytes; of any other text
/// the contract only names the outcome.
#[verifier::external_body]
pub(crate) fn decode(text: &str) -> (bytes: Option<Vec<u8>>)
    ensures
        is_encoding(text@) ==> bytes.is_some() && bytes.unwrap()@ == unpack(text@),
        !is_encoding(text@) ==> match bytes {
            Some(b) => decode_irregular(text@) == Some(b@),
            None => decode_irregular(text@).is_none(),
        },
{
    base64::decode_config(text, base64::URL_SAFE_NO_PAD).ok()
}

} // verus!
