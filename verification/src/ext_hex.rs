//! Assumed contracts of the calls into `hex`, the lowercase hex text of keys and hashes.
use vstd::prelude::*;
use vstd::string::StringSliceAdditionalSpecFns;

verus! {

/// The lowercase hex digit for `n < 16`.
pub open spec fn hex_digit(n: u8) -> char {
    if n < 10 {
        (48 + n) as char
    } else {
        (87 + n) as char
    }
}

/// Lowercase hex text of bytes: two digits per byte, high nibble first.
pub open spec fn hex_lower(data: Seq<u8>) -> Seq<char>
    decreases data.len(),
{
    if data.len() == 0 {
        Seq::empty()
    } else {
        hex_lower(data.drop_last()) + seq![hex_digit(data.last() / 16), hex_digit(data.last() % 16)]
    }
}

/// The value of one hex digit, in either case.
pub open spec fn hex_value(c: u8) -> Option<u8> {
    if 65 <= c <= 70 {
        Some((c - 55) as u8)
    } else if 97 <= c <= 102 {
        Some((c - 87) as u8)
    } else if 48 <= c <= 57 {
        Some((c - 48) as u8)
    } else {
        None
    }
}

/// The bytes that hex text (given as its UTF-8 bytes) encodes: `None` for an
/// odd length or a character that is no hex digit.
pub open spec fn hex_decoded(text: Seq<u8>) -> Option<Seq<u8>>
    decreases text.len(),
{
    if text.len() % 2 != 0 {
        None
    } else if text.len() == 0 {
        Some(Seq::empty())
    } else {
        let n = text.len();
        match (hex_decoded(text.subrange(0, n - 2)), hex_value(text[n - 2]), hex_value(
            text[n - 1],
        )) {
            (Some(prefix), Some(hi), Some(lo)) => Some(prefix.push((hi * 16 + lo) as u8)),
            _ => None,
        }
    }
}

/// Hex text has two characters per byte.
pub proof fn lemma_hex_lower_len(data: Seq<u8>)
    ensures
        hex_lower(data).len() == 2 * data.len(),
    decreases data.len(),
{
    if data.len() > 0 {
        lemma_hex_lower_len(data.drop_last());
    }
}

/// The bytes of text whose characters are all ASCII: one byte per
/// character.
pub open spec fn ascii_bytes(chars: Seq<char>) -> Seq<u8> {
    Seq::new(chars.len(), |i: int| chars[i] as u8)
}

/// A hex digit is ASCII, and reads back as its value.
proof fn lemma_hex_digit(n: u8)
    requires
        n < 16,
    ensures
        '\0' <= hex_digit(n) <= '\u{7f}',
        hex_value(hex_digit(n) as u8) == Some(n),
{
}

/// Hex text is ASCII.
pub proof fn lemma_hex_lower_ascii(data: Seq<u8>)
    ensures
        vstd::utf8::is_ascii_chars(hex_lower(data)),
    decreases data.len(),
{
    if data.len() > 0 {
        lemma_hex_lower_ascii(data.drop_last());
        lemma_hex_digit(data.last() / 16);
        lemma_hex_digit(data.last() % 16);
        let h = hex_lower(data);
        let hp = hex_lower(data.drop_last());
        assert forall|i: int| 0 <= i < h.len() implies '\0' <= #[trigger] h[i] <= '\u{7f}' by {
            if i < hp.len() {
                assert(h[i] == hp[i]);
            }
        }
    }
}

/// Decoding the bytes of hex text gives back the encoded bytes.
pub proof fn lemma_hex_roundtrip(data: Seq<u8>)
    ensures
        hex_decoded(vstd::utf8::encode_utf8(hex_lower(data))) == Some(data),
{
    lemma_hex_lower_ascii(data);
    vstd::utf8::is_ascii_chars_encode_utf8(hex_lower(data));
    lemma_hex_decode_ascii(data);
    assert(vstd::utf8::encode_utf8(hex_lower(data)) =~= ascii_bytes(hex_lower(data)));
}

proof fn lemma_hex_decode_ascii(data: Seq<u8>)
    ensures
        hex_decoded(ascii_bytes(hex_lower(data))) == Some(data),
    decreases data.len(),
{
    lemma_hex_lower_len(data);
    if data.len() > 0 {
        let p = data.drop_last();
        let x = data.last();
        lemma_hex_decode_ascii(p);
        lemma_hex_lower_len(p);
        lemma_hex_digit(x / 16);
        lemma_hex_digit(x % 16);
        let b = ascii_bytes(hex_lower(data));
        let n = b.len();
        assert(b.subrange(0, n - 2) =~= ascii_bytes(hex_lower(p)));
        assert(b[n - 2] == hex_digit(x / 16) as u8);
        assert(b[n - 1] == hex_digit(x % 16) as u8);
        assert(((x / 16) * 16 + x % 16) as u8 == x);
        assert(p.push(x) =~= data);
    } else {
        assert(ascii_bytes(hex_lower(data)) =~= Seq::<u8>::empty());
    }
}

#[verifier::external_type_specification]
#[verifier::external_body]
pub struct ExFromHexError(hex::FromHexError);

/// Calls `hex::encode`. Claims, as its documentation says: lowercase hex,
/// two digits per byte.
#[verifier::external_body]
pub(crate) fn hex_encode(data: &[u8]) -> (r: String)
    ensures
        r@ == hex_lower(data@),
{
    hex::encode(data)
}

/// Calls `hex::decode` on the bytes of `text`. Claims, as its source shows
/// (`FromHex for Vec<u8>` and `val`): an odd length or a non-hex character
/// is an error, otherwise each pair of digits, in either case, gives a byte.
#[verifier::external_body]
pub(crate) fn hex_decode(text: &str) -> (r: Result<Vec<u8>, hex::FromHexError>)
    ensures
        r is Ok <==> hex_decoded(text.spec_bytes()) is Some,
        r matches Ok(v) ==> hex_decoded(text.spec_bytes()) == Some(v@),
{
    hex::decode(text)
}

/// Calls the `Display` impl of `FromHexError`; nothing is claimed of the
/// text.
#[verifier::external_body]
pub(crate) fn hex_error_text(e: &hex::FromHexError) -> String {
    format!("{}", e)
}

} // verus!
