//! Assumed contracts of the calls into the parts of std that vstd leaves unspecified: the
//! wall clock and UTF-8 decoding into a `String`.
use vstd::prelude::*;

verus! {

/// Reads the system clock: milliseconds since the Unix epoch, through
/// `SystemTime::now().duration_since(UNIX_EPOCH)`; `None` where that is an
/// error, which std documents for a clock that reads before the epoch.
/// Nothing is claimed of the value: it depends on the time of the call.
#[verifier::external_body]
pub(crate) fn unix_millis_now() -> Option<u64> {
    match std::time::SystemTime::now().duration_since(std::time::UNIX_EPOCH) {
        Ok(d) => Some(d.as_millis() as u64),
        Err(_) => None,
    }
}

#[verifier::external_type_specification]
#[verifier::external_body]
pub struct ExFromUtf8Error(std::string::FromUtf8Error);

/// Calls `String::from_utf8`. Claims, as std documents: it succeeds exactly
/// when the bytes are valid UTF-8, and the string then holds the characters
/// they encode.
#[verifier::external_body]
pub(crate) fn string_from_utf8(bytes: Vec<u8>) -> (r: Result<String, std::string::FromUtf8Error>)
    ensures
        r is Ok <==> vstd::utf8::valid_utf8(bytes@),
        r matches Ok(s) ==> s@ == vstd::utf8::decode_utf8(bytes@),
{
    String::from_utf8(bytes)
}

/// Calls the `Display` impl of `FromUtf8Error`; nothing is claimed of the
/// text.
#[verifier::external_body]
pub(crate) fn utf8_error_text(e: &std::string::FromUtf8Error) -> String {
    format!("{}", e)
}

} // verus!
