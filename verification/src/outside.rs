//! The calls into other crates and into parts of `std`, with what the library
//! takes for granted of them.

use vstd::prelude::*;

verus! {

/// The error type of `serde_json`.
#[verifier::external_type_specification]
#[verifier::external_body]
pub struct ExJsonError(serde_json::Error);

/// What `serde_json::from_slice` makes of `json` where a list of texts is
/// asked for: the texts, or the message that its error displays.
pub uninterp spec fn json_texts(json: Seq<u8>) -> Result<Seq<Seq<char>>, Seq<char>>;

/// Calls `serde_json::from_slice::<Vec<String>>`. Claims that the outcome is a
/// function of the bytes: the texts where the call succeeds, and else the
/// message that the error displays.
#[verifier::external_body]
pub(crate) fn parse_json_texts(json: &[u8]) -> (parsed: Result<Vec<String>, serde_json::Error>)
    ensures
        match parsed {
            Ok(texts) => json_texts(json@) == Ok::<Seq<Seq<char>>, Seq<char>>(texts.deep_view()),
            Err(error) => json_texts(json@) is Err && forall|message: String| #[trigger]
                vstd::string::to_string_from_display_ensures(&error, message) ==> json_texts(
                    json@,
                )->Err_0 == message@,
        },
{
    serde_json::from_slice(json)
}

/// What `serde_json::from_slice` makes of `json` where one text is asked for:
/// the text, or the message that its error displays.
pub uninterp spec fn json_text(json: Seq<u8>) -> Result<Seq<char>, Seq<char>>;

/// Calls `serde_json::from_slice::<String>`. Claims that the outcome is a
/// function of the bytes: the text where the call succeeds, and else the
/// message that the error displays.
#[verifier::external_body]
pub(crate) fn parse_json_text(json: &[u8]) -> (parsed: Result<String, serde_json::Error>)
    ensures
        match parsed {
            Ok(text) => json_text(json@) == Ok::<Seq<char>, Seq<char>>(text@),
            Err(error) => json_text(json@) is Err && forall|message: String| #[trigger]
                vstd::string::to_string_from_display_ensures(&error, message) ==> json_text(
                    json@,
                )->Err_0 == message@,
        },
{
    serde_json::from_slice(json)
}

/// The SHA-256 digest of `data`, as the crate `sha2` computes it.
pub uninterp spec fn sha256(data: Seq<u8>) -> Seq<u8>;

/// Feeds `data` to a fresh `sha2::Sha256` and takes its digest. Claims that the
/// digest is a function of `data`; that it has 32 bytes is in its type.
#[verifier::external_body]
pub(crate) fn sha256_digest(data: &[u8]) -> (digest: [u8; 32])
    ensures
        digest@ == sha256(data@),
{
    let mut hasher = <sha2::Sha256 as sha2::Digest>::new();
    sha2::Digest::update(&mut hasher, data);
    sha2::Digest::finalize(hasher).into()
}

/// Whether `c` is a decimal digit.
pub open spec fn digit(c: char) -> bool {
    '0' <= c <= '9'
}

/// Whether the characters of `text` from `start` up to `end` are digits.
pub open spec fn digits(text: Seq<char>, start: int, end: int) -> bool {
    forall|i: int| start <= i < end ==> digit(#[trigger] text[i])
}

/// Whether a number of two digits, between `low` and `high`, stands at `at`.
pub open spec fn two_digits(text: Seq<char>, at: int, low: int, high: int) -> bool {
    &&& digits(text, at, at + 2)
    &&& low <= (text[at] as int - '0' as int) * 10 + (text[at + 1] as int - '0' as int) <= high
}

/// How many characters the year of a timestamp has: four digits, or a sign with
/// five or six digits where four are not enough.
pub open spec fn year_len(text: Seq<char>) -> int {
    if text[0] != '+' {
        4
    } else if text[6] == '-' {
        6
    } else {
        7
    }
}

/// Whether the fraction of a second that stands from `start` up to `end` is
/// left out, or has three, six or nine digits, as few as it needs.
pub open spec fn fraction(text: Seq<char>, start: int, end: int) -> bool {
    ||| start == end
    ||| {
        &&& end - start == 4 || end - start == 7 || end - start == 10
        &&& text[start] == '.'
        &&& digits(text, start + 1, end)
        &&& !(text[end - 3] == '0' && text[end - 2] == '0' && text[end - 1] == '0')
    }
}

/// Whether `text` is a time in UTC as `chrono` writes it after RFC 3339: year,
/// month and day, `T`, hour, minute, second with its fraction, and the offset
/// `+00:00`.
pub open spec fn utc_timestamp(text: Seq<char>) -> bool {
    let y = year_len(text);
    let end = text.len() - 6;
    &&& end >= y + 15
    &&& digits(text, if y == 4 { 0 } else { 1 }, y)
    &&& text[y] == '-'
    &&& two_digits(text, y + 1, 1, 12)
    &&& text[y + 3] == '-'
    &&& two_digits(text, y + 4, 1, 31)
    &&& text[y + 6] == 'T'
    &&& two_digits(text, y + 7, 0, 23)
    &&& text[y + 9] == ':'
    &&& two_digits(text, y + 10, 0, 59)
    &&& text[y + 12] == ':'
    &&& two_digits(text, y + 13, 0, 59)
    &&& fraction(text, y + 15, end)
    &&& text.skip(end) == "+00:00"@
}

/// Calls `chrono::Utc::now` and `to_rfc3339` on what it returns. The text
/// depends on the clock: claims only that it is a time in UTC, in RFC 3339. The call panics where the
/// clock of the machine stands before 1970 or beyond the years of `chrono`.
#[verifier::external_body]
pub(crate) fn utc_now() -> (text: String)
    ensures
        utc_timestamp(text@),
{
    chrono::Utc::now().to_rfc3339()
}

/// What `String::from_utf8_lossy` makes of `bytes`.
pub uninterp spec fn utf8_lossy(bytes: Seq<u8>) -> Seq<char>;

/// Calls `String::from_utf8_lossy`. Claims that the text is a function of the
/// bytes, and that valid UTF-8 gives the text that it encodes.
#[verifier::external_body]
pub(crate) fn lossy_text(bytes: &[u8]) -> (text: String)
    ensures
        text@ == utf8_lossy(bytes@),
        vstd::utf8::valid_utf8(bytes@) ==> text@ == vstd::utf8::decode_utf8(bytes@),
{
    String::from_utf8_lossy(bytes).into_owned()
}

/// The error type of `String::from_utf8`.
#[verifier::external_type_specification]
#[verifier::external_body]
pub struct ExFromUtf8Error(std::string::FromUtf8Error);

/// The message that the error of `String::from_utf8` displays for `bytes`,
/// which are not valid UTF-8.
pub uninterp spec fn utf8_error(bytes: Seq<u8>) -> Seq<char>;

/// Specifies `String::from_utf8`. Claims that it succeeds on valid UTF-8 alone,
/// with the text that the bytes encode, and that the message of its error is a
/// function of the bytes.
pub assume_specification[ String::from_utf8 ](vec: Vec<u8>) -> (decoded: Result<
    String,
    std::string::FromUtf8Error,
>)
    ensures
        match decoded {
            Ok(string) => vstd::utf8::valid_utf8(vec@) && string@ == vstd::utf8::decode_utf8(vec@),
            Err(error) => !vstd::utf8::valid_utf8(vec@) && forall|message: String| #[trigger]
                vstd::string::to_string_from_display_ensures(&error, message) ==> message@
                    == utf8_error(vec@),
        },
;

} // verus!
