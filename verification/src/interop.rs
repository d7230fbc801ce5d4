//! Calls into outside crates. Each function here is trusted: Verus takes its
//! contract as given, and the doc comment says what the contract claims.
use vstd::prelude::*;
use base64::Engine;
use sha2::Digest;

verus! {

/// What `base64::engine::general_purpose::URL_SAFE_NO_PAD.decode` returns for the
/// UTF-8 bytes of `text`: the decoded bytes, or `None` where it returns an error.
pub uninterp spec fn base64_url_decoded(text: Seq<char>) -> Option<Seq<u8>>;

/// What `serde_json::from_slice::<serde_json::Value>(doc)` followed by
/// `Value::pointer(pointer)` and `Value::as_str` yields: the string found at the
/// JSON pointer, or `None` when `doc` is not JSON, nothing is at the pointer, or
/// what is there is not a string.
pub uninterp spec fn json_pointer_text(doc: Seq<u8>, pointer: Seq<char>) -> Option<Seq<char>>;

/// Calls `URL_SAFE_NO_PAD.decode` (base64 0.22). The contract claims only that
/// the result is the function `base64_url_decoded` of the input text, with a
/// decoding error mapped to `None`.
#[verifier::external_body]
pub(crate) fn decode_base64_url(text: &str) -> (r: Option<Vec<u8>>)
    ensures
        match r {
            Some(v) => base64_url_decoded(text@) == Some(v@),
            None => base64_url_decoded(text@) is None,
        },
{
    base64::engine::general_purpose::URL_SAFE_NO_PAD.decode(text).ok()
}

/// Parses `doc` with `serde_json::from_slice` into a `serde_json::Value`, looks
/// up `pointer` with `Value::pointer` and reads the string there with
/// `Value::as_str`. The contract claims only that the result is the function
/// `json_pointer_text` of the bytes and the pointer.
#[verifier::external_body]
pub(crate) fn json_text_at_pointer(doc: &[u8], pointer: &str) -> (r: Option<String>)
    ensures
        match r {
            Some(s) => json_pointer_text(doc@, pointer@) == Some(s@),
            None => json_pointer_text(doc@, pointer@) is None,
        },
{
    let value: serde_json::Value = serde_json::from_slice(doc).ok()?;
    let found = value.pointer(pointer)?;
    found.as_str().map(str::to_owned)
}

/// What `chrono::DateTime::<Utc>::from_timestamp(secs, 0)` followed by
/// `DateTime::timestamp` gives: `None` where chrono cannot represent the
/// instant, else the timestamp of the instant it made.
pub uninterp spec fn utc_instant(secs: i64) -> Option<i64>;

/// Calls `chrono::DateTime::<Utc>::from_timestamp(secs, 0)` (chrono 0.4) and reads
/// the instant back with `DateTime::timestamp`. The contract claims that the
/// result is `utc_instant(secs)` and, as chrono documents that the two
/// round-trip, that a present result is `secs` itself. Which seconds chrono can
/// represent (a range of dates several hundred thousand years wide) is left to
/// the name.
#[verifier::external_body]
pub(crate) fn utc_from_timestamp(secs: i64) -> (r: Option<i64>)
    ensures
        r == utc_instant(secs),
        r matches Some(t) ==> t == secs,
{
    match chrono::DateTime::<chrono::Utc>::from_timestamp(secs, 0) {
        Some(instant) => Some(instant.timestamp()),
        None => None,
    }
}

/// A byte string that `http::HeaderValue::from_str` accepts: every byte is a tab
/// or at least 32 and not 127. For UTF-8 text this is a condition on each
/// character, since the bytes of a character above 127 are all above 127.
pub open spec fn header_value_text(s: Seq<char>) -> bool {
    forall|i: int|
        0 <= i < s.len() ==> ((#[trigger] s[i] >= ' ' && s[i] != '\x7f') || s[i] == '\t')
}

/// Calls `reqwest::header::HeaderValue::from_str` (the `http` 1.x type) and
/// reports whether it succeeded. The contract claims the rule of its source:
/// every byte must be a tab or a byte of at least 32 other than 127.
#[verifier::external_body]
pub(crate) fn header_value_accepts(value: &str) -> (r: bool)
    ensures
        r == header_value_text(value@),
{
    reqwest::header::HeaderValue::from_str(value).is_ok()
}

/// A lowercase hexadecimal digit.
pub open spec fn lower_hex(c: char) -> bool {
    ('0' <= c && c <= '9') || ('a' <= c && c <= 'f')
}

/// A hexadecimal digit of the RFC 4122 variant: `8`, `9`, `a` or `b`.
pub open spec fn variant_digit(c: char) -> bool {
    c == '8' || c == '9' || c == 'a' || c == 'b'
}

/// Makes a random (version 4) UUID with `uuid::Uuid::new_v4` and writes it with
/// `Uuid::simple`. The contract claims what uuid's formatter writes for every
/// UUID: 32 lowercase hexadecimal digits; and what `new_v4` fixes of its bits
/// (it masks the random value with `...4FFFBFFF...` and sets `0x4000_8000...`):
/// digit 12 is the version `4` and digit 16 is a variant digit. Which other
/// digits come out is left open.
#[verifier::external_body]
pub(crate) fn random_uuid_simple() -> (r: String)
    ensures
        r@.len() == 32,
        forall|i: int| 0 <= i < 32 ==> lower_hex(#[trigger] r@[i]),
        r@[12] == '4',
        variant_digit(r@[16]),
{
    uuid::Uuid::new_v4().simple().to_string()
}

/// Makes a random (version 4) UUID with `uuid::Uuid::new_v4` and writes it with
/// its `Display` impl. The contract claims what uuid's formatter writes for every
/// UUID: 36 characters, lowercase hexadecimal digits with `-` at positions 8,
/// 13, 18 and 23; and what `new_v4` fixes of its bits: the version `4` at
/// position 14 and a variant digit at position 19. Which other digits come out
/// is left open.
#[verifier::external_body]
pub(crate) fn random_uuid_hyphenated() -> (r: String)
    ensures
        r@.len() == 36,
        forall|i: int|
            0 <= i < 36 ==> if i == 8 || i == 13 || i == 18 || i == 23 {
                #[trigger] r@[i] == '-'
            } else {
                lower_hex(r@[i])
            },
        r@[14] == '4',
        variant_digit(r@[19]),
{
    uuid::Uuid::new_v4().to_string()
}

/// What `sha2::Sha256::digest` gives for the UTF-8 bytes of `text`.
pub uninterp spec fn sha256_of(text: Seq<char>) -> Seq<u8>;

/// Hashes the UTF-8 bytes of `text` with `sha2::Sha256::digest` (sha2 0.10). The
/// contract claims that the result is `sha256_of(text)` and, as the digest type
/// of SHA-256 has 32 bytes, that it has 32 bytes.
#[verifier::external_body]
pub(crate) fn sha256_text(text: &str) -> (r: Vec<u8>)
    ensures
        r@ == sha256_of(text@),
        r@.len() == 32,
{
    sha2::Sha256::digest(text.as_bytes()).to_vec()
}

/// What `base64::engine::general_purpose::URL_SAFE_NO_PAD.encode` gives for
/// `bytes`.
pub uninterp spec fn base64_url_encoded(bytes: Seq<u8>) -> Seq<char>;

/// The length of unpadded base64 for `n` bytes: four characters for each whole
/// group of three bytes, then two for one byte left over or three for two.
pub open spec fn base64_unpadded_len(n: nat) -> nat {
    4 * (n / 3) + if n % 3 == 1 {
        2nat
    } else if n % 3 == 2 {
        3nat
    } else {
        0nat
    }
}

/// A character of base64's URL-safe alphabet.
pub open spec fn url_safe_base64_char(c: char) -> bool {
    ('A' <= c && c <= 'Z') || ('a' <= c && c <= 'z') || ('0' <= c && c <= '9') || c == '-' || c
        == '_'
}

/// Calls `URL_SAFE_NO_PAD.encode` (base64 0.22). The contract claims that the
/// result is `base64_url_encoded` of the bytes, that its length is what
/// `base64::encoded_len` computes without padding, and that it is written in
/// the URL-safe alphabet.
#[verifier::external_body]
pub(crate) fn encode_base64_url(bytes: &[u8]) -> (r: String)
    ensures
        r@ == base64_url_encoded(bytes@),
        r@.len() == base64_unpadded_len(bytes@.len()),
        forall|i: int| 0 <= i < r@.len() ==> url_safe_base64_char(#[trigger] r@[i]),
{
    base64::engine::general_purpose::URL_SAFE_NO_PAD.encode(bytes)
}

/// What `url::Url::parse` gives for `text`: the serialised URL, or the text of
/// the parse error.
pub uninterp spec fn url_parsed(text: Seq<char>) -> Result<Seq<char>, Seq<char>>;

/// Calls `url::Url::parse` (url 2.5) and returns the serialisation of the URL
/// (`Url::as_str`) or the error's `Display` text. The contract claims only that
/// the result is `url_parsed` of the text.
#[verifier::external_body]
pub(crate) fn parse_url(text: &str) -> (r: Result<String, String>)
    ensures
        match (r, url_parsed(text@)) {
            (Ok(u), Ok(v)) => u@ == v,
            (Err(e), Err(f)) => e@ == f,
            _ => false,
        },
{
    match url::Url::parse(text) {
        Ok(u) => Ok(u.as_str().to_string()),
        Err(e) => Err(e.to_string()),
    }
}

/// What `url::Url::parse_with_params` gives for `base` and the query pairs
/// `params`: the serialised URL, or the text of the parse error.
pub uninterp spec fn url_with_params(base: Seq<char>, params: Seq<(Seq<char>, Seq<char>)>) -> Result<
    Seq<char>,
    Seq<char>,
>;

/// The view of a list of string pairs.
pub open spec fn pair_views(params: Seq<(String, String)>) -> Seq<(Seq<char>, Seq<char>)> {
    params.map_values(|p: (String, String)| (p.0@, p.1@))
}

/// Calls `url::Url::parse_with_params` (url 2.5) with the pairs in order and
/// returns the serialisation of the URL or the error's `Display` text. The
/// contract claims only that the result is `url_with_params` of the base and the
/// pairs.
#[verifier::external_body]
pub(crate) fn parse_url_with_params(base: &str, params: &Vec<(String, String)>) -> (r: Result<
    String,
    String,
>)
    ensures
        match (r, url_with_params(base@, pair_views(params@))) {
            (Ok(u), Ok(v)) => u@ == v,
            (Err(e), Err(f)) => e@ == f,
            _ => false,
        },
{
    match url::Url::parse_with_params(base, params.iter().map(|p| (p.0.as_str(), p.1.as_str()))) {
        Ok(u) => Ok(u.as_str().to_string()),
        Err(e) => Err(e.to_string()),
    }
}

/// What `url::Url::parse` followed by `Url::query_pairs` gives for `text`: the
/// decoded query pairs in order, or the text of the parse error.
pub uninterp spec fn url_query_pairs(text: Seq<char>) -> Result<Seq<(Seq<char>, Seq<char>)>, Seq<char>>;

/// Calls `url::Url::parse` (url 2.5) and collects `Url::query_pairs` as owned
/// strings, or returns the error's `Display` text. The contract claims only that
/// the result is `url_query_pairs` of the text.
#[verifier::external_body]
pub(crate) fn parse_query_pairs(text: &str) -> (r: Result<Vec<(String, String)>, String>)
    ensures
        match (r, url_query_pairs(text@)) {
            (Ok(v), Ok(w)) => pair_views(v@) == w,
            (Err(e), Err(f)) => e@ == f,
            _ => false,
        },
{
    match url::Url::parse(text) {
        Ok(u) => Ok(u.query_pairs().map(|p| (p.0.into_owned(), p.1.into_owned())).collect()),
        Err(e) => Err(e.to_string()),
    }
}

/// What `str::to_lowercase` gives for `text`: each character replaced by its
/// Unicode lowercase mapping, a capital sigma by the final or non-final form
/// that its context calls for.
pub uninterp spec fn lowercase(text: Seq<char>) -> Seq<char>;

/// Calls `str::to_lowercase` (std). The contract claims only that the result is
/// `lowercase` of the text.
#[verifier::external_body]
pub(crate) fn to_lowercase_text(text: &str) -> (r: String)
    ensures
        r@ == lowercase(text@),
{
    text.to_lowercase()
}

} // verus!
