//! The functions that every template can call.
use vstd::prelude::*;
use vstd::string::*;
use vstd::utf8::*;
use vstd::bytes::{spec_u64_to_le_bytes, u64_to_le_bytes};
use crate::jinja;
use crate::text;
use base64::engine::general_purpose::{STANDARD, STANDARD_NO_PAD, URL_SAFE_NO_PAD};
use base64::Engine;
use minijinja::{State, Value};

verus! {

broadcast use encode_utf8_decode_utf8, encode_utf8_valid_utf8, is_char_boundary_start_end_of_seq;

/// The end of the byte range that `substring` takes from a text of `n` bytes.
pub open spec fn substring_end(n: int, start: int, len: Option<usize>) -> int {
    match len {
        Some(l) => if start + l <= n { start + l } else { n },
        None => n,
    }
}

/// The text `substring` returns: the bytes `[start, end)` of `bytes`, or the
/// empty text where `start` is past the end or the range does not fall on
/// character boundaries.
pub open spec fn substring_spec(bytes: Seq<u8>, start: int, len: Option<usize>) -> Seq<char> {
    let end = substring_end(bytes.len() as int, start, len);
    if start < bytes.len() && is_char_boundary(bytes, start) && is_char_boundary(bytes, end) {
        decode_utf8(bytes.subrange(start, end))
    } else {
        Seq::empty()
    }
}

/// The byte range `[start, start + len)` of `input`, clipped to its end; the
/// whole rest of `input` when `len` is absent or overruns it.
pub fn substring(input: &str, start: usize, len: Option<usize>) -> (r: String)
    ensures
        r@ == substring_spec(input.spec_bytes(), start as int, len),
{
    let input_len = input.as_bytes().len();
    if start >= input_len {
        return String::new();
    }
    let end: usize = match len {
        Some(l) => if l <= input_len - start { start + l } else { input_len },
        None => input_len,
    };
    if !input.is_char_boundary(start) || !input.is_char_boundary(end) {
        return String::new();
    }
    let (_, rest) = input.split_at(start);
    proof {
        let bytes = input.spec_bytes();
        valid_utf8_split(bytes, start as int);
        let tail = rest.spec_bytes();
        if end < input_len {
            is_char_boundary_iff_not_is_continuation_byte(bytes, end as int);
            is_char_boundary_iff_not_is_continuation_byte(tail, end - start);
        }
    }
    let (piece, _) = rest.split_at(end - start);
    proof {
        let bytes = input.spec_bytes();
        assert(piece.spec_bytes() =~= bytes.subrange(start as int, end as int));
    }
    piece.to_string()
}

/// The value of the last entry of `pairs` whose name is `key` when ASCII case
/// is ignored; empty when there is none.
pub open spec fn header_value(pairs: Seq<(String, String)>, key: Seq<char>) -> Seq<char>
    decreases pairs.len(),
{
    if pairs.len() == 0 {
        Seq::empty()
    } else if text::same_ignoring_ascii_case(pairs.last().0@, key) {
        pairs.last().1@
    } else {
        header_value(pairs.drop_last(), key)
    }
}

/// The value of the last entry of `pairs` whose name is exactly `name`;
/// empty when there is none.
pub open spec fn env_value(pairs: Seq<(String, String)>, name: Seq<char>) -> Seq<char>
    decreases pairs.len(),
{
    if pairs.len() == 0 {
        Seq::empty()
    } else if pairs.last().0@ == name {
        pairs.last().1@
    } else {
        env_value(pairs.drop_last(), name)
    }
}

/// Case-insensitive lookup of a header; empty when it is absent.
pub fn lookup_header(headers: &Vec<(String, String)>, key: &str) -> (r: String)
    ensures
        r@ == header_value(headers@, key@),
{
    let mut i: usize = headers.len();
    assert(headers@.subrange(0, i as int) =~= headers@);
    while i > 0
        invariant
            i <= headers@.len(),
            header_value(headers@, key@) == header_value(headers@.subrange(0, i as int), key@),
        decreases i,
    {
        let ghost prefix = headers@.subrange(0, i as int);
        if text::eq_ignore_ascii_case(headers[i - 1].0.as_str(), key) {
            return headers[i - 1].1.clone();
        }
        assert(prefix.drop_last() =~= headers@.subrange(0, i - 1));
        i -= 1;
    }
    String::new()
}

/// The value of an environment variable in `vars`; empty when it is unset.
pub fn lookup_env(vars: &Vec<(String, String)>, name: &str) -> (r: String)
    ensures
        r@ == env_value(vars@, name@),
{
    let wanted = name.to_string();
    let mut i: usize = vars.len();
    assert(vars@.subrange(0, i as int) =~= vars@);
    while i > 0
        invariant
            i <= vars@.len(),
            wanted@ == name@,
            env_value(vars@, name@) == env_value(vars@.subrange(0, i as int), name@),
        decreases i,
    {
        let ghost prefix = vars@.subrange(0, i as int);
        if vars[i - 1].0 == wanted {
            return vars[i - 1].1.clone();
        }
        assert(prefix.drop_last() =~= vars@.subrange(0, i - 1));
        i -= 1;
    }
    String::new()
}

/// The value of `key` in the header pairs a context holds, if it holds any;
/// empty otherwise.
pub open spec fn header_in(pairs: Option<Seq<(String, String)>>, key: Seq<char>) -> Seq<char> {
    match pairs {
        Some(p) => header_value(p, key),
        None => Seq::empty(),
    }
}

/// Case-insensitive lookup of `key` in the header pairs a context holds;
/// empty when it holds none or the header is absent.
pub fn header_from(pairs: Option<Vec<(String, String)>>, key: &str) -> (r: String)
    ensures
        r@ == header_in(
            match pairs {
                Some(p) => Some(p@),
                None => None,
            },
            key@,
        ),
{
    match pairs {
        Some(p) => lookup_header(&p, key),
        None => String::new(),
    }
}

/// The header pairs the context variable `var` holds, if it holds a list of
/// pairs of texts.
fn context_pairs(state: &State, var: &str) -> Option<Vec<(String, String)>> {
    match jinja::lookup_var(state, var) {
        Some(v) => jinja::value_pairs(v),
        None => None,
    }
}

/// The headers of the message being transformed, looked up without regard to
/// ASCII case; empty when absent or when the context holds no headers.
pub fn header(state: &State, key: &str) -> String {
    header_from(context_pairs(state, jinja::HEADERS_VAR), key)
}

/// The headers of the request, looked up without regard to ASCII case; empty
/// when absent or when the context holds no request headers.
pub fn request_header(state: &State, key: &str) -> String {
    header_from(context_pairs(state, jinja::REQUEST_HEADERS_VAR), key)
}

/// The text a context variable holds, or empty when it holds none.
pub fn text_or_empty(text: Option<String>) -> (r: String)
    ensures
        r@ == match text {
            Some(s) => s@,
            None => Seq::empty(),
        },
{
    match text {
        Some(s) => s,
        None => String::new(),
    }
}

/// The raw body, where the context holds it; empty otherwise.
pub fn body(state: &State) -> String {
    let text = match jinja::lookup_var(state, jinja::RAW_BODY_VAR) {
        Some(v) => jinja::value_text(&v),
        None => None,
    };
    text_or_empty(text)
}

/// The value a context variable holds, or undefined when it holds none.
pub fn value_or_undefined(value: Option<Value>) -> (r: Value)
    ensures
        value is Some ==> r == value->0,
{
    match value {
        Some(v) => v,
        None => jinja::undefined_value(),
    }
}

/// The parsed body, where the context holds it; undefined otherwise.
pub fn context(state: &State) -> Value {
    value_or_undefined(jinja::lookup_var(state, jinja::PARSED_BODY_VAR))
}

/// The standard base64 encoding (with padding) of a byte sequence.
pub uninterp spec fn base64_standard_of(b: Seq<u8>) -> Seq<char>;

/// The bytes that a standard base64 text (with padding) decodes to, if it is one.
pub uninterp spec fn base64_standard_decoded(s: Seq<char>) -> Option<Seq<u8>>;

/// The URL-safe base64 encoding (without padding) of a byte sequence.
pub uninterp spec fn base64_url_of(b: Seq<u8>) -> Seq<char>;

/// The bytes that a URL-safe base64 text (without padding) decodes to, if it is one.
pub uninterp spec fn base64_url_decoded(s: Seq<char>) -> Option<Seq<u8>>;

/// The standard base64 encoding without padding of a byte sequence.
pub uninterp spec fn base64_unpadded_of(b: Seq<u8>) -> Seq<char>;

/// Relies on base64's `STANDARD.encode`.
#[verifier::external_body]
fn encode_standard(b: &[u8]) -> (r: String)
    ensures
        r@ == base64_standard_of(b@),
{
    STANDARD.encode(b)
}

/// Relies on base64's `STANDARD.decode`: the bytes, or `None` on malformed input.
#[verifier::external_body]
fn decode_standard(s: &str) -> (r: Option<Vec<u8>>)
    ensures
        match r {
            Some(v) => base64_standard_decoded(s@) == Some(v@),
            None => base64_standard_decoded(s@) is None,
        },
{
    STANDARD.decode(s).ok()
}

/// Relies on base64's `URL_SAFE_NO_PAD.encode`.
#[verifier::external_body]
fn encode_url(b: &[u8]) -> (r: String)
    ensures
        r@ == base64_url_of(b@),
{
    URL_SAFE_NO_PAD.encode(b)
}

/// Relies on base64's `URL_SAFE_NO_PAD.decode`: the bytes, or `None` on malformed input.
#[verifier::external_body]
fn decode_url(s: &str) -> (r: Option<Vec<u8>>)
    ensures
        match r {
            Some(v) => base64_url_decoded(s@) == Some(v@),
            None => base64_url_decoded(s@) is None,
        },
{
    URL_SAFE_NO_PAD.decode(s).ok()
}

/// Relies on base64's `STANDARD_NO_PAD.encode`.
#[verifier::external_body]
fn encode_unpadded(b: &[u8]) -> (r: String)
    ensures
        r@ == base64_unpadded_of(b@),
{
    STANDARD_NO_PAD.encode(b)
}

/// The text that decoded bytes stand for: their UTF-8 reading, or empty where
/// decoding failed or the bytes are not UTF-8.
pub open spec fn decoded_text_spec(bytes: Option<Seq<u8>>) -> Seq<char> {
    match bytes {
        Some(b) => if valid_utf8(b) { decode_utf8(b) } else { Seq::empty() },
        None => Seq::empty(),
    }
}

/// The UTF-8 text of decoded bytes; empty where decoding failed or the bytes
/// are not UTF-8.
pub fn decoded_text(bytes: Option<Vec<u8>>) -> (r: String)
    ensures
        r@ == decoded_text_spec(match bytes { Some(b) => Some(b@), None => None }),
{
    match bytes {
        Some(b) => match text::utf8_text(b) {
            Some(s) => s,
            None => String::new(),
        },
        None => String::new(),
    }
}

/// Standard base64 (with padding) of the given bytes.
pub fn base64_encode(input: &[u8]) -> (r: String)
    ensures
        r@ == base64_standard_of(input@),
{
    encode_standard(input)
}

/// The UTF-8 text that a standard base64 text decodes to; empty on failure.
pub fn base64_decode(input: &str) -> (r: String)
    ensures
        r@ == decoded_text_spec(base64_standard_decoded(input@)),
{
    decoded_text(decode_standard(input))
}

/// URL-safe base64 (without padding) of the given bytes.
pub fn base64url_encode(input: &[u8]) -> (r: String)
    ensures
        r@ == base64_url_of(input@),
{
    encode_url(input)
}

/// The UTF-8 text that a URL-safe base64 text decodes to; empty on failure.
pub fn base64url_decode(input: &str) -> (r: String)
    ensures
        r@ == decoded_text_spec(base64_url_decoded(input@)),
{
    decoded_text(decode_url(input))
}

/// Relies on rand's thread-local generator: a fresh random number.
#[verifier::external_body]
fn random_u64() -> (r: u64) {
    rand::random::<u64>()
}

/// The text of a random token made of 128 bits: `low` then `high`, each as
/// little-endian bytes.
pub open spec fn token_spec(low: u64, high: u64) -> Seq<char> {
    base64_unpadded_of(spec_u64_to_le_bytes(low) + spec_u64_to_le_bytes(high))
}

/// The text of the token for the 128 bits `low` and `high`: their 16 bytes,
/// little-endian, in unpadded standard base64.
pub fn random_token(low: u64, high: u64) -> (r: String)
    ensures
        r@ == token_spec(low, high),
{
    let mut bytes = u64_to_le_bytes(low);
    let mut upper = u64_to_le_bytes(high);
    bytes.append(&mut upper);
    encode_unpadded(bytes.as_slice())
}

/// `input` with every occurrence of `to_replace` replaced by a random token
/// drawn for this call.
pub fn replace_with_random(input: &str, to_replace: &str) -> (r: String)
    ensures
        exists|low: u64, high: u64|
            r@ == text::replace_all(input@, to_replace@, #[trigger] token_spec(low, high)),
{
    let high = random_u64();
    let low = random_u64();
    let token = random_token(low, high);
    text::replace_text(input, to_replace, token.as_str())
}

/// `input` with every occurrence of `to_replace` replaced by `replacement`.
pub fn replace_with_string(input: &str, to_replace: &str, replacement: &str) -> (r: String)
    ensures
        r@ == text::replace_all(input@, to_replace@, replacement@),
{
    text::replace_text(input, to_replace, replacement)
}

/// The JSON string literal for a text, quotes included.
pub uninterp spec fn json_string_literal_of(s: Seq<char>) -> Seq<char>;

/// Relies on serde_json's `to_string` on a `str`: a JSON string literal,
/// which starts and ends with a quote; serialising a `str` cannot fail.
#[verifier::external_body]
fn json_string_literal(s: &str) -> (r: String)
    ensures
        r@ == json_string_literal_of(s@),
        r@.len() >= 2,
        r@[0] == '"',
        r@.last() == '"',
{
    serde_json::to_string(s).unwrap_or_default()
}

/// `s` without its enclosing quotes, where it has them.
pub open spec fn unquoted(s: Seq<char>) -> Seq<char> {
    if s.len() >= 2 && s[0] == '"' && s.last() == '"' {
        s.subrange(1, s.len() - 1)
    } else {
        s
    }
}

/// `quoted` without its enclosing quotes, where it has them.
pub fn unquote(quoted: &str) -> (r: String)
    ensures
        r@ == unquoted(quoted@),
{
    let c = text::chars_of(quoted);
    let n = c.len();
    if n >= 2 && c[0] == '"' && c[n - 1] == '"' {
        let inner = vstd::slice::slice_subrange(c.as_slice(), 1, n - 1);
        text::string_from_chars(inner)
    } else {
        quoted.to_string()
    }
}

/// `value` escaped as in a JSON string literal, without the quotes.
pub fn raw_string(value: &str) -> (r: String)
    ensures
        r@ == unquoted(json_string_literal_of(value@)),
{
    let literal = json_string_literal(value);
    unquote(literal.as_str())
}

} // verus!
