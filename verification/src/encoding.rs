//! JSON string quoting and base64, through the crates that the tool
//! already ships with, with the quoting pinned down character by
//! character.

use vstd::prelude::*;

verus! {

/// The lowercase hexadecimal digit for a value below sixteen.
pub open spec fn hex_digit(v: int) -> char {
    if v == 0 {
        '0'
    } else if v == 1 {
        '1'
    } else if v == 2 {
        '2'
    } else if v == 3 {
        '3'
    } else if v == 4 {
        '4'
    } else if v == 5 {
        '5'
    } else if v == 6 {
        '6'
    } else if v == 7 {
        '7'
    } else if v == 8 {
        '8'
    } else if v == 9 {
        '9'
    } else if v == 10 {
        'a'
    } else if v == 11 {
        'b'
    } else if v == 12 {
        'c'
    } else if v == 13 {
        'd'
    } else if v == 14 {
        'e'
    } else {
        'f'
    }
}

/// How a JSON serialiser writes one character inside a string literal:
/// `"` and `\` get a backslash, the control characters with short escapes
/// get those, the other control characters become `\u00XX`, and
/// everything else stands as it is.
pub open spec fn json_escape_char(c: char) -> Seq<char> {
    let v = c as u32;
    if c == '"' {
        seq!['\\', '"']
    } else if c == '\\' {
        seq!['\\', '\\']
    } else if v == 0x08 {
        seq!['\\', 'b']
    } else if c == '\t' {
        seq!['\\', 't']
    } else if c == '\n' {
        seq!['\\', 'n']
    } else if v == 0x0C {
        seq!['\\', 'f']
    } else if c == '\r' {
        seq!['\\', 'r']
    } else if v < 0x20 {
        seq!['\\', 'u', '0', '0', hex_digit(v as int / 16), hex_digit(v as int % 16)]
    } else {
        seq![c]
    }
}

/// The body of a JSON string literal for `s`.
pub open spec fn json_escaped(s: Seq<char>) -> Seq<char>
    decreases s.len(),
{
    if s.len() == 0 {
        Seq::empty()
    } else {
        json_escape_char(s[0]) + json_escaped(s.drop_first())
    }
}

/// The JSON string literal for `s`: the escaped body between quotes.
pub open spec fn json_quoted(s: Seq<char>) -> Seq<char> {
    seq!['"'] + json_escaped(s) + seq!['"']
}

/// Writes `s` as a JSON string literal.
///
/// Relies on `serde_json::to_string` for a `&str`: it emits an opening
/// quote, each character escaped as `json_escape_char` says, and a
/// closing quote.  Serialising a string slice cannot fail: its only error
/// paths are a failing `Serialize` impl and a map with non-string keys,
/// and the writer is a `Vec`, which never refuses bytes.
#[verifier::external_body]
pub fn json_quote(s: &str) -> (r: String)
    ensures
        r@ == json_quoted(s@),
{
    serde_json::to_string(s).expect("writing a string to JSON cannot fail")
}

/// What base64 encoding with the standard alphabet and padding returns
/// for the UTF-8 bytes of a string.
pub uninterp spec fn base64_of(s: Seq<char>) -> Seq<char>;

/// Encodes the bytes of `s` as base64.
///
/// Relies on `base64::encode`: the standard alphabet with `=` padding, a
/// function of the input bytes alone.  Its only panic is an overflow
/// computing the output size, which a slice of at most `isize::MAX` bytes
/// cannot reach.
#[verifier::external_body]
pub fn base64_encode(s: &str) -> (r: String)
    ensures
        r@ == base64_of(s@),
{
    base64::encode(s)
}

} // verus!
