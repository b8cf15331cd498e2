//! Calls into `urlencoding`, `url`, `regex` and `std::path`, each behind a contract that
//! Verus takes on trust; the doc comment of each says what is claimed.

use vstd::prelude::*;
use vstd::utf8::{encode_utf8, valid_utf8, decode_utf8};
use crate::decimal::digit_char;
use crate::text::after_last;

verus! {

/// Whether byte `b` is left as it is by percent-encoding: an ASCII letter or digit, or one
/// of `-`, `.`, `_`, `~`.
pub open spec fn is_unreserved(b: u8) -> bool {
    ||| 48 <= b <= 57
    ||| 65 <= b <= 90
    ||| 97 <= b <= 122
    ||| b == 45
    ||| b == 46
    ||| b == 95
    ||| b == 126
}

/// The upper-case hexadecimal digit for `d` (`0 <= d < 16`).
pub open spec fn hex_upper(d: u8) -> char {
    if d < 10 {
        digit_char(d as nat)
    } else if d == 10 {
        'A'
    } else if d == 11 {
        'B'
    } else if d == 12 {
        'C'
    } else if d == 13 {
        'D'
    } else if d == 14 {
        'E'
    } else {
        'F'
    }
}

/// Percent-encoding of a byte sequence: unreserved bytes stay, every other byte becomes
/// `%` and two upper-case hex digits.
pub open spec fn percent_encode_bytes(bs: Seq<u8>) -> Seq<char>
    decreases bs.len(),
{
    if bs.len() == 0 {
        Seq::empty()
    } else {
        let b = bs[0];
        let head = if is_unreserved(b) {
            seq![b as char]
        } else {
            seq!['%', hex_upper(b >> 4), hex_upper(b & 15)]
        };
        head + percent_encode_bytes(bs.drop_first())
    }
}

/// Percent-encoding of the UTF-8 bytes of `s`.
pub open spec fn url_encoded(s: Seq<char>) -> Seq<char> {
    percent_encode_bytes(encode_utf8(s))
}

/// The value of a hexadecimal digit byte of either case.
pub open spec fn hex_value(b: u8) -> Option<u8> {
    if 48 <= b <= 57 {
        Some((b - 48) as u8)
    } else if 65 <= b <= 70 {
        Some((b - 55) as u8)
    } else if 97 <= b <= 102 {
        Some((b - 87) as u8)
    } else {
        None
    }
}

/// Percent-decoding of a byte sequence: `%` and two hex digits become that byte; every
/// other byte, a `%` without two hex digits after it included, stays.
pub open spec fn percent_decode_bytes(d: Seq<u8>) -> Seq<u8>
    decreases d.len(),
{
    if d.len() == 0 {
        d
    } else if d.len() >= 3 && d[0] == 37 && hex_value(d[1]) is Some && hex_value(d[2]) is Some {
        seq![(hex_value(d[1])->0 * 16 + hex_value(d[2])->0) as u8] + percent_decode_bytes(d.skip(3))
    } else {
        seq![d[0]] + percent_decode_bytes(d.drop_first())
    }
}

/// Percent-decoding of `s` read as UTF-8: `None` when the decoded bytes are not UTF-8.
pub open spec fn url_decoded(s: Seq<char>) -> Option<Seq<char>> {
    let bytes = percent_decode_bytes(encode_utf8(s));
    if valid_utf8(bytes) {
        Some(decode_utf8(bytes))
    } else {
        None
    }
}

/// Trusted: calls `urlencoding::encode`, which (its source and documentation show)
/// percent-encodes every UTF-8 byte of `s` except ASCII letters and digits and `-`, `_`,
/// `.`, `~`, writing the hex digits in upper case.
#[verifier::external_body]
pub fn url_encode(s: &str) -> (r: String)
    ensures
        r@ == url_encoded(s@),
{
    urlencoding::encode(s).into_owned()
}

/// Trusted: calls `urlencoding::decode`, which (its source shows) turns each `%` followed
/// by two hex digits into that byte, keeps every other byte, and fails when the result is
/// not UTF-8.
#[verifier::external_body]
pub fn url_decode(s: &str) -> (r: Option<String>)
    ensures
        r is Some == url_decoded(s@) is Some,
        r matches Some(t) ==> t@ == url_decoded(s@)->0,
{
    match urlencoding::decode(s) {
        Ok(t) => Some(t.into_owned()),
        Err(_) => None,
    }
}

/// What a URL parser gives back: the URL's serialization and its path segments, the latter
/// absent for a URL that cannot be a base.
#[derive(Debug)]
pub struct ParsedUrl {
    pub text: String,
    pub segments: Option<Vec<String>>,
}

/// What `url::Url::parse` makes of `input`: `None` when it refuses it, else the
/// serialization (`Url::as_str`) and the path segments (`Url::path_segments`).
pub uninterp spec fn url_parse(input: Seq<char>) -> Option<(Seq<char>, Option<Seq<Seq<char>>>)>;

/// The abstract value of a parse result.
pub open spec fn parsed_view(p: ParsedUrl) -> (Seq<char>, Option<Seq<Seq<char>>>) {
    (p.text@, match p.segments {
        Some(v) => Some(v@.map_values(|s: String| s@)),
        None => None,
    })
}

/// Trusted: calls `url::Url::parse` and reads the serialization and the path segments of
/// the URL it returns. The WHATWG parsing rules are not written out: the result is named
/// `url_parse`, a function of the input alone.
#[verifier::external_body]
pub fn parse_url(input: &str) -> (r: Option<ParsedUrl>)
    ensures
        r is Some == url_parse(input@) is Some,
        r matches Some(p) ==> parsed_view(p) == url_parse(input@)->0,
{
    match url::Url::parse(input) {
        Ok(u) => Some(ParsedUrl {
            segments: u.path_segments().map(|s| s.map(|x| x.to_string()).collect()),
            text: u.into(),
        }),
        Err(_) => None,
    }
}

/// What `regex::Regex::new(pattern)` and then `captures(text)` with group 0 give: `None`
/// when the pattern is refused, `Some(None)` when nothing matches, else the leftmost-first
/// match.
pub uninterp spec fn regex_first_match(pattern: Seq<char>, text: Seq<char>) -> Option<Option<Seq<char>>>;

/// Trusted: compiles `pattern` with `regex::Regex::new` and returns the text of group 0 of
/// `captures(text)`. The regex semantics are not written out: the result is named
/// `regex_first_match`, a function of the two strings alone.
#[verifier::external_body]
pub fn first_match(pattern: &str, text: &str) -> (r: Option<Option<String>>)
    ensures
        r is Some == regex_first_match(pattern@, text@) is Some,
        r matches Some(m) ==> (m is Some == regex_first_match(pattern@, text@)->0 is Some),
        r matches Some(Some(t)) ==> t@ == regex_first_match(pattern@, text@)->0->0,
{
    match regex::Regex::new(pattern) {
        Ok(re) => Some(re.captures(text).and_then(|c| c.get(0)).map(|m| m.as_str().to_string())),
        Err(_) => None,
    }
}

/// Whether `n` holds none of `/`, `\\`, `:`: then it is one plain component on every
/// platform (no separator, no drive prefix).
pub open spec fn plain_name(n: Seq<char>) -> bool {
    forall|i: int| 0 <= i < n.len() ==> n[i] != '/' && n[i] != '\\' && n[i] != ':'
}

/// Whether the path `n` has no file name: it is empty, `.` or `..`.
pub open spec fn nameless(n: Seq<char>) -> bool {
    n == Seq::<char>::empty() || n == seq!['.'] || n == seq!['.', '.']
}

/// Whether a plain name has an extension, as `Path::extension` documents: a file name with
/// a `.` after its first character (so not `..`, nor a name whose only `.` leads).
pub open spec fn name_has_extension(n: Seq<char>) -> bool {
    !nameless(n) && exists|i: int| 0 < i < n.len() && n[i] == '.'
}

/// The stem of a plain name, as `Path::file_stem` documents: the part before the last `.`
/// when the name has an extension, else the whole name.
pub open spec fn name_stem(n: Seq<char>) -> Seq<char> {
    if name_has_extension(n) {
        n.take(n.len() - after_last(n, '.').len() - 1)
    } else {
        n
    }
}

/// A plain name given the non-empty extension `e`, as `PathBuf::set_extension` documents:
/// the stem, `.`, and `e`; a path without a file name stays as it is.
pub open spec fn name_with_extension(n: Seq<char>, e: Seq<char>) -> Seq<char> {
    if nameless(n) {
        n
    } else {
        name_stem(n) + seq!['.'] + e
    }
}

/// Trusted: tells whether `std::path::Path::new(path).extension()` is present. For a plain
/// name (no `/`, `\\` or `:`) the path is that one component on every platform, and the
/// documentation of `Path::extension` gives the answer (`name_has_extension`). For other
/// paths the split into components depends on the platform, and nothing is stated.
#[verifier::external_body]
pub fn has_extension(path: &str) -> (b: bool)
    ensures
        plain_name(path@) ==> b == name_has_extension(path@),
{
    std::path::Path::new(path).extension().is_some()
}

/// Whether `s` holds a `/` or a `\\` (a path separator on some platform).
pub open spec fn has_separator(s: Seq<char>) -> bool {
    exists|i: int| 0 <= i < s.len() && (s[i] == '/' || s[i] == '\\')
}

/// Trusted: `std::path::Path::new(path).with_extension(ext)`, read back with `to_str`.
/// `with_extension` panics when `ext` holds a path separator of the platform, so `ext` may
/// hold neither `/` nor `\\`. For a plain name and a non-empty extension, the
/// documentation of `PathBuf::set_extension` and `Path::file_stem` gives the result
/// (`name_with_extension`), which is UTF-8, so `to_str` gives it back. For other paths the
/// split into components depends on the platform, and nothing is stated.
#[verifier::external_body]
pub fn with_extension(path: &str, ext: &str) -> (r: Option<String>)
    requires
        !has_separator(ext@),
    ensures
        plain_name(path@) && ext@.len() > 0 ==> r is Some,
        plain_name(path@) && ext@.len() > 0 ==> r->0@ == name_with_extension(path@, ext@),
{
    std::path::Path::new(path).with_extension(ext).to_str().map(|s| s.to_string())
}

} // verus!
