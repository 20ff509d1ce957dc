//! Percent-encoding of the file-path component of a GitLab content URL,
//! through the `urlencoding` crate.
use vstd::prelude::*;
use crate::text::digit_char;

verus! {

/// What `urlencoding::encode` returns: a function of the characters alone.
pub uninterp spec fn url_encoded(s: Seq<char>) -> Seq<char>;

/// The bytes that percent-encoding leaves as they are.
pub open spec fn is_url_unreserved(c: char) -> bool {
    ('0' <= c && c <= '9') || ('A' <= c && c <= 'Z') || ('a' <= c && c <= 'z') || c == '-' || c
        == '.' || c == '_' || c == '~'
}

pub open spec fn hex_char(d: nat) -> char {
    if d < 10 {
        digit_char(d)
    } else if d == 10 {
        'A'
    } else if d == 11 {
        'B'
    } else if d == 12 {
        'C'
    } else if d == 13 {
        'D'
    } else if d == 14 {
        'E'
    } else {
        'F'
    }
}

pub open spec fn percent_encode_char(c: char) -> Seq<char> {
    if is_url_unreserved(c) {
        seq![c]
    } else {
        seq!['%', hex_char(((c as u32) / 16) as nat), hex_char(((c as u32) % 16) as nat)]
    }
}

/// Character-wise percent-encoding; coincides with byte-wise encoding exactly
/// on ASCII text, where each character is one byte.
pub open spec fn percent_encode_chars(s: Seq<char>) -> Seq<char>
    decreases s.len(),
{
    if s.len() == 0 {
        Seq::<char>::empty()
    } else {
        percent_encode_char(s[0]) + percent_encode_chars(s.drop_first())
    }
}

/// Relies on `urlencoding::encode`: percent-encodes every byte of the UTF-8
/// form of the input except ASCII alphanumerics and `-`, `.`, `_`, `~`, with
/// uppercase hex digits; the result depends on the characters alone.
#[verifier::external_body]
pub fn encode_component(s: &str) -> (r: String)
    ensures
        r@ == url_encoded(s@),
        vstd::string::is_ascii(s) ==> r@ == percent_encode_chars(s@),
{
    urlencoding::encode(s).into_owned()
}

} // verus!
