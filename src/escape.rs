//! HTML escaping of text embedded in diagram labels.
use vstd::prelude::*;

verus! {

/// The entity that stands for `c` in escaped text, if `c` is one of the
/// characters that are escaped.
pub open spec fn entity(c: char) -> Option<Seq<char>> {
    if c == '&' {
        Some(seq!['&', 'a', 'm', 'p', ';'])
    } else if c == '>' {
        Some(seq!['&', 'g', 't', ';'])
    } else if c == '<' {
        Some(seq!['&', 'l', 't', ';'])
    } else if c == '"' {
        Some(seq!['&', '#', '3', '4', ';'])
    } else if c == '\'' {
        Some(seq!['&', '#', '3', '9', ';'])
    } else if c == '`' {
        Some(seq!['&', '#', '9', '6', ';'])
    } else if c == '!' {
        Some(seq!['&', '#', '3', '3', ';'])
    } else if c == '$' {
        Some(seq!['&', '#', '3', '6', ';'])
    } else if c == '%' {
        Some(seq!['&', '#', '3', '7', ';'])
    } else if c == '(' {
        Some(seq!['&', '#', '4', '0', ';'])
    } else if c == ')' {
        Some(seq!['&', '#', '4', '1', ';'])
    } else if c == '+' {
        Some(seq!['&', '#', '4', '3', ';'])
    } else if c == '=' {
        Some(seq!['&', '#', '6', '1', ';'])
    } else if c == '@' {
        Some(seq!['&', '#', '6', '4', ';'])
    } else if c == '[' {
        Some(seq!['&', '#', '9', '1', ';'])
    } else if c == ']' {
        Some(seq!['&', '#', '9', '3', ';'])
    } else if c == '{' {
        Some(seq!['&', '#', '1', '2', '3', ';'])
    } else if c == '}' {
        Some(seq!['&', '#', '1', '2', '5', ';'])
    } else {
        None
    }
}

/// The escaped form of one character.
pub open spec fn escaped_char(c: char) -> Seq<char> {
    match entity(c) {
        Some(e) => e,
        None => seq![c],
    }
}

/// The escaped form of a text: each character replaced by its escaped form.
pub open spec fn escaped(s: Seq<char>) -> Seq<char>
    decreases s.len(),
{
    if s.len() == 0 {
        Seq::empty()
    } else {
        escaped(s.drop_last()) + escaped_char(s.last())
    }
}

/// Relies on `marksman_escape::Escape`: it walks the UTF-8 bytes and replaces
/// each of the ASCII bytes listed in `entity` by that entity, passing every
/// other byte through, so the result is the character-wise escape of `s`.
#[verifier::external_body]
pub(crate) fn escape(s: &str) -> (r: String)
    ensures
        r@ == escaped(s@),
{
    String::from_utf8(marksman_escape::Escape::new(s.bytes()).collect()).unwrap()
}

} // verus!
