//! Character classes and case maps for the ASCII strings the slug pipeline
//! works on, together with the basic facts about them.

use vstd::prelude::*;

verus! {

/// An ASCII character: code point below 128.
pub open spec fn is_ascii_char(c: char) -> bool {
    (c as u32) < 128
}

/// An ASCII character below DEL: code point strictly under 127. These are
/// the characters transliteration passes through unchanged; DEL itself is
/// ASCII but is rewritten (to nothing).
pub open spec fn is_low_ascii_char(c: char) -> bool {
    (c as u32) < 127
}

/// A character the filtering stage keeps: an ASCII letter or digit.
pub open spec fn is_keep_char(c: char) -> bool {
    ('A' <= c && c <= 'Z') || ('a' <= c && c <= 'z') || ('0' <= c && c <= '9')
}

/// The ASCII characters that `str::trim` removes at the edges of a string.
pub open spec fn is_space_char(c: char) -> bool {
    c == ' ' || c == '\t' || c == '\n' || c == '\r' || c == '\u{b}' || c == '\u{c}'
}

/// An ASCII uppercase letter.
pub open spec fn is_upper_char(c: char) -> bool {
    'A' <= c && c <= 'Z'
}

/// An ASCII lowercase letter.
pub open spec fn is_lower_char(c: char) -> bool {
    'a' <= c && c <= 'z'
}

/// A character of the URL-safe alphabet that random identifiers draw from:
/// `_`, `-`, ASCII digits and ASCII letters.
pub open spec fn is_id_char(c: char) -> bool {
    c == '_' || c == '-' || is_keep_char(c)
}

/// ASCII lowercasing of one character; anything but `A`..=`Z` is unchanged.
pub open spec fn lower_char(c: char) -> char {
    if is_upper_char(c) {
        ((c as u32) + 32) as char
    } else {
        c
    }
}

/// ASCII uppercasing of one character; anything but `a`..=`z` is unchanged.
pub open spec fn upper_char(c: char) -> char {
    if is_lower_char(c) {
        ((c as u32) - 32) as char
    } else {
        c
    }
}

/// ASCII lowercasing of a whole string, character by character.
pub open spec fn to_lower_seq(s: Seq<char>) -> Seq<char> {
    s.map_values(|c: char| lower_char(c))
}

/// ASCII uppercasing of a whole string, character by character.
pub open spec fn to_upper_seq(s: Seq<char>) -> Seq<char> {
    s.map_values(|c: char| upper_char(c))
}

pub fn lower_char_exec(c: char) -> (r: char)
    ensures
        r == lower_char(c),
{
    if c >= 'A' && c <= 'Z' {
        ((c as u8) + 32) as char
    } else {
        c
    }
}

pub fn upper_char_exec(c: char) -> (r: char)
    ensures
        r == upper_char(c),
{
    if c >= 'a' && c <= 'z' {
        ((c as u8) - 32) as char
    } else {
        c
    }
}

pub fn to_lower_vec(v: &Vec<char>) -> (r: Vec<char>)
    ensures
        r@ == to_lower_seq(v@),
{
    let mut r: Vec<char> = Vec::new();
    let mut i: usize = 0;
    while i < v.len()
        invariant
            i <= v.len(),
            r@.len() == i,
            forall|k: int| 0 <= k < i ==> r@[k] == lower_char(v@[k]),
        decreases v.len() - i,
    {
        r.push(lower_char_exec(v[i]));
        i = i + 1;
    }
    assert(r@ =~= to_lower_seq(v@));
    r
}

pub fn to_upper_vec(v: &Vec<char>) -> (r: Vec<char>)
    ensures
        r@ == to_upper_seq(v@),
{
    let mut r: Vec<char> = Vec::new();
    let mut i: usize = 0;
    while i < v.len()
        invariant
            i <= v.len(),
            r@.len() == i,
            forall|k: int| 0 <= k < i ==> r@[k] == upper_char(v@[k]),
        decreases v.len() - i,
    {
        r.push(upper_char_exec(v[i]));
        i = i + 1;
    }
    assert(r@ =~= to_upper_seq(v@));
    r
}

/// A string without uppercase letters is unchanged by lowercasing.
pub proof fn lemma_lower_identity(s: Seq<char>)
    requires
        forall|i: int| 0 <= i < s.len() ==> !is_upper_char(#[trigger] s[i]),
    ensures
        to_lower_seq(s) == s,
{
    assert(to_lower_seq(s) =~= s);
}

} // verus!
