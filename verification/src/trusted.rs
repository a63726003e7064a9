//! The only places where the library leans on code it does not verify: the
//! transliteration and random-identifier crates, and one `collect` into a
//! `String`. Everything stated here is checked against those crates' own
//! source and documentation, not proved.

use vstd::prelude::*;

use crate::ascii::{is_ascii_char, is_id_char, is_low_ascii_char};

verus! {

/// What `deunicode::deunicode` returns for a given input: a fixed function
/// of the input characters alone.
pub uninterp spec fn transliterated(s: Seq<char>) -> Seq<char>;

/// Relies on `deunicode::deunicode`: the result depends on the input
/// characters alone and is always ASCII, and every character below U+007F is
/// passed through unchanged, so an input made only of such characters comes
/// back as it was. DEL (U+007F) is left out of that promise: the mapping
/// table rewrites it to the empty string, even though the crate's own
/// documentation calls it ASCII-preserved.
#[verifier::external_body]
pub fn transliterate(s: &str) -> (r: String)
    ensures
        r@ == transliterated(s@),
        forall|i: int| 0 <= i < r@.len() ==> is_ascii_char(#[trigger] r@[i]),
        (forall|i: int| 0 <= i < s@.len() ==> is_low_ascii_char(#[trigger] s@[i])) ==> r@ == s@,
{
    deunicode::deunicode(s)
}

/// Relies on `nanoid::format` with the default generator `nanoid::rngs::default`
/// and the URL-safe alphabet `nanoid::alphabet::SAFE`: the result has exactly
/// `len` characters, each drawn from that alphabet (`_`, `-`, ASCII digits and
/// letters). Nothing more is assumed of a random result. With `len == 0` the
/// generator would loop forever, and near `usize::MAX` its internal
/// `8 * len / 5` step and its allocation would overflow, so those inputs are
/// excluded.
#[verifier::external_body]
pub fn random_id(len: usize) -> (r: String)
    requires
        1 <= len <= usize::MAX / 8,
    ensures
        r@.len() == len as nat,
        forall|i: int| 0 <= i < r@.len() ==> is_id_char(#[trigger] r@[i]),
{
    nanoid::format(nanoid::rngs::default, &nanoid::alphabet::SAFE, len)
}

/// Relies on `String`'s `FromIterator<char>` impl: collecting a vector of
/// characters yields the string of exactly those characters, in order.
#[verifier::external_body]
pub fn chars_to_string(v: Vec<char>) -> (s: String)
    ensures
        s@ == v@,
{
    v.into_iter().collect()
}

} // verus!
