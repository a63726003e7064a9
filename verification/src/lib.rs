//! Turns free-form text, Unicode included, into a URL-safe slug: transliterate
//! to ASCII, drop stop words, collapse everything that is not a letter or a
//! digit into a configurable separator, optionally truncate, optionally append
//! a random suffix, and finish with a case transform.

use vstd::prelude::*;

pub mod ascii;
pub mod builder;
pub mod laws;
pub mod pipeline;
pub mod trusted;

use crate::ascii::{
    is_id_char, is_keep_char, is_low_ascii_char, to_lower_seq, to_lower_vec, to_upper_seq,
    to_upper_vec,
};
use crate::laws::{is_lower_plain_slug, lemma_slug_fixed_point};
use crate::pipeline::{
    apply_stop_words_vec, collapse_vec, push_all, replace_vec, sep_char, slug_core, slug_truncated,
    str_chars, trim_vec, truncate_clean_vec,
};
use crate::trusted::{chars_to_string, random_id, transliterate, transliterated};

verus! {

/// The letter-case normalization applied to a finished slug.
pub enum Case {
    Lower,
    Upper,
    Same,
}

/// The one configuration a slug cannot be made for: a random suffix was asked
/// for with a total suffix length of zero.
#[derive(Debug, PartialEq, Eq)]
pub enum SlugError {
    InvalidRandomnessLength,
}

/// The final case transform, over a whole string.
pub open spec fn apply_case(s: Seq<char>, m: Case) -> Seq<char> {
    match m {
        Case::Lower => to_lower_seq(s),
        Case::Upper => to_upper_seq(s),
        Case::Same => s,
    }
}

/// The case transform the positional API applies: an absent transform means
/// lowercase.
pub open spec fn case_mode(t: Option<Case>) -> Case {
    match t {
        Option::Some(m) => m,
        Option::None => Case::Lower,
    }
}

/// One acceptable outcome of the random-suffix stage: `id` is what the
/// generator handed back, and the result is the core slug, the separator and
/// the lowercased identifier, under the final case transform.
pub open spec fn slug_with_suffix(
    res: Seq<char>,
    core: Seq<char>,
    sep: Seq<char>,
    rl: int,
    m: Case,
    id: Seq<char>,
) -> bool {
    &&& id.len() == rl - 1
    &&& (forall|i: int| 0 <= i < id.len() ==> is_id_char(#[trigger] id[i]))
    &&& res == apply_case(core + sep + to_lower_seq(id), m)
}

/// The whole transformation, with every option spelled out.
///
/// Without randomness the result is pinned exactly: the case transform
/// applied to the truncated slug of the transliterated text. With randomness
/// the result is that slug, the separator, and some freshly drawn identifier
/// of length `randomness_length - 1`, lowercased; only its length and its
/// alphabet can be promised. A total random-suffix length of zero would be an
/// error and is excluded here; `try_slugify` reports it instead. The upper
/// bound on `randomness_length` only keeps the generator's arithmetic inside
/// `usize`.
///
/// A string that is already a well-formed lowercase slug comes back unchanged
/// under the default configuration: the last `ensures` clause states that.
pub fn slugify(
    text: &str,
    stop_words: &str,
    sep: &str,
    max_length: Option<usize>,
    randomness: bool,
    randomness_length: usize,
    transform: Option<Case>,
) -> (res: String)
    requires
        randomness ==> 1 <= randomness_length <= usize::MAX / 8,
    ensures
        !randomness ==> res@ == apply_case(
            slug_truncated(transliterated(text@), stop_words@, sep@, max_length),
            case_mode(transform),
        ),
        randomness ==> exists|id: Seq<char>|
            slug_with_suffix(
                res@,
                slug_truncated(transliterated(text@), stop_words@, sep@, max_length),
                sep@,
                randomness_length as int,
                case_mode(transform),
                id,
            ),
        randomness ==> res@.len() == slug_truncated(
            transliterated(text@),
            stop_words@,
            sep@,
            max_length,
        ).len() + sep@.len() + (randomness_length - 1),
        (!randomness && stop_words@.len() == 0 && sep@ == seq!['-'] && max_length is None
            && case_mode(transform) == Case::Lower && is_lower_plain_slug(text@)) ==> res@
            == text@,
{
    let t = transliterate(text);
    proof {
        if !randomness && stop_words@.len() == 0 && sep@ == seq!['-'] && max_length is None
            && case_mode(transform) == Case::Lower && is_lower_plain_slug(text@) {
            assert forall|i: int| 0 <= i < text@.len() implies is_low_ascii_char(
                #[trigger] text@[i],
            ) by {
                assert(is_keep_char(text@[i]) || text@[i] == '-');
            }
            assert(t@ == text@);
            assert(stop_words@ =~= Seq::<char>::empty());
            lemma_slug_fixed_point(text@);
        }
    }
    let tv = str_chars(t.as_str());
    let sepv = str_chars(sep);
    let stopv = str_chars(stop_words);
    let sc = if sepv.len() > 0 {
        sepv[0]
    } else {
        ' '
    };
    proof {
        assert(sc == sep_char(sep@));
    }
    let t1 = trim_vec(&tv, true, sc);
    let t2 = trim_vec(&t1, false, sc);
    let mut space: Vec<char> = Vec::new();
    space.push(' ');
    proof {
        assert(space@ =~= seq![' ']);
    }
    let t3 = replace_vec(&t2, &space, &sepv);
    let t4 = apply_stop_words_vec(t3, &stopv, &sepv);
    let mut slug = collapse_vec(&t4, sc);
    proof {
        assert(slug@ == slug_core(transliterated(text@), stop_words@, sep@));
    }
    match max_length {
        Option::Some(x) => {
            slug = truncate_clean_vec(slug, x, sc);
        },
        Option::None => {},
    }
    let ghost core = slug_truncated(transliterated(text@), stop_words@, sep@, max_length);
    proof {
        assert(slug@ == core);
    }
    if randomness {
        let idlen = randomness_length - 1;
        let mut idv: Vec<char> = Vec::new();
        if idlen > 0 {
            let id = random_id(idlen);
            idv = str_chars(id.as_str());
        }
        let lowid = to_lower_vec(&idv);
        push_all(&mut slug, &sepv);
        push_all(&mut slug, &lowid);
        proof {
            assert(slug@ == core + sep@ + to_lower_seq(idv@));
        }
        let cased = apply_case_vec(slug, &transform);
        proof {
            assert(slug_with_suffix(
                cased@,
                core,
                sep@,
                randomness_length as int,
                case_mode(transform),
                idv@,
            ));
        }
        chars_to_string(cased)
    } else {
        let cased = apply_case_vec(slug, &transform);
        chars_to_string(cased)
    }
}

fn apply_case_vec(v: Vec<char>, transform: &Option<Case>) -> (r: Vec<char>)
    ensures
        r@ == apply_case(v@, case_mode(*transform)),
{
    match transform {
        Option::Some(Case::Lower) => to_lower_vec(&v),
        Option::Some(Case::Upper) => to_upper_vec(&v),
        Option::Some(Case::Same) => v,
        Option::None => to_lower_vec(&v),
    }
}

/// Like `slugify`, but reports the one invalid configuration instead of
/// demanding that callers avoid it: a random suffix of total length zero is
/// answered with `SlugError::InvalidRandomnessLength`, and every other
/// configuration with the slug itself. The separate bound on
/// `randomness_length` only keeps the generator's arithmetic inside `usize`.
pub fn try_slugify(
    text: &str,
    stop_words: &str,
    sep: &str,
    max_length: Option<usize>,
    randomness: bool,
    randomness_length: usize,
    transform: Option<Case>,
) -> (res: Result<String, SlugError>)
    requires
        randomness ==> randomness_length <= usize::MAX / 8,
    ensures
        res is Err <==> (randomness && randomness_length == 0),
        res is Err ==> res == Result::<String, SlugError>::Err(SlugError::InvalidRandomnessLength),
        (res is Ok && !randomness) ==> res->Ok_0@ == apply_case(
            slug_truncated(transliterated(text@), stop_words@, sep@, max_length),
            case_mode(transform),
        ),
        (res is Ok && randomness) ==> exists|id: Seq<char>|
            slug_with_suffix(
                res->Ok_0@,
                slug_truncated(transliterated(text@), stop_words@, sep@, max_length),
                sep@,
                randomness_length as int,
                case_mode(transform),
                id,
            ),
        (res is Ok && randomness) ==> res->Ok_0@.len() == slug_truncated(
            transliterated(text@),
            stop_words@,
            sep@,
            max_length,
        ).len() + sep@.len() + (randomness_length - 1),
{
    if randomness && randomness_length == 0 {
        Err(SlugError::InvalidRandomnessLength)
    } else {
        let s = slugify(text, stop_words, sep, max_length, randomness, randomness_length, transform);
        let res: Result<String, SlugError> = Ok(s);
        proof {
            if randomness {
                let ghost core = slug_truncated(transliterated(text@), stop_words@, sep@, max_length);
                let id = choose|id: Seq<char>|
                    slug_with_suffix(
                        s@,
                        core,
                        sep@,
                        randomness_length as int,
                        case_mode(transform),
                        id,
                    );
                assert(slug_with_suffix(
                    res->Ok_0@,
                    core,
                    sep@,
                    randomness_length as int,
                    case_mode(transform),
                    id,
                ));
            }
        }
        res
    }
}

} // verus!
