//! The fluent face of the library: a configuration value with "with"-style
//! copy-producing overrides, and a terminal `execute` that runs the same
//! pipeline as the positional `slugify`.

use vstd::prelude::*;
use vstd::string::StringExecFns;

use crate::pipeline::slug_truncated;
use crate::trusted::transliterated;
use crate::{apply_case, slug_with_suffix, Case, SlugError};

verus! {

/// An immutable slug configuration, consumed by `execute`.
///
/// `default()` and `slugify(text)` always set `transform` to
/// `Some(Case::Lower)`, and `with_transform` only ever stores `Some`. A
/// value built by hand with `transform: None` preserves case — `execute`'s
/// fallback — where the positional `slugify` reads an absent transform as
/// lowercase.
pub struct SlugBuilder {
    pub text: String,
    pub stop_words: String,
    pub sep: String,
    pub max_length: Option<usize>,
    pub randomness: bool,
    pub randomness_length: usize,
    pub transform: Option<Case>,
}

/// The case transform the builder applies: an absent transform leaves the
/// slug as it is.
pub open spec fn builder_mode(t: Option<Case>) -> Case {
    match t {
        Option::Some(m) => m,
        Option::None => Case::Same,
    }
}

impl SlugBuilder {
    /// The default configuration: empty text, no stop words, `-` as the
    /// separator, no truncation, no randomness (with a suffix length of 5
    /// should it be switched on), and a lowercase result.
    pub fn default() -> (r: SlugBuilder)
        ensures
            r.text@ == Seq::<char>::empty(),
            r.stop_words@ == Seq::<char>::empty(),
            r.sep@ == seq!['-'],
            r.max_length is None,
            r.randomness == false,
            r.randomness_length == 5,
            r.transform == Option::Some(Case::Lower),
    {
        let sep = String::from_str("-");
        proof {
            reveal_strlit("-");
            assert(sep@ =~= seq!['-']);
        }
        SlugBuilder {
            text: String::new(),
            stop_words: String::new(),
            sep,
            max_length: Option::None,
            randomness: false,
            randomness_length: 5,
            transform: Option::Some(Case::Lower),
        }
    }

    pub fn with_stop_words(self, stop_words: String) -> (r: SlugBuilder)
        ensures
            r.stop_words == stop_words,
            r.text == self.text,
            r.sep == self.sep,
            r.max_length == self.max_length,
            r.randomness == self.randomness,
            r.randomness_length == self.randomness_length,
            r.transform == self.transform,
    {
        SlugBuilder { stop_words, ..self }
    }

    pub fn with_sep(self, sep: String) -> (r: SlugBuilder)
        ensures
            r.sep == sep,
            r.text == self.text,
            r.stop_words == self.stop_words,
            r.max_length == self.max_length,
            r.randomness == self.randomness,
            r.randomness_length == self.randomness_length,
            r.transform == self.transform,
    {
        SlugBuilder { sep, ..self }
    }

    pub fn with_max_length(self, max_length: usize) -> (r: SlugBuilder)
        ensures
            r.max_length == Option::Some(max_length),
            r.text == self.text,
            r.stop_words == self.stop_words,
            r.sep == self.sep,
            r.randomness == self.randomness,
            r.randomness_length == self.randomness_length,
            r.transform == self.transform,
    {
        SlugBuilder { max_length: Option::Some(max_length), ..self }
    }

    pub fn with_randomness(self, randomness: bool) -> (r: SlugBuilder)
        ensures
            r.randomness == randomness,
            r.text == self.text,
            r.stop_words == self.stop_words,
            r.sep == self.sep,
            r.max_length == self.max_length,
            r.randomness_length == self.randomness_length,
            r.transform == self.transform,
    {
        SlugBuilder { randomness, ..self }
    }

    pub fn with_randomness_length(self, randomness_length: usize) -> (r: SlugBuilder)
        ensures
            r.randomness_length == randomness_length,
            r.text == self.text,
            r.stop_words == self.stop_words,
            r.sep == self.sep,
            r.max_length == self.max_length,
            r.randomness == self.randomness,
            r.transform == self.transform,
    {
        SlugBuilder { randomness_length, ..self }
    }

    pub fn with_transform(self, transform: Case) -> (r: SlugBuilder)
        ensures
            r.transform == Option::Some(transform),
            r.text == self.text,
            r.stop_words == self.stop_words,
            r.sep == self.sep,
            r.max_length == self.max_length,
            r.randomness == self.randomness,
            r.randomness_length == self.randomness_length,
    {
        SlugBuilder { transform: Option::Some(transform), ..self }
    }

    /// Runs the pipeline on this configuration. The contract is that of
    /// `slugify`, with the builder's own reading of an absent transform:
    /// leave the case as it is.
    pub fn execute(&self) -> (res: String)
        requires
            self.randomness ==> 1 <= self.randomness_length <= usize::MAX / 8,
        ensures
            !self.randomness ==> res@ == apply_case(
                slug_truncated(
                    transliterated(self.text@),
                    self.stop_words@,
                    self.sep@,
                    self.max_length,
                ),
                builder_mode(self.transform),
            ),
            self.randomness ==> exists|id: Seq<char>|
                slug_with_suffix(
                    res@,
                    slug_truncated(
                        transliterated(self.text@),
                        self.stop_words@,
                        self.sep@,
                        self.max_length,
                    ),
                    self.sep@,
                    self.randomness_length as int,
                    builder_mode(self.transform),
                    id,
                ),
            self.randomness ==> res@.len() == slug_truncated(
                transliterated(self.text@),
                self.stop_words@,
                self.sep@,
                self.max_length,
            ).len() + self.sep@.len() + (self.randomness_length - 1),
    {
        let mode = match &self.transform {
            Option::Some(Case::Lower) => Case::Lower,
            Option::Some(Case::Upper) => Case::Upper,
            Option::Some(Case::Same) => Case::Same,
            Option::None => Case::Same,
        };
        crate::slugify(
            self.text.as_str(),
            self.stop_words.as_str(),
            self.sep.as_str(),
            self.max_length,
            self.randomness,
            self.randomness_length,
            Option::Some(mode),
        )
    }

    /// Like `execute`, but reports the one invalid configuration — a random
    /// suffix of total length zero — instead of demanding that callers avoid
    /// it.
    pub fn try_execute(&self) -> (res: Result<String, SlugError>)
        requires
            self.randomness ==> self.randomness_length <= usize::MAX / 8,
        ensures
            res is Err <==> (self.randomness && self.randomness_length == 0),
            res is Err ==> res == Result::<String, SlugError>::Err(
                SlugError::InvalidRandomnessLength,
            ),
            (res is Ok && !self.randomness) ==> res->Ok_0@ == apply_case(
                slug_truncated(
                    transliterated(self.text@),
                    self.stop_words@,
                    self.sep@,
                    self.max_length,
                ),
                builder_mode(self.transform),
            ),
            (res is Ok && self.randomness) ==> exists|id: Seq<char>|
                slug_with_suffix(
                    res->Ok_0@,
                    slug_truncated(
                        transliterated(self.text@),
                        self.stop_words@,
                        self.sep@,
                        self.max_length,
                    ),
                    self.sep@,
                    self.randomness_length as int,
                    builder_mode(self.transform),
                    id,
                ),
            (res is Ok && self.randomness) ==> res->Ok_0@.len() == slug_truncated(
                transliterated(self.text@),
                self.stop_words@,
                self.sep@,
                self.max_length,
            ).len() + self.sep@.len() + (self.randomness_length - 1),
    {
        let mode = match &self.transform {
            Option::Some(Case::Lower) => Case::Lower,
            Option::Some(Case::Upper) => Case::Upper,
            Option::Some(Case::Same) => Case::Same,
            Option::None => Case::Same,
        };
        crate::try_slugify(
            self.text.as_str(),
            self.stop_words.as_str(),
            self.sep.as_str(),
            self.max_length,
            self.randomness,
            self.randomness_length,
            Option::Some(mode),
        )
    }
}

/// Starts a builder for the given text, with every other field at its
/// default.
pub fn slugify(text: String) -> (r: SlugBuilder)
    ensures
        r.text == text,
        r.stop_words@ == Seq::<char>::empty(),
        r.sep@ == seq!['-'],
        r.max_length is None,
        r.randomness == false,
        r.randomness_length == 5,
        r.transform == Option::Some(Case::Lower),
{
    SlugBuilder { text, ..SlugBuilder::default() }
}

} // verus!
