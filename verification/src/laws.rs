//! The general properties the pipeline keeps, proved once and for all: the
//! separator never repeats, never stands at an edge, truncation respects its
//! bound, the random suffix adds exactly its configured length, the case
//! transforms leave no letter of the other case, and a string that is already
//! a well-formed slug comes through the default pipeline unchanged.

use vstd::prelude::*;

use crate::ascii::{
    is_keep_char, is_lower_char, is_upper_char, lemma_lower_identity, lower_char, to_lower_seq,
    upper_char,
};
use crate::pipeline::{
    apply_stop_words, collapse_rec, drop_trailing_sep, filter_collapse, replace_all, sep_char,
    slug_core, slug_truncated, split_commas, trim_edges, trim_end_rec, trim_match, trim_start_rec,
    truncate_clean,
};
use crate::{apply_case, Case};

verus! {

/// The separator never stands twice in a row.
pub open spec fn no_double_sep(s: Seq<char>, c: char) -> bool {
    forall|i: int| 0 <= i && i + 1 < s.len() ==> !((#[trigger] s[i]) == c && s[i + 1] == c)
}

/// The separator stands at neither edge.
pub open spec fn no_edge_sep(s: Seq<char>, c: char) -> bool {
    &&& s.len() > 0 ==> s[0] != c
    &&& s.len() > 0 ==> s.last() != c
}

/// With the flag set, whatever the scan emits starts with a kept character.
pub proof fn lemma_collapse_starts_keep(s: Seq<char>, sepc: char, in_sep: bool)
    requires
        in_sep,
    ensures
        collapse_rec(s, sepc, in_sep).len() > 0 ==> is_keep_char(collapse_rec(s, sepc, in_sep)[0]),
    decreases s.len(),
{
    if s.len() == 0 {
    } else if is_keep_char(s[0]) {
    } else {
        lemma_collapse_starts_keep(s.drop_first(), sepc, true);
    }
}

/// The scan never emits the separator twice in a row.
pub proof fn lemma_collapse_no_double(s: Seq<char>, sepc: char, in_sep: bool)
    requires
        !is_keep_char(sepc),
    ensures
        no_double_sep(collapse_rec(s, sepc, in_sep), sepc),
    decreases s.len(),
{
    let out = collapse_rec(s, sepc, in_sep);
    if s.len() == 0 {
    } else if is_keep_char(s[0]) {
        lemma_collapse_no_double(s.drop_first(), sepc, false);
        let t = collapse_rec(s.drop_first(), sepc, false);
        assert forall|i: int| 0 <= i && i + 1 < out.len() implies !((#[trigger] out[i]) == sepc
            && out[i + 1] == sepc) by {
            if i == 0 {
                assert(out[0] == s[0]);
            } else {
                assert(out[i] == t[i - 1] && out[i + 1] == t[i]);
            }
        }
    } else if in_sep {
        lemma_collapse_no_double(s.drop_first(), sepc, true);
    } else {
        lemma_collapse_no_double(s.drop_first(), sepc, true);
        lemma_collapse_starts_keep(s.drop_first(), sepc, true);
        let t = collapse_rec(s.drop_first(), sepc, true);
        assert forall|i: int| 0 <= i && i + 1 < out.len() implies !((#[trigger] out[i]) == sepc
            && out[i + 1] == sepc) by {
            if i == 0 {
                assert(out[1] == t[0]);
            } else {
                assert(out[i] == t[i - 1] && out[i + 1] == t[i]);
            }
        }
    }
}

/// The filtering stage leaves no doubled separator and none at an edge.
pub proof fn lemma_filter_collapse_props(s: Seq<char>, c: char)
    requires
        !is_keep_char(c),
    ensures
        no_double_sep(filter_collapse(s, c), c),
        no_edge_sep(filter_collapse(s, c), c),
{
    let out = collapse_rec(s, c, true);
    lemma_collapse_no_double(s, c, true);
    lemma_collapse_starts_keep(s, c, true);
    let fc = filter_collapse(s, c);
    if out.len() > 0 && out.last() == c {
        assert(fc == out.drop_last());
        assert forall|i: int| 0 <= i && i + 1 < fc.len() implies !((#[trigger] fc[i]) == c && fc[i
            + 1] == c) by {
            assert(fc[i] == out[i] && fc[i + 1] == out[i + 1]);
        }
        if fc.len() > 0 {
            assert(fc[0] == out[0]);
            assert(fc.last() == out[fc.len() - 1]);
            assert(!(out[fc.len() - 1] == c && out[fc.len() as int] == c));
        }
    } else {
        assert(fc == out);
    }
}

/// What trimming the end leaves is a prefix, no longer than the input, whose
/// last character the trim does not match.
pub proof fn lemma_trim_end_prefix(s: Seq<char>, ws: bool, c: char)
    ensures
        trim_end_rec(s, ws, c).len() <= s.len(),
        trim_end_rec(s, ws, c) == s.take(trim_end_rec(s, ws, c).len() as int),
        trim_end_rec(s, ws, c).len() > 0 ==> !trim_match(ws, c, trim_end_rec(s, ws, c).last()),
    decreases s.len(),
{
    if s.len() > 0 && trim_match(ws, c, s.last()) {
        lemma_trim_end_prefix(s.drop_last(), ws, c);
        let r = trim_end_rec(s.drop_last(), ws, c);
        assert(s.drop_last().take(r.len() as int) =~= s.take(r.len() as int));
    } else {
        assert(s.take(s.len() as int) =~= s);
    }
}

/// Truncation keeps the no-double and no-edge properties of its input.
pub proof fn lemma_truncate_preserves(s: Seq<char>, n: int, c: char)
    requires
        no_double_sep(s, c),
        no_edge_sep(s, c),
        n >= 0,
    ensures
        no_double_sep(truncate_clean(s, n, c), c),
        no_edge_sep(truncate_clean(s, n, c), c),
{
    let base = if n < s.len() {
        s.take(n)
    } else {
        s
    };
    lemma_trim_end_prefix(base, false, c);
    let r = truncate_clean(s, n, c);
    assert(r == base.take(r.len() as int));
    assert forall|i: int| 0 <= i < r.len() implies (#[trigger] r[i]) == s[i] by {
        assert(base[i] == s[i]);
    }
    assert forall|i: int| 0 <= i && i + 1 < r.len() implies !((#[trigger] r[i]) == c && r[i + 1]
        == c) by {
        assert(r[i] == s[i] && r[i + 1] == s[i + 1]);
    }
    if r.len() > 0 {
        assert(r[0] == s[0]);
        assert(!trim_match(false, c, r.last()));
    }
}

/// The case transforms keep a string's length and touch no position that
/// holds the separator, as long as the separator is not a letter or digit.
pub proof fn lemma_case_keeps_sep_positions(s: Seq<char>, m: Case, c: char)
    requires
        !is_keep_char(c),
    ensures
        apply_case(s, m).len() == s.len(),
        forall|i: int| 0 <= i < s.len() ==> ((apply_case(s, m)[i] == c) <==> (#[trigger] s[i])
            == c),
{
    match m {
        Case::Lower => {
            assert forall|i: int| 0 <= i < s.len() implies ((apply_case(s, m)[i] == c) <==> (
            #[trigger] s[i]) == c) by {
                assert(apply_case(s, m)[i] == lower_char(s[i]));
                if is_upper_char(s[i]) {
                    assert(is_lower_char(lower_char(s[i])));
                }
            }
        },
        Case::Upper => {
            assert forall|i: int| 0 <= i < s.len() implies ((apply_case(s, m)[i] == c) <==> (
            #[trigger] s[i]) == c) by {
                assert(apply_case(s, m)[i] == upper_char(s[i]));
                if is_lower_char(s[i]) {
                    assert(is_upper_char(upper_char(s[i])));
                }
            }
        },
        Case::Same => {},
    }
}

/// Whatever the configuration, the finished slug never holds two consecutive
/// separator characters, as long as the separator is not itself a letter or
/// a digit.
pub proof fn lemma_no_double_separator(
    t: Seq<char>,
    stop: Seq<char>,
    sep: Seq<char>,
    max_length: Option<usize>,
    m: Case,
)
    requires
        !is_keep_char(sep_char(sep)),
    ensures
        no_double_sep(apply_case(slug_truncated(t, stop, sep, max_length), m), sep_char(sep)),
{
    let c = sep_char(sep);
    let worded = apply_stop_words(
        replace_all(trim_edges(trim_edges(t, true, c), false, c), seq![' '], sep),
        split_commas(stop),
        sep,
    );
    lemma_filter_collapse_props(worded, c);
    let core = slug_truncated(t, stop, sep, max_length);
    match max_length {
        Option::None => {},
        Option::Some(n) => {
            lemma_truncate_preserves(slug_core(t, stop, sep), n as int, c);
        },
    }
    lemma_case_keeps_sep_positions(core, m, c);
    let cased = apply_case(core, m);
    assert forall|i: int| 0 <= i && i + 1 < cased.len() implies !((#[trigger] cased[i]) == c
        && cased[i + 1] == c) by {
        assert((cased[i] == c) <==> (core[i] == c));
        assert((cased[i + 1] == c) <==> (core[i + 1] == c));
    }
}

/// The no-double-separator invariant also survives the random-suffix stage,
/// for every draw made of letters and digits alone. The generator's real
/// alphabet also holds `-` and `_`, so nothing can be promised of the other
/// draws: an identifier beginning with `-` doubles a `-` separator.
pub proof fn lemma_no_double_separator_with_suffix(
    t: Seq<char>,
    stop: Seq<char>,
    sep: Seq<char>,
    max_length: Option<usize>,
    id: Seq<char>,
    m: Case,
)
    requires
        !is_keep_char(sep_char(sep)),
        sep.len() == 1,
        forall|i: int| 0 <= i < id.len() ==> is_keep_char(#[trigger] id[i]),
    ensures
        no_double_sep(
            apply_case(slug_truncated(t, stop, sep, max_length) + sep + to_lower_seq(id), m),
            sep_char(sep),
        ),
{
    let c = sep_char(sep);
    let core = slug_truncated(t, stop, sep, max_length);
    lemma_no_double_separator(t, stop, sep, max_length, Case::Same);
    lemma_no_edge_separator(t, stop, sep, max_length, Case::Same);
    assert(apply_case(core, Case::Same) == core);
    let w = core + sep + to_lower_seq(id);
    let n = core.len() as int;
    assert(sep[0] == c);
    assert forall|i: int| 0 <= i && i + 1 < w.len() implies !((#[trigger] w[i]) == c && w[i + 1]
        == c) by {
        if i + 1 < n {
            assert(w[i] == core[i] && w[i + 1] == core[i + 1]);
        } else if i + 1 == n {
            assert(w[i] == core[i]);
            assert(core.last() != c);
        } else if i == n {
            assert(w[i + 1] == to_lower_seq(id)[0]);
            assert(to_lower_seq(id)[0] == lower_char(id[0]));
            if is_upper_char(id[0]) {
                assert(is_lower_char(lower_char(id[0])));
            }
            assert(is_keep_char(lower_char(id[0])));
        } else {
            let j = i - n - 1;
            assert(w[i] == to_lower_seq(id)[j]);
            assert(to_lower_seq(id)[j] == lower_char(id[j]));
            if is_upper_char(id[j]) {
                assert(is_lower_char(lower_char(id[j])));
            }
            assert(is_keep_char(lower_char(id[j])));
        }
    }
    lemma_case_keeps_sep_positions(w, m, c);
    let cased = apply_case(w, m);
    assert forall|i: int| 0 <= i && i + 1 < cased.len() implies !((#[trigger] cased[i]) == c
        && cased[i + 1] == c) by {
        assert((cased[i] == c) <==> (w[i] == c));
        assert((cased[i + 1] == c) <==> (w[i + 1] == c));
    }
}

/// Whatever the configuration, the finished slug neither starts nor ends
/// with the separator character, as long as the separator is not itself a
/// letter or a digit.
pub proof fn lemma_no_edge_separator(
    t: Seq<char>,
    stop: Seq<char>,
    sep: Seq<char>,
    max_length: Option<usize>,
    m: Case,
)
    requires
        !is_keep_char(sep_char(sep)),
    ensures
        no_edge_sep(apply_case(slug_truncated(t, stop, sep, max_length), m), sep_char(sep)),
{
    let c = sep_char(sep);
    let worded = apply_stop_words(
        replace_all(trim_edges(trim_edges(t, true, c), false, c), seq![' '], sep),
        split_commas(stop),
        sep,
    );
    lemma_filter_collapse_props(worded, c);
    let core = slug_truncated(t, stop, sep, max_length);
    match max_length {
        Option::None => {},
        Option::Some(n) => {
            lemma_truncate_preserves(slug_core(t, stop, sep), n as int, c);
        },
    }
    lemma_case_keeps_sep_positions(core, m, c);
    let cased = apply_case(core, m);
    if cased.len() > 0 {
        assert((cased[0] == c) <==> (core[0] == c));
        assert((cased.last() == c) <==> (core.last() == c));
    }
}

/// With a maximum length configured, the slug before any random suffix never
/// exceeds it.
pub proof fn lemma_truncation_bound(t: Seq<char>, stop: Seq<char>, sep: Seq<char>, n: usize)
    ensures
        slug_truncated(t, stop, sep, Option::Some(n)).len() <= n,
{
    let core = slug_core(t, stop, sep);
    let c = sep_char(sep);
    if (n as int) < core.len() {
        lemma_trim_end_prefix(core.take(n as int), false, c);
    } else {
        lemma_trim_end_prefix(core, false, c);
    }
}

/// The case transforms keep a string's length.
pub proof fn lemma_case_keeps_len(s: Seq<char>, m: Case)
    ensures
        apply_case(s, m).len() == s.len(),
{
}

/// With a one-character separator, the random suffix adds exactly the
/// configured total length — the separator plus the drawn identifier —
/// whatever the identifier turned out to be.
pub proof fn lemma_randomness_length(
    t: Seq<char>,
    stop: Seq<char>,
    sep: Seq<char>,
    max_length: Option<usize>,
    rl: int,
    id: Seq<char>,
    m: Case,
)
    requires
        sep.len() == 1,
        rl >= 1,
        id.len() == rl - 1,
    ensures
        apply_case(slug_truncated(t, stop, sep, max_length) + sep + to_lower_seq(id), m).len()
            == apply_case(slug_truncated(t, stop, sep, max_length), m).len() + rl,
{
    let core = slug_truncated(t, stop, sep, max_length);
    lemma_case_keeps_len(core + sep + to_lower_seq(id), m);
    lemma_case_keeps_len(core, m);
}

/// The case contract: forcing lowercase leaves no uppercase letter, forcing
/// uppercase leaves no lowercase letter, and preserving touches nothing.
pub proof fn lemma_case_contract(s: Seq<char>)
    ensures
        forall|i: int|
            0 <= i < apply_case(s, Case::Lower).len() ==> !is_upper_char(
                #[trigger] apply_case(s, Case::Lower)[i],
            ),
        forall|i: int|
            0 <= i < apply_case(s, Case::Upper).len() ==> !is_lower_char(
                #[trigger] apply_case(s, Case::Upper)[i],
            ),
        apply_case(s, Case::Same) == s,
{
    assert forall|i: int| 0 <= i < apply_case(s, Case::Lower).len() implies !is_upper_char(
        #[trigger] apply_case(s, Case::Lower)[i],
    ) by {
        assert(apply_case(s, Case::Lower)[i] == lower_char(s[i]));
        if is_upper_char(s[i]) {
            assert(is_lower_char(lower_char(s[i])));
        }
    }
    assert forall|i: int| 0 <= i < apply_case(s, Case::Upper).len() implies !is_lower_char(
        #[trigger] apply_case(s, Case::Upper)[i],
    ) by {
        assert(apply_case(s, Case::Upper)[i] == upper_char(s[i]));
        if is_lower_char(s[i]) {
            assert(is_upper_char(upper_char(s[i])));
        }
    }
}

/// A string shaped like a finished slug: every character is kept or the
/// separator, and the separator is neither doubled nor at an edge.
pub open spec fn is_plain_slug(s: Seq<char>, c: char) -> bool {
    &&& forall|i: int| 0 <= i < s.len() ==> (is_keep_char(#[trigger] s[i]) || s[i] == c)
    &&& no_double_sep(s, c)
    &&& no_edge_sep(s, c)
}

/// A well-formed slug for the default configuration: plain slug shape with
/// `-` as the separator, and no uppercase letter.
pub open spec fn is_lower_plain_slug(s: Seq<char>) -> bool {
    &&& is_plain_slug(s, '-')
    &&& forall|i: int| 0 <= i < s.len() ==> !is_upper_char(#[trigger] s[i])
}

/// Replacing a single character that does not occur changes nothing.
pub proof fn lemma_replace_absent(s: Seq<char>, pat: Seq<char>, rep: Seq<char>)
    requires
        pat.len() == 1,
        forall|i: int| 0 <= i < s.len() ==> (#[trigger] s[i]) != pat[0],
    ensures
        replace_all(s, pat, rep) == s,
    decreases s.len(),
{
    if s.len() == 0 {
        assert(replace_all(s, pat, rep) =~= s);
    } else {
        if pat.len() <= s.len() && s.take(1) == pat {
            assert(s.take(1)[0] == s[0]);
            assert(false);
        }
        let d = s.drop_first();
        assert forall|i: int| 0 <= i < d.len() implies (#[trigger] d[i]) != pat[0] by {
            assert(d[i] == s[i + 1]);
        }
        lemma_replace_absent(d, pat, rep);
        assert(seq![s[0]] + d =~= s);
    }
}

/// The scan leaves a string untouched that is already in collapsed shape.
pub proof fn lemma_collapse_plain(s: Seq<char>, c: char, in_sep: bool)
    requires
        !is_keep_char(c),
        forall|i: int| 0 <= i < s.len() ==> (is_keep_char(#[trigger] s[i]) || s[i] == c),
        no_double_sep(s, c),
        s.len() > 0 ==> s.last() != c,
        in_sep ==> (s.len() > 0 ==> s[0] != c),
    ensures
        collapse_rec(s, c, in_sep) == s,
    decreases s.len(),
{
    if s.len() == 0 {
        assert(collapse_rec(s, c, in_sep) =~= s);
    } else {
        let d = s.drop_first();
        assert forall|i: int| 0 <= i < d.len() implies (is_keep_char(#[trigger] d[i]) || d[i]
            == c) by {
            assert(d[i] == s[i + 1]);
        }
        assert forall|i: int| 0 <= i && i + 1 < d.len() implies !((#[trigger] d[i]) == c && d[i + 1]
            == c) by {
            assert(d[i] == s[i + 1] && d[i + 1] == s[i + 2]);
        }
        if d.len() > 0 {
            assert(d.last() == s.last());
        }
        if is_keep_char(s[0]) {
            lemma_collapse_plain(d, c, false);
            assert(seq![s[0]] + d =~= s);
        } else {
            assert(s[0] == c);
            assert(!in_sep);
            assert(s.len() >= 2);
            assert(d[0] == s[1]);
            assert(s[1] != c);
            lemma_collapse_plain(d, c, true);
            assert(seq![c] + d =~= s);
        }
    }
}

/// Feeding a well-formed lowercase slug back through the default
/// configuration — no stop words, separator `-`, no truncation, lowercase —
/// returns it unchanged.
pub proof fn lemma_slug_fixed_point(s: Seq<char>)
    requires
        is_lower_plain_slug(s),
    ensures
        apply_case(slug_truncated(s, Seq::<char>::empty(), seq!['-'], Option::None), Case::Lower)
            == s,
{
    let sep = seq!['-'];
    let c = sep_char(sep);
    assert(c == '-');
    assert(trim_start_rec(s, true, c) == s);
    assert(trim_end_rec(s, true, c) == s);
    assert(trim_start_rec(s, false, c) == s);
    assert(trim_end_rec(s, false, c) == s);
    assert(trim_edges(trim_edges(s, true, c), false, c) == s);
    assert forall|i: int| 0 <= i < s.len() implies (#[trigger] s[i]) != seq![' '][0] by {
        assert(seq![' '][0] == ' ');
    }
    lemma_replace_absent(s, seq![' '], sep);
    let words = split_commas(Seq::<char>::empty());
    assert(words == seq![Seq::<char>::empty()]);
    assert(words[0].len() == 0);
    assert(words.drop_first() =~= Seq::<Seq<char>>::empty());
    assert(apply_stop_words(s, words.drop_first(), sep) == s);
    assert(apply_stop_words(s, words, sep) == s);
    lemma_collapse_plain(s, c, true);
    assert(drop_trailing_sep(s, c) == s);
    assert(slug_core(s, Seq::<char>::empty(), sep) == s);
    lemma_lower_identity(s);
}

/// The scan emits nothing but kept characters and the separator.
pub proof fn lemma_collapse_elements(s: Seq<char>, sepc: char, in_sep: bool)
    ensures
        forall|i: int|
            0 <= i < collapse_rec(s, sepc, in_sep).len() ==> (is_keep_char(
                #[trigger] collapse_rec(s, sepc, in_sep)[i],
            ) || collapse_rec(s, sepc, in_sep)[i] == sepc),
    decreases s.len(),
{
    let out = collapse_rec(s, sepc, in_sep);
    if s.len() == 0 {
    } else if is_keep_char(s[0]) {
        lemma_collapse_elements(s.drop_first(), sepc, false);
        let t = collapse_rec(s.drop_first(), sepc, false);
        assert forall|i: int| 0 <= i < out.len() implies (is_keep_char(#[trigger] out[i]) || out[i]
            == sepc) by {
            if i == 0 {
                assert(out[0] == s[0]);
            } else {
                assert(out[i] == t[i - 1]);
                assert(is_keep_char(t[i - 1]) || t[i - 1] == sepc);
            }
        }
    } else if in_sep {
        lemma_collapse_elements(s.drop_first(), sepc, true);
        let t = collapse_rec(s.drop_first(), sepc, true);
        assert forall|i: int| 0 <= i < out.len() implies (is_keep_char(#[trigger] out[i]) || out[i]
            == sepc) by {
            assert(out[i] == t[i]);
            assert(is_keep_char(t[i]) || t[i] == sepc);
        }
    } else {
        lemma_collapse_elements(s.drop_first(), sepc, true);
        let t = collapse_rec(s.drop_first(), sepc, true);
        assert forall|i: int| 0 <= i < out.len() implies (is_keep_char(#[trigger] out[i]) || out[i]
            == sepc) by {
            if i == 0 {
                assert(out[0] == sepc);
            } else {
                assert(out[i] == t[i - 1]);
                assert(is_keep_char(t[i - 1]) || t[i - 1] == sepc);
            }
        }
    }
}

/// What the default configuration produces is itself a well-formed lowercase
/// slug.
pub proof fn lemma_default_output_is_slug(t: Seq<char>)
    ensures
        is_lower_plain_slug(
            apply_case(
                slug_truncated(t, Seq::<char>::empty(), seq!['-'], Option::None),
                Case::Lower,
            ),
        ),
{
    let sep = seq!['-'];
    let c = sep_char(sep);
    assert(c == '-');
    let worded = apply_stop_words(
        replace_all(trim_edges(trim_edges(t, true, c), false, c), seq![' '], sep),
        split_commas(Seq::<char>::empty()),
        sep,
    );
    let core = slug_truncated(t, Seq::<char>::empty(), sep, Option::None);
    assert(core == filter_collapse(worded, c));
    lemma_collapse_elements(worded, c, true);
    let scanned = collapse_rec(worded, c, true);
    assert forall|i: int| 0 <= i < core.len() implies (is_keep_char(#[trigger] core[i]) || core[i]
        == c) by {
        assert(core[i] == scanned[i]);
    }
    lemma_no_double_separator(t, Seq::<char>::empty(), sep, Option::None, Case::Lower);
    lemma_no_edge_separator(t, Seq::<char>::empty(), sep, Option::None, Case::Lower);
    lemma_case_contract(core);
    let out = apply_case(core, Case::Lower);
    assert forall|i: int| 0 <= i < out.len() implies (is_keep_char(#[trigger] out[i]) || out[i]
        == c) by {
        assert(out[i] == lower_char(core[i]));
        if is_upper_char(core[i]) {
            assert(is_lower_char(lower_char(core[i])));
        }
    }
}

/// Idempotence under the default configuration: running the transform on its
/// own output changes nothing.
pub proof fn lemma_default_idempotent(t: Seq<char>)
    ensures
        apply_case(
            slug_truncated(
                apply_case(
                    slug_truncated(t, Seq::<char>::empty(), seq!['-'], Option::None),
                    Case::Lower,
                ),
                Seq::<char>::empty(),
                seq!['-'],
                Option::None,
            ),
            Case::Lower,
        ) == apply_case(
            slug_truncated(t, Seq::<char>::empty(), seq!['-'], Option::None),
            Case::Lower,
        ),
{
    lemma_default_output_is_slug(t);
    lemma_slug_fixed_point(
        apply_case(slug_truncated(t, Seq::<char>::empty(), seq!['-'], Option::None), Case::Lower),
    );
}

} // verus!
