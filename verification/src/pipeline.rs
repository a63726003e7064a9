//! The slug pipeline itself: edge trimming, space substitution, stop-word
//! removal, character filtering with separator collapsing, and truncation.
//! Every stage is a spec function over character sequences, with an
//! executable counterpart proved equal to it.

use vstd::prelude::*;
use vstd::string::StrSliceExecFns;

use crate::ascii::{is_keep_char, is_space_char, to_lower_seq, to_lower_vec};

verus! {

/// The character a stage trims or collapses with: the separator's first
/// character, or a space when the separator is empty.
pub open spec fn sep_char(sep: Seq<char>) -> char {
    if sep.len() > 0 {
        sep[0]
    } else {
        ' '
    }
}

/// What the edge-trimming stages remove: whitespace when `ws` is set,
/// otherwise the character `c` itself.
pub open spec fn trim_match(ws: bool, c: char, x: char) -> bool {
    if ws {
        is_space_char(x)
    } else {
        x == c
    }
}

/// Removes every leading character that `trim_match` accepts.
pub open spec fn trim_start_rec(s: Seq<char>, ws: bool, c: char) -> Seq<char>
    decreases s.len(),
{
    if s.len() > 0 && trim_match(ws, c, s[0]) {
        trim_start_rec(s.drop_first(), ws, c)
    } else {
        s
    }
}

/// Removes every trailing character that `trim_match` accepts.
pub open spec fn trim_end_rec(s: Seq<char>, ws: bool, c: char) -> Seq<char>
    decreases s.len(),
{
    if s.len() > 0 && trim_match(ws, c, s.last()) {
        trim_end_rec(s.drop_last(), ws, c)
    } else {
        s
    }
}

/// Removes the accepted characters from both edges.
pub open spec fn trim_edges(s: Seq<char>, ws: bool, c: char) -> Seq<char> {
    trim_end_rec(trim_start_rec(s, ws, c), ws, c)
}

fn is_space_exec(x: char) -> (r: bool)
    ensures
        r == is_space_char(x),
{
    x == ' ' || x == '\t' || x == '\n' || x == '\r' || x == '\u{b}' || x == '\u{c}'
}

fn trim_match_exec(ws: bool, c: char, x: char) -> (r: bool)
    ensures
        r == trim_match(ws, c, x),
{
    if ws {
        is_space_exec(x)
    } else {
        x == c
    }
}

pub fn is_keep_exec(x: char) -> (r: bool)
    ensures
        r == is_keep_char(x),
{
    (x >= 'A' && x <= 'Z') || (x >= 'a' && x <= 'z') || (x >= '0' && x <= '9')
}

/// Copies `v[from..to]`.
pub fn subvec(v: &Vec<char>, from: usize, to: usize) -> (r: Vec<char>)
    requires
        from <= to <= v@.len(),
    ensures
        r@ == v@.subrange(from as int, to as int),
{
    let mut r: Vec<char> = Vec::new();
    let mut k: usize = from;
    while k < to
        invariant
            from <= k <= to <= v@.len(),
            r@ == v@.subrange(from as int, k as int),
        decreases to - k,
    {
        r.push(v[k]);
        proof {
            assert(r@ =~= v@.subrange(from as int, k as int + 1));
        }
        k = k + 1;
    }
    r
}

pub fn trim_vec(v: &Vec<char>, ws: bool, c: char) -> (r: Vec<char>)
    ensures
        r@ == trim_edges(v@, ws, c),
{
    proof {
        assert(v@.skip(0) =~= v@);
    }
    let mut lo: usize = 0;
    let mut go = lo < v.len() && trim_match_exec(ws, c, v[lo]);
    while go
        invariant
            lo <= v.len(),
            go == (lo < v@.len() && trim_match(ws, c, v@[lo as int])),
            trim_start_rec(v@, ws, c) == trim_start_rec(v@.skip(lo as int), ws, c),
        decreases v@.len() - lo,
    {
        proof {
            assert(v@.skip(lo as int)[0] == v@[lo as int]);
            assert(v@.skip(lo as int).drop_first() =~= v@.skip(lo as int + 1));
        }
        lo = lo + 1;
        go = lo < v.len() && trim_match_exec(ws, c, v[lo]);
    }
    proof {
        if lo < v@.len() {
            assert(v@.skip(lo as int)[0] == v@[lo as int]);
        }
        assert(trim_start_rec(v@.skip(lo as int), ws, c) == v@.skip(lo as int));
        assert(v@.skip(lo as int) =~= v@.subrange(lo as int, v@.len() as int));
    }
    let mut hi: usize = v.len();
    let mut shrink = hi > lo && trim_match_exec(ws, c, v[hi - 1]);
    while shrink
        invariant
            lo <= hi <= v.len(),
            shrink == (hi > lo && trim_match(ws, c, v@[hi - 1])),
            trim_end_rec(v@.skip(lo as int), ws, c) == trim_end_rec(
                v@.subrange(lo as int, hi as int),
                ws,
                c,
            ),
        decreases hi,
    {
        proof {
            assert(v@.subrange(lo as int, hi as int).last() == v@[hi - 1]);
            assert(v@.subrange(lo as int, hi as int).drop_last() =~= v@.subrange(
                lo as int,
                hi as int - 1,
            ));
        }
        hi = hi - 1;
        shrink = hi > lo && trim_match_exec(ws, c, v[hi - 1]);
    }
    proof {
        if hi > lo {
            assert(v@.subrange(lo as int, hi as int).last() == v@[hi - 1]);
        }
        assert(trim_end_rec(v@.subrange(lo as int, hi as int), ws, c) == v@.subrange(
            lo as int,
            hi as int,
        ));
    }
    subvec(v, lo, hi)
}

/// Replaces each non-overlapping occurrence of `pat` in `s` with `rep`,
/// scanning from the left, as `str::replace` does. With an empty `pat` it
/// leaves `s` unchanged.
pub open spec fn replace_all(s: Seq<char>, pat: Seq<char>, rep: Seq<char>) -> Seq<char>
    decreases s.len(),
{
    if s.len() == 0 {
        Seq::empty()
    } else if 0 < pat.len() <= s.len() && s.take(pat.len() as int) == pat {
        rep + replace_all(s.skip(pat.len() as int), pat, rep)
    } else {
        seq![s[0]] + replace_all(s.drop_first(), pat, rep)
    }
}

/// Whether `pat` occurs in `s` at position `i`.
fn match_at(s: &Vec<char>, pat: &Vec<char>, i: usize) -> (r: bool)
    requires
        i <= s@.len(),
    ensures
        r == (i + pat@.len() <= s@.len() && s@.subrange(i as int, i as int + pat@.len()) == pat@),
{
    if pat.len() > s.len() - i {
        return false;
    }
    let mut j: usize = 0;
    while j < pat.len()
        invariant
            j <= pat.len(),
            i + pat.len() <= s.len(),
            forall|k: int| 0 <= k < j ==> s@[i + k] == pat@[k],
        decreases pat@.len() - j,
    {
        if s[i + j] != pat[j] {
            proof {
                assert(s@.subrange(i as int, i as int + pat@.len())[j as int] != pat@[j as int]);
            }
            return false;
        }
        j = j + 1;
    }
    proof {
        assert(s@.subrange(i as int, i as int + pat@.len()) =~= pat@);
    }
    true
}

pub(crate) fn push_all(out: &mut Vec<char>, xs: &Vec<char>)
    ensures
        final(out)@ == old(out)@ + xs@,
{
    let mut j: usize = 0;
    while j < xs.len()
        invariant
            j <= xs@.len(),
            out@ == old(out)@ + xs@.take(j as int),
        decreases xs@.len() - j,
    {
        out.push(xs[j]);
        proof {
            assert(old(out)@ + xs@.take(j as int + 1) =~= (old(out)@ + xs@.take(j as int)).push(
                xs@[j as int],
            ));
        }
        j = j + 1;
    }
    proof {
        assert(old(out)@ + xs@.take(xs@.len() as int) =~= old(out)@ + xs@);
    }
}

pub fn replace_vec(s: &Vec<char>, pat: &Vec<char>, rep: &Vec<char>) -> (r: Vec<char>)
    requires
        pat@.len() >= 1,
    ensures
        r@ == replace_all(s@, pat@, rep@),
{
    proof {
        assert(s@.skip(0) =~= s@);
        assert(Seq::<char>::empty() + replace_all(s@, pat@, rep@) =~= replace_all(s@, pat@, rep@));
    }
    let mut out: Vec<char> = Vec::new();
    let mut i: usize = 0;
    while i < s.len()
        invariant
            i <= s.len(),
            pat@.len() >= 1,
            replace_all(s@, pat@, rep@) == out@ + replace_all(s@.skip(i as int), pat@, rep@),
        decreases s@.len() - i,
    {
        let ghost tail = s@.skip(i as int);
        let ghost prev = out@;
        if match_at(s, pat, i) {
            proof {
                assert(tail.take(pat@.len() as int) =~= s@.subrange(
                    i as int,
                    i as int + pat@.len(),
                ));
                assert(tail.skip(pat@.len() as int) =~= s@.skip(i as int + pat@.len()));
                assert(replace_all(tail, pat@, rep@) == rep@ + replace_all(
                    s@.skip(i as int + pat@.len()),
                    pat@,
                    rep@,
                ));
            }
            push_all(&mut out, rep);
            proof {
                assert(prev + (rep@ + replace_all(s@.skip(i as int + pat@.len()), pat@, rep@))
                    =~= out@ + replace_all(s@.skip(i as int + pat@.len()), pat@, rep@));
            }
            i = i + pat.len();
        } else {
            proof {
                if i + pat@.len() <= s@.len() {
                    assert(tail.take(pat@.len() as int) =~= s@.subrange(
                        i as int,
                        i as int + pat@.len(),
                    ));
                }
                assert(tail[0] == s@[i as int]);
                assert(tail.drop_first() =~= s@.skip(i as int + 1));
                assert(replace_all(tail, pat@, rep@) == seq![s@[i as int]] + replace_all(
                    s@.skip(i as int + 1),
                    pat@,
                    rep@,
                ));
            }
            let x = s[i];
            out.push(x);
            proof {
                assert(prev + (seq![s@[i as int]] + replace_all(s@.skip(i as int + 1), pat@, rep@))
                    =~= out@ + replace_all(s@.skip(i as int + 1), pat@, rep@));
            }
            i = i + 1;
        }
    }
    proof {
        assert(s@.skip(s@.len() as int) =~= Seq::<char>::empty());
        assert(out@ + Seq::<char>::empty() =~= out@);
    }
    out
}

/// Splits a string on commas, as `str::split(',')` does: an empty string
/// yields one empty piece, and every comma separates two pieces.
pub open spec fn split_commas(s: Seq<char>) -> Seq<Seq<char>>
    decreases s.len(),
{
    if s.len() == 0 {
        seq![Seq::<char>::empty()]
    } else if s[0] == ',' {
        seq![Seq::<char>::empty()] + split_commas(s.drop_first())
    } else {
        seq![seq![s[0]] + split_commas(s.drop_first())[0]] + split_commas(s.drop_first()).drop_first()
    }
}

pub proof fn lemma_split_commas_nonempty(s: Seq<char>)
    ensures
        split_commas(s).len() >= 1,
    decreases s.len(),
{
    if s.len() == 0 {
    } else {
        lemma_split_commas_nonempty(s.drop_first());
    }
}

/// Splitting a string whose first comma stands at `i` yields the prefix
/// before it and then the split of what follows it.
pub proof fn lemma_split_at_comma(s: Seq<char>, i: int)
    requires
        0 <= i <= s.len(),
        forall|k: int| 0 <= k < i ==> s[k] != ',',
        i < s.len() ==> s[i] == ',',
    ensures
        i == s.len() ==> split_commas(s) == seq![s],
        i < s.len() ==> split_commas(s) == seq![s.take(i)] + split_commas(s.skip(i + 1)),
    decreases i,
{
    lemma_split_commas_nonempty(s);
    if i == 0 {
        if s.len() == 0 {
            assert(s =~= Seq::<char>::empty());
        } else {
            assert(s.take(0) =~= Seq::<char>::empty());
            assert(s.skip(1) =~= s.drop_first());
        }
    } else {
        let d = s.drop_first();
        assert(forall|k: int| 0 <= k < i - 1 ==> d[k] == s[k + 1] && #[trigger] d[k] != ',');
        lemma_split_at_comma(d, i - 1);
        let rest = split_commas(d);
        if i == s.len() {
            assert(rest == seq![d]);
            assert(seq![s[0]] + d =~= s);
            assert(rest.drop_first() =~= Seq::<Seq<char>>::empty());
            assert(seq![seq![s[0]] + rest[0]] + rest.drop_first() =~= seq![seq![s[0]] + d]);
        } else {
            assert(rest == seq![d.take(i - 1)] + split_commas(d.skip(i)));
            assert(rest[0] == d.take(i - 1));
            assert(seq![s[0]] + d.take(i - 1) =~= s.take(i));
            assert(d.skip(i) =~= s.skip(i + 1));
            assert(rest.drop_first() =~= split_commas(d.skip(i)));
            assert(seq![seq![s[0]] + rest[0]] + rest.drop_first() =~= seq![s.take(i)]
                + split_commas(s.skip(i + 1)));
        }
    }
}

/// The stop-word stage: for each non-empty token, lowercase the working
/// string and replace every occurrence of the token with the separator.
/// Empty tokens are skipped and leave the string, and its case, untouched.
pub open spec fn apply_stop_words(s: Seq<char>, words: Seq<Seq<char>>, sep: Seq<char>) -> Seq<char>
    decreases words.len(),
{
    if words.len() == 0 {
        s
    } else if words[0].len() == 0 {
        apply_stop_words(s, words.drop_first(), sep)
    } else {
        apply_stop_words(replace_all(to_lower_seq(s), words[0], sep), words.drop_first(), sep)
    }
}

pub fn apply_stop_words_vec(s: Vec<char>, stop: &Vec<char>, sep: &Vec<char>) -> (r: Vec<char>)
    ensures
        r@ == apply_stop_words(s@, split_commas(stop@), sep@),
{
    let ghost s0 = s@;
    let mut cur = s;
    let n = stop.len();
    let mut pos: usize = 0;
    let mut done = false;
    proof {
        assert(stop@.skip(0) =~= stop@);
    }
    while !done
        invariant
            n == stop.len(),
            pos <= n,
            !done ==> apply_stop_words(s0, split_commas(stop@), sep@) == apply_stop_words(
                cur@,
                split_commas(stop@.skip(pos as int)),
                sep@,
            ),
            done ==> cur@ == apply_stop_words(s0, split_commas(stop@), sep@),
        decreases n - pos, (if done { 0int } else { 1int }),
    {
        let mut j: usize = pos;
        while j < n && stop[j] != ','
            invariant
                pos <= j <= n,
                n == stop.len(),
                forall|k: int| pos <= k < j ==> stop@[k] != ',',
            decreases n - j,
        {
            j = j + 1;
        }
        let ghost piece = stop@.skip(pos as int);
        let ghost words = split_commas(piece);
        proof {
            assert forall|k: int| 0 <= k < j - pos implies piece[k] != ',' by {
                assert(piece[k] == stop@[pos + k]);
            }
            if j < n {
                assert(piece[j - pos] == stop@[j as int]);
            }
            lemma_split_at_comma(piece, j as int - pos as int);
            assert(piece.take(j as int - pos as int) =~= stop@.subrange(pos as int, j as int));
            if j < n {
                assert(piece.skip(j as int - pos as int + 1) =~= stop@.skip(j + 1));
            }
            if j == n {
                assert(piece =~= stop@.subrange(pos as int, j as int));
            }
        }
        let ghost before = cur@;
        if j > pos {
            let lowered = to_lower_vec(&cur);
            let token = subvec(stop, pos, j);
            cur = replace_vec(&lowered, &token, sep);
        }
        if j < n {
            proof {
                assert(words == seq![stop@.subrange(pos as int, j as int)] + split_commas(
                    stop@.skip(j + 1),
                ));
                assert(words[0] == stop@.subrange(pos as int, j as int));
                assert(words.drop_first() =~= split_commas(stop@.skip(j + 1)));
                if j > pos {
                    assert(cur@ == replace_all(to_lower_seq(before), words[0], sep@));
                } else {
                    assert(words[0].len() == 0);
                }
                assert(apply_stop_words(before, words, sep@) == apply_stop_words(
                    cur@,
                    split_commas(stop@.skip(j + 1)),
                    sep@,
                ));
            }
            pos = j + 1;
        } else {
            proof {
                assert(words == seq![stop@.subrange(pos as int, j as int)]);
                assert(words[0] == stop@.subrange(pos as int, j as int));
                assert(words.drop_first() =~= Seq::<Seq<char>>::empty());
                if j > pos {
                    assert(cur@ == replace_all(to_lower_seq(before), words[0], sep@));
                } else {
                    assert(words[0].len() == 0);
                }
                assert(apply_stop_words(before, words, sep@) == apply_stop_words(
                    cur@,
                    Seq::<Seq<char>>::empty(),
                    sep@,
                ));
            }
            done = true;
        }
    }
    cur
}

/// The filtering stage's scan: letters and digits are kept; every maximal run
/// of other characters becomes one `sepc`, except a leading run, which is
/// dropped. `in_sep` starts true so that leading boundaries vanish.
pub open spec fn collapse_rec(s: Seq<char>, sepc: char, in_sep: bool) -> Seq<char>
    decreases s.len(),
{
    if s.len() == 0 {
        Seq::empty()
    } else if is_keep_char(s[0]) {
        seq![s[0]] + collapse_rec(s.drop_first(), sepc, false)
    } else if in_sep {
        collapse_rec(s.drop_first(), sepc, true)
    } else {
        seq![sepc] + collapse_rec(s.drop_first(), sepc, true)
    }
}

/// Removes the single trailing separator the scan may have left.
pub open spec fn drop_trailing_sep(s: Seq<char>, sepc: char) -> Seq<char> {
    if s.len() > 0 && s.last() == sepc {
        s.drop_last()
    } else {
        s
    }
}

/// The whole filtering stage: scan, then drop a trailing separator.
pub open spec fn filter_collapse(s: Seq<char>, sepc: char) -> Seq<char> {
    drop_trailing_sep(collapse_rec(s, sepc, true), sepc)
}

pub fn collapse_vec(s: &Vec<char>, sepc: char) -> (r: Vec<char>)
    ensures
        r@ == filter_collapse(s@, sepc),
{
    let mut out: Vec<char> = Vec::new();
    let mut in_sep = true;
    let mut i: usize = 0;
    proof {
        assert(s@.skip(0) =~= s@);
        assert(Seq::<char>::empty() + collapse_rec(s@, sepc, true) =~= collapse_rec(
            s@,
            sepc,
            true,
        ));
    }
    while i < s.len()
        invariant
            i <= s.len(),
            collapse_rec(s@, sepc, true) == out@ + collapse_rec(s@.skip(i as int), sepc, in_sep),
        decreases s@.len() - i,
    {
        let ghost tail = s@.skip(i as int);
        let ghost prev = out@;
        proof {
            assert(tail[0] == s@[i as int]);
            assert(tail.drop_first() =~= s@.skip(i as int + 1));
        }
        let x = s[i];
        if is_keep_exec(x) {
            out.push(x);
            in_sep = false;
            proof {
                assert(prev + (seq![s@[i as int]] + collapse_rec(
                    s@.skip(i as int + 1),
                    sepc,
                    false,
                )) =~= out@ + collapse_rec(s@.skip(i as int + 1), sepc, false));
            }
        } else if !in_sep {
            out.push(sepc);
            in_sep = true;
            proof {
                assert(prev + (seq![sepc] + collapse_rec(s@.skip(i as int + 1), sepc, true)) =~= out@
                    + collapse_rec(s@.skip(i as int + 1), sepc, true));
            }
        }
        i = i + 1;
    }
    proof {
        assert(s@.skip(s@.len() as int) =~= Seq::<char>::empty());
        assert(out@ + Seq::<char>::empty() =~= out@);
    }
    if out.len() > 0 && out[out.len() - 1] == sepc {
        out.pop();
        proof {
            assert(out@ =~= collapse_rec(s@, sepc, true).drop_last());
        }
    }
    out
}

/// The truncation stage: cut to at most `n` characters, then strip every
/// trailing separator character the cut may have exposed.
pub open spec fn truncate_clean(s: Seq<char>, n: int, c: char) -> Seq<char> {
    if n < s.len() {
        trim_end_rec(s.take(n), false, c)
    } else {
        trim_end_rec(s, false, c)
    }
}

pub fn truncate_clean_vec(s: Vec<char>, n: usize, c: char) -> (r: Vec<char>)
    ensures
        r@ == truncate_clean(s@, n as int, c),
{
    let ghost s0 = s@;
    let mut v = s;
    if n < v.len() {
        v.truncate(n);
        proof {
            assert(v@ =~= s0.take(n as int));
        }
    }
    let ghost base = v@;
    while v.len() > 0 && v[v.len() - 1] == c
        invariant
            trim_end_rec(base, false, c) == trim_end_rec(v@, false, c),
        decreases v@.len(),
    {
        let ghost before = v@;
        v.pop();
        proof {
            assert(v@ =~= before.drop_last());
            assert(before.last() == c);
        }
    }
    v
}

/// Copies the characters of a string slice into a vector.
pub fn str_chars(s: &str) -> (v: Vec<char>)
    ensures
        v@ == s@,
{
    let n = s.unicode_len();
    let mut v: Vec<char> = Vec::new();
    let mut i: usize = 0;
    while i < n
        invariant
            i <= n,
            n == s@.len(),
            v@ == s@.take(i as int),
        decreases n - i,
    {
        let c = s.get_char(i);
        v.push(c);
        proof {
            assert(s@.take(i as int + 1) =~= s@.take(i as int).push(s@[i as int]));
        }
        i = i + 1;
    }
    proof {
        assert(s@.take(n as int) =~= s@);
    }
    v
}

/// The slug of a transliterated text, before truncation: trim whitespace and
/// separator characters from the edges, substitute the separator for spaces,
/// remove the stop words, then filter and collapse.
pub open spec fn slug_core(t: Seq<char>, stop: Seq<char>, sep: Seq<char>) -> Seq<char> {
    let c = sep_char(sep);
    let trimmed = trim_edges(trim_edges(t, true, c), false, c);
    let spaced = replace_all(trimmed, seq![' '], sep);
    let worded = apply_stop_words(spaced, split_commas(stop), sep);
    filter_collapse(worded, c)
}

/// The slug after the optional truncation stage.
pub open spec fn slug_truncated(
    t: Seq<char>,
    stop: Seq<char>,
    sep: Seq<char>,
    max_length: Option<usize>,
) -> Seq<char> {
    match max_length {
        Option::None => slug_core(t, stop, sep),
        Option::Some(n) => truncate_clean(slug_core(t, stop, sep), n as int, sep_char(sep)),
    }
}

} // verus!
