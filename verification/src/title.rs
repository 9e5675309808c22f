//! Title normalization for the search path: dashes are spaced out, runs of
//! whitespace collapse to single spaces, and trailing season markers (CJK
//! counters, "Season N", ordinal seasons, roman numerals II-X, a trailing
//! parenthesized year) are stripped, whether they stand as words of their
//! own or are written with no space before them, as Japanese titles
//! usually are. Normalization is idempotent, which
//! `lemma_normalize_idempotent` proves.

use vstd::prelude::*;
use vstd::string::StrSliceExecFns;
use crate::text::{all_digits, is_digit, is_space, str_to_chars, chars_to_string};

verus! {

/// A word character: anything that is neither whitespace nor a dash. Dashes
/// always form their own one-character token.
pub open spec fn is_word_char(c: char) -> bool {
    !is_space(c) && c != '-'
}

/// The maximal run of word characters at the front of `s`.
pub open spec fn take_word(s: Seq<char>) -> Seq<char>
    decreases s.len(),
{
    if s.len() == 0 || !is_word_char(s[0]) {
        Seq::empty()
    } else {
        seq![s[0]] + take_word(s.skip(1))
    }
}

pub proof fn lemma_take_word(s: Seq<char>)
    ensures
        take_word(s).len() <= s.len(),
        forall|i: int| 0 <= i < take_word(s).len() ==> take_word(s)[i] == s[i] && is_word_char(
            #[trigger] s[i],
        ),
        take_word(s).len() < s.len() ==> !is_word_char(s[take_word(s).len() as int]),
        s.len() > 0 && is_word_char(s[0]) ==> take_word(s).len() >= 1,
    decreases s.len(),
{
    if s.len() > 0 && is_word_char(s[0]) {
        lemma_take_word(s.skip(1));
        let w = take_word(s);
        assert forall|i: int| 0 <= i < w.len() implies w[i] == s[i] && is_word_char(s[i]) by {
            if i > 0 {
                assert(take_word(s.skip(1))[i - 1] == s.skip(1)[i - 1]);
            }
        }
    }
}

/// The tokens of `s`: maximal runs of word characters, plus a one-character
/// token for every dash; whitespace only separates.
pub open spec fn tokenize(s: Seq<char>) -> Seq<Seq<char>>
    decreases s.len(),
    via tokenize_dec
{
    if s.len() == 0 {
        Seq::empty()
    } else if is_space(s[0]) {
        tokenize(s.skip(1))
    } else if s[0] == '-' {
        seq![seq!['-']] + tokenize(s.skip(1))
    } else {
        seq![take_word(s)] + tokenize(s.skip(take_word(s).len() as int))
    }
}

#[via_fn]
proof fn tokenize_dec(s: Seq<char>) {
    if s.len() > 0 && !is_space(s[0]) && s[0] != '-' {
        lemma_take_word(s);
    }
}

/// Tokens joined with single spaces.
pub open spec fn join_sp(ts: Seq<Seq<char>>) -> Seq<char>
    decreases ts.len(),
{
    if ts.len() == 0 {
        Seq::empty()
    } else if ts.len() == 1 {
        ts[0]
    } else {
        join_sp(ts.drop_last()) + seq![' '] + ts.last()
    }
}

/// Shape of every token list a tokenizer can produce: tokens are non-empty,
/// and each is either a lone dash or a run of word characters.
pub open spec fn canonical_token(t: Seq<char>) -> bool {
    t.len() > 0 && (t == seq!['-'] || forall|i: int| 0 <= i < t.len() ==> is_word_char(
        #[trigger] t[i],
    ))
}

pub open spec fn canonical(ts: Seq<Seq<char>>) -> bool {
    forall|k: int| 0 <= k < ts.len() ==> canonical_token(#[trigger] ts[k])
}

/// ASCII letters folded to lower case; everything else unchanged.
pub open spec fn lower_ascii(c: char) -> char {
    if 65 <= c as u32 <= 90 {
        ((c as u32 + 32) as u8) as char
    } else {
        c
    }
}

pub open spec fn eq_ignore_ascii_case(a: Seq<char>, b: Seq<char>) -> bool {
    a.len() == b.len() && forall|i: int| 0 <= i < a.len() ==> lower_ascii(#[trigger] a[i])
        == lower_ascii(b[i])
}

/// Roman numerals two through ten occupy one contiguous code-point range.
pub open spec fn is_roman_char(c: char) -> bool {
    0x2161 <= c as u32 <= 0x2169
}

pub open spec fn is_roman_token(t: Seq<char>) -> bool {
    t.len() > 0 && forall|i: int| 0 <= i < t.len() ==> is_roman_char(#[trigger] t[i])
}

/// A parenthesized four-digit year, `(NNNN)`.
pub open spec fn is_year_token(t: Seq<char>) -> bool {
    t.len() == 6 && t[0] == '(' && t[5] == ')' && all_digits(t.subrange(1, 5))
}

/// The CJK season counter `第N期`.
pub open spec fn is_cjk_season_token(t: Seq<char>) -> bool {
    t.len() >= 3 && t[0] == '第' && t.last() == '期' && all_digits(t.subrange(1, t.len() - 1))
}

/// The CJK cour counter `第Nクール`.
pub open spec fn is_cjk_cour_token(t: Seq<char>) -> bool {
    t.len() >= 5 && t[0] == '第' && t.subrange(t.len() - 3, t.len() as int) =~= seq![
        'ク',
        'ー',
        'ル',
    ] && all_digits(t.subrange(1, t.len() - 3))
}

/// The word "season", any ASCII case.
pub open spec fn is_season_word(t: Seq<char>) -> bool {
    eq_ignore_ascii_case(t, "season"@)
}

/// "season" immediately followed by digits, as one token ("Season2").
pub open spec fn is_season_num_token(t: Seq<char>) -> bool {
    t.len() > 6 && is_season_word(t.take(6)) && all_digits(t.skip(6))
}

/// An English ordinal: digits followed by st, nd, rd or th.
pub open spec fn is_ordinal_token(t: Seq<char>) -> bool {
    t.len() >= 3 && all_digits(t.take(t.len() - 2)) && {
        let suf = seq![lower_ascii(t[t.len() - 2]), lower_ascii(t[t.len() - 1])];
        suf =~= "st"@ || suf =~= "nd"@ || suf =~= "rd"@ || suf =~= "th"@
    }
}

/// An ordinal immediately followed by "season", as one token ("2ndSeason").
pub open spec fn is_ordinal_season_token(t: Seq<char>) -> bool {
    t.len() > 6 && is_season_word(t.skip(t.len() - 6)) && is_ordinal_token(t.take(t.len() - 6))
}

/// A whole token that is a season marker on its own.
pub open spec fn is_single_marker(t: Seq<char>) -> bool {
    is_roman_token(t) || is_year_token(t) || is_cjk_season_token(t) || is_cjk_cour_token(t)
        || is_season_num_token(t) || is_ordinal_season_token(t)
}

/// Two adjacent tokens that form a season marker: "Season N" or "Nth Season".
pub open spec fn is_pair_marker(a: Seq<char>, b: Seq<char>) -> bool {
    (is_season_word(a) && b.len() > 0 && all_digits(b)) || (is_ordinal_token(a) && is_season_word(
        b,
    ))
}

/// Length of the longest suffix of `t`, no longer than `k` and shorter
/// than `t` itself, that is a season marker on its own; 0 when none is.
pub open spec fn longest_marker_suffix_upto(t: Seq<char>, k: int) -> int
    decreases k,
{
    if k <= 0 {
        0
    } else if k < t.len() && is_single_marker(t.skip(t.len() - k)) {
        k
    } else {
        longest_marker_suffix_upto(t, k - 1)
    }
}

/// Length of the longest proper suffix of `t` that is a season marker on
/// its own ("第2期" at the end of "Title第2期"); 0 when there is none.
pub open spec fn marker_suffix(t: Seq<char>) -> int {
    longest_marker_suffix_upto(t, t.len() - 1)
}

pub proof fn lemma_marker_suffix_upto(t: Seq<char>, k: int)
    ensures
        0 <= longest_marker_suffix_upto(t, k) <= (if k <= 0 {
            0int
        } else {
            k
        }),
        longest_marker_suffix_upto(t, k) == 0 || longest_marker_suffix_upto(t, k) < t.len(),
        longest_marker_suffix_upto(t, k) > 0 ==> is_single_marker(
            t.skip(t.len() - longest_marker_suffix_upto(t, k)),
        ),
        forall|j: int|
            longest_marker_suffix_upto(t, k) < j <= k && 0 < j < t.len() ==> !is_single_marker(
                #[trigger] t.skip(t.len() - j),
            ),
    decreases k,
{
    if k > 0 {
        lemma_marker_suffix_upto(t, k - 1);
    }
}

/// Length of the longest suffix of `t`, no longer than `k` and shorter
/// than `t` itself, that is an English ordinal; 0 when none is.
pub open spec fn longest_ord_suffix_upto(t: Seq<char>, k: int) -> int
    decreases k,
{
    if k <= 0 {
        0
    } else if k < t.len() && is_ordinal_token(t.skip(t.len() - k)) {
        k
    } else {
        longest_ord_suffix_upto(t, k - 1)
    }
}

/// Length of the longest proper suffix of `t` that is an English ordinal
/// ("2nd" at the end of "Title2nd"); 0 when there is none.
pub open spec fn ord_suffix(t: Seq<char>) -> int {
    longest_ord_suffix_upto(t, t.len() - 1)
}

pub proof fn lemma_ord_suffix_upto(t: Seq<char>, k: int)
    ensures
        0 <= longest_ord_suffix_upto(t, k) <= (if k <= 0 {
            0int
        } else {
            k
        }),
        longest_ord_suffix_upto(t, k) == 0 || longest_ord_suffix_upto(t, k) < t.len(),
        longest_ord_suffix_upto(t, k) > 0 ==> is_ordinal_token(
            t.skip(t.len() - longest_ord_suffix_upto(t, k)),
        ),
        forall|j: int|
            longest_ord_suffix_upto(t, k) < j <= k && 0 < j < t.len() ==> !is_ordinal_token(
                #[trigger] t.skip(t.len() - j),
            ),
    decreases k,
{
    if k > 0 {
        lemma_ord_suffix_upto(t, k - 1);
    }
}

/// A two-token season marker whose first half is glued to the end of the
/// preceding word: "TitleSeason 1" or "Title2nd Season".
pub open spec fn is_glued_pair(a: Seq<char>, b: Seq<char>) -> bool {
    (a.len() > 6 && is_season_word(a.skip(a.len() - 6)) && b.len() > 0 && all_digits(b)) || (
    ord_suffix(a) > 0 && is_season_word(b))
}

/// What is left of the word the glued marker half was attached to.
pub open spec fn glued_pair_prefix(a: Seq<char>, b: Seq<char>) -> Seq<char> {
    if a.len() > 6 && is_season_word(a.skip(a.len() - 6)) && b.len() > 0 && all_digits(b) {
        a.take(a.len() - 6)
    } else {
        a.take(a.len() - ord_suffix(a))
    }
}

/// Drops season markers and dashes from the end of the token list until
/// none remains: whole marker tokens and lone dashes go first, then the
/// two-token "Season N" / "Nth Season" forms, also when their first half
/// is glued to the preceding word, and finally a marker glued to the end
/// of the last word is cut off it.
pub open spec fn strip_tokens(ts: Seq<Seq<char>>) -> Seq<Seq<char>>
    decreases ts.len(), (if ts.len() > 0 {
        ts.last().len() as int
    } else {
        0int
    }),
    via strip_tokens_dec
{
    if ts.len() == 0 {
        ts
    } else if is_single_marker(ts.last()) || ts.last() =~= seq!['-'] {
        strip_tokens(ts.drop_last())
    } else if ts.len() >= 2 && is_pair_marker(ts[ts.len() - 2], ts.last()) {
        strip_tokens(ts.take(ts.len() - 2))
    } else if ts.len() >= 2 && is_glued_pair(ts[ts.len() - 2], ts.last()) {
        strip_tokens(
            ts.take(ts.len() - 2).push(glued_pair_prefix(ts[ts.len() - 2], ts.last())),
        )
    } else if marker_suffix(ts.last()) > 0 {
        strip_tokens(
            ts.update(ts.len() - 1, ts.last().take(ts.last().len() - marker_suffix(ts.last()))),
        )
    } else {
        ts
    }
}

#[via_fn]
proof fn strip_tokens_dec(ts: Seq<Seq<char>>) {
    if ts.len() > 0 {
        lemma_marker_suffix_upto(ts.last(), ts.last().len() - 1);
        if ts.len() >= 2 {
            lemma_ord_suffix_upto(ts[ts.len() - 2], ts[ts.len() - 2].len() - 1);
        }
    }
}

/// The normalized title: tokenize, strip trailing markers, rejoin with
/// single spaces.
pub open spec fn normalize_spec(s: Seq<char>) -> Seq<char> {
    join_sp(strip_tokens(tokenize(s)))
}

/// Stripping keeps the token list canonical: cutting a glued marker off a
/// word leaves a non-empty run of word characters.
pub proof fn lemma_strip_canonical(ts: Seq<Seq<char>>)
    requires
        canonical(ts),
    ensures
        canonical(strip_tokens(ts)),
    decreases ts.len(), (if ts.len() > 0 {
        ts.last().len() as int
    } else {
        0int
    }),
{
    if ts.len() == 0 {
    } else if is_single_marker(ts.last()) || ts.last() =~= seq!['-'] {
        assert(canonical(ts.drop_last())) by {
            assert forall|k: int| 0 <= k < ts.drop_last().len() implies canonical_token(
                #[trigger] ts.drop_last()[k],
            ) by {
                assert(ts.drop_last()[k] == ts[k]);
            }
        }
        lemma_strip_canonical(ts.drop_last());
    } else if ts.len() >= 2 && is_pair_marker(ts[ts.len() - 2], ts.last()) {
        assert(canonical(ts.take(ts.len() - 2))) by {
            assert forall|k: int| 0 <= k < ts.len() - 2 implies canonical_token(
                #[trigger] ts.take(ts.len() - 2)[k],
            ) by {
                assert(ts.take(ts.len() - 2)[k] == ts[k]);
            }
        }
        lemma_strip_canonical(ts.take(ts.len() - 2));
    } else if ts.len() >= 2 && is_glued_pair(ts[ts.len() - 2], ts.last()) {
        let a = ts[ts.len() - 2];
        lemma_ord_suffix_upto(a, a.len() - 1);
        let p = glued_pair_prefix(a, ts.last());
        assert(canonical_token(a));
        assert(a != seq!['-']) by {
            if a =~= seq!['-'] {
                assert(ord_suffix(a) == 0);
            }
        }
        assert(forall|i: int| 0 <= i < a.len() ==> is_word_char(#[trigger] a[i]));
        assert(canonical_token(p)) by {
            assert(p.len() > 0);
            assert forall|i: int| 0 <= i < p.len() implies is_word_char(#[trigger] p[i]) by {
                assert(p[i] == a[i]);
            }
        }
        let next = ts.take(ts.len() - 2).push(p);
        assert(canonical(next)) by {
            assert forall|k: int| 0 <= k < next.len() implies canonical_token(
                #[trigger] next[k],
            ) by {
                if k < ts.len() - 2 {
                    assert(next[k] == ts[k]);
                }
            }
        }
        lemma_strip_canonical(next);
    } else if marker_suffix(ts.last()) > 0 {
        let t = ts.last();
        lemma_marker_suffix_upto(t, t.len() - 1);
        let ms = marker_suffix(t);
        let nt = t.take(t.len() - ms);
        assert(canonical_token(t));
        assert(forall|i: int| 0 <= i < t.len() ==> is_word_char(#[trigger] t[i]));
        assert(canonical_token(nt)) by {
            assert(nt.len() > 0);
            assert forall|i: int| 0 <= i < nt.len() implies is_word_char(#[trigger] nt[i]) by {
                assert(nt[i] == t[i]);
            }
        }
        let next = ts.update(ts.len() - 1, nt);
        assert(canonical(next)) by {
            assert forall|k: int| 0 <= k < next.len() implies canonical_token(
                #[trigger] next[k],
            ) by {
                if k < ts.len() - 1 {
                    assert(next[k] == ts[k]);
                }
            }
        }
        assert(next.last() == nt);
        lemma_strip_canonical(next);
    }
}

/// Stripping is a fixed point: a second pass removes nothing.
pub proof fn lemma_strip_fixpoint(ts: Seq<Seq<char>>)
    ensures
        strip_tokens(strip_tokens(ts)) == strip_tokens(ts),
    decreases ts.len(), (if ts.len() > 0 {
        ts.last().len() as int
    } else {
        0int
    }),
{
    if ts.len() == 0 {
    } else if is_single_marker(ts.last()) || ts.last() =~= seq!['-'] {
        lemma_strip_fixpoint(ts.drop_last());
    } else if ts.len() >= 2 && is_pair_marker(ts[ts.len() - 2], ts.last()) {
        lemma_strip_fixpoint(ts.take(ts.len() - 2));
    } else if ts.len() >= 2 && is_glued_pair(ts[ts.len() - 2], ts.last()) {
        lemma_ord_suffix_upto(ts[ts.len() - 2], ts[ts.len() - 2].len() - 1);
        lemma_strip_fixpoint(
            ts.take(ts.len() - 2).push(glued_pair_prefix(ts[ts.len() - 2], ts.last())),
        );
    } else if marker_suffix(ts.last()) > 0 {
        lemma_marker_suffix_upto(ts.last(), ts.last().len() - 1);
        lemma_strip_fixpoint(
            ts.update(ts.len() - 1, ts.last().take(ts.last().len() - marker_suffix(ts.last()))),
        );
    }
}

pub proof fn lemma_tokenize_canonical(s: Seq<char>)
    ensures
        canonical(tokenize(s)),
    decreases s.len(),
{
    if s.len() == 0 {
    } else if is_space(s[0]) {
        lemma_tokenize_canonical(s.skip(1));
    } else if s[0] == '-' {
        lemma_tokenize_canonical(s.skip(1));
        let ts = tokenize(s);
        assert forall|k: int| 0 <= k < ts.len() implies canonical_token(ts[k]) by {
            if k == 0 {
                assert(ts[0] =~= seq!['-']);
            } else {
                assert(ts[k] == tokenize(s.skip(1))[k - 1]);
            }
        }
    } else {
        lemma_take_word(s);
        let w = take_word(s);
        lemma_tokenize_canonical(s.skip(w.len() as int));
        let ts = tokenize(s);
        assert forall|k: int| 0 <= k < ts.len() implies canonical_token(ts[k]) by {
            if k == 0 {
                assert(ts[0] == w);
                assert(w.len() >= 1);
                assert forall|i: int| 0 <= i < w.len() implies is_word_char(#[trigger] w[i]) by {
                    assert(take_word(s)[i] == s[i] && is_word_char(s[i]));
                }
            } else {
                assert(ts[k] == tokenize(s.skip(w.len() as int))[k - 1]);
            }
        }
    }
}

pub proof fn lemma_take_word_all(w: Seq<char>)
    requires
        forall|i: int| 0 <= i < w.len() ==> is_word_char(#[trigger] w[i]),
    ensures
        take_word(w) == w,
    decreases w.len(),
{
    if w.len() > 0 {
        lemma_take_word_all(w.skip(1));
        assert(seq![w[0]] + w.skip(1) =~= w);
    }
}

pub proof fn lemma_take_word_stop(w: Seq<char>, rest: Seq<char>)
    requires
        forall|i: int| 0 <= i < w.len() ==> is_word_char(#[trigger] w[i]),
        rest.len() > 0,
        !is_word_char(rest[0]),
    ensures
        take_word(w + rest) == w,
    decreases w.len(),
{
    let s = w + rest;
    if w.len() == 0 {
        assert(s =~= rest);
        assert(take_word(s) =~= Seq::<char>::empty());
    } else {
        assert(s[0] == w[0]);
        assert(s.skip(1) =~= w.skip(1) + rest);
        lemma_take_word_stop(w.skip(1), rest);
        assert(take_word(s) =~= seq![w[0]] + w.skip(1));
        assert(seq![w[0]] + w.skip(1) =~= w);
    }
}

pub proof fn lemma_join_head(ts: Seq<Seq<char>>)
    requires
        ts.len() >= 2,
    ensures
        join_sp(ts) == ts[0] + seq![' '] + join_sp(ts.skip(1)),
    decreases ts.len(),
{
    if ts.len() == 2 {
        assert(ts.drop_last() =~= seq![ts[0]]);
        assert(join_sp(ts.drop_last()) == ts[0]);
        assert(join_sp(ts.skip(1)) == ts[1]) by {
            assert(ts.skip(1) =~= seq![ts[1]]);
        }
    } else {
        lemma_join_head(ts.drop_last());
        assert(ts.drop_last()[0] == ts[0]);
        assert(ts.drop_last().skip(1) =~= ts.skip(1).drop_last());
        assert(ts.skip(1).len() >= 2);
        assert(join_sp(ts.skip(1)) == join_sp(ts.skip(1).drop_last()) + seq![' '] + ts.skip(
            1,
        ).last());
        assert(ts.skip(1).last() == ts.last());
        assert(join_sp(ts) == join_sp(ts.drop_last()) + seq![' '] + ts.last());
        assert((ts[0] + seq![' '] + join_sp(ts.skip(1).drop_last())) + seq![' '] + ts.last() =~= ts[0]
            + seq![' '] + (join_sp(ts.skip(1).drop_last()) + seq![' '] + ts.last()));
    }
}

/// Retokenizing the spaced join of a canonical token list yields the list
/// back unchanged.
pub proof fn lemma_tokenize_join(ts: Seq<Seq<char>>)
    requires
        canonical(ts),
    ensures
        tokenize(join_sp(ts)) == ts,
    decreases ts.len(),
{
    if ts.len() == 0 {
        assert(tokenize(join_sp(ts)) =~= ts);
    } else if ts.len() == 1 {
        let t = ts[0];
        assert(canonical_token(t));
        assert(join_sp(ts) == t);
        if t =~= seq!['-'] {
            assert(t[0] == '-');
            assert(!is_space(t[0]));
            assert(t.skip(1) =~= Seq::<char>::empty());
            assert(tokenize(Seq::<char>::empty()) =~= Seq::<Seq<char>>::empty());
            assert(tokenize(t) == seq![seq!['-']] + tokenize(t.skip(1)));
            assert(tokenize(t) =~= seq![seq!['-']]);
            assert(tokenize(join_sp(ts)) =~= ts);
        } else {
            assert(is_word_char(t[0]));
            lemma_take_word_all(t);
            assert(t.skip(t.len() as int) =~= Seq::<char>::empty());
            assert(tokenize(Seq::<char>::empty()) =~= Seq::<Seq<char>>::empty());
            assert(tokenize(t) == seq![take_word(t)] + tokenize(t.skip(take_word(t).len() as int)));
            assert(tokenize(t) =~= seq![t]);
            assert(tokenize(join_sp(ts)) =~= ts);
        }
    } else {
        lemma_join_head(ts);
        let s = join_sp(ts);
        let rest = seq![' '] + join_sp(ts.skip(1));
        assert(s =~= ts[0] + rest);
        assert(canonical(ts.skip(1))) by {
            assert forall|k: int| 0 <= k < ts.skip(1).len() implies canonical_token(
                #[trigger] ts.skip(1)[k],
            ) by {
                assert(ts.skip(1)[k] == ts[k + 1]);
            }
        }
        lemma_tokenize_join(ts.skip(1));
        let t = ts[0];
        assert(canonical_token(t));
        if t =~= seq!['-'] {
            assert(s[0] == '-');
            assert(s.skip(1) =~= rest);
            assert(rest.skip(1) =~= join_sp(ts.skip(1)));
            assert(is_space(rest[0]));
            assert(tokenize(rest) == tokenize(join_sp(ts.skip(1))));
            assert(tokenize(s) =~= seq![seq!['-']] + ts.skip(1));
            assert(seq![seq!['-']] + ts.skip(1) =~= ts);
        } else {
            assert(forall|i: int| 0 <= i < t.len() ==> is_word_char(#[trigger] t[i]));
            assert(!is_word_char(rest[0]));
            lemma_take_word_stop(t, rest);
            assert(take_word(s) == t);
            assert(s[0] == t[0]);
            assert(is_word_char(s[0]));
            assert(s.skip(t.len() as int) =~= rest);
            assert(rest.skip(1) =~= join_sp(ts.skip(1)));
            assert(is_space(rest[0]));
            assert(tokenize(rest) == tokenize(join_sp(ts.skip(1))));
            assert(tokenize(s) == seq![take_word(s)] + tokenize(s.skip(take_word(s).len() as int)));
            assert(tokenize(s) =~= seq![t] + ts.skip(1));
            assert(seq![t] + ts.skip(1) =~= ts);
        }
    }
}

fn is_space_exec(c: char) -> (r: bool)
    ensures
        r == is_space(c),
{
    let u = c as u32;
    (0x9 <= u && u <= 0xD) || u == 0x20 || u == 0x85 || u == 0xA0 || u == 0x1680 || (0x2000 <= u
        && u <= 0x200A) || u == 0x2028 || u == 0x2029 || u == 0x202F || u == 0x205F || u == 0x3000
}

fn is_word_char_exec(c: char) -> (r: bool)
    ensures
        r == is_word_char(c),
{
    !is_space_exec(c) && c != '-'
}

fn lower_char(c: char) -> (r: char)
    ensures
        r == lower_ascii(c),
{
    let u = c as u32;
    if 65 <= u && u <= 90 {
        ((u + 32) as u8) as char
    } else {
        c
    }
}

/// Whether the characters of `v` in `[from, to)` are all decimal digits.
fn digits_range(v: &Vec<char>, from: usize, to: usize) -> (r: bool)
    requires
        from <= to <= v@.len(),
    ensures
        r == all_digits(v@.subrange(from as int, to as int)),
{
    let ghost sub = v@.subrange(from as int, to as int);
    let mut i: usize = from;
    while i < to
        invariant
            from <= i <= to <= v@.len(),
            sub == v@.subrange(from as int, to as int),
            forall|j: int| 0 <= j < i - from ==> is_digit(#[trigger] sub[j]),
        decreases to - i,
    {
        let u = v[i] as u32;
        if u < 48 || u > 57 {
            assert(sub[i - from] == v@[i as int]);
            return false;
        }
        assert(sub[i - from] == v@[i as int]);
        i += 1;
    }
    true
}

/// Whether `[from, to)` of `v` equals `w` up to ASCII case.
fn eq_ci_range(v: &Vec<char>, from: usize, to: usize, w: &str) -> (r: bool)
    requires
        from <= to <= v@.len(),
    ensures
        r == eq_ignore_ascii_case(v@.subrange(from as int, to as int), w@),
{
    let ghost sub = v@.subrange(from as int, to as int);
    let wn = w.unicode_len();
    if to - from != wn {
        return false;
    }
    let mut i: usize = 0;
    while i < wn
        invariant
            from + wn <= to + wn,
            to - from == wn,
            to <= v@.len(),
            wn == w@.len(),
            i <= wn,
            sub == v@.subrange(from as int, to as int),
            forall|j: int| 0 <= j < i ==> lower_ascii(#[trigger] sub[j]) == lower_ascii(w@[j]),
        decreases wn - i,
    {
        let a = lower_char(v[from + i]);
        let b = lower_char(w.get_char(i));
        assert(sub[i as int] == v@[from + i]);
        if a != b {
            return false;
        }
        i += 1;
    }
    true
}

/// Whether `[from, to)` of `v` is an English ordinal (digits + st/nd/rd/th).
fn is_ordinal_range(v: &Vec<char>, from: usize, to: usize) -> (r: bool)
    requires
        from <= to <= v@.len(),
    ensures
        r == is_ordinal_token(v@.subrange(from as int, to as int)),
{
    proof {
        reveal_strlit("st");
        reveal_strlit("nd");
        reveal_strlit("rd");
        reveal_strlit("th");
    }
    let ghost sub = v@.subrange(from as int, to as int);
    if to - from < 3 {
        return false;
    }
    if !digits_range(v, from, to - 2) {
        assert(sub.take(sub.len() - 2) =~= v@.subrange(from as int, to - 2));
        return false;
    }
    assert(sub.take(sub.len() - 2) =~= v@.subrange(from as int, to - 2));
    let a = lower_char(v[to - 2]);
    let b = lower_char(v[to - 1]);
    assert(sub[sub.len() - 2] == v@[to - 2]);
    assert(sub[sub.len() - 1] == v@[to - 1]);
    let ghost suf = seq![lower_ascii(sub[sub.len() - 2]), lower_ascii(sub[sub.len() - 1])];
    let hit = (a == 's' && b == 't') || (a == 'n' && b == 'd') || (a == 'r' && b == 'd') || (a
        == 't' && b == 'h');
    proof {
        if hit {
            assert(suf =~= "st"@ || suf =~= "nd"@ || suf =~= "rd"@ || suf =~= "th"@);
        } else {
            assert(!(suf =~= "st"@) && !(suf =~= "nd"@) && !(suf =~= "rd"@) && !(suf =~= "th"@));
        }
    }
    hit
}

/// Whether the whole token `v` is a season marker on its own.
fn is_single_marker_exec(v: &Vec<char>) -> (r: bool)
    ensures
        r == is_single_marker(v@),
{
    let n = v.len();
    proof {
        assert(v@.subrange(0, n as int) =~= v@);
    }
    // Roman numerals II-X.
    if n > 0 {
        let mut i: usize = 0;
        let mut all_roman = true;
        while i < n && all_roman
            invariant
                i <= n,
                n == v@.len(),
                all_roman ==> forall|j: int| 0 <= j < i ==> is_roman_char(#[trigger] v@[j]),
                !all_roman ==> !is_roman_token(v@),
            decreases n - i, (if all_roman { 1int } else { 0int }),
        {
            let u = v[i] as u32;
            if u < 0x2161 || u > 0x2169 {
                all_roman = false;
            } else {
                i += 1;
            }
        }
        if all_roman {
            return true;
        }
    }
    // (NNNN)
    if n == 6 && v[0] == '(' && v[5] == ')' && digits_range(v, 1, 5) {
        return true;
    }
    // CJK counters.
    if n >= 3 && v[0] == '第' && v[n - 1] == '期' && digits_range(v, 1, n - 1) {
        return true;
    }
    if n >= 5 && v[0] == '第' && v[n - 3] == 'ク' && v[n - 2] == 'ー' && v[n - 1] == 'ル'
        && digits_range(v, 1, n - 3) {
        assert(v@.subrange(n - 3, n as int) =~= seq!['ク', 'ー', 'ル']);
        return true;
    }
    // "seasonN" as one token.
    if n > 6 && eq_ci_range(v, 0, 6, "season") && digits_range(v, 6, n) {
        assert(v@.take(6) =~= v@.subrange(0, 6));
        assert(v@.skip(6) =~= v@.subrange(6, n as int));
        return true;
    }
    // "2ndseason" as one token.
    if n > 6 && eq_ci_range(v, n - 6, n, "season") && is_ordinal_range(v, 0, n - 6) {
        assert(v@.skip(n - 6) =~= v@.subrange(n - 6, n as int));
        assert(v@.take(n - 6) =~= v@.subrange(0, n - 6));
        return true;
    }
    proof {
        assert(!is_roman_token(v@)) by {
            if n == 0 {
            }
        }
        assert(!is_year_token(v@)) by {
            if n == 6 && v@[0] == '(' && v@[5] == ')' {
                assert(v@.subrange(1, 5) =~= v@.subrange(1, 5));
            }
        }
        assert(!is_cjk_cour_token(v@)) by {
            if n >= 5 && v@[0] == '第' && v@.subrange(n - 3, n as int) =~= seq!['ク', 'ー', 'ル'] {
                assert(v@[n - 3] == 'ク' && v@[n - 2] == 'ー' && v@[n - 1] == 'ル');
            }
        }
        assert(!is_season_num_token(v@)) by {
            if n > 6 {
                assert(v@.take(6) =~= v@.subrange(0, 6));
                assert(v@.skip(6) =~= v@.subrange(6, n as int));
            }
        }
        assert(!is_ordinal_season_token(v@)) by {
            if n > 6 {
                assert(v@.skip(n - 6) =~= v@.subrange(n - 6, n as int));
                assert(v@.take(n - 6) =~= v@.subrange(0, n - 6));
            }
        }
    }
    false
}

/// Whether adjacent tokens `a`, `b` form a two-token season marker.
fn is_pair_marker_exec(a: &Vec<char>, b: &Vec<char>) -> (r: bool)
    ensures
        r == is_pair_marker(a@, b@),
{
    proof {
        assert(a@.subrange(0, a@.len() as int) =~= a@);
        assert(b@.subrange(0, b@.len() as int) =~= b@);
    }
    if eq_ci_range(a, 0, a.len(), "season") && b.len() > 0 && digits_range(b, 0, b.len()) {
        return true;
    }
    if is_ordinal_range(a, 0, a.len()) && eq_ci_range(b, 0, b.len(), "season") {
        return true;
    }
    false
}

/// The characters of `t` from index `from` on.
fn tail_of(t: &Vec<char>, from: usize) -> (r: Vec<char>)
    requires
        from <= t@.len(),
    ensures
        r@ == t@.skip(from as int),
{
    let n = t.len();
    let mut r: Vec<char> = Vec::new();
    let mut i: usize = from;
    while i < n
        invariant
            from <= i <= n,
            n == t@.len(),
            r@ == t@.subrange(from as int, i as int),
        decreases n - i,
    {
        r.push(t[i]);
        assert(r@ =~= t@.subrange(from as int, i + 1));
        i += 1;
    }
    proof {
        assert(t@.subrange(from as int, n as int) =~= t@.skip(from as int));
    }
    r
}

/// The first `upto` characters of `t`.
fn head_of(t: &Vec<char>, upto: usize) -> (r: Vec<char>)
    requires
        upto <= t@.len(),
    ensures
        r@ == t@.take(upto as int),
{
    let mut r: Vec<char> = Vec::new();
    let mut i: usize = 0;
    while i < upto
        invariant
            i <= upto <= t@.len(),
            r@ == t@.take(i as int),
        decreases upto - i,
    {
        r.push(t[i]);
        assert(r@ =~= t@.take(i + 1));
        i += 1;
    }
    r
}

/// Length of the longest proper marker-shaped suffix of `t`.
fn marker_suffix_exec(t: &Vec<char>) -> (r: usize)
    ensures
        r as int == marker_suffix(t@),
{
    let n = t.len();
    proof {
        lemma_marker_suffix_upto(t@, n as int - 1);
    }
    if n == 0 {
        return 0;
    }
    let mut k: usize = n - 1;
    while k > 0
        invariant
            k <= n - 1,
            n == t@.len(),
            n > 0,
            forall|j: int| k < j <= n - 1 ==> !is_single_marker(#[trigger] t@.skip(n - j)),
        decreases k,
    {
        let sub = tail_of(t, n - k);
        if is_single_marker_exec(&sub) {
            proof {
                lemma_marker_suffix_upto(t@, n as int - 1);
                let ms = marker_suffix(t@);
                assert(ms == k) by {
                    if ms < k {
                        assert(!is_single_marker(t@.skip(n - k as int)));
                    }
                    if ms > k {
                        assert(!is_single_marker(t@.skip(n as int - ms)));
                    }
                }
            }
            return k;
        }
        k -= 1;
    }
    proof {
        lemma_marker_suffix_upto(t@, n as int - 1);
        let ms = marker_suffix(t@);
        if ms > 0 {
            assert(!is_single_marker(t@.skip(n as int - ms)));
        }
    }
    0
}

/// Length of the longest proper ordinal-shaped suffix of `t`.
fn ord_suffix_exec(t: &Vec<char>) -> (r: usize)
    ensures
        r as int == ord_suffix(t@),
{
    let n = t.len();
    proof {
        lemma_ord_suffix_upto(t@, n as int - 1);
    }
    if n == 0 {
        return 0;
    }
    let mut k: usize = n - 1;
    while k > 0
        invariant
            k <= n - 1,
            n == t@.len(),
            n > 0,
            forall|j: int| k < j <= n - 1 ==> !is_ordinal_token(#[trigger] t@.skip(n - j)),
        decreases k,
    {
        proof {
            assert(t@.subrange(n - k as int, n as int) =~= t@.skip(n - k as int));
        }
        if is_ordinal_range(t, n - k, n) {
            proof {
                lemma_ord_suffix_upto(t@, n as int - 1);
                let os = ord_suffix(t@);
                assert(os == k) by {
                    if os < k {
                        assert(!is_ordinal_token(t@.skip(n - k as int)));
                    }
                    if os > k {
                        assert(!is_ordinal_token(t@.skip(n as int - os)));
                    }
                }
            }
            return k;
        }
        k -= 1;
    }
    proof {
        lemma_ord_suffix_upto(t@, n as int - 1);
        let os = ord_suffix(t@);
        if os > 0 {
            assert(!is_ordinal_token(t@.skip(n as int - os)));
        }
    }
    0
}

/// Normalizes a title for search: dashes spaced out, whitespace collapsed,
/// trailing season markers stripped, also when glued to the last word.
pub fn normalize_title(title: &str) -> (r: String)
    ensures
        r@ == normalize_spec(title@),
{
    let chars = str_to_chars(title);
    let n = chars.len();
    let ghost sv = chars@;

    // Tokenize.
    let mut toks: Vec<Vec<char>> = Vec::new();
    let mut i: usize = 0;
    proof {
        assert(sv.skip(0) =~= sv);
        assert(toks.deep_view() + tokenize(sv) =~= tokenize(sv));
    }
    while i < n
        invariant
            i <= n,
            n == sv.len(),
            sv == chars@,
            tokenize(sv) == toks.deep_view() + tokenize(sv.skip(i as int)),
        decreases n - i,
    {
        let c = chars[i];
        let ghost rest = sv.skip(i as int);
        if is_space_exec(c) {
            proof {
                assert(rest.skip(1) =~= sv.skip(i + 1));
            }
            i += 1;
        } else if c == '-' {
            let mut d: Vec<char> = Vec::new();
            d.push('-');
            let ghost old_toks = toks.deep_view();
            toks.push(d);
            proof {
                assert(rest.skip(1) =~= sv.skip(i + 1));
                assert(d@ =~= seq!['-']);
                assert(toks.deep_view() =~~= old_toks.push(seq!['-']));
                assert(old_toks + (seq![seq!['-']] + tokenize(sv.skip(i + 1))) =~= old_toks.push(
                    seq!['-'],
                ) + tokenize(sv.skip(i + 1)));
            }
            i += 1;
        } else {
            let mut cur: Vec<char> = Vec::new();
            let mut j: usize = i;
            while j < n && is_word_char_exec(chars[j])
                invariant
                    i <= j <= n,
                    n == sv.len(),
                    sv == chars@,
                    cur@ == sv.subrange(i as int, j as int),
                    forall|k: int| i <= k < j ==> is_word_char(#[trigger] sv[k]),
                decreases n - j,
            {
                cur.push(chars[j]);
                assert(cur@ =~= sv.subrange(i as int, j + 1));
                j += 1;
            }
            proof {
                lemma_take_word(rest);
                let w = take_word(rest);
                assert forall|k: int| 0 <= k < j - i implies is_word_char(#[trigger] rest[k]) by {
                    assert(rest[k] == sv[i + k]);
                }
                assert(w.len() == j - i) by {
                    if w.len() < j - i {
                        assert(!is_word_char(rest[w.len() as int]));
                    }
                    if w.len() > j - i {
                        assert(is_word_char(rest[j - i]));
                        if j < n {
                            assert(rest[j - i] == sv[j as int]);
                        }
                    }
                }
                assert(w =~= cur@) by {
                    assert forall|k: int| 0 <= k < w.len() implies w[k] == cur@[k] by {
                        assert(w[k] == rest[k]);
                        assert(rest[k] == sv[i + k]);
                    }
                }
                assert(rest.skip(w.len() as int) =~= sv.skip(j as int));
                assert(is_word_char(rest[0]));
            }
            let ghost old_toks = toks.deep_view();
            let ghost w = cur@;
            toks.push(cur);
            proof {
                assert(toks.deep_view() =~~= old_toks.push(w));
                assert(old_toks + (seq![w] + tokenize(sv.skip(j as int))) =~= old_toks.push(w)
                    + tokenize(sv.skip(j as int)));
            }
            i = j;
        }
    }
    proof {
        assert(sv.skip(n as int) =~= Seq::<char>::empty());
        assert(toks.deep_view() + tokenize(sv.skip(n as int)) =~= toks.deep_view());
    }
    let ghost ts0 = toks.deep_view();
    assert(ts0 == tokenize(sv));

    // Strip trailing markers and dashes.
    let mut done: bool = false;
    while !done
        invariant
            strip_tokens(ts0) == strip_tokens(toks.deep_view()),
            done ==> strip_tokens(toks.deep_view()) == toks.deep_view(),
        decreases toks.len(), (if toks@.len() > 0 {
            toks@[toks@.len() - 1]@.len() as int
        } else {
            0int
        }), (if done { 0int } else { 1int }),
    {
        let len = toks.len();
        let ghost dv = toks.deep_view();
        if len == 0 {
            done = true;
        } else {
            proof {
                assert(dv.last() == toks@[len - 1].deep_view());
                assert(toks@[len - 1].deep_view() =~= toks@[len - 1]@);
                if len >= 2 {
                    assert(dv[len - 2] == toks@[len - 2].deep_view());
                    assert(toks@[len - 2].deep_view() =~= toks@[len - 2]@);
                }
            }
            let last_single = {
                let last = &toks[len - 1];
                is_single_marker_exec(last) || (last.len() == 1 && last[0] == '-')
            };
            proof {
                if toks@[len - 1]@.len() == 1 && toks@[len - 1]@[0] == '-' {
                    assert(toks@[len - 1]@ =~= seq!['-']);
                }
            }
            if last_single {
                toks.pop();
                proof {
                    assert(toks.deep_view() =~~= dv.drop_last());
                }
            } else if len >= 2 && {
                let a = &toks[len - 2];
                let b = &toks[len - 1];
                is_pair_marker_exec(a, b)
            } {
                toks.pop();
                toks.pop();
                proof {
                    assert(toks.deep_view() =~~= dv.take(len - 2));
                }
            } else {
                // The glued two-token forms: "TitleSeason 1", "Title2nd Season".
                let mut glued_keep: Option<usize> = None;
                if len >= 2 {
                    let a = &toks[len - 2];
                    let b = &toks[len - 1];
                    let a_len = a.len();
                    proof {
                        if a_len > 6 {
                            assert(a@.subrange(a_len - 6, a_len as int) =~= a@.skip(a_len - 6));
                        }
                        assert(b@.subrange(0, b@.len() as int) =~= b@);
                    }
                    if a_len > 6 && eq_ci_range(a, a_len - 6, a_len, "season") && b.len() > 0
                        && digits_range(b, 0, b.len()) {
                        glued_keep = Some(a_len - 6);
                    } else {
                        let os = ord_suffix_exec(a);
                        if os > 0 && eq_ci_range(b, 0, b.len(), "season") {
                            proof {
                                lemma_ord_suffix_upto(a@, a@.len() - 1);
                            }
                            glued_keep = Some(a_len - os);
                        }
                    }
                    proof {
                        match glued_keep {
                            Some(keep) => {
                                assert(is_glued_pair(dv[len - 2], dv.last()));
                                assert(keep as int == dv[len - 2].len() - (
                                if dv[len - 2].len() > 6 && is_season_word(
                                    dv[len - 2].skip(dv[len - 2].len() - 6),
                                ) && dv.last().len() > 0 && all_digits(dv.last()) {
                                    6int
                                } else {
                                    ord_suffix(dv[len - 2])
                                }));
                                assert(glued_pair_prefix(dv[len - 2], dv.last()) == dv[len
                                    - 2].take(keep as int));
                            },
                            None => {
                                assert(!is_glued_pair(dv[len - 2], dv.last()));
                            },
                        }
                    }
                }
                match glued_keep {
                    Some(keep) => {
                        let p = head_of(&toks[len - 2], keep);
                        toks.pop();
                        toks.pop();
                        let ghost pv = p@;
                        toks.push(p);
                        proof {
                            assert(toks.deep_view() =~~= dv.take(len - 2).push(pv));
                        }
                    },
                    None => {
                        let ms = marker_suffix_exec(&toks[len - 1]);
                        if ms > 0 {
                            proof {
                                lemma_marker_suffix_upto(dv.last(), dv.last().len() - 1);
                            }
                            let last_len = toks[len - 1].len();
                            let nt = head_of(&toks[len - 1], last_len - ms);
                            toks.pop();
                            let ghost ntv = nt@;
                            toks.push(nt);
                            proof {
                                assert(toks.deep_view() =~~= dv.update(len - 1, ntv));
                            }
                        } else {
                            done = true;
                        }
                    },
                }
            }
        }
    }

    // Join with single spaces.
    let ghost fin = toks.deep_view();
    let m = toks.len();
    let mut out: Vec<char> = Vec::new();
    let mut k: usize = 0;
    proof {
        assert(fin.take(0) =~= Seq::<Seq<char>>::empty());
    }
    while k < m
        invariant
            k <= m,
            m == fin.len(),
            fin == toks.deep_view(),
            m == toks@.len(),
            out@ == join_sp(fin.take(k as int)),
        decreases m - k,
    {
        let ghost before = out@;
        if k > 0 {
            out.push(' ');
        }
        let t = &toks[k];
        proof {
            assert(fin[k as int] == toks@[k as int].deep_view());
            assert(toks@[k as int].deep_view() =~= toks@[k as int]@);
        }
        let tn = t.len();
        let mut q: usize = 0;
        let ghost mid = out@;
        while q < tn
            invariant
                q <= tn,
                tn == t@.len(),
                out@ == mid + t@.take(q as int),
            decreases tn - q,
        {
            out.push(t[q]);
            assert(out@ =~= mid + t@.take(q + 1));
            q += 1;
        }
        proof {
            assert(t@.take(tn as int) =~= t@);
            let upto = fin.take(k + 1);
            assert(upto.drop_last() =~= fin.take(k as int));
            assert(upto.last() == fin[k as int]);
            if k == 0 {
                assert(out@ =~= before + t@);
                assert(join_sp(upto) == fin[0]);
                assert(out@ =~= join_sp(upto));
            } else {
                assert(upto.len() >= 2);
                assert(join_sp(upto) == join_sp(fin.take(k as int)) + seq![' '] + fin[k as int]);
                assert(out@ =~= (before + seq![' ']) + t@);
                assert(out@ =~= join_sp(fin.take(k as int)) + seq![' '] + fin[k as int]);
            }
        }
        k += 1;
    }
    proof {
        assert(fin.take(m as int) =~= fin);
    }
    chars_to_string(&out)
}

/// Normalization is idempotent: normalizing an already normalized title
/// changes nothing.
pub proof fn lemma_normalize_idempotent(s: Seq<char>)
    ensures
        normalize_spec(normalize_spec(s)) == normalize_spec(s),
{
    let ts = tokenize(s);
    lemma_tokenize_canonical(s);
    let r1 = strip_tokens(ts);
    lemma_strip_canonical(ts);
    lemma_tokenize_join(r1);
    lemma_strip_fixpoint(ts);
}

} // verus!
