//! Character-level text utilities shared by the resolvers: conversions
//! between `&str` and `Vec<char>`, decimal parsing and rendering, splitting
//! on a separator character, and HTML tag stripping.

use vstd::prelude::*;
use vstd::string::*;

verus! {

/// The Unicode White_Space code points, recognized when tokenizing titles
/// and when collapsing runs of whitespace.
pub open spec fn is_space(c: char) -> bool {
    ||| 0x9 <= c as u32 <= 0xD
    ||| c == ' '
    ||| c == '\u{85}'
    ||| c == '\u{A0}'
    ||| c == '\u{1680}'
    ||| 0x2000 <= c as u32 <= 0x200A
    ||| c == '\u{2028}'
    ||| c == '\u{2029}'
    ||| c == '\u{202F}'
    ||| c == '\u{205F}'
    ||| c == '\u{3000}'
}

pub open spec fn is_digit(c: char) -> bool {
    48 <= c as u32 <= 57
}

pub open spec fn digit_val(c: char) -> int {
    c as u32 - 48
}

pub open spec fn digit_char(d: int) -> char {
    ((48 + d) as u8) as char
}

pub open spec fn all_digits(s: Seq<char>) -> bool {
    forall|i: int| 0 <= i < s.len() ==> is_digit(#[trigger] s[i])
}

/// Decimal rendering of a non-negative integer, most significant digit first.
pub open spec fn dec_of(n: int) -> Seq<char>
    decreases n,
{
    if n < 10 {
        seq![digit_char(if n < 0 { 0 } else { n })]
    } else {
        dec_of(n / 10).push(digit_char(n % 10))
    }
}

/// Value of a digit string, most significant digit first.
pub open spec fn dec_val(s: Seq<char>) -> int
    decreases s.len(),
{
    if s.len() == 0 {
        0
    } else {
        dec_val(s.drop_last()) * 10 + digit_val(s.last())
    }
}

/// Index of the first occurrence of `c` in `s`, or -1 if absent.
pub open spec fn first_ch(s: Seq<char>, c: char) -> int
    decreases s.len(),
{
    if s.len() == 0 {
        -1
    } else if s[0] == c {
        0
    } else {
        let r = first_ch(s.skip(1), c);
        if r < 0 {
            -1
        } else {
            r + 1
        }
    }
}

pub proof fn lemma_first_ch(s: Seq<char>, c: char)
    ensures
        -1 <= first_ch(s, c) < s.len(),
        first_ch(s, c) >= 0 ==> s[first_ch(s, c)] == c,
        forall|j: int| 0 <= j < s.len() && #[trigger] s[j] == c ==> first_ch(s, c) >= 0,
        forall|j: int| 0 <= j < first_ch(s, c) ==> #[trigger] s[j] != c,
    decreases s.len(),
{
    if s.len() > 0 && s[0] != c {
        lemma_first_ch(s.skip(1), c);
        assert forall|j: int| 0 <= j < s.len() && #[trigger] s[j] == c implies first_ch(s, c)
            >= 0 by {
            if j > 0 {
                assert(s.skip(1)[j - 1] == c);
            }
        }
        assert forall|j: int| 0 <= j < first_ch(s, c) implies #[trigger] s[j] != c by {
            if j > 0 {
                assert(s.skip(1)[j - 1] != c);
            }
        }
    }
}

/// `s` split at every occurrence of `c`; separators are dropped, empty
/// pieces are kept, and the result always has at least one piece.
pub open spec fn split_on(s: Seq<char>, c: char) -> Seq<Seq<char>>
    decreases s.len(),
{
    let k = first_ch(s, c);
    if k < 0 || k >= s.len() {
        seq![s]
    } else {
        seq![s.take(k)] + split_on(s.skip(k + 1), c)
    }
}

pub proof fn lemma_split_sep_free(a: Seq<char>, c: char)
    requires
        forall|j: int| 0 <= j < a.len() ==> #[trigger] a[j] != c,
    ensures
        split_on(a, c) == seq![a],
{
    lemma_first_ch(a, c);
    if first_ch(a, c) >= 0 {
        assert(a[first_ch(a, c)] == c);
    }
}

pub proof fn lemma_split_head_sep(a: Seq<char>, b: Seq<char>, c: char)
    requires
        forall|j: int| 0 <= j < a.len() ==> #[trigger] a[j] != c,
        b.len() > 0,
        b[0] == c,
    ensures
        split_on(a + b, c) == seq![a] + split_on(b.skip(1), c),
{
    let s = a + b;
    lemma_first_ch(s, c);
    let k = first_ch(s, c);
    assert(s[a.len() as int] == c);
    assert(k >= 0);
    assert forall|j: int| 0 <= j < a.len() implies #[trigger] s[j] != c by {
        assert(s[j] == a[j]);
    }
    assert(k == a.len()) by {
        if k < a.len() {
            assert(s[k] != c);
        }
        if k > a.len() {
            assert(s[a.len() as int] != c);
        }
    }
    assert(s.take(k) =~= a);
    assert(s.skip(k + 1) =~= b.skip(1));
}

/// Index of the first piece of `parts` equal to `w`, or -1 if absent.
pub open spec fn first_eq_part(parts: Seq<Seq<char>>, w: Seq<char>) -> int
    decreases parts.len(),
{
    if parts.len() == 0 {
        -1
    } else if parts[0] == w {
        0
    } else {
        let r = first_eq_part(parts.skip(1), w);
        if r < 0 {
            -1
        } else {
            r + 1
        }
    }
}

pub proof fn lemma_first_eq_part(parts: Seq<Seq<char>>, w: Seq<char>)
    ensures
        -1 <= first_eq_part(parts, w) < parts.len(),
        first_eq_part(parts, w) >= 0 ==> parts[first_eq_part(parts, w)] == w,
        forall|j: int| 0 <= j < parts.len() && #[trigger] parts[j] == w ==> first_eq_part(parts, w)
            >= 0,
        forall|j: int| 0 <= j < first_eq_part(parts, w) ==> #[trigger] parts[j] != w,
    decreases parts.len(),
{
    if parts.len() > 0 && parts[0] != w {
        lemma_first_eq_part(parts.skip(1), w);
        assert forall|j: int| 0 <= j < parts.len() && #[trigger] parts[j] == w implies
            first_eq_part(parts, w) >= 0 by {
            if j > 0 {
                assert(parts.skip(1)[j - 1] == w);
            }
        }
        assert forall|j: int| 0 <= j < first_eq_part(parts, w) implies #[trigger] parts[j] != w by {
            if j > 0 {
                assert(parts.skip(1)[j - 1] != w);
            }
        }
    }
}

/// `s` with every markup span removed: a span starts at a `<` and runs to
/// the first `>` after it; a `<` with no closing `>` is kept verbatim.
pub open spec fn strip_html_spec(s: Seq<char>) -> Seq<char>
    decreases s.len(),
{
    if s.len() == 0 {
        Seq::empty()
    } else if s[0] == '<' && 0 <= first_ch(s, '>') < s.len() {
        strip_html_spec(s.skip(first_ch(s, '>') + 1))
    } else {
        seq![s[0]] + strip_html_spec(s.skip(1))
    }
}

} // verus!

verus! {

/// The characters of `s`, in order, as a vector.
pub fn str_to_chars(s: &str) -> (v: Vec<char>)
    ensures
        v@ == s@,
{
    let n = s.unicode_len();
    let mut v: Vec<char> = Vec::new();
    let mut i: usize = 0;
    while i < n
        invariant
            n == s@.len(),
            i <= n,
            v@ == s@.take(i as int),
        decreases n - i,
    {
        let c = s.get_char(i);
        v.push(c);
        assert(v@ =~= s@.take(i + 1));
        i += 1;
    }
    assert(v@ =~= s@);
    v
}

/// Relies on `String`'s `FromIterator<char>`: collecting an iterator of
/// characters yields a string holding exactly those characters in order.
#[verifier::external_body]
pub fn chars_to_string(v: &Vec<char>) -> (s: String)
    ensures
        s@ == v@,
{
    v.iter().collect()
}

/// Whether the characters of `a` equal the characters of `s`.
pub fn chars_eq_str(a: &Vec<char>, s: &str) -> (r: bool)
    ensures
        r == (a@ == s@),
{
    let n = s.unicode_len();
    if a.len() != n {
        return false;
    }
    let mut i: usize = 0;
    while i < n
        invariant
            n == s@.len(),
            a@.len() == n,
            i <= n,
            forall|j: int| 0 <= j < i ==> a@[j] == s@[j],
        decreases n - i,
    {
        if a[i] != s.get_char(i) {
            return false;
        }
        i += 1;
    }
    assert(a@ =~= s@);
    true
}

/// Every decimal digit string has a non-negative value, and the value of a
/// prefix never exceeds the value of the whole string.
pub proof fn lemma_dec_val_prefix_le(s: Seq<char>, i: int)
    requires
        all_digits(s),
        0 <= i <= s.len(),
    ensures
        0 <= dec_val(s.take(i)) <= dec_val(s),
    decreases s.len() - i,
{
    if i == s.len() {
        assert(s.take(i) =~= s);
        lemma_dec_val_nonneg(s);
    } else {
        lemma_dec_val_prefix_le(s, i + 1);
        let t = s.take(i + 1);
        assert(t.drop_last() =~= s.take(i));
        assert(t.last() == s[i]);
        lemma_dec_val_nonneg(s.take(i));
    }
}

pub proof fn lemma_dec_val_nonneg(s: Seq<char>)
    requires
        all_digits(s),
    ensures
        dec_val(s) >= 0,
    decreases s.len(),
{
    if s.len() > 0 {
        assert(all_digits(s.drop_last()));
        lemma_dec_val_nonneg(s.drop_last());
    }
}

/// Parses a non-empty all-digit string into a non-negative `i32`; rejects
/// the empty string, any non-digit character, and values above `i32::MAX`.
pub fn parse_dec_i32(v: &Vec<char>) -> (r: Option<i32>)
    ensures
        match r {
            Some(n) => v@.len() > 0 && all_digits(v@) && 0 <= n && n == dec_val(v@),
            None => v@.len() == 0 || !all_digits(v@) || dec_val(v@) > i32::MAX,
        },
{
    if v.len() == 0 {
        return None;
    }
    let n = v.len();
    let mut acc: u64 = 0;
    let mut i: usize = 0;
    while i < n
        invariant
            n == v@.len(),
            i <= n,
            all_digits(v@.take(i as int)),
            acc == dec_val(v@.take(i as int)),
            acc <= i32::MAX,
        decreases n - i,
    {
        let c = v[i];
        let cu = c as u32;
        if cu < 48 || cu > 57 {
            assert(!is_digit(v@[i as int]));
            return None;
        }
        let d = (cu - 48) as u64;
        assert(v@.take(i + 1).drop_last() =~= v@.take(i as int));
        acc = acc * 10 + d;
        i += 1;
        if acc > i32::MAX as u64 {
            proof {
                if all_digits(v@) {
                    lemma_dec_val_prefix_le(v@, i as int);
                }
            }
            return None;
        }
    }
    assert(v@.take(n as int) =~= v@);
    Some(acc as i32)
}

/// Decimal rendering of `n`, most significant digit first.
pub fn u64_to_chars(n: u64) -> (v: Vec<char>)
    ensures
        v@ == dec_of(n as int),
{
    let mut low_first: Vec<char> = Vec::new();
    let mut m: u64 = n;
    let mut done: bool = false;
    while !done
        invariant
            !done ==> dec_of(n as int) == dec_of(m as int) + low_first@.reverse(),
            done ==> dec_of(n as int) == low_first@.reverse(),
        decreases m, (if done { 0int } else { 1int }),
    {
        let d = (m % 10) as u8;
        let c = (48 + d) as char;
        assert(c == digit_char(m as int % 10));
        let ghost prev = low_first@;
        low_first.push(c);
        proof {
            assert(low_first@.reverse() =~= seq![c] + prev.reverse());
        }
        if m < 10 {
            proof {
                assert(dec_of(m as int) =~= seq![c]);
                assert(dec_of(m as int) + prev.reverse() =~= seq![c] + prev.reverse());
            }
            done = true;
        } else {
            proof {
                assert(dec_of(m as int) == dec_of(m as int / 10).push(digit_char(m as int % 10)));
                assert(dec_of(m as int / 10) + (seq![c] + prev.reverse()) =~= dec_of(m as int)
                    + prev.reverse());
            }
            m = m / 10;
        }
    }
    let mut v: Vec<char> = Vec::new();
    let mut i: usize = low_first.len();
    while i > 0
        invariant
            i <= low_first@.len(),
            v@ == low_first@.reverse().take(low_first@.len() - i),
        decreases i,
    {
        i -= 1;
        v.push(low_first[i]);
        assert(v@ =~= low_first@.reverse().take(low_first@.len() - i));
    }
    assert(v@ =~= low_first@.reverse());
    v
}

/// Decimal rendering of a non-negative count as a `String`.
pub fn u64_to_string(n: u64) -> (s: String)
    ensures
        s@ == dec_of(n as int),
{
    let v = u64_to_chars(n);
    chars_to_string(&v)
}

/// Splits the characters of `v` from index `from` on at every occurrence of
/// `c`, keeping empty pieces.
pub fn split_at_char(v: &Vec<char>, from: usize, c: char) -> (parts: Vec<Vec<char>>)
    requires
        from <= v@.len(),
    ensures
        parts.deep_view() == split_on(v@.skip(from as int), c),
{
    let n = v.len();
    let mut parts: Vec<Vec<char>> = Vec::new();
    let mut cur: Vec<char> = Vec::new();
    let mut i: usize = from;
    proof {
        assert(cur@ + v@.skip(from as int) =~= v@.skip(from as int));
        assert(parts.deep_view() + split_on(v@.skip(from as int), c) =~= split_on(
            v@.skip(from as int),
            c,
        ));
    }
    while i < n
        invariant
            from <= i <= n,
            n == v@.len(),
            forall|j: int| 0 <= j < cur@.len() ==> #[trigger] cur@[j] != c,
            split_on(v@.skip(from as int), c) == parts.deep_view() + split_on(
                cur@ + v@.skip(i as int),
                c,
            ),
        decreases n - i,
    {
        let ch = v[i];
        if ch == c {
            proof {
                lemma_split_head_sep(cur@, v@.skip(i as int), c);
                assert(v@.skip(i as int).skip(1) =~= v@.skip(i + 1));
            }
            let ghost old_parts = parts.deep_view();
            let ghost old_cur = cur@;
            parts.push(cur);
            cur = Vec::new();
            proof {
                assert(parts.deep_view() =~~= old_parts.push(old_cur));
                assert(cur@ + v@.skip(i + 1) =~= v@.skip(i + 1));
                assert(old_parts + (seq![old_cur] + split_on(v@.skip(i + 1), c)) =~= old_parts.push(
                    old_cur,
                ) + split_on(v@.skip(i + 1), c));
            }
        } else {
            let ghost old_cur = cur@;
            cur.push(ch);
            proof {
                assert(cur@ + v@.skip(i + 1) =~= old_cur + v@.skip(i as int));
            }
        }
        i += 1;
    }
    proof {
        assert(cur@ + v@.skip(n as int) =~= cur@);
        lemma_split_sep_free(cur@, c);
    }
    let ghost old_parts = parts.deep_view();
    let ghost last = cur@;
    parts.push(cur);
    proof {
        assert(parts.deep_view() =~~= old_parts.push(last));
        assert(old_parts + seq![last] =~= old_parts.push(last));
    }
    parts
}

/// Removes markup spans (`<` up to the first following `>`) from `v`.
pub fn strip_html(v: &Vec<char>) -> (r: Vec<char>)
    ensures
        r@ == strip_html_spec(v@),
{
    let n = v.len();
    let mut out: Vec<char> = Vec::new();
    let mut i: usize = 0;
    proof {
        assert(v@.skip(0) =~= v@);
        assert(out@ + strip_html_spec(v@) =~= strip_html_spec(v@));
    }
    while i < n
        invariant
            n == v@.len(),
            i <= n,
            strip_html_spec(v@) == out@ + strip_html_spec(v@.skip(i as int)),
        decreases n - i,
    {
        let ghost rest = v@.skip(i as int);
        proof {
            lemma_first_ch(rest, '>');
        }
        if v[i] == '<' {
            let mut j: usize = i + 1;
            let mut close: Option<usize> = None;
            while j < n && close.is_none()
                invariant
                    n == v@.len(),
                    i < j <= n,
                    v@[i as int] == '<',
                    match close {
                        Some(k) => i < k < n && v@[k as int] == '>' && forall|t: int|
                            i <= t < k ==> v@[t] != '>',
                        None => forall|t: int| i <= t < j ==> v@[t] != '>',
                    },
                decreases n - j, (if close.is_none() { 1int } else { 0int }),
            {
                if v[j] == '>' {
                    close = Some(j);
                } else {
                    j += 1;
                }
            }
            match close {
                Some(k) => {
                    proof {
                        let fc = first_ch(rest, '>');
                        assert(rest[k - i] == '>');
                        assert(fc >= 0);
                        assert forall|t: int| 0 <= t < k - i implies rest[t] != '>' by {
                            assert(rest[t] == v@[i + t]);
                        }
                        assert(fc == k - i) by {
                            if fc < k - i {
                                assert(rest[fc] != '>');
                            }
                            if fc > k - i {
                                assert(rest[k - i] != '>');
                            }
                        }
                        assert(rest.skip(fc + 1) =~= v@.skip(k + 1));
                    }
                    i = k + 1;
                },
                None => {
                    proof {
                        let fc = first_ch(rest, '>');
                        assert forall|t: int| 0 <= t < rest.len() implies rest[t] != '>' by {
                            assert(rest[t] == v@[i + t]);
                        }
                        assert(fc == -1) by {
                            if fc >= 0 {
                                assert(rest[fc] == '>');
                            }
                        }
                        assert(rest.skip(1) =~= v@.skip(i + 1));
                        assert(strip_html_spec(rest) == seq![rest[0]] + strip_html_spec(
                            rest.skip(1),
                        ));
                    }
                    let c = v[i];
                    out.push(c);
                    assert(out@ + strip_html_spec(v@.skip(i + 1)) =~= out@.drop_last()
                        + strip_html_spec(rest));
                    i += 1;
                },
            }
        } else {
            proof {
                assert(rest.skip(1) =~= v@.skip(i + 1));
                assert(strip_html_spec(rest) == seq![rest[0]] + strip_html_spec(rest.skip(1)));
            }
            let c = v[i];
            out.push(c);
            assert(out@ + strip_html_spec(v@.skip(i + 1)) =~= out@.drop_last() + strip_html_spec(
                rest,
            ));
            i += 1;
        }
    }
    proof {
        assert(v@.skip(n as int) =~= Seq::<char>::empty());
        assert(strip_html_spec(v@) =~= out@);
    }
    out
}

/// Rendering of a possibly negative integer.
pub open spec fn dec_of_int(n: int) -> Seq<char> {
    if n < 0 {
        seq!['-'] + dec_of(-n)
    } else {
        dec_of(n)
    }
}

/// Decimal rendering of `n`, with a leading `-` when negative.
pub fn i64_to_string(n: i64) -> (s: String)
    ensures
        s@ == dec_of_int(n as int),
{
    if n >= 0 {
        u64_to_string(n as u64)
    } else {
        let m: u64 = if n == i64::MIN {
            9223372036854775808u64
        } else {
            (-n) as u64
        };
        assert(m as int == -(n as int));
        let digits = u64_to_chars(m);
        let mut out: Vec<char> = Vec::new();
        out.push('-');
        let k = digits.len();
        let mut i: usize = 0;
        while i < k
            invariant
                i <= k,
                k == digits@.len(),
                out@ == seq!['-'] + digits@.take(i as int),
            decreases k - i,
        {
            out.push(digits[i]);
            assert(out@ =~= seq!['-'] + digits@.take(i + 1));
            i += 1;
        }
        assert(out@ =~= seq!['-'] + digits@);
        chars_to_string(&out)
    }
}

/// The string when present, the empty sequence when absent.
pub open spec fn opt_str_or_empty(o: Option<String>) -> Seq<char> {
    match o {
        Some(s) => s@,
        None => Seq::empty(),
    }
}

/// A copy of an optional string.
pub fn clone_opt_string(o: &Option<String>) -> (r: Option<String>)
    ensures
        r.deep_view() == o.deep_view(),
{
    match o {
        Some(s) => Some(s.clone()),
        None => None,
    }
}

/// The string when present, an empty string when absent.
pub fn unwrap_or_empty(o: Option<String>) -> (r: String)
    ensures
        r@ == opt_str_or_empty(o),
{
    match o {
        Some(s) => s,
        None => String::new(),
    }
}


} // verus!
