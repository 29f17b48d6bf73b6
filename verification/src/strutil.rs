//! Verified helpers over `&str` and `String`: equality, searching,
//! splitting, trimming, joining, and decimal rendering of integers.

use vstd::prelude::*;

verus! {

/// The Unicode white-space characters: what trimming strips from both
/// ends of a string.
pub open spec fn is_space(c: char) -> bool {
    c == ' ' || c == '\t' || c == '\n' || c == '\r' || c == '\u{b}' || c == '\u{c}'
        || c == '\u{85}' || c == '\u{a0}' || c == '\u{1680}' || ((c as u32) >= 0x2000 && (
    c as u32) <= 0x200a) || c == '\u{2028}' || c == '\u{2029}' || c == '\u{202f}'
        || c == '\u{205f}' || c == '\u{3000}'
}

/// Character-for-character equality of two string slices.
pub fn str_eq(a: &str, b: &str) -> (r: bool)
    ensures
        r == (a@ == b@),
{
    let sa = String::from_str(a);
    let sb = String::from_str(b);
    sa == sb
}

/// Executable mirror of [`is_space`].
pub fn is_space_char(c: char) -> (r: bool)
    ensures
        r == is_space(c),
{
    c == ' ' || c == '\t' || c == '\n' || c == '\r' || c == '\u{b}' || c == '\u{c}'
        || c == '\u{85}' || c == '\u{a0}' || c == '\u{1680}' || ((c as u32) >= 0x2000 && (
    c as u32) <= 0x200a) || c == '\u{2028}' || c == '\u{2029}' || c == '\u{202f}'
        || c == '\u{205f}' || c == '\u{3000}'
}

/// `s` with its leading whitespace removed.
pub open spec fn spec_trim_start(s: Seq<char>) -> Seq<char>
    decreases s.len(),
{
    if s.len() > 0 && is_space(s[0]) {
        spec_trim_start(s.drop_first())
    } else {
        s
    }
}

/// `s` with its trailing whitespace removed.
pub open spec fn spec_trim_end(s: Seq<char>) -> Seq<char>
    decreases s.len(),
{
    if s.len() > 0 && is_space(s[s.len() - 1]) {
        spec_trim_end(s.drop_last())
    } else {
        s
    }
}

/// `s` with whitespace removed from both ends.
pub open spec fn spec_trim(s: Seq<char>) -> Seq<char> {
    spec_trim_end(spec_trim_start(s))
}

proof fn lemma_trim_start_at(s: Seq<char>, a: int)
    requires
        0 <= a <= s.len(),
        forall|j: int| 0 <= j < a ==> is_space(s[j]),
        a < s.len() ==> !is_space(s[a]),
    ensures
        spec_trim_start(s) == s.subrange(a, s.len() as int),
    decreases a,
{
    if a == 0 {
        assert(s =~= s.subrange(0, s.len() as int));
    } else {
        assert(is_space(s[0]));
        lemma_trim_start_at(s.drop_first(), a - 1);
        assert(s.drop_first().subrange(a - 1, s.drop_first().len() as int) =~= s.subrange(
            a,
            s.len() as int,
        ));
    }
}

proof fn lemma_trim_end_at(s: Seq<char>, b: int)
    requires
        0 <= b <= s.len(),
        forall|j: int| b <= j < s.len() ==> is_space(s[j]),
        b > 0 ==> !is_space(s[b - 1]),
    ensures
        spec_trim_end(s) == s.subrange(0, b),
    decreases s.len() - b,
{
    if b == s.len() {
        if s.len() > 0 && is_space(s[s.len() - 1]) {
            assert(false);
        }
        assert(s =~= s.subrange(0, s.len() as int));
    } else {
        assert(is_space(s[s.len() - 1]));
        lemma_trim_end_at(s.drop_last(), b);
        assert(s.drop_last().subrange(0, b) =~= s.subrange(0, b));
    }
}

/// `s` with whitespace removed from both ends, as [`spec_trim`] describes.
pub fn trim(s: &str) -> (r: &str)
    ensures
        r@ == spec_trim(s@),
{
    let n = s.unicode_len();
    let mut a: usize = 0;
    while a < n && is_space_char(s.get_char(a))
        invariant
            0 <= a <= n,
            n == s@.len(),
            forall|j: int| 0 <= j < a ==> is_space(s@[j]),
        decreases n - a,
    {
        a = a + 1;
    }
    if a == n {
        proof {
            lemma_trim_start_at(s@, a as int);
            assert(s@.subrange(a as int, n as int) =~= Seq::<char>::empty());
            lemma_trim_end_at(Seq::<char>::empty(), 0);
            assert(Seq::<char>::empty().subrange(0, 0) =~= Seq::<char>::empty());
        }
        let r = s.substring_char(a, n);
        proof {
            assert(r@ =~= spec_trim(s@));
        }
        r
    } else {
        let mut b: usize = n;
        while b > a && is_space_char(s.get_char(b - 1))
            invariant
                a <= b <= n,
                n == s@.len(),
                a < n,
                !is_space(s@[a as int]),
                forall|j: int| b <= j < n ==> is_space(s@[j]),
            decreases b,
        {
            b = b - 1;
        }
        proof {
            lemma_trim_start_at(s@, a as int);
            let t = s@.subrange(a as int, n as int);
            assert(b > a) by {
                if b == a {
                    assert(is_space(s@[a as int]));
                }
            }
            assert(forall|j: int| (b - a) <= j < t.len() ==> is_space(t[j]));
            assert(!is_space(t[b - a - 1]));
            lemma_trim_end_at(t, b - a);
            assert(t.subrange(0, b - a) =~= s@.subrange(a as int, b as int));
        }
        s.substring_char(a, b)
    }
}

/// `s` with every trailing occurrence of `c` removed.
pub open spec fn spec_trim_end_char(s: Seq<char>, c: char) -> Seq<char>
    decreases s.len(),
{
    if s.len() > 0 && s[s.len() - 1] == c {
        spec_trim_end_char(s.drop_last(), c)
    } else {
        s
    }
}

proof fn lemma_trim_end_char_at(s: Seq<char>, c: char, b: int)
    requires
        0 <= b <= s.len(),
        forall|j: int| b <= j < s.len() ==> s[j] == c,
        b > 0 ==> s[b - 1] != c,
    ensures
        spec_trim_end_char(s, c) == s.subrange(0, b),
    decreases s.len() - b,
{
    if b == s.len() {
        assert(s =~= s.subrange(0, s.len() as int));
    } else {
        lemma_trim_end_char_at(s.drop_last(), c, b);
        assert(s.drop_last().subrange(0, b) =~= s.subrange(0, b));
    }
}

/// `s` with every trailing occurrence of `c` removed, as
/// [`spec_trim_end_char`] describes.
pub fn trim_end_char(s: &str, c: char) -> (r: &str)
    ensures
        r@ == spec_trim_end_char(s@, c),
{
    let n = s.unicode_len();
    let mut b: usize = n;
    while b > 0 && s.get_char(b - 1) == c
        invariant
            0 <= b <= n,
            n == s@.len(),
            forall|j: int| b <= j < n ==> s@[j] == c,
        decreases b,
    {
        b = b - 1;
    }
    proof {
        lemma_trim_end_char_at(s@, c, b as int);
    }
    s.substring_char(0, b)
}

/// The position of the first occurrence of `c` in `s`, or `s.len()` when
/// `c` does not occur.
pub open spec fn first_index_of(s: Seq<char>, c: char) -> int
    decreases s.len(),
{
    if s.len() == 0 {
        0
    } else if s[0] == c {
        0
    } else {
        1 + first_index_of(s.drop_first(), c)
    }
}

proof fn lemma_first_index_of_props(s: Seq<char>, c: char)
    ensures
        0 <= first_index_of(s, c) <= s.len(),
        first_index_of(s, c) < s.len() ==> s[first_index_of(s, c)] == c,
        forall|j: int| 0 <= j < first_index_of(s, c) ==> s[j] != c,
    decreases s.len(),
{
    if s.len() > 0 && s[0] != c {
        let d = s.drop_first();
        lemma_first_index_of_props(d, c);
        assert forall|j: int| 0 <= j < first_index_of(s, c) implies s[j] != c by {
            if j > 0 {
                assert(s[j] == d[j - 1]);
                assert(d[j - 1] != c);
            }
        }
    }
}

proof fn lemma_first_index_of_at(s: Seq<char>, c: char, k: int)
    requires
        0 <= k <= s.len(),
        forall|j: int| 0 <= j < k ==> s[j] != c,
        k < s.len() ==> s[k] == c,
    ensures
        first_index_of(s, c) == if k < s.len() {
            k
        } else {
            s.len() as int
        },
    decreases k,
{
    if k == 0 {
        if s.len() > 0 {
        } else {
        }
    } else {
        lemma_first_index_of_at(s.drop_first(), c, k - 1);
    }
}

/// The pieces of `s` cut at every occurrence of `c`; the separators
/// themselves are not kept.  Splitting never yields an empty sequence of
/// pieces: a string without `c` is one piece.
pub open spec fn spec_split(s: Seq<char>, c: char) -> Seq<Seq<char>>
    decreases s.len(),
{
    let i = first_index_of(s, c);
    if 0 <= i < s.len() {
        seq![s.subrange(0, i)] + spec_split(s.subrange(i + 1, s.len() as int), c)
    } else {
        seq![s]
    }
}

pub proof fn lemma_split_len(s: Seq<char>, c: char)
    ensures
        spec_split(s, c).len() >= 1,
    decreases s.len(),
{
    let i = first_index_of(s, c);
    if 0 <= i < s.len() {
        lemma_split_len(s.subrange(i + 1, s.len() as int), c);
    }
}

proof fn lemma_split_step(s: Seq<char>, c: char, k: int)
    requires
        0 <= k < s.len(),
        s[k] == c,
        forall|j: int| 0 <= j < k ==> s[j] != c,
    ensures
        spec_split(s, c) == seq![s.subrange(0, k)] + spec_split(s.subrange(k + 1, s.len() as int), c),
{
    lemma_first_index_of_at(s, c, k);
}

proof fn lemma_split_none(s: Seq<char>, c: char)
    requires
        forall|j: int| 0 <= j < s.len() ==> s[j] != c,
    ensures
        spec_split(s, c) == seq![s],
{
    lemma_first_index_of_at(s, c, s.len() as int);
    lemma_first_index_of_props(s, c);
}

/// Splits `s` at every occurrence of `c`, as [`spec_split`] describes.
pub fn split_char(s: &str, c: char) -> (r: Vec<String>)
    ensures
        r.deep_view() == spec_split(s@, c),
{
    let n = s.unicode_len();
    let mut out: Vec<String> = Vec::new();
    let mut start: usize = 0;
    let mut i: usize = 0;
    proof {
        assert(s@.subrange(0, n as int) =~= s@);
        assert(out.deep_view() =~= Seq::<Seq<char>>::empty());
        assert(out.deep_view() + spec_split(s@, c) =~= spec_split(s@, c));
    }
    while i < n
        invariant
            0 <= start <= i <= n,
            n == s@.len(),
            forall|j: int| start <= j < i ==> s@[j] != c,
            spec_split(s@, c) == out.deep_view() + spec_split(s@.subrange(start as int, n as int), c),
        decreases n - i,
    {
        if s.get_char(i) == c {
            let ghost old_out = out.deep_view();
            out.push(String::from_str(s.substring_char(start, i)));
            proof {
                let t = s@.subrange(start as int, n as int);
                assert(forall|j: int| 0 <= j < (i - start) ==> t[j] != c);
                assert(t[i - start] == c);
                lemma_split_step(t, c, i - start);
                assert(t.subrange(0, i - start) =~= s@.subrange(start as int, i as int));
                assert(t.subrange(i - start + 1, t.len() as int) =~= s@.subrange(
                    i + 1,
                    n as int,
                ));
                assert(out.deep_view() =~= old_out.push(s@.subrange(start as int, i as int)));
                assert(out.deep_view() + spec_split(s@.subrange(i + 1, n as int), c) =~= old_out
                    + spec_split(t, c));
            }
            start = i + 1;
        }
        i = i + 1;
    }
    let ghost old_out = out.deep_view();
    out.push(String::from_str(s.substring_char(start, n)));
    proof {
        let t = s@.subrange(start as int, n as int);
        lemma_split_none(t, c);
        assert(out.deep_view() =~= old_out.push(t));
        assert(out.deep_view() =~= old_out + spec_split(t, c));
    }
    out
}

/// Whether `pat` occurs in `s` starting at position `i`.
pub open spec fn matches_at(s: Seq<char>, pat: Seq<char>, i: int) -> bool {
    0 <= i && i + pat.len() <= s.len() && s.subrange(i, i + pat.len() as int) == pat
}

/// The position of the first occurrence of `pat` in `s`, if any.
pub open spec fn first_match(s: Seq<char>, pat: Seq<char>) -> Option<int>
    decreases s.len(),
{
    if s.len() < pat.len() {
        None
    } else if s.subrange(0, pat.len() as int) == pat {
        Some(0int)
    } else if s.len() == 0 {
        None
    } else {
        match first_match(s.drop_first(), pat) {
            None => None,
            Some(i) => Some(i + 1),
        }
    }
}

pub proof fn lemma_first_match_props(s: Seq<char>, pat: Seq<char>)
    ensures
        match first_match(s, pat) {
            Some(i) => matches_at(s, pat, i) && forall|j: int|
                0 <= j < i ==> !matches_at(s, pat, j),
            None => forall|j: int| !matches_at(s, pat, j),
        },
    decreases s.len(),
{
    if s.len() < pat.len() {
        assert forall|j: int| !matches_at(s, pat, j) by {}
    } else if s.subrange(0, pat.len() as int) == pat {
        assert(matches_at(s, pat, 0));
    } else if s.len() == 0 {
        assert(s.subrange(0, pat.len() as int) =~= pat);
        assert(false);
    } else {
        let d = s.drop_first();
        lemma_first_match_props(d, pat);
        assert forall|j: int|
            1 <= j && j + pat.len() <= s.len() implies #[trigger] s.subrange(
            j,
            j + pat.len() as int,
        ) =~= d.subrange(j - 1, j - 1 + pat.len() as int) by {}
        match first_match(d, pat) {
            None => {
                assert forall|j: int| !matches_at(s, pat, j) by {
                    if 1 <= j && j + pat.len() <= s.len() {
                        assert(!matches_at(d, pat, j - 1));
                        assert(s.subrange(j, j + pat.len() as int) =~= d.subrange(
                            j - 1,
                            j - 1 + pat.len() as int,
                        ));
                    }
                }
            },
            Some(i) => {
                assert(matches_at(d, pat, i));
                assert(0 <= i && i + pat.len() <= d.len());
                assert(s.subrange(i + 1, i + 1 + pat.len() as int) =~= d.subrange(
                    i,
                    i + pat.len() as int,
                ));
                assert(matches_at(s, pat, i + 1));
                assert forall|j: int| 0 <= j < i + 1 implies !matches_at(s, pat, j) by {
                    if 1 <= j {
                        assert(!matches_at(d, pat, j - 1));
                        if matches_at(s, pat, j) {
                            assert(s.subrange(j, j + pat.len() as int) =~= d.subrange(
                                j - 1,
                                j - 1 + pat.len() as int,
                            ));
                            assert(false);
                        }
                    }
                }
            },
        }
    }
}

proof fn lemma_first_match_at(s: Seq<char>, pat: Seq<char>, k: int)
    requires
        matches_at(s, pat, k),
        forall|j: int| 0 <= j < k ==> !matches_at(s, pat, j),
    ensures
        first_match(s, pat) == Some(k),
    decreases k,
{
    if k == 0 {
    } else {
        let d = s.drop_first();
        assert forall|j: int|
            1 <= j && j + pat.len() <= s.len() implies #[trigger] s.subrange(
            j,
            j + pat.len() as int,
        ) =~= d.subrange(j - 1, j - 1 + pat.len() as int) by {}
        assert(s.subrange(k, k + pat.len() as int) =~= d.subrange(k - 1, k - 1 + pat.len() as int));
        assert(matches_at(d, pat, k - 1));
        assert forall|j: int| 0 <= j < k - 1 implies !matches_at(d, pat, j) by {
            assert(!matches_at(s, pat, j + 1));
            if matches_at(d, pat, j) {
                assert(s.subrange(j + 1, j + 1 + pat.len() as int) =~= d.subrange(
                    j,
                    j + pat.len() as int,
                ));
                assert(false);
            }
        }
        lemma_first_match_at(d, pat, k - 1);
        assert(!matches_at(s, pat, 0));
        assert(s.len() >= pat.len());
        if s.subrange(0, pat.len() as int) == pat {
            assert(matches_at(s, pat, 0));
        }
        assert(s.len() > 0);
    }
}

proof fn lemma_first_match_none(s: Seq<char>, pat: Seq<char>)
    requires
        forall|j: int| !matches_at(s, pat, j),
    ensures
        first_match(s, pat) is None,
{
    lemma_first_match_props(s, pat);
    if let Some(i) = first_match(s, pat) {
        assert(matches_at(s, pat, i));
    }
}

/// The position of the first occurrence of `pat` in `s`, as
/// [`first_match`] describes.
pub fn find_str(s: &str, pat: &str) -> (r: Option<usize>)
    ensures
        match r {
            Some(i) => first_match(s@, pat@) == Some(i as int),
            None => first_match(s@, pat@) is None,
        },
{
    let n = s.unicode_len();
    let m = pat.unicode_len();
    if m > n {
        proof {
            lemma_first_match_none(s@, pat@);
        }
        return None;
    }
    let mut i: usize = 0;
    while i <= n - m
        invariant
            0 <= i <= n - m + 1,
            m <= n,
            n == s@.len(),
            m == pat@.len(),
            forall|j: int| 0 <= j < i ==> !matches_at(s@, pat@, j),
        decreases n - m + 1 - i,
    {
        let mut j: usize = 0;
        while j < m && s.get_char(i + j) == pat.get_char(j)
            invariant
                0 <= j <= m,
                i + m <= n,
                n == s@.len(),
                m == pat@.len(),
                forall|t: int| 0 <= t < j ==> s@[i + t] == pat@[t],
            decreases m - j,
        {
            j = j + 1;
        }
        if j == m {
            proof {
                assert(s@.subrange(i as int, i + m as int) =~= pat@);
                lemma_first_match_at(s@, pat@, i as int);
            }
            return Some(i);
        }
        proof {
            assert(s@[i + j] != pat@[j as int]);
            if matches_at(s@, pat@, i as int) {
                assert(s@.subrange(i as int, i + m as int)[j as int] == pat@[j as int]);
                assert(false);
            }
        }
        i = i + 1;
    }
    proof {
        assert forall|j: int| !matches_at(s@, pat@, j) by {
            if 0 <= j && j + pat@.len() <= s@.len() {
                assert(j < i);
            }
        }
        lemma_first_match_none(s@, pat@);
    }
    None
}

/// The pieces joined with `sep` between each neighbouring pair.
pub open spec fn spec_join(parts: Seq<Seq<char>>, sep: Seq<char>) -> Seq<char>
    decreases parts.len(),
{
    if parts.len() == 0 {
        Seq::empty()
    } else if parts.len() == 1 {
        parts[0]
    } else {
        parts[0] + sep + spec_join(parts.drop_first(), sep)
    }
}

proof fn lemma_join_push(parts: Seq<Seq<char>>, sep: Seq<char>, x: Seq<char>)
    ensures
        spec_join(parts.push(x), sep) == if parts.len() == 0 {
            x
        } else {
            spec_join(parts, sep) + sep + x
        },
    decreases parts.len(),
{
    let p = parts.push(x);
    if parts.len() == 0 {
        assert(p.len() == 1);
        assert(p[0] == x);
    } else if parts.len() == 1 {
        assert(p.len() == 2);
        assert(p.drop_first() =~= seq![x]);
        assert(spec_join(p, sep) == p[0] + sep + spec_join(p.drop_first(), sep));
        assert(spec_join(p.drop_first(), sep) == x);
        assert(p[0] == parts[0]);
        assert(spec_join(parts, sep) == parts[0]);
    } else {
        assert(p.drop_first() =~= parts.drop_first().push(x));
        lemma_join_push(parts.drop_first(), sep, x);
        assert(spec_join(p, sep) == p[0] + sep + (spec_join(parts.drop_first(), sep) + sep + x));
        assert(p[0] + sep + (spec_join(parts.drop_first(), sep) + sep + x) =~= (parts[0] + sep
            + spec_join(parts.drop_first(), sep)) + sep + x);
    }
}

/// Joins the strings with `sep` between each neighbouring pair, as
/// [`spec_join`] describes.
pub fn join(parts: &Vec<String>, sep: &str) -> (r: String)
    ensures
        r@ == spec_join(parts.deep_view(), sep@),
{
    let mut out = String::new();
    let mut i: usize = 0;
    while i < parts.len()
        invariant
            0 <= i <= parts.len(),
            out@ == spec_join(parts.deep_view().take(i as int), sep@),
        decreases parts.len() - i,
    {
        let ghost pre = parts.deep_view().take(i as int);
        if i > 0 {
            out.append(sep);
        }
        out.append(parts[i].as_str());
        proof {
            lemma_join_push(pre, sep@, parts.deep_view()[i as int]);
            assert(pre.push(parts.deep_view()[i as int]) =~= parts.deep_view().take(i + 1));
        }
        i = i + 1;
    }
    proof {
        assert(parts.deep_view().take(parts.len() as int) =~= parts.deep_view());
    }
    out
}

/// The decimal digit for a value between zero and nine.
pub open spec fn digit_char(d: int) -> char {
    if d == 0 {
        '0'
    } else if d == 1 {
        '1'
    } else if d == 2 {
        '2'
    } else if d == 3 {
        '3'
    } else if d == 4 {
        '4'
    } else if d == 5 {
        '5'
    } else if d == 6 {
        '6'
    } else if d == 7 {
        '7'
    } else if d == 8 {
        '8'
    } else {
        '9'
    }
}

/// The decimal digits of `n`, most significant first, with no sign and no
/// leading zero except for `n == 0` itself.
pub open spec fn dec_digits(n: nat) -> Seq<char>
    decreases n,
{
    if n < 10 {
        seq![digit_char(n as int)]
    } else {
        dec_digits(n / 10) + seq![digit_char((n % 10) as int)]
    }
}

fn digit_str(d: u64) -> (r: &'static str)
    requires
        d < 10,
    ensures
        r@ == seq![digit_char(d as int)],
{
    let r: &'static str = if d == 0 {
        "0"
    } else if d == 1 {
        "1"
    } else if d == 2 {
        "2"
    } else if d == 3 {
        "3"
    } else if d == 4 {
        "4"
    } else if d == 5 {
        "5"
    } else if d == 6 {
        "6"
    } else if d == 7 {
        "7"
    } else if d == 8 {
        "8"
    } else {
        "9"
    };
    proof {
        reveal_strlit("0");
        reveal_strlit("1");
        reveal_strlit("2");
        reveal_strlit("3");
        reveal_strlit("4");
        reveal_strlit("5");
        reveal_strlit("6");
        reveal_strlit("7");
        reveal_strlit("8");
        reveal_strlit("9");
        assert(r@ =~= seq![digit_char(d as int)]);
    }
    r
}

/// Renders `n` in decimal, as [`dec_digits`] describes.
pub fn u64_to_string(n: u64) -> (r: String)
    ensures
        r@ == dec_digits(n as nat),
    decreases n,
{
    if n < 10 {
        String::from_str(digit_str(n))
    } else {
        let mut s = u64_to_string(n / 10);
        s.append(digit_str(n % 10));
        s
    }
}

/// Renders `n` in decimal, as [`dec_digits`] describes.
pub fn usize_to_string(n: usize) -> (r: String)
    ensures
        r@ == dec_digits(n as nat),
{
    u64_to_string(n as u64)
}

/// `s` left-padded with zeroes to at least `w` characters.
pub open spec fn spec_zero_pad(s: Seq<char>, w: nat) -> Seq<char> {
    if s.len() >= w {
        s
    } else {
        Seq::new((w - s.len()) as nat, |i: int| '0') + s
    }
}

/// Left-pads `s` with zeroes to at least `w` characters, as
/// [`spec_zero_pad`] describes.
pub fn zero_pad(s: &str, w: usize) -> (r: String)
    ensures
        r@ == spec_zero_pad(s@, w as nat),
{
    let n = s.unicode_len();
    if n >= w {
        return String::from_str(s);
    }
    let mut out = String::new();
    let mut i: usize = 0;
    while i < w - n
        invariant
            0 <= i <= w - n,
            n == s@.len(),
            n < w,
            out@ == Seq::new(i as nat, |k: int| '0'),
        decreases w - n - i,
    {
        out.append("0");
        proof {
            reveal_strlit("0");
            assert(out@ =~= Seq::new((i + 1) as nat, |k: int| '0'));
        }
        i = i + 1;
    }
    out.append(s);
    out
}

/// `s` right-padded with spaces to at least `w` characters.
pub open spec fn spec_pad(s: Seq<char>, w: nat) -> Seq<char> {
    if s.len() >= w {
        s
    } else {
        s + Seq::new((w - s.len()) as nat, |i: int| ' ')
    }
}

} // verus!
