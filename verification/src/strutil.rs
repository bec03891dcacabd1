//! Verified string utilities: substring search, prefix/suffix tests,
//! trimming, line splitting, and decimal formatting/parsing.
//!
//! Everything here is stated over `Seq<char>` views, so the rest of the
//! library can give exact contracts for its text handling.

use vstd::prelude::*;

verus! {

/// The whitespace characters recognised by [`trim`].
pub open spec fn is_space_char(c: char) -> bool {
    c == ' ' || c == '\t' || c == '\n' || c == '\r'
}

/// `p` occurs in `s` starting at index `i`.
pub open spec fn contains_at(s: Seq<char>, p: Seq<char>, i: int) -> bool {
    &&& 0 <= i
    &&& i + p.len() <= s.len()
    &&& forall|j: int| 0 <= j < p.len() ==> s[i + j] == p[j]
}

/// `p` occurs somewhere in `s`.
pub open spec fn spec_contains(s: Seq<char>, p: Seq<char>) -> bool {
    exists|i: int| contains_at(s, p, i)
}

/// `s` starts with `p`.
pub open spec fn spec_starts_with(s: Seq<char>, p: Seq<char>) -> bool {
    contains_at(s, p, 0)
}

/// `s` ends with `p`.
pub open spec fn spec_ends_with(s: Seq<char>, p: Seq<char>) -> bool {
    p.len() <= s.len() && contains_at(s, p, s.len() - p.len())
}

/// Whether the characters of `s` and `t` agree; equality of the views.
pub fn str_eq(s: &str, t: &str) -> (r: bool)
    ensures
        r == (s@ == t@),
{
    let n = s.unicode_len();
    if n != t.unicode_len() {
        proof {
            assert(s@ != t@) by {
                if s@ == t@ {
                    assert(s@.len() == t@.len());
                }
            }
        }
        return false;
    }
    let mut i: usize = 0;
    while i < n
        invariant
            n == s@.len(),
            n == t@.len(),
            0 <= i <= n,
            forall|j: int| 0 <= j < i ==> s@[j] == t@[j],
        decreases n - i,
    {
        if s.get_char(i) != t.get_char(i) {
            return false;
        }
        i = i + 1;
    }
    proof {
        assert(s@ =~= t@);
    }
    true
}

/// Whether `p` occurs in `s` starting at index `i`.
pub fn matches_at(s: &str, p: &str, i: usize) -> (r: bool)
    requires
        i + p@.len() <= s@.len(),
    ensures
        r == contains_at(s@, p@, i as int),
{
    let n = s.unicode_len();
    let m = p.unicode_len();
    let mut j: usize = 0;
    while j < m
        invariant
            n == s@.len(),
            m == p@.len(),
            i + m <= n,
            0 <= j <= m,
            forall|k: int| 0 <= k < j ==> s@[i + k] == p@[k],
        decreases m - j,
    {
        if s.get_char(i + j) != p.get_char(j) {
            return false;
        }
        j = j + 1;
    }
    true
}

/// Substring search: whether `p` occurs anywhere in `s`.
pub fn contains(s: &str, p: &str) -> (r: bool)
    ensures
        r == spec_contains(s@, p@),
{
    let n = s.unicode_len();
    let m = p.unicode_len();
    if m > n {
        proof {
            assert(!spec_contains(s@, p@)) by {
                if exists|i: int| contains_at(s@, p@, i) {
                    let i = choose|i: int| contains_at(s@, p@, i);
                }
            }
        }
        return false;
    }
    if m == 0 {
        proof {
            assert(contains_at(s@, p@, 0));
        }
        return true;
    }
    let mut i: usize = 0;
    while i < n - m + 1
        invariant
            n == s@.len(),
            m == p@.len(),
            0 < m <= n,
            0 <= i <= n - m + 1,
            forall|k: int| 0 <= k < i ==> !contains_at(s@, p@, k),
        decreases n - m + 1 - i,
    {
        if matches_at(s, p, i) {
            return true;
        }
        i = i + 1;
    }
    proof {
        assert(!spec_contains(s@, p@)) by {
            if exists|k: int| contains_at(s@, p@, k) {
                let k = choose|k: int| contains_at(s@, p@, k);
                assert(k <= n - m);
            }
        }
    }
    false
}

/// Whether `s` starts with `p`.
pub fn starts_with(s: &str, p: &str) -> (r: bool)
    ensures
        r == spec_starts_with(s@, p@),
{
    if p.unicode_len() > s.unicode_len() {
        return false;
    }
    matches_at(s, p, 0)
}

/// Whether `s` ends with `p`.
pub fn ends_with(s: &str, p: &str) -> (r: bool)
    ensures
        r == spec_ends_with(s@, p@),
{
    let n = s.unicode_len();
    let m = p.unicode_len();
    if m > n {
        return false;
    }
    matches_at(s, p, n - m)
}

/// `s` with leading whitespace removed.
pub open spec fn spec_trim_start(s: Seq<char>) -> Seq<char>
    decreases s.len(),
{
    if s.len() > 0 && is_space_char(s[0]) {
        spec_trim_start(s.drop_first())
    } else {
        s
    }
}

/// `s` with trailing whitespace removed.
pub open spec fn spec_trim_end(s: Seq<char>) -> Seq<char>
    decreases s.len(),
{
    if s.len() > 0 && is_space_char(s[s.len() - 1]) {
        spec_trim_end(s.drop_last())
    } else {
        s
    }
}

/// `s` with whitespace removed from both ends.
pub open spec fn spec_trim(s: Seq<char>) -> Seq<char> {
    spec_trim_end(spec_trim_start(s))
}

proof fn lemma_trim_start_idx(s: Seq<char>, i: int)
    requires
        0 <= i <= s.len(),
        forall|j: int| 0 <= j < i ==> is_space_char(s[j]),
        i == s.len() || !is_space_char(s[i]),
    ensures
        spec_trim_start(s) == s.subrange(i, s.len() as int),
    decreases i,
{
    if i == 0 {
        assert(s.subrange(0, s.len() as int) =~= s);
    } else {
        lemma_trim_start_idx(s.drop_first(), i - 1);
        assert(s.drop_first().subrange(i - 1, s.drop_first().len() as int) =~= s.subrange(
            i,
            s.len() as int,
        ));
    }
}

proof fn lemma_trim_end_idx(s: Seq<char>, i: int)
    requires
        0 <= i <= s.len(),
        forall|j: int| i <= j < s.len() ==> is_space_char(s[j]),
        i == 0 || !is_space_char(s[i - 1]),
    ensures
        spec_trim_end(s) == s.subrange(0, i),
    decreases s.len(),
{
    if i == s.len() {
        assert(spec_trim_end(s) == s);
        assert(s.subrange(0, i) =~= s);
    } else {
        lemma_trim_end_idx(s.drop_last(), i);
        assert(s.drop_last().subrange(0, i) =~= s.subrange(0, i));
    }
}

/// Whether `c` is one of the whitespace characters recognised here.
pub fn is_space(c: char) -> (r: bool)
    ensures
        r == is_space_char(c),
{
    c == ' ' || c == '\t' || c == '\n' || c == '\r'
}

/// `s` with whitespace removed from both ends.
pub fn trim(s: &str) -> (r: &str)
    ensures
        r@ == spec_trim(s@),
{
    let n = s.unicode_len();
    let mut a: usize = 0;
    while a < n && is_space(s.get_char(a))
        invariant
            n == s@.len(),
            0 <= a <= n,
            forall|j: int| 0 <= j < a ==> is_space_char(s@[j]),
        decreases n - a,
    {
        a = a + 1;
    }
    let mut b: usize = n;
    while b > a && is_space(s.get_char(b - 1))
        invariant
            n == s@.len(),
            a <= b <= n,
            forall|j: int| b <= j < n ==> is_space_char(s@[j]),
        decreases b,
    {
        b = b - 1;
    }
    let r = s.substring_char(a, b);
    proof {
        lemma_trim_start_idx(s@, a as int);
        let t = s@.subrange(a as int, n as int);
        lemma_trim_end_idx(t, b - a);
        assert(t.subrange(0, b - a) =~= s@.subrange(a as int, b as int));
    }
    r
}

/// Index of the first newline in `s`, or `-1` if there is none.
pub open spec fn first_newline(s: Seq<char>) -> int
    decreases s.len(),
{
    if s.len() == 0 {
        -1
    } else if s[0] == '\n' {
        0
    } else {
        let r = first_newline(s.drop_first());
        if r < 0 {
            -1
        } else {
            r + 1
        }
    }
}

/// A line with a trailing carriage return removed.
pub open spec fn strip_cr(t: Seq<char>) -> Seq<char> {
    if t.len() > 0 && t[t.len() - 1] == '\r' {
        t.drop_last()
    } else {
        t
    }
}

/// The lines of `s`: split at `'\n'`, each line stripped of a trailing
/// `'\r'`, with no empty final line when `s` ends in a newline.
pub open spec fn spec_lines(s: Seq<char>) -> Seq<Seq<char>>
    decreases s.len(),
{
    if s.len() == 0 {
        Seq::empty()
    } else {
        let i = first_newline(s);
        if i < 0 || i >= s.len() {
            seq![strip_cr(s)]
        } else {
            seq![strip_cr(s.subrange(0, i))] + spec_lines(s.subrange(i + 1, s.len() as int))
        }
    }
}

proof fn lemma_first_newline_none(s: Seq<char>)
    requires
        forall|j: int| 0 <= j < s.len() ==> s[j] != '\n',
    ensures
        first_newline(s) == -1,
    decreases s.len(),
{
    if s.len() > 0 {
        lemma_first_newline_none(s.drop_first());
    }
}

proof fn lemma_first_newline_at(s: Seq<char>, i: int)
    requires
        0 <= i < s.len(),
        s[i] == '\n',
        forall|j: int| 0 <= j < i ==> s[j] != '\n',
    ensures
        first_newline(s) == i,
    decreases i,
{
    if i > 0 {
        lemma_first_newline_at(s.drop_first(), i - 1);
    }
}

/// One step of the line decomposition: if the characters up to `i` hold no
/// newline and `s[i]` is one, the first line splits off there.
proof fn lemma_lines_step(s: Seq<char>, i: int)
    requires
        0 <= i < s.len(),
        s[i] == '\n',
        forall|j: int| 0 <= j < i ==> s[j] != '\n',
    ensures
        spec_lines(s) == seq![strip_cr(s.subrange(0, i))] + spec_lines(
            s.subrange(i + 1, s.len() as int),
        ),
{
    lemma_first_newline_at(s, i);
}

/// A nonempty string without newlines is a single line.
proof fn lemma_lines_last(s: Seq<char>)
    requires
        s.len() > 0,
        forall|j: int| 0 <= j < s.len() ==> s[j] != '\n',
    ensures
        spec_lines(s) == seq![strip_cr(s)],
{
    lemma_first_newline_none(s);
}

/// The views of a vector of strings.
pub open spec fn views_of(v: Seq<String>) -> Seq<Seq<char>> {
    v.map_values(|x: String| x@)
}

/// Split `s` into lines, as [`spec_lines`] describes.
pub fn split_lines(s: &str) -> (r: Vec<String>)
    ensures
        views_of(r@) == spec_lines(s@),
{
    let n = s.unicode_len();
    let mut res: Vec<String> = Vec::new();
    let mut start: usize = 0;
    let mut i: usize = 0;
    proof {
        assert(s@.subrange(0, n as int) =~= s@);
        assert(views_of(res@) + spec_lines(s@) =~= spec_lines(s@));
    }
    while i < n
        invariant
            n == s@.len(),
            0 <= start <= i <= n,
            forall|j: int| start <= j < i ==> s@[j] != '\n',
            spec_lines(s@) == views_of(res@) + spec_lines(s@.subrange(start as int, n as int)),
        decreases n - i,
    {
        if s.get_char(i) == '\n' {
            let e = if i > start && s.get_char(i - 1) == '\r' {
                i - 1
            } else {
                i
            };
            let line = s.substring_char(start, e);
            let ghost old_res = res@;
            res.push(line.to_owned());
            proof {
                let rest = s@.subrange(start as int, n as int);
                lemma_lines_step(rest, i - start);
                assert(rest.subrange(0, i - start) =~= s@.subrange(start as int, i as int));
                assert(rest.subrange(i - start + 1, rest.len() as int) =~= s@.subrange(
                    i + 1,
                    n as int,
                ));
                assert(strip_cr(s@.subrange(start as int, i as int)) =~= s@.subrange(
                    start as int,
                    e as int,
                ));
                assert(views_of(res@) =~= views_of(old_res).push(line@));
                assert(views_of(res@) + spec_lines(s@.subrange(i + 1, n as int)) =~= views_of(
                    old_res,
                ) + (seq![strip_cr(s@.subrange(start as int, i as int))] + spec_lines(
                    s@.subrange(i + 1, n as int),
                )));
            }
            start = i + 1;
        }
        i = i + 1;
    }
    if start < n {
        let e = if s.get_char(n - 1) == '\r' {
            n - 1
        } else {
            n
        };
        let line = s.substring_char(start, e);
        let ghost old_res = res@;
        res.push(line.to_owned());
        proof {
            let rest = s@.subrange(start as int, n as int);
            lemma_lines_last(rest);
            assert(strip_cr(rest) =~= s@.subrange(start as int, e as int));
            assert(views_of(res@) =~= views_of(old_res).push(line@));
            assert(views_of(old_res) + seq![strip_cr(rest)] =~= views_of(res@));
        }
    } else {
        proof {
            assert(s@.subrange(start as int, n as int) =~= Seq::<char>::empty());
            assert(views_of(res@) + spec_lines(Seq::<char>::empty()) =~= views_of(res@));
        }
    }
    res
}

/// `s` with every leading repetition of `p` removed.
pub open spec fn spec_strip_prefix_all(s: Seq<char>, p: Seq<char>) -> Seq<char>
    decreases s.len(),
{
    if p.len() > 0 && spec_starts_with(s, p) {
        spec_strip_prefix_all(s.skip(p.len() as int), p)
    } else {
        s
    }
}

/// `s` with every trailing repetition of `p` removed.
pub open spec fn spec_strip_suffix_all(s: Seq<char>, p: Seq<char>) -> Seq<char>
    decreases s.len(),
{
    if p.len() > 0 && spec_ends_with(s, p) {
        spec_strip_suffix_all(s.take(s.len() - p.len()), p)
    } else {
        s
    }
}

/// `s` with every leading repetition of `p` removed.
pub fn strip_prefix_all<'a>(s: &'a str, p: &str) -> (r: &'a str)
    requires
        p@.len() > 0,
    ensures
        r@ == spec_strip_prefix_all(s@, p@),
{
    let n = s.unicode_len();
    let m = p.unicode_len();
    let mut a: usize = 0;
    proof {
        assert(s@.skip(0) =~= s@);
    }
    while m <= n && a <= n - m && matches_at(s, p, a)
        invariant
            n == s@.len(),
            m == p@.len(),
            m > 0,
            0 <= a <= n,
            spec_strip_prefix_all(s@, p@) == spec_strip_prefix_all(s@.skip(a as int), p@),
        decreases n - a,
    {
        proof {
            let t = s@.skip(a as int);
            assert(spec_starts_with(t, p@)) by {
                assert forall|j: int| 0 <= j < p@.len() implies t[j] == p@[j] by {
                    assert(s@[a + j] == p@[j]);
                }
            }
            assert(t.skip(m as int) =~= s@.skip(a + m));
        }
        a = a + m;
    }
    proof {
        let t = s@.skip(a as int);
        if p@.len() > 0 && spec_starts_with(t, p@) {
            assert(a + m <= n);
            assert(contains_at(s@, p@, a as int)) by {
                assert forall|j: int| 0 <= j < p@.len() implies s@[a + j] == p@[j] by {
                    assert(t[j] == p@[j]);
                }
            }
            assert(false);
        }
        assert(spec_strip_prefix_all(t, p@) == t);
        assert(s@.skip(a as int) =~= s@.subrange(a as int, n as int));
    }
    s.substring_char(a, n)
}

/// `s` with every trailing repetition of `p` removed.
pub fn strip_suffix_all<'a>(s: &'a str, p: &str) -> (r: &'a str)
    requires
        p@.len() > 0,
    ensures
        r@ == spec_strip_suffix_all(s@, p@),
{
    let n = s.unicode_len();
    let m = p.unicode_len();
    let mut b: usize = n;
    proof {
        assert(s@.take(n as int) =~= s@);
    }
    while b >= m && matches_at(s, p, b - m)
        invariant
            n == s@.len(),
            m == p@.len(),
            m > 0,
            0 <= b <= n,
            spec_strip_suffix_all(s@, p@) == spec_strip_suffix_all(s@.take(b as int), p@),
        decreases b,
    {
        proof {
            let t = s@.take(b as int);
            assert(spec_ends_with(t, p@)) by {
                assert forall|j: int| 0 <= j < p@.len() implies t[b - m + j] == p@[j] by {
                    assert(s@[b - m + j] == p@[j]);
                }
            }
            assert(t.take(t.len() - p@.len()) =~= s@.take(b - m));
        }
        b = b - m;
    }
    proof {
        let t = s@.take(b as int);
        if p@.len() > 0 && spec_ends_with(t, p@) {
            assert(b >= m);
            assert(contains_at(s@, p@, b - m)) by {
                assert forall|j: int| 0 <= j < p@.len() implies s@[b - m + j] == p@[j] by {
                    assert(t[b - m + j] == p@[j]);
                }
            }
            assert(false);
        }
        assert(spec_strip_suffix_all(t, p@) == t);
        assert(s@.take(b as int) =~= s@.subrange(0, b as int));
    }
    s.substring_char(0, b)
}

/// Whether `x` is among the views of `v`.
pub fn contains_name(v: &Vec<String>, x: &str) -> (r: bool)
    ensures
        r == views_of(v@).contains(x@),
{
    let n = v.len();
    let mut i: usize = 0;
    while i < n
        invariant
            n == v@.len(),
            0 <= i <= n,
            forall|k: int| 0 <= k < i ==> views_of(v@)[k] != x@,
        decreases n - i,
    {
        if str_eq(v[i].as_str(), x) {
            proof {
                assert(views_of(v@)[i as int] == x@);
            }
            return true;
        }
        i = i + 1;
    }
    proof {
        if views_of(v@).contains(x@) {
            let k = choose|k: int| 0 <= k < views_of(v@).len() && views_of(v@)[k] == x@;
        }
    }
    false
}

/// Index of the first occurrence of `c` in `s`, or `-1` if there is none.
pub open spec fn spec_find_char(s: Seq<char>, c: char) -> int
    decreases s.len(),
{
    if s.len() == 0 {
        -1
    } else if s[0] == c {
        0
    } else {
        let r = spec_find_char(s.drop_first(), c);
        if r < 0 {
            -1
        } else {
            r + 1
        }
    }
}

proof fn lemma_find_char_at(s: Seq<char>, c: char, i: int)
    requires
        0 <= i <= s.len(),
        forall|j: int| 0 <= j < i ==> s[j] != c,
        i == s.len() || s[i] == c,
    ensures
        spec_find_char(s, c) == (if i == s.len() {
            -1
        } else {
            i
        }),
    decreases i,
{
    if i > 0 {
        lemma_find_char_at(s.drop_first(), c, i - 1);
    }
}

/// The index of the first occurrence of `c` in `s`, if any.
pub fn find_char(s: &str, c: char) -> (r: Option<usize>)
    ensures
        match r {
            Some(i) => 0 <= i < s@.len() && spec_find_char(s@, c) == i,
            None => spec_find_char(s@, c) == -1,
        },
{
    let n = s.unicode_len();
    let mut i: usize = 0;
    while i < n
        invariant
            n == s@.len(),
            0 <= i <= n,
            forall|j: int| 0 <= j < i ==> s@[j] != c,
        decreases n - i,
    {
        if s.get_char(i) == c {
            proof {
                lemma_find_char_at(s@, c, i as int);
            }
            return Some(i);
        }
        i = i + 1;
    }
    proof {
        lemma_find_char_at(s@, c, n as int);
    }
    None
}

/// `s` with every leading and trailing repetition of `c` removed.
pub open spec fn spec_trim_char(s: Seq<char>, c: char) -> Seq<char> {
    spec_trim_char_end(spec_trim_char_start(s, c), c)
}

pub open spec fn spec_trim_char_start(s: Seq<char>, c: char) -> Seq<char>
    decreases s.len(),
{
    if s.len() > 0 && s[0] == c {
        spec_trim_char_start(s.drop_first(), c)
    } else {
        s
    }
}

pub open spec fn spec_trim_char_end(s: Seq<char>, c: char) -> Seq<char>
    decreases s.len(),
{
    if s.len() > 0 && s[s.len() - 1] == c {
        spec_trim_char_end(s.drop_last(), c)
    } else {
        s
    }
}

proof fn lemma_trim_char_start_idx(s: Seq<char>, c: char, i: int)
    requires
        0 <= i <= s.len(),
        forall|j: int| 0 <= j < i ==> s[j] == c,
        i == s.len() || s[i] != c,
    ensures
        spec_trim_char_start(s, c) == s.subrange(i, s.len() as int),
    decreases i,
{
    if i == 0 {
        assert(s.subrange(0, s.len() as int) =~= s);
    } else {
        lemma_trim_char_start_idx(s.drop_first(), c, i - 1);
        assert(s.drop_first().subrange(i - 1, s.drop_first().len() as int) =~= s.subrange(
            i,
            s.len() as int,
        ));
    }
}

proof fn lemma_trim_char_end_idx(s: Seq<char>, c: char, i: int)
    requires
        0 <= i <= s.len(),
        forall|j: int| i <= j < s.len() ==> s[j] == c,
        i == 0 || s[i - 1] != c,
    ensures
        spec_trim_char_end(s, c) == s.subrange(0, i),
    decreases s.len(),
{
    if i == s.len() {
        assert(s.subrange(0, i) =~= s);
    } else {
        lemma_trim_char_end_idx(s.drop_last(), c, i);
        assert(s.drop_last().subrange(0, i) =~= s.subrange(0, i));
    }
}

/// `s` with every leading and trailing repetition of `c` removed.
pub fn trim_char<'a>(s: &'a str, c: char) -> (r: &'a str)
    ensures
        r@ == spec_trim_char(s@, c),
{
    let n = s.unicode_len();
    let mut a: usize = 0;
    while a < n && s.get_char(a) == c
        invariant
            n == s@.len(),
            0 <= a <= n,
            forall|j: int| 0 <= j < a ==> s@[j] == c,
        decreases n - a,
    {
        a = a + 1;
    }
    let mut b: usize = n;
    while b > a && s.get_char(b - 1) == c
        invariant
            n == s@.len(),
            a <= b <= n,
            forall|j: int| b <= j < n ==> s@[j] == c,
        decreases b,
    {
        b = b - 1;
    }
    let r = s.substring_char(a, b);
    proof {
        lemma_trim_char_start_idx(s@, c, a as int);
        let t = s@.subrange(a as int, n as int);
        lemma_trim_char_end_idx(t, c, b - a);
        assert(t.subrange(0, b - a) =~= s@.subrange(a as int, b as int));
    }
    r
}


/// `s` with every leading repetition of `c` removed.
pub fn strip_char_start<'a>(s: &'a str, c: char) -> (r: &'a str)
    ensures
        r@ == spec_trim_char_start(s@, c),
{
    let n = s.unicode_len();
    let mut a: usize = 0;
    while a < n && s.get_char(a) == c
        invariant
            n == s@.len(),
            0 <= a <= n,
            forall|j: int| 0 <= j < a ==> s@[j] == c,
        decreases n - a,
    {
        a = a + 1;
    }
    let r = s.substring_char(a, n);
    proof {
        lemma_trim_char_start_idx(s@, c, a as int);
    }
    r
}

/// The character for a decimal digit value.
pub open spec fn digit_char(d: int) -> char {
    if d == 0 {
        '0'
    } else if d == 1 {
        '1'
    } else if d == 2 {
        '2'
    } else if d == 3 {
        '3'
    } else if d == 4 {
        '4'
    } else if d == 5 {
        '5'
    } else if d == 6 {
        '6'
    } else if d == 7 {
        '7'
    } else if d == 8 {
        '8'
    } else {
        '9'
    }
}

/// Whether `c` is a decimal digit.
pub open spec fn is_digit_char(c: char) -> bool {
    c == '0' || c == '1' || c == '2' || c == '3' || c == '4' || c == '5' || c == '6' || c == '7'
        || c == '8' || c == '9'
}

/// The value of a decimal digit character.
pub open spec fn digit_val(c: char) -> int {
    if c == '0' {
        0
    } else if c == '1' {
        1
    } else if c == '2' {
        2
    } else if c == '3' {
        3
    } else if c == '4' {
        4
    } else if c == '5' {
        5
    } else if c == '6' {
        6
    } else if c == '7' {
        7
    } else if c == '8' {
        8
    } else {
        9
    }
}

/// The canonical decimal rendering of `n`: no sign, no leading zeros.
pub open spec fn spec_dec(n: nat) -> Seq<char>
    decreases n,
{
    if n < 10 {
        seq![digit_char(n as int)]
    } else {
        spec_dec(n / 10).push(digit_char((n % 10) as int))
    }
}

/// All characters of `s` are decimal digits.
pub open spec fn all_digits(s: Seq<char>) -> bool {
    forall|i: int| 0 <= i < s.len() ==> is_digit_char(s[i])
}

/// The numeric value of a digit string.
pub open spec fn dec_val(s: Seq<char>) -> int
    decreases s.len(),
{
    if s.len() == 0 {
        0
    } else {
        dec_val(s.drop_last()) * 10 + digit_val(s.last())
    }
}

/// `s` is the canonical decimal rendering of some number: nonempty, all
/// digits, and no leading zero.
pub open spec fn is_canonical_dec(s: Seq<char>) -> bool {
    s.len() > 0 && all_digits(s) && (s.len() == 1 || s[0] != '0')
}

/// What [`parse_u64`] returns: the value of a canonical decimal string
/// that fits in a `u64`, and nothing else.
pub open spec fn spec_parse_u64(s: Seq<char>) -> Option<u64> {
    if is_canonical_dec(s) && dec_val(s) <= u64::MAX {
        Some(dec_val(s) as u64)
    } else {
        None
    }
}

/// What [`parse_u64_digits`] returns: as [`spec_parse_u64`], but leading
/// zeros are allowed.
pub open spec fn spec_parse_u64_digits(s: Seq<char>) -> Option<u64> {
    if s.len() > 0 && all_digits(s) && dec_val(s) <= u64::MAX {
        Some(dec_val(s) as u64)
    } else {
        None
    }
}

/// A one-character string for a digit value.
pub fn digit_str(d: u64) -> (r: &'static str)
    requires
        d < 10,
    ensures
        r@ == seq![digit_char(d as int)],
{
    let r: &'static str = if d == 0 {
        "0"
    } else if d == 1 {
        "1"
    } else if d == 2 {
        "2"
    } else if d == 3 {
        "3"
    } else if d == 4 {
        "4"
    } else if d == 5 {
        "5"
    } else if d == 6 {
        "6"
    } else if d == 7 {
        "7"
    } else if d == 8 {
        "8"
    } else {
        "9"
    };
    proof {
        reveal_strlit("0");
        reveal_strlit("1");
        reveal_strlit("2");
        reveal_strlit("3");
        reveal_strlit("4");
        reveal_strlit("5");
        reveal_strlit("6");
        reveal_strlit("7");
        reveal_strlit("8");
        reveal_strlit("9");
        assert(r@ =~= seq![digit_char(d as int)]);
    }
    r
}

/// The canonical decimal rendering of `n`.
pub fn u64_to_string(n: u64) -> (r: String)
    ensures
        r@ == spec_dec(n as nat),
    decreases n,
{
    if n < 10 {
        digit_str(n).to_owned()
    } else {
        let q = n / 10;
        proof {
            vstd::arithmetic::div_mod::lemma_div_is_strictly_smaller(n as int, 10);
        }
        let mut s = u64_to_string(q);
        s.append(digit_str(n % 10));
        proof {
            assert(s@ =~= spec_dec(n as nat));
        }
        s
    }
}

/// The value of a digit character.
pub fn digit_of(c: char) -> (r: Option<u64>)
    ensures
        r is Some <==> is_digit_char(c),
        r is Some ==> r->0 == digit_val(c) && r->0 < 10,
{
    if c == '0' {
        Some(0)
    } else if c == '1' {
        Some(1)
    } else if c == '2' {
        Some(2)
    } else if c == '3' {
        Some(3)
    } else if c == '4' {
        Some(4)
    } else if c == '5' {
        Some(5)
    } else if c == '6' {
        Some(6)
    } else if c == '7' {
        Some(7)
    } else if c == '8' {
        Some(8)
    } else if c == '9' {
        Some(9)
    } else {
        None
    }
}

proof fn lemma_dec_val_nonneg(s: Seq<char>)
    requires
        all_digits(s),
    ensures
        dec_val(s) >= 0,
    decreases s.len(),
{
    if s.len() > 0 {
        assert(all_digits(s.drop_last()));
        lemma_dec_val_nonneg(s.drop_last());
        assert(digit_val(s.last()) >= 0);
        assert(dec_val(s.drop_last()) * 10 >= 0) by (nonlinear_arith)
            requires
                dec_val(s.drop_last()) >= 0,
        ;
    }
}

proof fn lemma_dec_val_take_step(s: Seq<char>, i: int)
    requires
        0 <= i < s.len(),
    ensures
        dec_val(s.subrange(0, i + 1)) == dec_val(s.subrange(0, i)) * 10 + digit_val(s[i]),
{
    let t = s.subrange(0, i + 1);
    assert(t.drop_last() =~= s.subrange(0, i));
    assert(t.last() == s[i]);
}

/// Parse a canonical decimal string: all digits, no leading zero, value
/// within `u64` range; anything else is `None`.
pub fn parse_u64(s: &str) -> (r: Option<u64>)
    ensures
        r == spec_parse_u64(s@),
{
    let n = s.unicode_len();
    if n == 0 {
        return None;
    }
    if n > 1 && s.get_char(0) == '0' {
        return None;
    }
    parse_digits_loop(s)
}

/// Parse a digit string, leading zeros allowed; `None` when empty, when a
/// character is not a digit, or on overflow.
pub fn parse_u64_digits(s: &str) -> (r: Option<u64>)
    ensures
        r == spec_parse_u64_digits(s@),
{
    let n = s.unicode_len();
    if n == 0 {
        return None;
    }
    parse_digits_loop(s)
}

fn parse_digits_loop(s: &str) -> (r: Option<u64>)
    requires
        s@.len() > 0,
    ensures
        match r {
            Some(v) => all_digits(s@) && dec_val(s@) == v,
            None => !(all_digits(s@) && dec_val(s@) <= u64::MAX),
        },
{
    let n = s.unicode_len();
    let mut val: u64 = 0;
    let mut i: usize = 0;
    proof {
        assert(s@.subrange(0, 0) =~= Seq::<char>::empty());
    }
    while i < n
        invariant
            n == s@.len(),
            0 <= i <= n,
            all_digits(s@.subrange(0, i as int)),
            val == dec_val(s@.subrange(0, i as int)),
        decreases n - i,
    {
        let c = s.get_char(i);
        let d = match digit_of(c) {
            Some(d) => d,
            None => {
                return None;
            },
        };
        if val > (u64::MAX - d) / 10 {
            proof {
                assert(val * 10 + d > u64::MAX) by (nonlinear_arith)
                    requires
                        val > (u64::MAX - d) / 10,
                        d < 10,
                ;
                lemma_dec_val_take_step(s@, i as int);
                if all_digits(s@) {
                    assert(all_digits(s@.subrange(0, i + 1)));
                    lemma_dec_val_nonneg(s@.subrange(0, i + 1));
                    lemma_dec_val_grows(s@, i + 1);
                }
            }
            return None;
        }
        proof {
            assert(val * 10 + d <= u64::MAX) by (nonlinear_arith)
                requires
                    val <= (u64::MAX - d) / 10,
                    d < 10,
            ;
            lemma_dec_val_take_step(s@, i as int);
        }
        val = val * 10 + d;
        proof {
            assert(all_digits(s@.subrange(0, i + 1)));
        }
        i = i + 1;
    }
    proof {
        assert(s@.subrange(0, n as int) =~= s@);
    }
    Some(val)
}

/// Once a prefix of a digit string exceeds `u64::MAX`, the whole string
/// does.
proof fn lemma_dec_val_grows(s: Seq<char>, i: int)
    requires
        0 <= i <= s.len(),
        all_digits(s.subrange(0, i)),
        forall|j: int| i <= j < s.len() ==> is_digit_char(s[j]),
        dec_val(s.subrange(0, i)) >= 0,
    ensures
        dec_val(s) >= dec_val(s.subrange(0, i)),
    decreases s.len() - i,
{
    if i == s.len() {
        assert(s.subrange(0, i) =~= s);
    } else {
        lemma_dec_val_take_step(s, i);
        assert(dec_val(s.subrange(0, i + 1)) >= dec_val(s.subrange(0, i))) by (nonlinear_arith)
            requires
                dec_val(s.subrange(0, i + 1)) == dec_val(s.subrange(0, i)) * 10 + digit_val(s[i]),
                dec_val(s.subrange(0, i)) >= 0,
                digit_val(s[i]) >= 0,
        ;
        assert(all_digits(s.subrange(0, i + 1)));
        lemma_dec_val_grows(s, i + 1);
    }
}

/// The canonical rendering consists of digits with no leading zero.
pub proof fn lemma_dec_canonical(n: nat)
    ensures
        is_canonical_dec(spec_dec(n)),
        n > 0 ==> spec_dec(n)[0] != '0',
    decreases n,
{
    if n < 10 {
    } else {
        vstd::arithmetic::div_mod::lemma_div_is_strictly_smaller(n as int, 10);
        assert(n / 10 >= 1) by (nonlinear_arith)
            requires
                n >= 10,
        ;
        lemma_dec_canonical(n / 10);
        let t = spec_dec(n);
        let h = spec_dec(n / 10);
        assert(t =~= h + seq![digit_char((n % 10) as int)]);
        assert forall|i: int| 0 <= i < t.len() implies is_digit_char(t[i]) by {
            if i < h.len() {
                assert(t[i] == h[i]);
            }
        }
    }
}

/// Rendering and parsing a `u64` round-trips.
pub proof fn lemma_dec_roundtrip(n: u64)
    ensures
        spec_parse_u64(spec_dec(n as nat)) == Some(n),
        spec_parse_u64_digits(spec_dec(n as nat)) == Some(n),
{
    lemma_dec_canonical(n as nat);
    lemma_dec_val_of_dec(n as nat);
}

/// A nonempty digit string without a leading zero has a positive value.
proof fn lemma_dec_val_positive(s: Seq<char>)
    requires
        s.len() >= 1,
        all_digits(s),
        s[0] != '0',
    ensures
        dec_val(s) >= 1,
    decreases s.len(),
{
    if s.len() == 1 {
        assert(s.drop_last() =~= Seq::<char>::empty());
        assert(dec_val(s) == dec_val(s.drop_last()) * 10 + digit_val(s.last()));
        assert(s.last() == s[0]);
        assert(is_digit_char(s[0]));
    } else {
        let h = s.drop_last();
        assert(all_digits(h));
        assert(h[0] == s[0]);
        lemma_dec_val_positive(h);
        assert(dec_val(h) * 10 >= 10) by (nonlinear_arith)
            requires
                dec_val(h) >= 1,
        ;
    }
}

/// A canonical decimal string is the rendering of its value: parsing is
/// injective on canonical strings.
pub proof fn lemma_canonical_val_unique(s: Seq<char>)
    requires
        is_canonical_dec(s),
    ensures
        s == spec_dec(dec_val(s) as nat),
    decreases s.len(),
{
    lemma_dec_val_nonneg(s);
    let v = dec_val(s);
    if s.len() == 1 {
        assert(s.drop_last() =~= Seq::<char>::empty());
        assert(dec_val(s) == dec_val(s.drop_last()) * 10 + digit_val(s.last()));
        assert(dec_val(Seq::<char>::empty()) == 0);
        assert(s.last() == s[0]);
        assert(is_digit_char(s[0]));
        assert(v == digit_val(s[0]));
        assert(v < 10);
        assert(spec_dec(v as nat) == seq![digit_char(v)]);
        assert(digit_char(digit_val(s[0])) == s[0]);
        assert(s =~= seq![digit_char(v)]);
    } else {
        let h = s.drop_last();
        let d = digit_val(s.last());
        assert(is_digit_char(s.last()));
        assert(d >= 0 && d < 10);
        assert(all_digits(h));
        assert(h[0] == s[0]);
        assert(s[0] != '0');
        assert(is_canonical_dec(h));
        lemma_dec_val_nonneg(h);
        lemma_dec_val_positive(h);
        assert(v == dec_val(h) * 10 + d);
        assert(v >= 10) by (nonlinear_arith)
            requires
                v == dec_val(h) * 10 + d,
                dec_val(h) >= 1,
                d >= 0,
        ;
        assert(v / 10 == dec_val(h) && v % 10 == d) by {
            vstd::arithmetic::div_mod::lemma_fundamental_div_mod_converse(
                v,
                10,
                dec_val(h),
                d,
            );
        }
        lemma_canonical_val_unique(h);
        assert(spec_dec(v as nat) == spec_dec((v / 10) as nat).push(digit_char((v as nat % 10) as int)));
        assert(digit_char(d) == s.last());
        assert(s =~= h.push(s.last()));
    }
}

/// Only the canonical rendering of `v` parses to `v`.
pub proof fn lemma_parse_unique(s: Seq<char>, v: u64)
    requires
        spec_parse_u64(s) == Some(v),
    ensures
        s == spec_dec(v as nat),
{
    lemma_dec_val_nonneg(s);
    assert(dec_val(s) == v);
    lemma_canonical_val_unique(s);
}

proof fn lemma_dec_val_of_dec(n: nat)
    ensures
        dec_val(spec_dec(n)) == n,
    decreases n,
{
    if n < 10 {
        let t = spec_dec(n);
        assert(t.len() == 1);
        assert(dec_val(t) == dec_val(t.drop_last()) * 10 + digit_val(t.last()));
        assert(t.drop_last() =~= Seq::<char>::empty());
        assert(dec_val(Seq::<char>::empty()) == 0);
        assert(t.last() == digit_char(n as int));
        assert(digit_val(digit_char(n as int)) == n);
    } else {
        vstd::arithmetic::div_mod::lemma_div_is_strictly_smaller(n as int, 10);
        lemma_dec_val_of_dec(n / 10);
        let t = spec_dec(n);
        assert(t.drop_last() =~= spec_dec(n / 10));
        assert(t.last() == digit_char((n % 10) as int));
        assert(0 <= n % 10 < 10);
        assert(digit_val(digit_char((n % 10) as int)) == n % 10);
        assert(dec_val(t) == (n / 10) * 10 + (n % 10));
        assert((n / 10) * 10 + (n % 10) == n) by {
            vstd::arithmetic::div_mod::lemma_fundamental_div_mod(n as int, 10);
        }
    }
}

} // verus!
