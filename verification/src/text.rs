//! Verified text utilities for the parser: trimming, character search, and
//! splitting on blank lines.
//!
//! Each executable function is specified against a small mathematical model
//! over `Seq<char>`: [`trim_spec`] for trimming, `Seq::index_of_first` for
//! character search, and [`split_sections_spec`] for the blank-line split.

use vstd::prelude::*;
use vstd::string::StrSliceExecFns;

verus! {

/// The characters that trimming removes at either end of a piece of text:
/// ASCII whitespace.
pub open spec fn is_blank_char(c: char) -> bool {
    c == ' ' || c == '\t' || c == '\n' || c == '\r' || c == '\u{b}' || c == '\u{c}'
}

/// Executable test for [`is_blank_char`].
pub fn is_blank(c: char) -> (r: bool)
    ensures
        r == is_blank_char(c),
{
    c == ' ' || c == '\t' || c == '\n' || c == '\r' || c == '\u{b}' || c == '\u{c}'
}

/// `s` with its leading blank characters removed.
pub open spec fn trim_start_spec(s: Seq<char>) -> Seq<char>
    decreases s.len(),
{
    if s.len() > 0 && is_blank_char(s[0]) {
        trim_start_spec(s.drop_first())
    } else {
        s
    }
}

/// `s` with its trailing blank characters removed.
pub open spec fn trim_end_spec(s: Seq<char>) -> Seq<char>
    decreases s.len(),
{
    if s.len() > 0 && is_blank_char(s[s.len() - 1]) {
        trim_end_spec(s.drop_last())
    } else {
        s
    }
}

/// `s` with blank characters removed from both ends.
pub open spec fn trim_spec(s: Seq<char>) -> Seq<char> {
    trim_end_spec(trim_start_spec(s))
}

proof fn lemma_trim_start_skip(s: Seq<char>, k: int)
    requires
        0 <= k <= s.len(),
        forall|j: int| 0 <= j < k ==> is_blank_char(s[j]),
        k < s.len() ==> !is_blank_char(s[k]),
    ensures
        trim_start_spec(s) == s.skip(k),
    decreases k,
{
    if k == 0 {
        assert(s.skip(0) =~= s);
    } else {
        let t = s.drop_first();
        assert(t =~= s.skip(1));
        lemma_trim_start_skip(t, k - 1);
        assert(t.skip(k - 1) =~= s.skip(k));
    }
}

proof fn lemma_trim_end_take(s: Seq<char>, k: int)
    requires
        0 <= k <= s.len(),
        forall|j: int| k <= j < s.len() ==> is_blank_char(s[j]),
        k > 0 ==> !is_blank_char(s[k - 1]),
    ensures
        trim_end_spec(s) == s.take(k),
    decreases s.len(),
{
    if k == s.len() {
        assert(s.take(k) =~= s);
    } else {
        let t = s.drop_last();
        lemma_trim_end_take(t, k);
        assert(t.take(k) =~= s.take(k));
    }
}

/// A trimmed-at-the-start text does not begin with a blank character.
pub proof fn lemma_trim_start_head(s: Seq<char>)
    ensures
        trim_start_spec(s).len() > 0 ==> !is_blank_char(trim_start_spec(s)[0]),
    decreases s.len(),
{
    if s.len() > 0 && is_blank_char(s[0]) {
        lemma_trim_start_head(s.drop_first());
    }
}

/// A trimmed-at-the-end text does not end with a blank character.
pub proof fn lemma_trim_end_last(s: Seq<char>)
    ensures
        trim_end_spec(s).len() > 0 ==> !is_blank_char(
            trim_end_spec(s)[trim_end_spec(s).len() - 1],
        ),
    decreases s.len(),
{
    if s.len() > 0 && is_blank_char(s[s.len() - 1]) {
        lemma_trim_end_last(s.drop_last());
    }
}

/// Trimming at the end keeps a prefix of the text unchanged.
pub proof fn lemma_trim_end_prefix(s: Seq<char>)
    ensures
        trim_end_spec(s).len() <= s.len(),
        forall|i: int| 0 <= i < trim_end_spec(s).len() ==> trim_end_spec(s)[i] == s[i],
    decreases s.len(),
{
    if s.len() > 0 && is_blank_char(s[s.len() - 1]) {
        let t = s.drop_last();
        lemma_trim_end_prefix(t);
        assert forall|i: int| 0 <= i < trim_end_spec(s).len() implies trim_end_spec(s)[i]
            == s[i] by {
            assert(trim_end_spec(s) == trim_end_spec(t));
            assert(trim_end_spec(t)[i] == t[i]);
            assert(t[i] == s[i]);
        }
    }
}

/// Trimming is idempotent.
pub proof fn lemma_trim_idempotent(s: Seq<char>)
    ensures
        trim_spec(trim_spec(s)) == trim_spec(s),
{
    let u = trim_start_spec(s);
    let v = trim_end_spec(u);
    lemma_trim_start_head(s);
    lemma_trim_end_last(u);
    lemma_trim_end_prefix(u);
    if v.len() > 0 {
        assert(v[0] == u[0]);
        assert(trim_start_spec(v) == v);
        assert(trim_end_spec(v) == v);
    } else {
        assert(trim_start_spec(v) == v);
        assert(trim_end_spec(v) == v);
    }
}

/// A character absent from a range of `s` is absent from the matching subrange.
pub proof fn lemma_subrange_not_contains(s: Seq<char>, c: char, lo: int, hi: int)
    requires
        0 <= lo <= hi <= s.len(),
        forall|j: int| lo <= j < hi ==> s[j] != c,
    ensures
        !s.subrange(lo, hi).contains(c),
{
    let t = s.subrange(lo, hi);
    assert forall|j: int| 0 <= j < t.len() implies t[j] != c by {
        assert(t[j] == s[lo + j]);
    }
}

/// Trimming never introduces a character.
pub proof fn lemma_trim_not_contains(s: Seq<char>, c: char)
    requires
        !s.contains(c),
    ensures
        !trim_spec(s).contains(c),
{
    lemma_trim_start_not_contains(s, c);
    lemma_trim_end_not_contains(trim_start_spec(s), c);
}

proof fn lemma_trim_start_not_contains(s: Seq<char>, c: char)
    requires
        !s.contains(c),
    ensures
        !trim_start_spec(s).contains(c),
    decreases s.len(),
{
    if s.len() > 0 && is_blank_char(s[0]) {
        let t = s.drop_first();
        assert forall|j: int| 0 <= j < t.len() implies t[j] != c by {
            assert(t[j] == s[j + 1]);
        }
        assert(!t.contains(c));
        lemma_trim_start_not_contains(t, c);
    }
}

proof fn lemma_trim_end_not_contains(s: Seq<char>, c: char)
    requires
        !s.contains(c),
    ensures
        !trim_end_spec(s).contains(c),
    decreases s.len(),
{
    if s.len() > 0 && is_blank_char(s[s.len() - 1]) {
        let t = s.drop_last();
        assert forall|j: int| 0 <= j < t.len() implies t[j] != c by {
            assert(t[j] == s[j]);
        }
        assert(!t.contains(c));
        lemma_trim_end_not_contains(t, c);
    }
}

/// A leading blank character does not change the trimmed text.
pub proof fn lemma_trim_leading_blank(c: char, s: Seq<char>)
    requires
        is_blank_char(c),
    ensures
        trim_spec(seq![c] + s) == trim_spec(s),
{
    let u = seq![c] + s;
    assert(u.len() > 0 && is_blank_char(u[0]));
    assert(u.drop_first() =~= s);
}

/// When `i` is the position of the first occurrence of `c`, `index_of_first`
/// returns exactly `i`.
pub proof fn lemma_index_of_first_position(s: Seq<char>, c: char, i: int)
    requires
        0 <= i < s.len(),
        s[i] == c,
        forall|j: int| 0 <= j < i ==> s[j] != c,
    ensures
        s.index_of_first(c) == Some(i),
{
    s.index_of_first_ensures(c);
    assert(s.contains(c)) by {
        assert(s[i] == c);
    }
}

/// When `c` occurs nowhere in `s`, `index_of_first` returns `None`.
pub proof fn lemma_index_of_first_none(s: Seq<char>, c: char)
    requires
        forall|j: int| 0 <= j < s.len() ==> s[j] != c,
    ensures
        s.index_of_first(c) is None,
{
    s.index_of_first_ensures(c);
    assert(!s.contains(c));
}

/// Returns the index of the first occurrence of `c` in `s`, if any.
pub fn find_char(s: &str, c: char) -> (r: Option<usize>)
    ensures
        (match r {
            Some(i) => s@.index_of_first(c) == Some(i as int),
            None => s@.index_of_first(c) is None,
        }),
{
    let n = s.unicode_len();
    let mut i: usize = 0;
    while i < n
        invariant
            i <= n,
            n == s@.len(),
            forall|j: int| 0 <= j < i ==> s@[j] != c,
        decreases n - i,
    {
        if s.get_char(i) == c {
            proof {
                lemma_index_of_first_position(s@, c, i as int);
            }
            return Some(i);
        }
        i = i + 1;
    }
    proof {
        lemma_index_of_first_none(s@, c);
    }
    None
}

/// Whether `c` occurs anywhere in `s`.
pub fn contains_char(s: &str, c: char) -> (r: bool)
    ensures
        r == s@.contains(c),
{
    proof {
        s@.index_of_first_ensures(c);
    }
    match find_char(s, c) {
        Some(_) => true,
        None => false,
    }
}

/// Returns `s` with blank characters removed from both ends.
pub fn trim(s: &str) -> (r: String)
    ensures
        r@ == trim_spec(s@),
{
    let n = s.unicode_len();
    let mut a: usize = 0;
    while a < n && is_blank(s.get_char(a))
        invariant
            a <= n,
            n == s@.len(),
            forall|j: int| 0 <= j < a ==> is_blank_char(s@[j]),
        decreases n - a,
    {
        a = a + 1;
    }
    proof {
        lemma_trim_start_skip(s@, a as int);
    }
    if a == n {
        proof {
            assert(s@.skip(n as int) =~= Seq::<char>::empty());
            assert(trim_spec(s@) =~= Seq::<char>::empty());
        }
        String::new()
    } else {
        let mut b: usize = n;
        while b > a && is_blank(s.get_char(b - 1))
            invariant
                a <= b <= n,
                n == s@.len(),
                forall|j: int| b <= j < n ==> is_blank_char(s@[j]),
            decreases b,
        {
            b = b - 1;
        }
        proof {
            if b == a {
                assert(is_blank_char(s@[a as int]));
                assert(false);
            }
            let t = s@.skip(a as int);
            assert forall|j: int| b - a <= j < t.len() implies is_blank_char(t[j]) by {
                assert(t[j] == s@[a + j]);
            }
            assert(!is_blank_char(t[b - a - 1])) by {
                assert(t[b - a - 1] == s@[b - 1]);
            }
            lemma_trim_end_take(t, b - a);
            assert(t.take(b - a) =~= s@.subrange(a as int, b as int));
        }
        s.substring_char(a, b).to_owned()
    }
}

/// True when a blank-line separator (two consecutive line feeds) starts at
/// index `i` of `s`.
pub open spec fn double_nl_at(s: Seq<char>, i: int) -> bool {
    &&& 0 <= i
    &&& i + 2 <= s.len()
    &&& s[i] == '\n'
    &&& s[i + 1] == '\n'
}

/// The index of the first blank-line separator of `s`, or `s.len()` when
/// there is none.
pub open spec fn first_double_nl(s: Seq<char>) -> int
    decreases s.len(),
{
    if s.len() >= 2 && s[0] == '\n' && s[1] == '\n' {
        0
    } else if s.len() == 0 {
        0
    } else {
        1 + first_double_nl(s.drop_first())
    }
}

/// `first_double_nl` indeed names the first blank-line separator.
pub proof fn lemma_first_double_nl(s: Seq<char>)
    ensures
        0 <= first_double_nl(s) <= s.len(),
        first_double_nl(s) < s.len() ==> double_nl_at(s, first_double_nl(s)),
        forall|j: int| 0 <= j < first_double_nl(s) ==> !double_nl_at(s, j),
        first_double_nl(s) == s.len() ==> forall|j: int| !double_nl_at(s, j),
    decreases s.len(),
{
    if s.len() >= 2 && s[0] == '\n' && s[1] == '\n' {
    } else if s.len() == 0 {
    } else {
        let t = s.drop_first();
        lemma_first_double_nl(t);
        let f = 1 + first_double_nl(t);
        assert forall|j: int| 0 <= j < f implies !double_nl_at(s, j) by {
            if j == 0 {
            } else {
                assert(!double_nl_at(t, j - 1));
                assert(t[j - 1] == s[j]);
                if double_nl_at(s, j) {
                    assert(t[j] == s[j + 1]);
                    assert(double_nl_at(t, j - 1));
                }
            }
        }
        if f < s.len() {
            let i = first_double_nl(t);
            assert(double_nl_at(t, i));
            assert(t[i] == s[i + 1]);
            assert(t[i + 1] == s[i + 2]);
            assert(double_nl_at(s, f));
        }
        if f == s.len() {
            assert forall|j: int| !double_nl_at(s, j) by {
                if double_nl_at(s, j) {
                    assert(0 <= j < f);
                }
            }
        }
    }
}

/// Returns the index of the first blank-line separator of `s`, or the length
/// of `s` when there is none.
pub fn find_double_nl(s: &str) -> (r: usize)
    ensures
        r as int == first_double_nl(s@),
{
    proof {
        lemma_first_double_nl(s@);
    }
    let n = s.unicode_len();
    if n < 2 {
        return n;
    }
    let mut i: usize = 0;
    while i + 1 < n
        invariant
            i <= n - 1,
            n == s@.len(),
            n >= 2,
            forall|j: int| 0 <= j < i ==> !double_nl_at(s@, j),
        decreases n - i,
    {
        if s.get_char(i) == '\n' && s.get_char(i + 1) == '\n' {
            proof {
                lemma_first_double_nl(s@);
                assert(double_nl_at(s@, i as int));
                let f = first_double_nl(s@);
                if f == s@.len() {
                    assert(false);
                }
                if f < i {
                    assert(!double_nl_at(s@, f));
                    assert(false);
                }
                if f > i {
                    assert(!double_nl_at(s@, i as int));
                    assert(false);
                }
            }
            return i;
        }
        i = i + 1;
    }
    proof {
        let f = first_double_nl(s@);
        if f < s@.len() {
            assert(double_nl_at(s@, f));
            assert(f <= s@.len() - 2);
            assert(!double_nl_at(s@, f));
            assert(false);
        }
    }
    n
}

/// The sections of `s`: the pieces between consecutive blank-line
/// separators, splitting at each leftmost separator in turn.
pub open spec fn split_sections_spec(s: Seq<char>) -> Seq<Seq<char>>
    decreases s.len(),
{
    let i = first_double_nl(s);
    if 0 <= i && i + 2 <= s.len() && s[i] == '\n' && s[i + 1] == '\n' {
        seq![s.take(i)] + split_sections_spec(s.skip(i + 2))
    } else {
        seq![s]
    }
}

/// Splitting always yields at least one section.
pub proof fn lemma_split_sections_len(s: Seq<char>)
    ensures
        split_sections_spec(s).len() >= 1,
    decreases s.len(),
{
    let i = first_double_nl(s);
    if 0 <= i && i + 2 <= s.len() && s[i] == '\n' && s[i + 1] == '\n' {
        lemma_split_sections_len(s.skip(i + 2));
    }
}

/// Splits `s` into its sections at each leftmost blank-line separator.
pub fn split_sections(s: &str) -> (parts: Vec<String>)
    ensures
        parts.deep_view() == split_sections_spec(s@),
        parts@.len() >= 1,
    decreases s@.len(),
{
    proof {
        lemma_first_double_nl(s@);
    }
    let n = s.unicode_len();
    let i = find_double_nl(s);
    if i < n {
        let head = s.substring_char(0, i).to_owned();
        let rest = s.substring_char(i + 2, n);
        let mut tail = split_sections(rest);
        let mut parts: Vec<String> = Vec::new();
        parts.push(head);
        parts.append(&mut tail);
        proof {
            assert(rest@ =~= s@.skip(i as int + 2));
            assert(parts.deep_view() =~~= split_sections_spec(s@));
        }
        parts
    } else {
        let mut parts: Vec<String> = Vec::new();
        parts.push(s.to_owned());
        proof {
            assert(parts.deep_view() =~~= split_sections_spec(s@));
        }
        parts
    }
}

} // verus!
