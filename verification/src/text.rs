//! Verified character-level string helpers: substring search and
//! whitespace trimming, used by prompt handling.

use vstd::prelude::*;

verus! {

/// The pattern `pat` occurs in `s` starting at character position `i`.
pub open spec fn occurs_at(s: Seq<char>, pat: Seq<char>, i: int) -> bool {
    0 <= i && i + pat.len() <= s.len() && s.subrange(i, i + pat.len()) == pat
}

/// The pattern `pat` occurs somewhere in `s`.
pub open spec fn occurs_in(s: Seq<char>, pat: Seq<char>) -> bool {
    exists|i: int| occurs_at(s, pat, i)
}

/// Position `i` is the first occurrence of `pat` in `s`.
pub open spec fn first_occurrence(s: Seq<char>, pat: Seq<char>, i: int) -> bool {
    occurs_at(s, pat, i) && forall|j: int| 0 <= j < i ==> !occurs_at(s, pat, j)
}

/// The position of the first occurrence of `pat` in `s`, meaningful only
/// when `occurs_in(s, pat)` holds.
pub open spec fn first_occurrence_index(s: Seq<char>, pat: Seq<char>) -> int {
    choose|i: int| first_occurrence(s, pat, i)
}

/// Some occurrence exists, so a first one does.
pub proof fn lemma_first_occurrence_exists(s: Seq<char>, pat: Seq<char>)
    requires
        occurs_in(s, pat),
    ensures
        first_occurrence(s, pat, first_occurrence_index(s, pat)),
{
    let w = choose|i: int| occurs_at(s, pat, i);
    lemma_first_occurrence_below(s, pat, w);
    let f = choose|i: int| first_occurrence(s, pat, i);
    assert(first_occurrence(s, pat, f));
}

/// If `pat` occurs at `w`, a first occurrence exists at or before `w`.
proof fn lemma_first_occurrence_below(s: Seq<char>, pat: Seq<char>, w: int)
    requires
        occurs_at(s, pat, w),
    ensures
        exists|i: int| first_occurrence(s, pat, i),
    decreases w,
{
    if forall|j: int| 0 <= j < w ==> !occurs_at(s, pat, j) {
        assert(first_occurrence(s, pat, w));
    } else {
        let j = choose|j: int| 0 <= j < w && occurs_at(s, pat, j);
        lemma_first_occurrence_below(s, pat, j);
    }
}

/// A first occurrence is unique.
pub proof fn lemma_first_occurrence_unique(s: Seq<char>, pat: Seq<char>, i: int, j: int)
    requires
        first_occurrence(s, pat, i),
        first_occurrence(s, pat, j),
    ensures
        i == j,
{
}

/// Whether the characters of `pat` appear in `s` at position `i`,
/// compared one by one.
fn matches_at(s: &str, pat: &str, i: usize) -> (r: bool)
    requires
        i + pat@.len() <= s@.len(),
    ensures
        r == occurs_at(s@, pat@, i as int),
{
    let n = s.unicode_len();
    let m = pat.unicode_len();
    let mut k: usize = 0;
    while k < m
        invariant
            k <= m,
            n == s@.len(),
            m == pat@.len(),
            i + m <= s@.len(),
            forall|l: int| 0 <= l < k ==> s@[i + l] == pat@[l],
        decreases m - k,
    {
        if s.get_char(i + k) != pat.get_char(k) {
            proof {
                assert(s@.subrange(i as int, i + pat@.len())[k as int] == s@[i + k]);
            }
            return false;
        }
        k = k + 1;
    }
    proof {
        assert(s@.subrange(i as int, i + pat@.len()) =~= pat@);
    }
    true
}

/// Find the first occurrence of `pat` in `s`, by character position.
pub fn find_sub(s: &str, pat: &str) -> (r: Option<usize>)
    ensures
        match r {
            Some(i) => first_occurrence(s@, pat@, i as int),
            None => !occurs_in(s@, pat@),
        },
{
    let n = s.unicode_len();
    let m = pat.unicode_len();
    if m > n {
        proof {
            assert(forall|j: int| !occurs_at(s@, pat@, j));
        }
        return None;
    }
    if m == 0 {
        proof {
            assert(s@.subrange(0, 0) =~= pat@);
        }
        return Some(0);
    }
    let mut i: usize = 0;
    while i <= n - m
        invariant
            n == s@.len(),
            m == pat@.len(),
            1 <= m <= n,
            i <= n,
            forall|j: int| 0 <= j < i ==> !occurs_at(s@, pat@, j),
        decreases n - i,
    {
        if matches_at(s, pat, i) {
            return Some(i);
        }
        i = i + 1;
    }
    proof {
        assert(forall|j: int| i <= j ==> !occurs_at(s@, pat@, j));
    }
    None
}

/// Whitespace, as the Unicode White_Space property defines it.
pub open spec fn is_ws_char(c: char) -> bool {
    c == ' ' || c == '\t' || c == '\n' || c == '\r' || c == '\u{0b}' || c == '\u{0c}' || c
        == '\u{85}' || c == '\u{a0}' || c == '\u{1680}' || ('\u{2000}' <= c && c <= '\u{200a}') || c
        == '\u{2028}' || c == '\u{2029}' || c == '\u{202f}' || c == '\u{205f}' || c == '\u{3000}'
}

/// Whether `c` is whitespace, executably.
pub fn is_ws(c: char) -> (r: bool)
    ensures
        r == is_ws_char(c),
{
    c == ' ' || c == '\t' || c == '\n' || c == '\r' || c == '\u{0b}' || c == '\u{0c}' || c
        == '\u{85}' || c == '\u{a0}' || c == '\u{1680}' || ('\u{2000}' <= c && c <= '\u{200a}') || c
        == '\u{2028}' || c == '\u{2029}' || c == '\u{202f}' || c == '\u{205f}' || c == '\u{3000}'
}

/// `s` without its leading whitespace.
pub open spec fn trim_start_spec(s: Seq<char>) -> Seq<char>
    decreases s.len(),
{
    if s.len() > 0 && is_ws_char(s[0]) {
        trim_start_spec(s.drop_first())
    } else {
        s
    }
}

/// `s` without its trailing whitespace.
pub open spec fn trim_end_spec(s: Seq<char>) -> Seq<char>
    decreases s.len(),
{
    if s.len() > 0 && is_ws_char(s[s.len() - 1]) {
        trim_end_spec(s.drop_last())
    } else {
        s
    }
}

/// `s` without leading and trailing whitespace.
pub open spec fn trim_spec(s: Seq<char>) -> Seq<char> {
    trim_end_spec(trim_start_spec(s))
}

/// Dropping a whitespace prefix: if everything before `st` is whitespace
/// and `st` is not (or is the end), the untrimmed-start part is the tail
/// from `st`.
proof fn lemma_trim_start_at(s: Seq<char>, st: int)
    requires
        0 <= st <= s.len(),
        forall|k: int| 0 <= k < st ==> is_ws_char(s[k]),
        st < s.len() ==> !is_ws_char(s[st]),
    ensures
        trim_start_spec(s) == s.subrange(st, s.len() as int),
    decreases st,
{
    if st == 0 {
        assert(s.subrange(0, s.len() as int) =~= s);
    } else {
        lemma_trim_start_at(s.drop_first(), st - 1);
        assert(s.drop_first().subrange(st - 1, s.drop_first().len() as int) =~= s.subrange(
            st,
            s.len() as int,
        ));
    }
}

/// Dropping a whitespace suffix: if everything at and after `en` is
/// whitespace and `en - 1` is not (or `en` is 0), the untrimmed-end part
/// is the head up to `en`.
proof fn lemma_trim_end_at(s: Seq<char>, en: int)
    requires
        0 <= en <= s.len(),
        forall|k: int| en <= k < s.len() ==> is_ws_char(s[k]),
        en > 0 ==> !is_ws_char(s[en - 1]),
    ensures
        trim_end_spec(s) == s.subrange(0, en),
    decreases s.len() - en,
{
    if en == s.len() {
        assert(s.subrange(0, en) =~= s);
    } else {
        lemma_trim_end_at(s.drop_last(), en);
        assert(s.drop_last().subrange(0, en) =~= s.subrange(0, en));
    }
}

/// Remove leading and trailing whitespace from a string.
pub fn trim_str(s: &str) -> (r: String)
    ensures
        r@ == trim_spec(s@),
{
    let n = s.unicode_len();
    let mut st: usize = 0;
    while st < n && is_ws(s.get_char(st))
        invariant
            n == s@.len(),
            st <= n,
            forall|k: int| 0 <= k < st ==> is_ws_char(s@[k]),
        decreases n - st,
    {
        st = st + 1;
    }
    let mut en: usize = n;
    while en > st && is_ws(s.get_char(en - 1))
        invariant
            n == s@.len(),
            st <= en <= n,
            forall|k: int| en <= k < n ==> is_ws_char(s@[k]),
        decreases en,
    {
        en = en - 1;
    }
    proof {
        lemma_trim_start_at(s@, st as int);
        let t = s@.subrange(st as int, n as int);
        if en == st {
            lemma_trim_end_at(t, 0);
        } else {
            lemma_trim_end_at(t, en - st);
        }
        assert(t.subrange(0, en - st) =~= s@.subrange(st as int, en as int));
    }
    let picked = s.substring_char(st, en);
    picked.to_owned()
}


/// `s` begins with `prefix`.
pub open spec fn starts_with(s: Seq<char>, prefix: Seq<char>) -> bool {
    s.len() >= prefix.len() && s.subrange(0, prefix.len() as int) == prefix
}

} // verus!
