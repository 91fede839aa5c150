//! Character-level utilities: converting between strings and character
//! vectors, the whitespace classification used for trimming and token
//! splitting, and trimming itself.

use vstd::prelude::*;
use vstd::string::StrSliceExecFns;

verus! {

/// The characters of `s`, as a vector.
pub fn chars_of(s: &str) -> (r: Vec<char>)
    ensures
        r@ == s@,
{
    let n = s.unicode_len();
    let mut v: Vec<char> = Vec::new();
    let mut i: usize = 0;
    while i < n
        invariant
            n == s@.len(),
            i <= n,
            v@ == s@.subrange(0, i as int),
        decreases n - i,
    {
        let c = s.get_char(i);
        v.push(c);
        i = i + 1;
        proof {
            assert(v@ =~= s@.subrange(0, i as int));
        }
    }
    proof {
        assert(v@ =~= s@);
    }
    v
}

/// Whether `c` has the Unicode `White_Space` property, the classification
/// behind `str::trim` and `str::split_whitespace`.
pub open spec fn is_white(c: char) -> bool {
    ||| c == ' '
    ||| c == '\t'
    ||| c == '\n'
    ||| c == '\u{0b}'
    ||| c == '\u{0c}'
    ||| c == '\r'
    ||| c == '\u{85}'
    ||| c == '\u{a0}'
    ||| c == '\u{1680}'
    ||| c == '\u{2000}'
    ||| c == '\u{2001}'
    ||| c == '\u{2002}'
    ||| c == '\u{2003}'
    ||| c == '\u{2004}'
    ||| c == '\u{2005}'
    ||| c == '\u{2006}'
    ||| c == '\u{2007}'
    ||| c == '\u{2008}'
    ||| c == '\u{2009}'
    ||| c == '\u{200a}'
    ||| c == '\u{2028}'
    ||| c == '\u{2029}'
    ||| c == '\u{202f}'
    ||| c == '\u{205f}'
    ||| c == '\u{3000}'
}

/// Runtime test for [`is_white`].
pub fn is_white_char(c: char) -> (r: bool)
    ensures
        r == is_white(c),
{
    c == ' ' || c == '\t' || c == '\n' || c == '\u{0b}' || c == '\u{0c}' || c == '\r'
        || c == '\u{85}' || c == '\u{a0}' || c == '\u{1680}' || c == '\u{2000}' || c == '\u{2001}'
        || c == '\u{2002}' || c == '\u{2003}' || c == '\u{2004}' || c == '\u{2005}'
        || c == '\u{2006}' || c == '\u{2007}' || c == '\u{2008}' || c == '\u{2009}'
        || c == '\u{200a}' || c == '\u{2028}' || c == '\u{2029}' || c == '\u{202f}'
        || c == '\u{205f}' || c == '\u{3000}'
}

/// Relies on `Iterator::collect` for `String` (`FromIterator<char>`): the
/// returned string holds exactly the characters of `v`, in order.
#[verifier::external_body]
pub(crate) fn string_from_chars(v: &Vec<char>) -> (r: String)
    ensures
        r@ == v@,
{
    v.iter().collect()
}

/// Index of the first occurrence of `c` in `s`, or a negative value when
/// `c` does not occur.
pub open spec fn find_first(s: Seq<char>, c: char) -> int
    decreases s.len(),
{
    if s.len() == 0 {
        -1
    } else if s[0] == c {
        0
    } else if find_first(s.drop_first(), c) < 0 {
        -1
    } else {
        1 + find_first(s.drop_first(), c)
    }
}

pub proof fn lemma_find_first(s: Seq<char>, c: char)
    ensures
        find_first(s, c) >= 0 ==> 0 <= find_first(s, c) < s.len() && s[find_first(s, c)] == c
            && (forall|j: int| 0 <= j < find_first(s, c) ==> s[j] != c),
        find_first(s, c) < 0 ==> forall|j: int| 0 <= j < s.len() ==> s[j] != c,
    decreases s.len(),
{
    if s.len() > 0 && s[0] != c {
        let t = s.drop_first();
        lemma_find_first(t, c);
        assert(forall|j: int| 1 <= j < s.len() ==> s[j] == t[j - 1]);
        let ft = find_first(t, c);
        if ft < 0 {
            assert(forall|j: int| 1 <= j < s.len() ==> s[j] == t[j - 1] && t[j - 1] != c);
        } else {
            assert(s[1 + ft] == t[ft]);
            assert(forall|j: int| 1 <= j < 1 + ft ==> s[j] == t[j - 1] && t[j - 1] != c);
        }
    }
}

/// The first occurrence of `c` in `v`, if any.
pub fn find_char(v: &Vec<char>, c: char) -> (r: Option<usize>)
    ensures
        r matches Some(i) ==> find_first(v@, c) == i && i < v@.len(),
        r is None ==> find_first(v@, c) < 0,
{
    let mut i: usize = 0;
    while i < v.len()
        invariant
            i <= v@.len(),
            forall|j: int| 0 <= j < i ==> v@[j] != c,
        decreases v@.len() - i,
    {
        if v[i] == c {
            proof {
                lemma_find_first(v@, c);
                let f = find_first(v@, c);
                if f < 0 {
                    assert(v@[i as int] != c);
                }
                if f < i {
                    assert(v@[f] != c);
                }
                if f > i {
                    assert(v@[i as int] != c);
                }
            }
            return Some(i);
        }
        i = i + 1;
    }
    proof {
        lemma_find_first(v@, c);
        if find_first(v@, c) >= 0 {
            assert(v@[find_first(v@, c)] != c);
        }
    }
    None
}

/// Whether `pat` occurs in `s` starting at index `i`.
pub open spec fn matches_at(s: Seq<char>, pat: Seq<char>, i: int) -> bool {
    0 <= i && i + pat.len() <= s.len() && s.subrange(i, i + pat.len()) == pat
}

/// Whether `pat` occurs anywhere in `s`.
pub open spec fn contains_seq(s: Seq<char>, pat: Seq<char>) -> bool {
    exists|i: int| matches_at(s, pat, i)
}

fn match_at(v: &Vec<char>, pat: &Vec<char>, i: usize) -> (r: bool)
    requires
        i + pat@.len() <= v@.len(),
    ensures
        r == matches_at(v@, pat@, i as int),
{
    let m = pat.len();
    let n = v.len();
    let mut j: usize = 0;
    while j < m
        invariant
            m == pat@.len(),
            n == v@.len(),
            i + m <= n,
            j <= m,
            forall|t: int| 0 <= t < j ==> v@[i + t] == pat@[t],
        decreases m - j,
    {
        if v[i + j] != pat[j] {
            proof {
                if matches_at(v@, pat@, i as int) {
                    assert(v@.subrange(i as int, i + m)[j as int] == pat@[j as int]);
                }
            }
            return false;
        }
        j = j + 1;
    }
    proof {
        assert(v@.subrange(i as int, i + m as int) =~= pat@);
    }
    true
}

/// Whether `pat` occurs anywhere in `v`.
pub fn contains_pattern(v: &Vec<char>, pat: &Vec<char>) -> (r: bool)
    ensures
        r == contains_seq(v@, pat@),
{
    let n = v.len();
    let m = pat.len();
    if m > n {
        proof {
            assert(forall|k: int| !matches_at(v@, pat@, k));
        }
        return false;
    }
    if m == 0 {
        proof {
            assert(v@.subrange(0, 0) =~= pat@);
            assert(matches_at(v@, pat@, 0));
        }
        return true;
    }
    let mut i: usize = 0;
    while i <= n - m
        invariant
            n == v@.len(),
            m == pat@.len(),
            0 < m <= n,
            i <= n - m + 1,
            forall|k: int| 0 <= k < i ==> !matches_at(v@, pat@, k),
        decreases n - m + 1 - i,
    {
        if match_at(v, pat, i) {
            return true;
        }
        i = i + 1;
    }
    proof {
        assert(forall|k: int| matches_at(v@, pat@, k) ==> 0 <= k < i);
    }
    false
}

/// `s` with leading and trailing whitespace removed, the effect of
/// `str::trim`.
pub open spec fn trim_spec(s: Seq<char>) -> Seq<char>
    decreases s.len(),
{
    if s.len() == 0 {
        s
    } else if is_white(s[0]) {
        trim_spec(s.drop_first())
    } else if is_white(s[s.len() - 1]) {
        trim_spec(s.drop_last())
    } else {
        s
    }
}

proof fn lemma_trim_is_range(s: Seq<char>, lo: int, hi: int)
    requires
        0 <= lo <= hi <= s.len(),
        forall|i: int| 0 <= i < lo ==> is_white(s[i]),
        forall|i: int| hi <= i < s.len() ==> is_white(s[i]),
        lo < hi ==> !is_white(s[lo]) && !is_white(s[hi - 1]),
    ensures
        trim_spec(s) =~= s.subrange(lo, hi),
    decreases s.len(),
{
    if s.len() == 0 {
    } else if is_white(s[0]) {
        let t = s.drop_first();
        assert(forall|j: int| 0 <= j < t.len() ==> t[j] == s[j + 1]);
        if lo > 0 {
            lemma_trim_is_range(t, lo - 1, hi - 1);
            assert(t.subrange(lo - 1, hi - 1) =~= s.subrange(lo, hi));
        } else {
            // `lo == 0` and `s[0]` is white, so the range must be empty.
            assert(hi == lo);
            lemma_trim_is_range(t, 0, 0);
        }
    } else if is_white(s[s.len() - 1]) {
        let t = s.drop_last();
        assert(forall|j: int| 0 <= j < t.len() ==> t[j] == s[j]);
        if hi < s.len() {
            lemma_trim_is_range(t, lo, hi);
            assert(t.subrange(lo, hi) =~= s.subrange(lo, hi));
        } else {
            // `hi == s.len()` and the last char is white, so the range is empty.
            assert(lo == hi);
            lemma_trim_is_range(t, t.len() as int, t.len() as int);
            assert(t.subrange(t.len() as int, t.len() as int) =~= s.subrange(lo, hi));
        }
    } else {
        assert(lo == 0);
        assert(hi == s.len());
        assert(s.subrange(0, s.len() as int) =~= s);
    }
}

/// A copy of `v[from..to]`.
pub fn copy_range(v: &Vec<char>, from: usize, to: usize) -> (r: Vec<char>)
    requires
        from <= to <= v@.len(),
    ensures
        r@ == v@.subrange(from as int, to as int),
{
    let mut r: Vec<char> = Vec::new();
    let mut i: usize = from;
    while i < to
        invariant
            from <= i <= to <= v@.len(),
            r@ == v@.subrange(from as int, i as int),
        decreases to - i,
    {
        r.push(v[i]);
        i = i + 1;
        proof {
            assert(r@ =~= v@.subrange(from as int, i as int));
        }
    }
    r
}

/// The characters of `v[from..to]` with surrounding whitespace removed.
pub fn trim_range(v: &Vec<char>, from: usize, to: usize) -> (r: Vec<char>)
    requires
        from <= to <= v@.len(),
    ensures
        r@ == trim_spec(v@.subrange(from as int, to as int)),
{
    let ghost s = v@.subrange(from as int, to as int);
    let mut lo: usize = from;
    while lo < to && is_white_char(v[lo])
        invariant
            from <= lo <= to <= v@.len(),
            forall|i: int| from <= i < lo ==> is_white(v@[i]),
        decreases to - lo,
    {
        lo = lo + 1;
    }
    let mut hi: usize = to;
    while hi > lo && is_white_char(v[hi - 1])
        invariant
            from <= lo <= hi <= to <= v@.len(),
            forall|i: int| from <= i < lo ==> is_white(v@[i]),
            forall|i: int| hi <= i < to ==> is_white(v@[i]),
        decreases hi - lo,
    {
        hi = hi - 1;
    }
    proof {
        assert(forall|i: int| 0 <= i < s.len() ==> s[i] == v@[from + i]);
        lemma_trim_is_range(s, lo - from, hi - from);
        assert(s.subrange(lo - from, hi - from) =~= v@.subrange(lo as int, hi as int));
    }
    copy_range(v, lo, hi)
}

} // verus!
