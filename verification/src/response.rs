//! Response handling: the reading loop's stop condition, and extraction
//! of the status code from the accumulated response text.

use crate::digits::{parse_u16_chars, parse_u16_spec};
use crate::text::{chars_of, contains_pattern, contains_seq, copy_range, find_char, find_first,
    is_white, is_white_char};
use vstd::prelude::*;

verus! {

/// The header terminator: the blank line that ends the header block.
pub open spec fn terminator() -> Seq<char> {
    seq!['\r', '\n', '\r', '\n']
}

/// Whether the accumulated response text contains the header terminator;
/// the reading loop stops once this holds (or the peer closes the stream).
pub fn header_terminator_seen(resp: &str) -> (r: bool)
    ensures
        r == contains_seq(resp@, terminator()),
{
    let v = chars_of(resp);
    let mut pat: Vec<char> = Vec::new();
    pat.push('\r');
    pat.push('\n');
    pat.push('\r');
    pat.push('\n');
    proof {
        assert(pat@ =~= terminator());
    }
    contains_pattern(&v, &pat)
}

/// The first line of `s`: everything before the first line feed, with one
/// trailing carriage return removed, as `str::lines` yields it.
pub open spec fn first_line(s: Seq<char>) -> Seq<char> {
    let cut = if find_first(s, '\n') < 0 {
        s
    } else {
        s.subrange(0, find_first(s, '\n'))
    };
    if cut.len() > 0 && cut[cut.len() - 1] == '\r' {
        cut.drop_last()
    } else {
        cut
    }
}

/// The first index at or after `i` whose whiteness equals `want`, or the
/// length of `s` when there is none.
pub open spec fn scan(s: Seq<char>, i: int, want: bool) -> int
    decreases s.len() - i,
{
    if i < 0 || i >= s.len() {
        s.len() as int
    } else if is_white(s[i]) == want {
        i
    } else {
        scan(s, i + 1, want)
    }
}

proof fn lemma_scan_characterize(s: Seq<char>, i: int, want: bool, r: int)
    requires
        0 <= i <= r <= s.len(),
        forall|j: int| i <= j < r ==> is_white(#[trigger] s[j]) != want,
        r < s.len() ==> is_white(s[r]) == want,
    ensures
        scan(s, i, want) == r,
    decreases r - i,
{
    if i < r {
        assert(is_white(s[i]) != want);
        lemma_scan_characterize(s, i + 1, want, r);
    }
}

/// The second whitespace-delimited token of `line`, if any.
pub open spec fn second_token(line: Seq<char>) -> Option<Seq<char>> {
    let a = scan(line, 0, false);
    let b = scan(line, a, true);
    let c = scan(line, b, false);
    let d = scan(line, c, true);
    if c >= line.len() {
        None
    } else {
        Some(line.subrange(c, d))
    }
}

/// The status code reported for a response: the second token of its first
/// line parsed as a number, 0 when absent or unparsable.
pub open spec fn status_code_of(resp: Seq<char>) -> u16 {
    match second_token(first_line(resp)) {
        None => 0,
        Some(t) => match parse_u16_spec(t) {
            None => 0,
            Some(v) => v,
        },
    }
}

fn scan_from(v: &Vec<char>, start: usize, end: usize, want: bool) -> (r: usize)
    requires
        start <= end <= v@.len(),
    ensures
        start <= r <= end,
        r == scan(v@.subrange(0, end as int), start as int, want),
{
    let mut k = start;
    while k < end && is_white_char(v[k]) != want
        invariant
            start <= k <= end <= v@.len(),
            forall|j: int| start <= j < k ==> is_white(#[trigger] v@[j]) != want,
        decreases end - k,
    {
        k = k + 1;
    }
    proof {
        let line = v@.subrange(0, end as int);
        assert(forall|j: int| 0 <= j < end ==> #[trigger] line[j] == v@[j]);
        lemma_scan_characterize(line, start as int, want, k as int);
    }
    k
}

/// Extracts the status code from the accumulated response text, exactly
/// as [`status_code_of`] describes it.
pub fn extract_status_code(resp: &str) -> (r: u16)
    ensures
        r == status_code_of(resp@),
{
    let v = chars_of(resp);
    let n = v.len();
    let mut e: usize = match find_char(&v, '\n') {
        Some(i) => i,
        None => n,
    };
    proof {
        let cut = if find_first(v@, '\n') < 0 {
            v@
        } else {
            v@.subrange(0, find_first(v@, '\n'))
        };
        assert(cut =~= v@.subrange(0, e as int));
    }
    if e > 0 && v[e - 1] == '\r' {
        proof {
            let cut = v@.subrange(0, e as int);
            assert(cut.drop_last() =~= v@.subrange(0, e - 1));
        }
        e = e - 1;
    }
    let ghost line = first_line(resp@);
    proof {
        assert(line =~= v@.subrange(0, e as int));
    }
    let a = scan_from(&v, 0, e, false);
    let b = scan_from(&v, a, e, true);
    let c = scan_from(&v, b, e, false);
    let d = scan_from(&v, c, e, true);
    if c >= e {
        return 0;
    }
    let tok = copy_range(&v, c, d);
    proof {
        assert(tok@ =~= line.subrange(c as int, d as int));
    }
    match parse_u16_chars(&tok) {
        Some(x) => x,
        None => 0,
    }
}

} // verus!
