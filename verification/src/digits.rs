//! Decimal numerals: rendering unsigned integers (for the `Content-Length`
//! header and the report lines) and parsing `u16` values (status codes).

use vstd::prelude::*;

verus! {

/// The decimal digit character for `d`, where `d < 10`.
pub open spec fn digit_char(d: int) -> char {
    if d == 0 {
        '0'
    } else if d == 1 {
        '1'
    } else if d == 2 {
        '2'
    } else if d == 3 {
        '3'
    } else if d == 4 {
        '4'
    } else if d == 5 {
        '5'
    } else if d == 6 {
        '6'
    } else if d == 7 {
        '7'
    } else if d == 8 {
        '8'
    } else {
        '9'
    }
}

/// The decimal numeral for `n`, most significant digit first, without
/// leading zeros (`0` itself is rendered as `"0"`).
pub open spec fn dec_rep(n: nat) -> Seq<char>
    decreases n,
{
    if n < 10 {
        seq![digit_char(n as int)]
    } else {
        dec_rep(n / 10) + seq![digit_char((n % 10) as int)]
    }
}

fn digit_of(d: u128) -> (c: char)
    requires
        d < 10,
    ensures
        c == digit_char(d as int),
{
    if d == 0 {
        '0'
    } else if d == 1 {
        '1'
    } else if d == 2 {
        '2'
    } else if d == 3 {
        '3'
    } else if d == 4 {
        '4'
    } else if d == 5 {
        '5'
    } else if d == 6 {
        '6'
    } else if d == 7 {
        '7'
    } else if d == 8 {
        '8'
    } else {
        '9'
    }
}

proof fn lemma_reverse_push(s: Seq<char>, x: char)
    ensures
        s.push(x).reverse() =~= seq![x] + s.reverse(),
{
    let p = s.push(x);
    assert(forall|i: int| 0 <= i < p.len() ==> p.reverse()[i] == p[p.len() - 1 - i]);
}

/// The decimal numeral of `n`, as characters.
pub fn dec_of_u128(n: u128) -> (r: Vec<char>)
    ensures
        r@ == dec_rep(n as nat),
{
    if n == 0 {
        let mut r: Vec<char> = Vec::new();
        r.push('0');
        proof {
            assert(r@ =~= dec_rep(0));
        }
        return r;
    }
    let mut rev: Vec<char> = Vec::new();
    let mut m: u128 = n;
    while m > 0
        invariant
            m > 0 ==> dec_rep(n as nat) =~= dec_rep(m as nat) + rev@.reverse(),
            m == 0 ==> dec_rep(n as nat) =~= rev@.reverse(),
        decreases m,
    {
        let d = m % 10;
        let c = digit_of(d);
        proof {
            lemma_reverse_push(rev@, c);
            if m >= 10 {
                assert(dec_rep(m as nat) == dec_rep((m / 10) as nat) + seq![c]);
                assert(dec_rep((m / 10) as nat) + (seq![c] + rev@.reverse()) =~= (dec_rep(
                    (m / 10) as nat,
                ) + seq![c]) + rev@.reverse());
            } else {
                assert(dec_rep(m as nat) == seq![c]);
            }
        }
        rev.push(c);
        m = m / 10;
    }
    let len = rev.len();
    let mut r: Vec<char> = Vec::new();
    let mut i: usize = len;
    while i > 0
        invariant
            i <= len,
            len == rev@.len(),
            r@.len() == len - i,
            forall|k: int| 0 <= k < r@.len() ==> r@[k] == rev@[len - 1 - k],
        decreases i,
    {
        i = i - 1;
        r.push(rev[i]);
    }
    proof {
        assert(r@ =~= rev@.reverse());
    }
    r
}

/// Whether `c` is an ASCII decimal digit.
pub open spec fn is_dec_digit(c: char) -> bool {
    48 <= c as u32 <= 57
}

/// The numeric value of the digit `c`.
pub open spec fn digit_val(c: char) -> int {
    c as u32 - 48
}

pub open spec fn all_dec_digits(s: Seq<char>) -> bool {
    forall|i: int| 0 <= i < s.len() ==> is_dec_digit(#[trigger] s[i])
}

/// The value of the digit string `s`, most significant digit first.
pub open spec fn digits_val(s: Seq<char>) -> int
    decreases s.len(),
{
    if s.len() == 0 {
        0
    } else {
        digits_val(s.drop_last()) * 10 + digit_val(s.last())
    }
}

proof fn lemma_digits_val_nonneg(s: Seq<char>)
    requires
        all_dec_digits(s),
    ensures
        digits_val(s) >= 0,
    decreases s.len(),
{
    if s.len() > 0 {
        assert(all_dec_digits(s.drop_last())) by {
            assert(forall|i: int| 0 <= i < s.len() - 1 ==> s.drop_last()[i] == s[i]);
        }
        lemma_digits_val_nonneg(s.drop_last());
    }
}

proof fn lemma_digits_val_monotone(s: Seq<char>, l: int)
    requires
        all_dec_digits(s),
        0 <= l <= s.len(),
    ensures
        digits_val(s) >= digits_val(s.subrange(0, l)),
    decreases s.len() - l,
{
    if l < s.len() {
        let a = s.subrange(0, l);
        let b = s.subrange(0, l + 1);
        assert(all_dec_digits(a)) by {
            assert(forall|i: int| 0 <= i < a.len() ==> a[i] == s[i]);
        }
        assert(b.drop_last() =~= a);
        assert(b.last() == s[l]);
        lemma_digits_val_nonneg(a);
        assert(digits_val(b) == digits_val(a) * 10 + digit_val(s[l]));
        assert(digits_val(a) * 10 >= digits_val(a));
        lemma_digits_val_monotone(s, l + 1);
    } else {
        assert(s.subrange(0, l) =~= s);
    }
}

/// The value `str::parse::<u16>` yields on `s`: an optional leading `+`,
/// then one or more decimal digits; anything else, or a value above
/// `u16::MAX`, is rejected.
pub open spec fn parse_u16_spec(s: Seq<char>) -> Option<u16> {
    let body = if s.len() > 0 && s[0] == '+' {
        s.drop_first()
    } else {
        s
    };
    if body.len() == 0 || !all_dec_digits(body) {
        None
    } else if digits_val(body) > 65535 {
        None
    } else {
        Some(digits_val(body) as u16)
    }
}

/// Parses `v` as a `u16`, as `str::parse::<u16>` would.
pub fn parse_u16_chars(v: &Vec<char>) -> (r: Option<u16>)
    ensures
        r == parse_u16_spec(v@),
{
    let n = v.len();
    let mut i: usize = 0;
    if n > 0 && v[0] == '+' {
        i = 1;
    }
    let ghost body = if v@.len() > 0 && v@[0] == '+' {
        v@.drop_first()
    } else {
        v@
    };
    proof {
        assert(body =~= v@.subrange(i as int, n as int));
    }
    if i >= n {
        return None;
    }
    let mut acc: u32 = 0;
    let mut k: usize = i;
    while k < n
        invariant
            i <= k <= n,
            n == v@.len(),
            body == (if v@.len() > 0 && v@[0] == '+' {
                v@.drop_first()
            } else {
                v@
            }),
            body == v@.subrange(i as int, n as int),
            acc <= 65535,
            forall|t: int| i <= t < k ==> is_dec_digit(#[trigger] v@[t]),
            acc == digits_val(v@.subrange(i as int, k as int)),
        decreases n - k,
    {
        let cu = v[k] as u32;
        if cu < 48 || cu > 57 {
            proof {
                assert(body[k - i] == v@[k as int]);
                assert(!all_dec_digits(body));
            }
            return None;
        }
        let d = cu - 48;
        let next = acc * 10 + d;
        proof {
            let pre = v@.subrange(i as int, k as int);
            let cur = v@.subrange(i as int, k + 1);
            assert(cur.drop_last() =~= pre);
            assert(cur.last() == v@[k as int]);
            assert(next == digits_val(cur));
        }
        if next > 65535 {
            proof {
                if all_dec_digits(body) {
                    let cur = v@.subrange(i as int, k + 1);
                    assert(cur =~= body.subrange(0, k + 1 - i));
                    lemma_digits_val_monotone(body, k + 1 - i);
                    assert(digits_val(body) > 65535);
                }
            }
            return None;
        }
        acc = next;
        k = k + 1;
    }
    proof {
        assert(v@.subrange(i as int, k as int) =~= body);
        assert(forall|t: int| 0 <= t < body.len() ==> body[t] == v@[t + i]);
        assert(all_dec_digits(body));
    }
    Some(acc as u16)
}

} // verus!
