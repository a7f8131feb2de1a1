//! Reading integers and booleans from literal text, as Rust's `FromStr`
//! reads them: an optional sign followed by decimal digits, and exactly
//! `true` or `false`.

use vstd::prelude::*;
use vstd::string::{StrSliceExecFns, StringExecFns};

verus! {

pub open spec fn is_digit(c: char) -> bool {
    '0' <= c && c <= '9'
}

pub open spec fn all_digits(s: Seq<char>) -> bool {
    s.len() > 0 && forall|i: int| 0 <= i < s.len() ==> is_digit(#[trigger] s[i])
}

/// Value of the decimal digits `s`.
pub open spec fn digits_value(s: Seq<char>) -> nat
    decreases s.len(),
{
    if s.len() == 0 {
        0
    } else {
        digits_value(s.drop_last()) * 10 + ((s.last() as nat) - ('0' as nat)) as nat
    }
}

/// The integer that `s` spells: an optional `+` or `-`, then one or more
/// decimal digits; `None` for any other text.
pub open spec fn decimal_value(s: Seq<char>) -> Option<int> {
    if s.len() > 0 && s[0] == '-' && all_digits(s.drop_first()) {
        Some(-(digits_value(s.drop_first()) as int))
    } else if s.len() > 0 && s[0] == '+' && all_digits(s.drop_first()) {
        Some(digits_value(s.drop_first()) as int)
    } else if all_digits(s) {
        Some(digits_value(s) as int)
    } else {
        None
    }
}

/// The integer that `s` spells when it lies in `[min, max]`.
pub open spec fn integer_in(s: Seq<char>, min: int, max: int) -> Option<int> {
    match decimal_value(s) {
        Some(v) => if min <= v <= max {
            Some(v)
        } else {
            None
        },
        None => None,
    }
}

proof fn lemma_digits_grow(s: Seq<char>, k: int)
    requires
        0 <= k <= s.len(),
    ensures
        digits_value(s.take(k)) <= digits_value(s),
    decreases s.len(),
{
    if k < s.len() {
        assert(s.drop_last().take(k) =~= s.take(k));
        lemma_digits_grow(s.drop_last(), k);
    } else {
        assert(s.take(k) =~= s);
    }
}

/// Whether `s` and `t` hold the same characters.
pub fn same_text(s: &str, t: &str) -> (r: bool)
    ensures
        r == (s@ == t@),
{
    let n = s.unicode_len();
    if n != t.unicode_len() {
        return false;
    }
    let mut i: usize = 0;
    while i < n
        invariant
            n == s@.len(),
            n == t@.len(),
            i <= n,
            forall|j: int| 0 <= j < i ==> s@[j] == t@[j],
        decreases n - i,
    {
        if s.get_char(i) != t.get_char(i) {
            return false;
        }
        i = i + 1;
    }
    assert(s@ =~= t@);
    true
}

/// The boolean that `s` spells: exactly `true` or `false`.
pub fn parse_bool(s: &str) -> (r: Option<bool>)
    ensures
        r == (if s@ == "true"@ {
            Some(true)
        } else if s@ == "false"@ {
            Some(false)
        } else {
            None::<bool>
        }),
{
    if same_text(s, "true") {
        Some(true)
    } else if same_text(s, "false") {
        Some(false)
    } else {
        None
    }
}

/// The integer that `s` spells, when it lies in `[min, max]`.
pub fn parse_integer(s: &str, min: i64, max: i64) -> (r: Option<i64>)
    ensures
        r matches Some(v) ==> integer_in(s@, min as int, max as int) == Some(v as int),
        r is None ==> integer_in(s@, min as int, max as int) is None,
{
    let n = s.unicode_len();
    if n == 0 {
        return None;
    }
    let first = s.get_char(0);
    let negative = first == '-';
    let start: usize = if first == '-' || first == '+' {
        1
    } else {
        0
    };
    if start == n {
        return None;
    }
    let ghost digits = s@.subrange(start as int, n as int);
    let limit: i128 = 0x1_0000_0000_0000_0000;
    let mut acc: i128 = 0;
    let mut i: usize = start;
    while i < n
        invariant
            n == s@.len(),
            start <= i <= n,
            start < n,
            start <= 1,
            s@[0] == first,
            negative == (first == '-'),
            start == 1 <==> (first == '-' || first == '+'),
            digits == s@.subrange(start as int, n as int),
            forall|j: int| start <= j < i ==> is_digit(#[trigger] s@[j]),
            acc == digits_value(digits.take(i - start)),
            0 <= acc <= limit,
            limit == 0x1_0000_0000_0000_0000i128,
        decreases n - i,
    {
        let c = s.get_char(i);
        if c < '0' || c > '9' {
            proof {
                assert(!is_digit(digits[i - start]));
                assert(!all_digits(digits));
                if start == 0 {
                    assert(digits =~= s@);
                    assert(!is_digit(s@[i as int]));
                } else {
                    assert(digits =~= s@.drop_first());
                }
            }
            return None;
        }
        proof {
            let t = digits.take(i + 1 - start);
            assert(t.drop_last() =~= digits.take(i - start));
            assert(t.last() == c);
        }
        let d = (c as u32) - ('0' as u32);
        assert(d <= 9);
        assert(acc * 10 <= 0x1_0000_0000_0000_0000i128 * 10) by (nonlinear_arith)
            requires
                0 <= acc <= 0x1_0000_0000_0000_0000i128,
        ;
        acc = acc * 10 + d as i128;
        i = i + 1;
        if acc > limit {
            proof {
                lemma_digits_grow(digits, i - start);
                if start == 0 {
                    assert(digits =~= s@);
                } else {
                    assert(digits =~= s@.drop_first());
                }
            }
            return None;
        }
    }
    proof {
        assert(digits.take(n - start) =~= digits);
        assert(all_digits(digits));
        if start == 0 {
            assert(digits =~= s@);
        } else {
            assert(digits =~= s@.drop_first());
        }
    }
    let v: i128 = if negative {
        -acc
    } else {
        acc
    };
    if v < min as i128 || v > max as i128 {
        None
    } else {
        Some(v as i64)
    }
}

/// The decimal digit `d` (below 10).
pub open spec fn digit_char(d: nat) -> char {
    seq!['0', '1', '2', '3', '4', '5', '6', '7', '8', '9'][d as int]
}

/// The decimal digits of `n`, most significant first, without leading zeros.
pub open spec fn digits_of(n: nat) -> Seq<char>
    decreases n,
{
    if n < 10 {
        seq![digit_char(n)]
    } else {
        digits_of(n / 10).push(digit_char(n % 10))
    }
}

/// The decimal text of `v`: a `-` for negative values, then its digits.
pub open spec fn decimal_of(v: int) -> Seq<char> {
    if v < 0 {
        seq!['-'] + digits_of((-v) as nat)
    } else {
        digits_of(v as nat)
    }
}

fn digit_str(d: u64) -> (r: &'static str)
    requires
        d < 10,
    ensures
        r@ == seq![digit_char(d as nat)],
{
    proof {
        reveal_strlit("0");
        reveal_strlit("1");
        reveal_strlit("2");
        reveal_strlit("3");
        reveal_strlit("4");
        reveal_strlit("5");
        reveal_strlit("6");
        reveal_strlit("7");
        reveal_strlit("8");
        reveal_strlit("9");
    }
    let r = if d == 0 {
        "0"
    } else if d == 1 {
        "1"
    } else if d == 2 {
        "2"
    } else if d == 3 {
        "3"
    } else if d == 4 {
        "4"
    } else if d == 5 {
        "5"
    } else if d == 6 {
        "6"
    } else if d == 7 {
        "7"
    } else if d == 8 {
        "8"
    } else {
        "9"
    };
    assert(r@ =~= seq![digit_char(d as nat)]);
    r
}

fn push_digits(s: &mut String, n: u64)
    ensures
        final(s)@ == old(s)@ + digits_of(n as nat),
    decreases n,
{
    if n >= 10 {
        push_digits(s, n / 10);
    }
    s.append(digit_str(n % 10));
    if n >= 10 {
        assert(digits_of(n as nat) == digits_of((n / 10) as nat).push(digit_char((n % 10) as nat)));
    }
    assert(s@ =~= old(s)@ + digits_of(n as nat));
}

/// The decimal text of `v`.
pub fn decimal_text(v: i64) -> (r: String)
    ensures
        r@ == decimal_of(v as int),
{
    proof {
        reveal_strlit("-");
        reveal_strlit("");
    }
    if v < 0 {
        let mut s = String::from_str("-");
        let m: u64 = (-(v as i128)) as u64;
        push_digits(&mut s, m);
        s
    } else {
        let mut s = String::from_str("");
        push_digits(&mut s, v as u64);
        assert(s@ =~= decimal_of(v as int));
        s
    }
}

} // verus!
