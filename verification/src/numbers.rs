use vstd::prelude::*;
use vstd::string::StrSliceExecFns;

use crate::text::{char_index, ci_eq, find_char, lemma_char_index, str_eq_ci};

verus! {

pub open spec fn is_digit(c: char) -> bool {
    '0' <= c && c <= '9'
}

pub open spec fn digit_val(c: char) -> int {
    (c as u32) - ('0' as u32)
}

pub fn is_digit_char(c: char) -> (r: bool)
    ensures
        r == is_digit(c),
{
    c >= '0' && c <= '9'
}

pub open spec fn all_digits(s: Seq<char>) -> bool {
    forall|i: int| 0 <= i < s.len() ==> is_digit(#[trigger] s[i])
}

/// The value of a string of decimal digits, most significant first.
pub open spec fn digits_val(s: Seq<char>) -> int
    decreases s.len(),
{
    if s.len() == 0 {
        0
    } else {
        digits_val(s.drop_last()) * 10 + digit_val(s.last())
    }
}

pub proof fn lemma_digits_val_nonneg(s: Seq<char>)
    requires
        all_digits(s),
    ensures
        digits_val(s) >= 0,
    decreases s.len(),
{
    if s.len() > 0 {
        assert(all_digits(s.drop_last()));
        lemma_digits_val_nonneg(s.drop_last());
    }
}

/// Reading further digits never shrinks the value.
pub proof fn lemma_digits_val_prefix_le(s: Seq<char>, k: int)
    requires
        all_digits(s),
        0 <= k <= s.len(),
    ensures
        digits_val(s.subrange(0, k)) <= digits_val(s),
    decreases s.len() - k,
{
    if k == s.len() {
        assert(s.subrange(0, k) =~= s);
    } else {
        let t = s.subrange(0, k + 1);
        assert(t.drop_last() =~= s.subrange(0, k));
        assert(all_digits(t.drop_last()));
        lemma_digits_val_nonneg(t.drop_last());
        assert(digits_val(t) == digits_val(s.subrange(0, k)) * 10 + digit_val(t.last()));
        lemma_digits_val_prefix_le(s, k + 1);
    }
}

/// Whether the string carries a leading minus sign.
pub open spec fn has_minus(s: Seq<char>) -> bool {
    s.len() > 0 && s[0] == '-'
}

/// The string with an optional leading sign removed.
pub open spec fn strip_sign(s: Seq<char>) -> Seq<char> {
    if s.len() > 0 && (s[0] == '+' || s[0] == '-') {
        s.drop_first()
    } else {
        s
    }
}

/// The strings `str::parse::<i32>` accepts: an optional sign, one or more
/// decimal digits, and a value within the 32-bit signed range.
pub open spec fn is_i32_string(s: Seq<char>) -> bool {
    let b = strip_sign(s);
    b.len() > 0 && all_digits(b) && (if has_minus(s) {
        digits_val(b) <= 0x8000_0000
    } else {
        digits_val(b) <= 0x7fff_ffff
    })
}

/// The value such a string denotes.
pub open spec fn i32_string_val(s: Seq<char>) -> int {
    if has_minus(s) {
        -digits_val(strip_sign(s))
    } else {
        digits_val(strip_sign(s))
    }
}

/// Parses a 32-bit signed integer, accepting exactly the strings that
/// `str::parse::<i32>` accepts.
pub fn parse_i32(s: &str) -> (r: Option<i32>)
    ensures
        match r {
            Some(v) => is_i32_string(s@) && v as int == i32_string_val(s@),
            None => !is_i32_string(s@),
        },
{
    let n = s.unicode_len();
    if n == 0 {
        return None;
    }
    let c0 = s.get_char(0);
    let neg = c0 == '-';
    let start: usize = if neg || c0 == '+' {
        1
    } else {
        0
    };
    let ghost body = strip_sign(s@);
    proof {
        assert(body =~= s@.subrange(start as int, n as int));
    }
    if start == n {
        return None;
    }
    let mut acc: u64 = 0;
    let mut i: usize = start;
    while i < n
        invariant
            start <= i <= n,
            n == s@.len(),
            start == if has_minus(s@) || (s@.len() > 0 && s@[0] == '+') {
                1int
            } else {
                0int
            },
            body == s@.subrange(start as int, n as int),
            body == strip_sign(s@),
            all_digits(s@.subrange(start as int, i as int)),
            acc == digits_val(s@.subrange(start as int, i as int)),
            acc <= 0x8000_0000,
        decreases n - i,
    {
        let c = s.get_char(i);
        if !(c >= '0' && c <= '9') {
            proof {
                assert(!is_digit(body[i - start]));
            }
            return None;
        }
        let d: u64 = (c as u32 - '0' as u32) as u64;
        let acc2: u64 = acc * 10 + d;
        proof {
            let p = s@.subrange(start as int, i as int);
            let q = s@.subrange(start as int, i + 1int);
            assert(q.drop_last() =~= p);
            assert(digits_val(q) == acc2);
        }
        if acc2 > 0x8000_0000 {
            proof {
                if is_i32_string(s@) {
                    assert(all_digits(body));
                    let q = s@.subrange(start as int, i + 1int);
                    assert(q =~= body.subrange(0, i + 1 - start));
                    lemma_digits_val_prefix_le(body, i + 1 - start);
                    assert(digits_val(q) == acc2);
                    assert(digits_val(body) >= acc2);
                    assert(false);
                }
            }
            return None;
        }
        acc = acc2;
        i += 1;
    }
    proof {
        assert(s@.subrange(start as int, n as int) =~= body);
    }
    if neg {
        let v: i64 = -(acc as i64);
        proof {
            assert(is_i32_string(s@));
        }
        Some(v as i32)
    } else {
        if acc > 0x7fff_ffff {
            return None;
        }
        Some(acc as i32)
    }
}

/// The position of the first exponent marker (`e` or `E`), or `s.len()`.
pub open spec fn exp_index(s: Seq<char>) -> int
    decreases s.len(),
{
    if s.len() == 0 {
        0
    } else if s[0] == 'e' || s[0] == 'E' {
        0
    } else {
        1 + exp_index(s.drop_first())
    }
}

pub proof fn lemma_exp_index(s: Seq<char>)
    ensures
        0 <= exp_index(s) <= s.len(),
        forall|i: int| 0 <= i < exp_index(s) ==> s[i] != 'e' && s[i] != 'E',
        exp_index(s) < s.len() ==> s[exp_index(s)] == 'e' || s[exp_index(s)] == 'E',
    decreases s.len(),
{
    if s.len() == 0 {
    } else if s[0] == 'e' || s[0] == 'E' {
    } else {
        let t = s.drop_first();
        lemma_exp_index(t);
        assert forall|i: int| 0 <= i < exp_index(s) implies s[i] != 'e' && s[i] != 'E' by {
            if i >= 1 {
                assert(s[i] == t[i - 1]);
            }
        }
    }
}

proof fn lemma_exp_index_unique(s: Seq<char>, k: int)
    requires
        0 <= k <= s.len(),
        forall|i: int| 0 <= i < k ==> s[i] != 'e' && s[i] != 'E',
        k < s.len() ==> s[k] == 'e' || s[k] == 'E',
    ensures
        exp_index(s) == k,
    decreases s.len(),
{
    if s.len() == 0 {
    } else if s[0] == 'e' || s[0] == 'E' {
        assert(k == 0);
    } else {
        if k == 0 {
            assert(false);
        }
        let t = s.drop_first();
        assert(forall|i: int| 0 <= i < k - 1 ==> t[i] != 'e' && t[i] != 'E');
        lemma_exp_index_unique(t, k - 1);
    }
}

fn find_exp(s: &str) -> (r: usize)
    ensures
        r == exp_index(s@),
{
    let n = s.unicode_len();
    let mut i: usize = 0;
    while i < n
        invariant
            0 <= i <= n,
            n == s@.len(),
            forall|j: int| 0 <= j < i ==> s@[j] != 'e' && s@[j] != 'E',
        decreases n - i,
    {
        let c = s.get_char(i);
        if c == 'e' || c == 'E' {
            proof {
                lemma_exp_index_unique(s@, i as int);
            }
            return i;
        }
        i += 1;
    }
    proof {
        lemma_exp_index_unique(s@, n as int);
    }
    n
}

/// A mantissa: `digits`, `digits '.' digits?` or `'.' digits`.
pub open spec fn mantissa_ok(m: Seq<char>) -> bool {
    let d = char_index(m, '.');
    if 0 <= d < m.len() {
        let ip = m.subrange(0, d);
        let fp = m.subrange(d + 1, m.len() as int);
        all_digits(ip) && all_digits(fp) && (ip.len() > 0 || fp.len() > 0)
    } else {
        m.len() > 0 && all_digits(m)
    }
}

/// An exponent tail: an optional sign and one or more digits.
pub open spec fn exp_ok(e: Seq<char>) -> bool {
    let b = strip_sign(e);
    b.len() > 0 && all_digits(b)
}

/// The strings `str::parse::<f64>` accepts: an optional sign, then an
/// infinity or not-a-number word (any case) or a decimal number with an
/// optional exponent.
pub open spec fn is_f64_string(s: Seq<char>) -> bool {
    let b = strip_sign(s);
    ci_eq(b, "inf"@) || ci_eq(b, "infinity"@) || ci_eq(b, "nan"@) || {
        let ei = exp_index(b);
        if 0 <= ei < b.len() {
            mantissa_ok(b.subrange(0, ei)) && exp_ok(b.subrange(ei + 1, b.len() as int))
        } else {
            mantissa_ok(b)
        }
    }
}

fn check_all_digits(s: &str) -> (r: bool)
    ensures
        r == all_digits(s@),
{
    let n = s.unicode_len();
    let mut i: usize = 0;
    while i < n
        invariant
            0 <= i <= n,
            n == s@.len(),
            forall|j: int| 0 <= j < i ==> is_digit(#[trigger] s@[j]),
        decreases n - i,
    {
        let c = s.get_char(i);
        if !(c >= '0' && c <= '9') {
            return false;
        }
        i += 1;
    }
    true
}

fn check_mantissa(m: &str) -> (r: bool)
    ensures
        r == mantissa_ok(m@),
{
    let n = m.unicode_len();
    let d = find_char(m, '.');
    proof {
        lemma_char_index(m@, '.');
    }
    if d < n {
        let ip = m.substring_char(0, d);
        let fp = m.substring_char(d + 1, n);
        check_all_digits(ip) && check_all_digits(fp) && (ip.unicode_len() > 0
            || fp.unicode_len() > 0)
    } else {
        n > 0 && check_all_digits(m)
    }
}

fn strip_sign_str<'a>(s: &'a str) -> (r: &'a str)
    ensures
        r@ == strip_sign(s@),
{
    let n = s.unicode_len();
    if n > 0 {
        let c0 = s.get_char(0);
        if c0 == '+' || c0 == '-' {
            return s.substring_char(1, n);
        }
    }
    s
}

/// Recognises exactly the strings that `str::parse::<f64>` accepts.
/// The planning core never computes with floating-point values, so the
/// syntax check is all that scanning and literal conversion need.
pub fn is_f64_token(s: &str) -> (r: bool)
    ensures
        r == is_f64_string(s@),
{
    let body = strip_sign_str(s);
    if str_eq_ci(body, "inf") || str_eq_ci(body, "infinity") || str_eq_ci(body, "nan") {
        return true;
    }
    let n = body.unicode_len();
    let ei = find_exp(body);
    proof {
        lemma_exp_index(body@);
    }
    if ei < n {
        let m = body.substring_char(0, ei);
        let e = body.substring_char(ei + 1, n);
        let eb = strip_sign_str(e);
        check_mantissa(m) && eb.unicode_len() > 0 && check_all_digits(eb)
    } else {
        check_mantissa(body)
    }
}

/// The decimal digit characters.
pub open spec fn dec_digit_char(d: int) -> char {
    if d == 0 {
        '0'
    } else if d == 1 {
        '1'
    } else if d == 2 {
        '2'
    } else if d == 3 {
        '3'
    } else if d == 4 {
        '4'
    } else if d == 5 {
        '5'
    } else if d == 6 {
        '6'
    } else if d == 7 {
        '7'
    } else if d == 8 {
        '8'
    } else {
        '9'
    }
}

/// The decimal rendering of a natural number, most significant digit
/// first, without leading zeroes (except for zero itself).
pub open spec fn dec_str(n: nat) -> Seq<char>
    decreases n,
{
    if n < 10 {
        seq![dec_digit_char(n as int)]
    } else {
        dec_str(n / 10) + seq![dec_digit_char((n % 10) as int)]
    }
}

/// The decimal rendering of a signed value: a minus sign before the
/// magnitude when negative.
pub open spec fn i32_dec_str(v: int) -> Seq<char> {
    if v < 0 {
        "-"@ + dec_str((-v) as nat)
    } else {
        dec_str(v as nat)
    }
}

fn dec_digit(d: u32) -> (r: &'static str)
    requires
        d < 10,
    ensures
        r@ == seq![dec_digit_char(d as int)],
{
    if d == 0 {
        proof {
            reveal_strlit("0");
            assert("0"@ =~= seq![dec_digit_char(0)]);
        }
        "0"
    } else if d == 1 {
        proof {
            reveal_strlit("1");
            assert("1"@ =~= seq![dec_digit_char(1)]);
        }
        "1"
    } else if d == 2 {
        proof {
            reveal_strlit("2");
            assert("2"@ =~= seq![dec_digit_char(2)]);
        }
        "2"
    } else if d == 3 {
        proof {
            reveal_strlit("3");
            assert("3"@ =~= seq![dec_digit_char(3)]);
        }
        "3"
    } else if d == 4 {
        proof {
            reveal_strlit("4");
            assert("4"@ =~= seq![dec_digit_char(4)]);
        }
        "4"
    } else if d == 5 {
        proof {
            reveal_strlit("5");
            assert("5"@ =~= seq![dec_digit_char(5)]);
        }
        "5"
    } else if d == 6 {
        proof {
            reveal_strlit("6");
            assert("6"@ =~= seq![dec_digit_char(6)]);
        }
        "6"
    } else if d == 7 {
        proof {
            reveal_strlit("7");
            assert("7"@ =~= seq![dec_digit_char(7)]);
        }
        "7"
    } else if d == 8 {
        proof {
            reveal_strlit("8");
            assert("8"@ =~= seq![dec_digit_char(8)]);
        }
        "8"
    } else {
        proof {
            reveal_strlit("9");
            assert("9"@ =~= seq![dec_digit_char(9)]);
        }
        "9"
    }
}

fn u32_to_string(n: u32) -> (r: String)
    ensures
        r@ == dec_str(n as nat),
    decreases n,
{
    if n < 10 {
        String::from_str(dec_digit(n))
    } else {
        let mut s = u32_to_string(n / 10);
        s.append(dec_digit(n % 10));
        s
    }
}

/// Renders a 32-bit signed value in decimal, as its input syntax wrote
/// it.
pub fn i32_to_string(v: i32) -> (r: String)
    ensures
        r@ == i32_dec_str(v as int),
{
    if v < 0 {
        let m: i64 = -(v as i64);
        let mu: u32 = m as u32;
        let mut s = String::from_str("-");
        let digits = u32_to_string(mu);
        s.append(digits.as_str());
        s
    } else {
        u32_to_string(v as u32)
    }
}

/// Recognises a boolean literal up to ASCII case, as sampling-based type
/// detection does.
pub fn is_bool_token_ci(s: &str) -> (r: bool)
    ensures
        r == (ci_eq(s@, "true"@) || ci_eq(s@, "false"@)),
{
    str_eq_ci(s, "true") || str_eq_ci(s, "false")
}

} // verus!
