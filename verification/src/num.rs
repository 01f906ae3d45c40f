//! Decimal integer parsing, as `str::parse` does it for the integer types.
use vstd::prelude::*;
use crate::text::{chars_of, decimal, digit_char};

verus! {

/// `c` is an ASCII decimal digit.
pub open spec fn is_digit(c: char) -> bool {
    '0' <= c <= '9'
}

/// The value of the digit `c`.
pub open spec fn digit_value(c: char) -> int {
    (c as int) - ('0' as int)
}

/// `s` holds only decimal digits.
pub open spec fn all_digits(s: Seq<char>) -> bool {
    forall|i: int| 0 <= i < s.len() ==> is_digit(#[trigger] s[i])
}

/// The value of the digit string `s`, most significant digit first.
pub open spec fn digits_value(s: Seq<char>) -> int
    decreases s.len(),
{
    if s.len() == 0 {
        0
    } else {
        10 * digits_value(s.drop_last()) + digit_value(s.last())
    }
}

/// Whether `s` opens with a sign that the integer type takes: `+` always,
/// `-` only where the type has negative values (`lo < 0`).
pub open spec fn has_sign(s: Seq<char>, lo: int) -> bool {
    s.len() > 0 && (s[0] == '+' || (s[0] == '-' && lo < 0))
}

/// What `str::parse` gives for an integer type whose values run from `lo`
/// to `hi`: an optional sign, then at least one decimal digit, and a value
/// in range; anything else is an error.
pub open spec fn parse_int(s: Seq<char>, lo: int, hi: int) -> Option<int> {
    let body = if has_sign(s, lo) {
        s.drop_first()
    } else {
        s
    };
    let negative = has_sign(s, lo) && s[0] == '-';
    if body.len() == 0 || !all_digits(body) {
        None
    } else {
        let v = if negative {
            -digits_value(body)
        } else {
            digits_value(body)
        };
        if lo <= v <= hi {
            Some(v)
        } else {
            None
        }
    }
}

proof fn lemma_digits_value_nonneg(s: Seq<char>)
    requires
        all_digits(s),
    ensures
        digits_value(s) >= 0,
    decreases s.len(),
{
    if s.len() > 0 {
        assert(is_digit(s[s.len() - 1]));
        lemma_digits_value_nonneg(s.drop_last());
    }
}

fn parse_in_range(s: &str, lo: i128, hi: i128) -> (r: Option<i128>)
    requires
        -0x1_0000_0000_0000_0000 <= lo <= 0 <= hi <= 0xffff_ffff_ffff_ffff,
    ensures
        match r {
            Some(x) => parse_int(s@, lo as int, hi as int) == Some(x as int),
            None => parse_int(s@, lo as int, hi as int) is None,
        },
{
    let v = chars_of(s);
    let signed = v.len() > 0 && (v[0] == '+' || (v[0] == '-' && lo < 0));
    let negative = signed && v[0] == '-';
    let start: usize = if signed {
        1
    } else {
        0
    };
    let ghost body = if signed {
        v@.drop_first()
    } else {
        v@
    };
    assert(body =~= v@.skip(start as int));
    if start == v.len() {
        return None;
    }
    let bound: u128 = if negative {
        (0 - lo) as u128
    } else {
        hi as u128
    };
    let mut acc: u128 = 0;
    let mut i: usize = start;
    assert(body.take(0) =~= Seq::<char>::empty());
    while i < v.len()
        invariant
            v@ == s@,
            start <= i <= v@.len(),
            body == v@.skip(start as int),
            body == (if has_sign(s@, lo as int) {
                s@.drop_first()
            } else {
                s@
            }),
            bound <= 0x1_0000_0000_0000_0000,
            all_digits(body.take(i - start)),
            acc as int == if digits_value(body.take(i - start)) <= bound {
                digits_value(body.take(i - start))
            } else {
                bound + 1
            },
        decreases v@.len() - i,
    {
        let c = v[i];
        if !('0' <= c && c <= '9') {
            assert(body[i - start] == c);
            assert(!all_digits(body));
            return None;
        }
        let d = (c as u32 - '0' as u32) as u128;
        let ghost prefix = body.take(i - start);
        let ghost next = body.take(i + 1 - start);
        assert(next.drop_last() =~= prefix);
        assert(next.last() == c);
        assert(all_digits(next));
        proof {
            lemma_digits_value_nonneg(prefix);
        }
        let candidate = acc * 10 + d;
        acc = if candidate > bound {
            bound + 1
        } else {
            candidate
        };
        i = i + 1;
    }
    assert(body.take(v@.len() - start) =~= body);
    if acc > bound {
        return None;
    }
    if negative {
        Some(0 - (acc as i128))
    } else {
        Some(acc as i128)
    }
}

/// `s.parse::<u32>()`, with the error dropped.
pub fn parse_u32(s: &str) -> (r: Option<u32>)
    ensures
        match r {
            Some(x) => parse_int(s@, 0, u32::MAX as int) == Some(x as int),
            None => parse_int(s@, 0, u32::MAX as int) is None,
        },
{
    match parse_in_range(s, 0, 0xffff_ffff) {
        Some(x) => Some(x as u32),
        None => None,
    }
}

/// `s.parse::<u16>()`, with the error dropped.
pub fn parse_u16(s: &str) -> (r: Option<u16>)
    ensures
        match r {
            Some(x) => parse_int(s@, 0, u16::MAX as int) == Some(x as int),
            None => parse_int(s@, 0, u16::MAX as int) is None,
        },
{
    match parse_in_range(s, 0, 0xffff) {
        Some(x) => Some(x as u16),
        None => None,
    }
}

/// `s.parse::<i32>()`, with the error dropped.
pub fn parse_i32(s: &str) -> (r: Option<i32>)
    ensures
        match r {
            Some(x) => parse_int(s@, i32::MIN as int, i32::MAX as int) == Some(x as int),
            None => parse_int(s@, i32::MIN as int, i32::MAX as int) is None,
        },
{
    match parse_in_range(s, -0x8000_0000, 0x7fff_ffff) {
        Some(x) => Some(x as i32),
        None => None,
    }
}

/// `s.parse::<i64>()`, with the error dropped.
pub fn parse_i64(s: &str) -> (r: Option<i64>)
    ensures
        match r {
            Some(x) => parse_int(s@, i64::MIN as int, i64::MAX as int) == Some(x as int),
            None => parse_int(s@, i64::MIN as int, i64::MAX as int) is None,
        },
{
    match parse_in_range(s, -0x8000_0000_0000_0000, 0x7fff_ffff_ffff_ffff) {
        Some(x) => Some(x as i64),
        None => None,
    }
}

proof fn lemma_digit_char(k: int)
    requires
        0 <= k < 10,
    ensures
        is_digit(digit_char(k)),
        digit_value(digit_char(k)) == k,
{
}

/// Decimal notation is a non-empty run of digits whose value is the number.
pub proof fn lemma_decimal_digits(n: nat)
    ensures
        decimal(n).len() > 0,
        all_digits(decimal(n)),
        digits_value(decimal(n)) == n,
    decreases n,
{
    lemma_digit_char((n % 10) as int);
    assert(digits_value(Seq::<char>::empty()) == 0);
    if n >= 10 {
        lemma_decimal_digits(n / 10);
        let d = decimal(n);
        assert(d.last() == digit_char((n % 10) as int));
        assert(d.drop_last() =~= decimal(n / 10));
        assert forall|i: int| 0 <= i < d.len() implies is_digit(#[trigger] d[i]) by {
            if i < d.len() - 1 {
                assert(d[i] == decimal(n / 10)[i]);
            }
        }
        assert(digits_value(d) == 10 * digits_value(decimal(n / 10)) + digit_value(d.last()));
    } else {
        assert(decimal(n).drop_last() =~= Seq::<char>::empty());
        assert(decimal(n).last() == digit_char(n as int));
    }
}

/// Parsing gives back the number that decimal notation wrote: for every
/// integer type, `n.to_string().parse()` is `n` for each `n` it holds that
/// is not negative.
pub proof fn law_parse_reads_decimal(n: nat, lo: int, hi: int)
    requires
        lo <= n <= hi,
    ensures
        parse_int(decimal(n), lo, hi) == Some(n as int),
{
    lemma_decimal_digits(n);
    assert(is_digit(decimal(n)[0]));
}

} // verus!
