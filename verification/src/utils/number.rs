//! Reading decimal integers from text, as `str::parse` does for `u32` and `i32`:
//! an optional sign, then one or more ASCII digits, within the type's range.

use vstd::prelude::*;

use crate::utils::text::{decimal, digit_char, signed_decimal};

verus! {

pub open spec fn is_digit(c: char) -> bool {
    '0' <= c && c <= '9'
}

pub open spec fn all_digits(s: Seq<char>) -> bool {
    forall|i: int| 0 <= i < s.len() ==> #[trigger] is_digit(s[i])
}

/// The value of a run of digits.
pub open spec fn digits_value(s: Seq<char>) -> nat
    decreases s.len(),
{
    if s.len() == 0 {
        0
    } else {
        digits_value(s.drop_last()) * 10 + ((s.last() as u32) - ('0' as u32)) as nat
    }
}

/// The digits after an optional leading `+`, when something follows it.
pub open spec fn unsigned_body(s: Seq<char>) -> Seq<char> {
    if s.len() > 0 && s[0] == '+' { s.drop_first() } else { s }
}

/// What `s.parse::<u32>()` returns when it succeeds.
pub open spec fn parsed_u32(s: Seq<char>) -> Option<u32> {
    let body = unsigned_body(s);
    if body.len() > 0 && all_digits(body) && digits_value(body) <= u32::MAX {
        Some(digits_value(body) as u32)
    } else {
        None
    }
}

/// What `s.parse::<i32>()` returns when it succeeds.
pub open spec fn parsed_i32(s: Seq<char>) -> Option<i32> {
    if s.len() > 0 && s[0] == '-' {
        let body = s.drop_first();
        if body.len() > 0 && all_digits(body) && digits_value(body) <= 2147483648 {
            Some((-(digits_value(body) as int)) as i32)
        } else {
            None
        }
    } else {
        let body = unsigned_body(s);
        if body.len() > 0 && all_digits(body) && digits_value(body) <= i32::MAX {
            Some(digits_value(body) as i32)
        } else {
            None
        }
    }
}

proof fn lemma_digits_value_grows(s: Seq<char>, i: int)
    requires
        0 <= i <= s.len(),
        all_digits(s),
    ensures
        digits_value(s.take(i)) <= digits_value(s),
    decreases s.len() - i,
{
    if i < s.len() {
        lemma_digits_value_grows(s, i + 1);
        assert(s.take(i + 1).drop_last() =~= s.take(i));
        assert(is_digit(s[i]));
    } else {
        assert(s.take(i) =~= s);
    }
}

/// The value of the digits of `s` from position `start`, or `None` when a
/// character there is not a digit, nothing is there, or the value exceeds `limit`.
fn digits_from(s: &str, start: usize, limit: u64) -> (r: Option<u64>)
    requires
        start <= s@.len(),
        limit <= u32::MAX + 1,
    ensures
        ({
            let body = s@.subrange(start as int, s@.len() as int);
            match r {
                Some(v) => body.len() > 0 && all_digits(body) && v == digits_value(body) && v <= limit,
                None => !(body.len() > 0 && all_digits(body) && digits_value(body) <= limit),
            }
        }),
{
    let ghost body = s@.subrange(start as int, s@.len() as int);
    let n = s.unicode_len();
    if start >= n {
        return None;
    }
    let mut acc: u64 = 0;
    let mut i = start;
    while i < n
        invariant
            n == s@.len(),
            start <= i <= n,
            body == s@.subrange(start as int, s@.len() as int),
            limit <= u32::MAX + 1,
            all_digits(body.take(i - start)),
            acc == digits_value(body.take(i - start)),
            acc <= limit,
        decreases n - i,
    {
        let c = s.get_char(i);
        assert(c == body[i - start]);
        if !('0' <= c && c <= '9') {
            assert(!is_digit(body[i - start]));
            assert(!all_digits(body));
            return None;
        }
        let d = (c as u32 - '0' as u32) as u64;
        proof {
            assert(body.take(i - start + 1).drop_last() =~= body.take(i - start));
            assert(all_digits(body.take(i - start + 1)));
        }
        acc = acc * 10 + d;
        if acc > limit {
            proof {
                if all_digits(body) {
                    lemma_digits_value_grows(body, i - start + 1);
                }
            }
            return None;
        }
        i = i + 1;
    }
    assert(body.take(n - start) =~= body);
    Some(acc)
}

/// `s.parse::<u32>()`, with `None` for every failure.
pub fn parse_u32(s: &str) -> (r: Option<u32>)
    ensures
        r == parsed_u32(s@),
{
    let n = s.unicode_len();
    let start: usize = if n > 0 && s.get_char(0) == '+' { 1 } else { 0 };
    assert(s@.subrange(start as int, s@.len() as int) =~= unsigned_body(s@));
    match digits_from(s, start, 4294967295) {
        Some(v) => Some(v as u32),
        None => None,
    }
}

/// `s.parse::<i32>()`, with `None` for every failure.
pub fn parse_i32(s: &str) -> (r: Option<i32>)
    ensures
        r == parsed_i32(s@),
{
    let n = s.unicode_len();
    if n > 0 && s.get_char(0) == '-' {
        assert(s@.subrange(1, s@.len() as int) =~= s@.drop_first());
        match digits_from(s, 1, 2147483648) {
            Some(v) => {
                let m = v as i64;
                Some((-m) as i32)
            },
            None => None,
        }
    } else {
        let start: usize = if n > 0 && s.get_char(0) == '+' { 1 } else { 0 };
        assert(s@.subrange(start as int, s@.len() as int) =~= unsigned_body(s@));
        match digits_from(s, start, 2147483647) {
            Some(v) => Some(v as i32),
            None => None,
        }
    }
}

/// The decimal text of a number is a non-empty run of digits whose value is
/// the number.
pub proof fn lemma_decimal_is_digits(n: nat)
    ensures
        decimal(n).len() > 0,
        all_digits(decimal(n)),
        digits_value(decimal(n)) == n,
    decreases n,
{
    if n < 10 {
        let s = decimal(n);
        assert(s.drop_last() =~= Seq::<char>::empty());
        assert(s.last() == digit_char(n as int));
        assert((digit_char(n as int) as u32) - ('0' as u32) == n);
        assert(digits_value(s) == digits_value(s.drop_last()) * 10 + n);
    } else {
        lemma_decimal_is_digits(n / 10);
        let s = decimal(n);
        assert(s.drop_last() =~= decimal(n / 10));
        let d = (n % 10) as int;
        assert(s.last() == digit_char(d));
        assert((digit_char(d) as u32) - ('0' as u32) == d);
        assert(digits_value(s) == digits_value(decimal(n / 10)) * 10 + d);
        assert((n / 10) * 10 + d == n);
        assert forall|i: int| 0 <= i < s.len() implies #[trigger] is_digit(s[i]) by {
            if i < s.len() - 1 {
                assert(s[i] == decimal(n / 10)[i]);
            }
        }
    }
}

/// Parsing reads back the decimal text of every `u32`.
pub proof fn lemma_parse_u32_reads_decimal(n: u32)
    ensures
        parsed_u32(decimal(n as nat)) == Some(n),
{
    lemma_decimal_is_digits(n as nat);
    assert(is_digit(decimal(n as nat)[0]));
}

/// Parsing reads back the decimal text of every `i32`, with its minus sign
/// when it is negative.
pub proof fn lemma_parse_i32_reads_signed_decimal(n: i32)
    ensures
        parsed_i32(signed_decimal(n as int)) == Some(n),
{
    if n < 0 {
        let m: nat = (-(n as int)) as nat;
        lemma_decimal_is_digits(m);
        let s = signed_decimal(n as int);
        assert(s[0] == '-');
        assert(s.drop_first() =~= decimal(m));
    } else {
        lemma_decimal_is_digits(n as nat);
        assert(is_digit(decimal(n as nat)[0]));
    }
}

} // verus!
