//! Decimal numbers: written for messages, read from protocol keys.
use vstd::prelude::*;

verus! {

/// The decimal digit `d`.
pub open spec fn digit(d: int) -> char {
    if d == 0 {
        '0'
    } else if d == 1 {
        '1'
    } else if d == 2 {
        '2'
    } else if d == 3 {
        '3'
    } else if d == 4 {
        '4'
    } else if d == 5 {
        '5'
    } else if d == 6 {
        '6'
    } else if d == 7 {
        '7'
    } else if d == 8 {
        '8'
    } else {
        '9'
    }
}

/// `n` in decimal, without leading zeros.
pub open spec fn decimal(n: nat) -> Seq<char>
    decreases n,
{
    if n < 10 {
        seq![digit(n as int)]
    } else {
        decimal(n / 10).push(digit((n % 10) as int))
    }
}

fn digit_text(d: u64) -> (r: &'static str)
    requires
        d < 10,
    ensures
        r@ == seq![digit(d as int)],
{
    proof {
        reveal_strlit("0");
        reveal_strlit("1");
        reveal_strlit("2");
        reveal_strlit("3");
        reveal_strlit("4");
        reveal_strlit("5");
        reveal_strlit("6");
        reveal_strlit("7");
        reveal_strlit("8");
        reveal_strlit("9");
    }
    let r = match d {
        0 => "0",
        1 => "1",
        2 => "2",
        3 => "3",
        4 => "4",
        5 => "5",
        6 => "6",
        7 => "7",
        8 => "8",
        _ => "9",
    };
    assert(r@ =~= seq![digit(d as int)]);
    r
}

/// Appends `n` in decimal.
pub fn push_decimal(s: &mut String, n: u64)
    ensures
        final(s)@ == old(s)@ + decimal(n as nat),
    decreases n,
{
    if n >= 10 {
        push_decimal(s, n / 10);
    }
    s.append(digit_text(n % 10));
    assert(s@ =~= old(s)@ + decimal(n as nat));
}

/// Whether `b` is an ASCII decimal digit.
pub open spec fn is_digit(b: u8) -> bool {
    '0' as u8 <= b <= '9' as u8
}

/// Whether `s` is one or more ASCII decimal digits.
pub open spec fn all_digits(s: Seq<u8>) -> bool {
    s.len() > 0 && forall|i: int| 0 <= i < s.len() ==> is_digit(#[trigger] s[i])
}

/// The value of the digits `s`, most significant first.
pub open spec fn digits_value(s: Seq<u8>) -> nat
    decreases s.len(),
{
    if s.len() == 0 {
        0
    } else {
        digits_value(s.drop_last()) * 10 + (s.last() - '0' as u8) as nat
    }
}

/// The magnitude that the digits `s` write, if `s` is nothing but digits and
/// the magnitude is at most `limit`.
pub open spec fn magnitude(s: Seq<u8>, limit: nat) -> Option<nat> {
    if all_digits(s) && digits_value(s) <= limit {
        Some(digits_value(s))
    } else {
        None
    }
}

/// The `u32` that `s` writes: digits after an optional `+`.
pub open spec fn parsed_u32(s: Seq<u8>) -> Option<u32> {
    let body = if s.len() > 0 && s[0] == '+' as u8 {
        s.skip(1)
    } else {
        s
    };
    match magnitude(body, u32::MAX as nat) {
        Some(n) => Some(n as u32),
        None => None,
    }
}

/// The `i32` that `s` writes: digits after an optional `+` or `-`.
pub open spec fn parsed_i32(s: Seq<u8>) -> Option<i32> {
    if s.len() > 0 && s[0] == '-' as u8 {
        match magnitude(s.skip(1), 0x8000_0000) {
            Some(n) => Some((-n) as i32),
            None => None,
        }
    } else {
        let body = if s.len() > 0 && s[0] == '+' as u8 {
            s.skip(1)
        } else {
            s
        };
        match magnitude(body, 0x7fff_ffff) {
            Some(n) => Some(n as i32),
            None => None,
        }
    }
}

/// More digits never make a number smaller.
proof fn lemma_digits_value_grows(s: Seq<u8>, k: int)
    requires
        0 <= k <= s.len(),
    ensures
        digits_value(s.take(k)) <= digits_value(s),
    decreases s.len() - k,
{
    if k == s.len() {
        assert(s.take(k) =~= s);
    } else {
        lemma_digits_value_grows(s, k + 1);
        assert(s.take(k + 1).drop_last() =~= s.take(k));
    }
}

/// Reads the digits `s[start..]` as a magnitude of at most `limit`.
fn parse_magnitude(s: &[u8], start: usize, limit: u32) -> (r: Option<u32>)
    requires
        start <= s.len(),
    ensures
        match r {
            Some(n) => magnitude(s@.skip(start as int), limit as nat) == Some(n as nat),
            None => magnitude(s@.skip(start as int), limit as nat) is None,
        },
{
    let ghost body = s@.skip(start as int);
    if start == s.len() {
        return None;
    }
    let mut n: u64 = 0;
    let mut i: usize = start;
    while i < s.len()
        invariant
            start <= i <= s.len(),
            body == s@.skip(start as int),
            n <= limit,
            n == digits_value(body.take(i - start)),
            forall|j: int| 0 <= j < i - start ==> is_digit(#[trigger] body[j]),
        decreases s.len() - i,
    {
        let b: u8 = s[i];
        assert(body[i - start] == b);
        if b < '0' as u8 || b > '9' as u8 {
            return None;
        }
        n = n * 10 + (b - '0' as u8) as u64;
        assert(body.take(i - start + 1).drop_last() =~= body.take(i - start));
        if n > limit as u64 {
            proof {
                lemma_digits_value_grows(body, i - start + 1);
            }
            return None;
        }
        i = i + 1;
    }
    assert(body.take(i - start) =~= body);
    Some(n as u32)
}

/// Reads a `u32` the way `str::parse` does.
pub fn parse_u32(s: &[u8]) -> (r: Option<u32>)
    ensures
        r == parsed_u32(s@),
{
    let start: usize = if s.len() > 0 && s[0] == '+' as u8 {
        1
    } else {
        0
    };
    assert(s@.skip(0) =~= s@);
    parse_magnitude(s, start, u32::MAX)
}

/// Reads an `i32` the way `str::parse` does.
pub fn parse_i32(s: &[u8]) -> (r: Option<i32>)
    ensures
        r == parsed_i32(s@),
{
    assert(s@.skip(0) =~= s@);
    if s.len() > 0 && s[0] == '-' as u8 {
        match parse_magnitude(s, 1, 0x8000_0000) {
            Some(n) => Some((-(n as i64)) as i32),
            None => None,
        }
    } else {
        let start: usize = if s.len() > 0 && s[0] == '+' as u8 {
            1
        } else {
            0
        };
        match parse_magnitude(s, start, 0x7fff_ffff) {
            Some(n) => Some(n as i32),
            None => None,
        }
    }
}

} // verus!
