//! Numbers in text: unsigned integers read and written in a radix.

use vstd::prelude::*;
use vstd::string::StringExecFns;
use crate::text::chars_of;

verus! {

/// The value of `c` as a digit in `radix`.
pub open spec fn digit_value(c: char, radix: int) -> Option<nat> {
    let n = c as int;
    let v = if '0' <= c <= '9' {
        n - '0' as int
    } else if 'a' <= c <= 'z' {
        n - 'a' as int + 10
    } else if 'A' <= c <= 'Z' {
        n - 'A' as int + 10
    } else {
        36
    };
    if v < radix {
        Some(v as nat)
    } else {
        None
    }
}

/// The value of `s` as digits in `radix`, where all its characters are digits.
pub open spec fn digits_value(s: Seq<char>, radix: int) -> Option<nat>
    decreases s.len(),
{
    if s.len() == 0 {
        Some(0)
    } else {
        match (digits_value(s.drop_last(), radix), digit_value(s.last(), radix)) {
            (Some(v), Some(d)) => Some((v * radix + d) as nat),
            _ => None,
        }
    }
}

/// `s` without one leading plus sign.
pub open spec fn unsigned_part(s: Seq<char>) -> Seq<char> {
    if s.len() > 0 && s[0] == '+' {
        s.skip(1)
    } else {
        s
    }
}

/// The number that `s` denotes: digits in `radix`, at least one, after an
/// optional plus sign, with a value of at most `max`.
pub open spec fn uint_value(s: Seq<char>, radix: int, max: int) -> Option<nat> {
    let digits = unsigned_part(s);
    if digits.len() == 0 {
        None
    } else {
        match digits_value(digits, radix) {
            Some(v) => if v <= max {
                Some(v)
            } else {
                None
            },
            None => None,
        }
    }
}

/// The value of `c` as a digit in `radix`.
fn digit_of(c: char, radix: u32) -> (r: Option<u64>)
    requires
        2 <= radix <= 36,
    ensures
        match r {
            Some(d) => digit_value(c, radix as int) == Some(d as nat),
            None => digit_value(c, radix as int) is None,
        },
{
    let n = c as u32;
    let v: u32 = if '0' <= c && c <= '9' {
        n - 48
    } else if 'a' <= c && c <= 'z' {
        n - 97 + 10
    } else if 'A' <= c && c <= 'Z' {
        n - 65 + 10
    } else {
        36
    };
    if v < radix {
        Some(v as u64)
    } else {
        None
    }
}

/// A prefix that is no number, or too large a one, stays so in all that it begins.
proof fn lemma_digits_grow(s: Seq<char>, radix: int, k: int)
    requires
        2 <= radix,
        0 <= k <= s.len(),
    ensures
        digits_value(s, radix) matches Some(v) ==> digits_value(s.take(k), radix) matches Some(w)
            && w <= v,
    decreases s.len() - k,
{
    if k < s.len() {
        lemma_digits_grow(s, radix, k + 1);
        assert(s.take(k + 1).drop_last() =~= s.take(k));
        if let Some(v) = digits_value(s, radix) {
            let w = digits_value(s.take(k), radix).unwrap();
            assert(w * radix >= w) by (nonlinear_arith)
                requires
                    radix >= 1,
                    w >= 0,
            ;
        }
    } else {
        assert(s.take(k) =~= s);
    }
}

/// The number that `s` denotes in `radix`, at most `max`, as the `FromStr` of
/// an unsigned integer type with that maximum reads it.
pub fn parse_uint(s: &str, radix: u32, max: u64) -> (r: Option<u64>)
    requires
        2 <= radix <= 36,
    ensures
        match r {
            Some(v) => uint_value(s@, radix as int, max as int) == Some(v as nat),
            None => uint_value(s@, radix as int, max as int) is None,
        },
{
    let chars = chars_of(s);
    let start: usize = if chars.len() > 0 && chars[0] == '+' {
        1
    } else {
        0
    };
    let ghost digits = unsigned_part(s@);
    assert(digits =~= chars@.skip(start as int));
    if start == chars.len() {
        return None;
    }
    let mut value: u64 = 0;
    let mut i: usize = start;
    while i < chars.len()
        invariant
            2 <= radix <= 36,
            start <= i <= chars.len(),
            start < chars.len(),
            start <= 1,
            digits == unsigned_part(s@),
            digits == chars@.skip(start as int),
            digits_value(digits.take(i - start), radix as int) == Some(value as nat),
            value <= max,
        decreases chars.len() - i,
    {
        let ghost next = digits.take(i - start + 1);
        proof {
            assert(next.drop_last() =~= digits.take(i - start));
            assert(next.last() == chars[i as int]);
            lemma_digits_grow(digits, radix as int, i - start + 1);
        }
        match digit_of(chars[i], radix) {
            Some(d) => {
                assert(0 <= value * radix <= 0xffff_ffff_ffff_ffff * 36) by (nonlinear_arith)
                    requires
                        0 <= value <= 0xffff_ffff_ffff_ffff,
                        0 <= radix <= 36,
                ;
                let wide: u128 = (value as u128) * (radix as u128) + (d as u128);
                if wide > max as u128 {
                    return None;
                }
                value = wide as u64;
            },
            None => {
                return None;
            },
        }
        i = i + 1;
    }
    assert(digits.take(i - start) =~= digits);
    Some(value)
}

/// The character of a decimal digit.
pub open spec fn digit_char(d: int) -> char {
    ('0' as int + d) as char
}

/// `n` in decimal.
pub open spec fn decimal(n: nat) -> Seq<char>
    decreases n,
{
    if n < 10 {
        seq![digit_char(n as int)]
    } else {
        decimal(n / 10).push(digit_char((n % 10) as int))
    }
}

/// `n` in decimal, with zeros before it where it has fewer than `width` digits.
pub open spec fn padded(n: nat, width: nat) -> Seq<char> {
    zeros(width - decimal(n).len()) + decimal(n)
}

/// That many zeros; none for a negative number.
pub open spec fn zeros(count: int) -> Seq<char> {
    Seq::new(
        if count > 0 {
            count as nat
        } else {
            0
        },
        |i: int| '0',
    )
}

/// `n` in decimal.
pub fn wide_decimal_text(n: u128) -> (s: String)
    ensures
        s@ == decimal(n as nat),
    decreases n,
{
    if n < 10 {
        let mut s = String::new();
        s.push((48 + n as u8) as char);
        assert(s@ =~= decimal(n as nat));
        s
    } else {
        let mut s = wide_decimal_text(n / 10);
        s.push((48 + (n % 10) as u8) as char);
        s
    }
}

/// `n` in decimal.
pub fn decimal_text(n: u64) -> (s: String)
    ensures
        s@ == decimal(n as nat),
{
    wide_decimal_text(n as u128)
}

/// `n` in decimal, with zeros before it where it has fewer than `width` digits.
pub fn padded_text(n: u64, width: usize) -> (s: String)
    ensures
        s@ == padded(n as nat, width as nat),
{
    let digits = decimal_text(n);
    let chars = chars_of(&digits);
    let mut s = String::new();
    let mut i: usize = chars.len();
    assert(s@ =~= zeros(0));
    while i < width
        invariant
            chars.len() <= i,
            i <= width || i == chars.len(),
            s@ == zeros(i - chars.len()),
        decreases width - i,
    {
        s.push('0');
        assert(s@ =~= zeros(i - chars.len() + 1));
        i = i + 1;
    }
    assert(s@ =~= zeros(width - chars.len()));
    s.append(&digits);
    s
}

/// A number written in decimal consists of digits and reads back as itself.
pub proof fn lemma_decimal_value(n: nat)
    ensures
        decimal(n).len() > 0,
        digits_value(decimal(n), 10) == Some(n),
        forall|i: int| 0 <= i < decimal(n).len() ==> '0' <= #[trigger] decimal(n)[i] <= '9',
    decreases n,
{
    if n < 10 {
        assert(decimal(n).drop_last() =~= Seq::<char>::empty());
        assert(digits_value(decimal(n).drop_last(), 10) == Some(0nat));
    } else {
        lemma_decimal_value(n / 10);
        assert(decimal(n).drop_last() =~= decimal(n / 10));
    }
}

/// Zeros in front do not change a number.
pub proof fn lemma_padded_value(n: nat, width: nat)
    ensures
        padded(n, width).len() > 0,
        digits_value(padded(n, width), 10) == Some(n),
        forall|i: int|
            0 <= i < padded(n, width).len() ==> '0' <= #[trigger] padded(n, width)[i] <= '9',
{
    lemma_decimal_value(n);
    lemma_zeros_value(width - decimal(n).len(), decimal(n));
}

proof fn lemma_zeros_value(count: int, s: Seq<char>)
    requires
        digits_value(s, 10) is Some,
    ensures
        digits_value(zeros(count) + s, 10) == digits_value(s, 10),
    decreases s.len(), count,
{
    let t = zeros(count) + s;
    if s.len() > 0 {
        assert(t.drop_last() =~= zeros(count) + s.drop_last());
        lemma_zeros_value(count, s.drop_last());
    } else if count > 0 {
        assert(t.drop_last() =~= zeros(count - 1) + s);
        lemma_zeros_value(count - 1, s);
    } else {
        assert(t =~= s);
    }
}

/// What a number is written as, padded or not, denotes that number.
pub proof fn lemma_padded_uint(n: nat, width: nat, max: int)
    requires
        n <= max,
    ensures
        uint_value(padded(n, width), 10, max) == Some(n),
{
    lemma_padded_value(n, width);
}

} // verus!
