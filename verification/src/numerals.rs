//! Written numbers: decimal and fixed-width hexadecimal numerals, and reading decimal ones.

use crate::text::to_chars;
use vstd::prelude::*;
use vstd::string::*;

verus! {

/// The lowercase digit of value `d`, for a `d` below sixteen.
pub open spec fn digit(d: int) -> char {
    "0123456789abcdef"@[d]
}

fn digit_text(d: usize) -> (r: &'static str)
    requires
        d < 16,
    ensures
        r@ == seq![digit(d as int)],
{
    proof {
        reveal_strlit("0123456789abcdef");
    }
    let digits: &'static str = "0123456789abcdef";
    assert(digits@.subrange(d as int, d + 1) =~= seq![digits@[d as int]]);
    digits.substring_char(d, d + 1)
}

/// The decimal numeral of `n`, without leading zeros.
pub open spec fn decimal(n: nat) -> Seq<char>
    decreases n,
{
    if n < 10 {
        seq![digit(n as int)]
    } else {
        decimal(n / 10).push(digit((n % 10) as int))
    }
}

/// Writes `n` in decimal.
pub fn to_decimal(n: u64) -> (r: String)
    ensures
        r@ == decimal(n as nat),
    decreases n,
{
    if n < 10 {
        digit_text(n as usize).to_owned()
    } else {
        let front = to_decimal(n / 10);
        let last = digit_text((n % 10) as usize);
        assert(front@ + last@ =~= decimal(n as nat));
        front.concat(last)
    }
}

/// The last `width` digits of `n` in hexadecimal.
pub open spec fn hexadecimal(n: nat, width: nat) -> Seq<char>
    decreases width,
{
    if width == 0 {
        seq![]
    } else {
        hexadecimal(n / 16, (width - 1) as nat).push(digit((n % 16) as int))
    }
}

/// Writes the last `width` digits of `n` in hexadecimal.
pub fn to_hexadecimal(n: u64, width: usize) -> (r: String)
    ensures
        r@ == hexadecimal(n as nat, width as nat),
    decreases width,
{
    if width == 0 {
        String::new()
    } else {
        let front = to_hexadecimal(n / 16, width - 1);
        let last = digit_text((n % 16) as usize);
        assert(front@ + last@ =~= hexadecimal(n as nat, width as nat));
        front.concat(last)
    }
}

/// A fixed-width numeral has that width and consists of digits.
pub proof fn lemma_hexadecimal_shape(n: nat, width: nat)
    ensures
        hexadecimal(n, width).len() == width,
        forall|i: int| 0 <= i < width ==> is_hex_digit(#[trigger] hexadecimal(n, width)[i]),
    decreases width,
{
    if width > 0 {
        reveal_strlit("0123456789abcdef");
        lemma_hexadecimal_shape(n / 16, (width - 1) as nat);
        let front = hexadecimal(n / 16, (width - 1) as nat);
        assert forall|i: int| 0 <= i < width implies is_hex_digit(
            #[trigger] hexadecimal(n, width)[i],
        ) by {
            if i < width - 1 {
                assert(hexadecimal(n, width)[i] == front[i]);
            }
        }
    }
}

/// Whether `c` is one of the sixteen lowercase hexadecimal digits.
pub open spec fn is_hex_digit(c: char) -> bool {
    '0' <= c <= '9' || 'a' <= c <= 'f'
}

pub open spec fn power16(width: nat) -> nat
    decreases width,
{
    if width == 0 {
        1
    } else {
        16 * power16((width - 1) as nat)
    }
}

/// Numbers that fit into `width` digits are told apart by their numerals.
pub proof fn lemma_hexadecimal_injective(m: nat, n: nat, width: nat)
    requires
        m < power16(width),
        n < power16(width),
        hexadecimal(m, width) == hexadecimal(n, width),
    ensures
        m == n,
    decreases width,
{
    if width > 0 {
        let w = (width - 1) as nat;
        let a = hexadecimal(m / 16, w).push(digit((m % 16) as int));
        let b = hexadecimal(n / 16, w).push(digit((n % 16) as int));
        assert(a == b);
        assert(a.drop_last() =~= hexadecimal(m / 16, w));
        assert(b.drop_last() =~= hexadecimal(n / 16, w));
        lemma_hexadecimal_injective(m / 16, n / 16, w);
        assert(a.last() == digit((m % 16) as int));
        assert(b.last() == digit((n % 16) as int));
        lemma_digit_injective((m % 16) as int, (n % 16) as int);
    }
}

proof fn lemma_digit_injective(c: int, d: int)
    requires
        0 <= c < 16,
        0 <= d < 16,
        digit(c) == digit(d),
    ensures
        c == d,
{
    reveal_strlit("0123456789abcdef");
}

/// Whether every character of `s` is an ASCII digit.
pub open spec fn all_digits(s: Seq<char>) -> bool {
    forall|i: int| 0 <= i < s.len() ==> '0' <= #[trigger] s[i] <= '9'
}

/// The value of a run of ASCII digits.
pub open spec fn digits_value(s: Seq<char>) -> nat
    decreases s.len(),
{
    if s.len() == 0 {
        0
    } else {
        (10 * digits_value(s.drop_last()) + (s.last() as int - '0' as int)) as nat
    }
}

/// `s` without one leading plus sign.
pub open spec fn unsigned_part(s: Seq<char>) -> Seq<char> {
    if s.len() > 0 && s[0] == '+' {
        s.skip(1)
    } else {
        s
    }
}

/// The number that `s` writes in decimal, if it writes one that is at most `max`.
pub open spec fn number_in(s: Seq<char>, max: nat) -> Option<nat> {
    let digits = unsigned_part(s);
    if digits.len() > 0 && all_digits(digits) && digits_value(digits) <= max {
        Some(digits_value(digits))
    } else {
        None
    }
}

proof fn lemma_digits_value_grows(s: Seq<char>, k: int)
    requires
        0 <= k <= s.len(),
        all_digits(s),
    ensures
        digits_value(s.take(k)) <= digits_value(s),
    decreases s.len(),
{
    if k < s.len() {
        let front = s.drop_last();
        assert forall|i: int| 0 <= i < front.len() implies '0' <= #[trigger] front[i] <= '9' by {
            assert(front[i] == s[i]);
        }
        lemma_digits_value_grows(front, k);
        assert(front.take(k) =~= s.take(k));
    } else {
        assert(s.take(k) =~= s);
    }
}

/// Reads a decimal number that is at most `max`; one plus sign may stand before it.
pub fn parse_decimal(s: &str, max: u32) -> (r: Option<u32>)
    ensures
        match r {
            Some(n) => number_in(s@, max as nat) == Some(n as nat),
            None => number_in(s@, max as nat) is None,
        },
{
    let chars = to_chars(s);
    let start: usize = if chars.len() > 0 && chars[0] == '+' {
        1
    } else {
        0
    };
    let ghost digits = unsigned_part(s@);
    assert(digits =~= s@.skip(start as int));
    if start == chars.len() {
        return None;
    }
    let mut value: u64 = 0;
    let mut i: usize = start;
    assert(digits.take(0) =~= seq![]);
    while i < chars.len()
        invariant
            start <= i <= chars.len(),
            chars@ == s@,
            digits == unsigned_part(s@),
            digits == s@.skip(start as int),
            all_digits(digits.take(i - start)),
            value == digits_value(digits.take(i - start)),
            value <= max,
        decreases chars.len() - i,
    {
        let c = chars[i];
        assert(digits[i - start] == c);
        if !('0' <= c && c <= '9') {
            return None;
        }
        let ghost longer = digits.take(i - start + 1);
        assert(longer.drop_last() =~= digits.take(i - start));
        assert forall|j: int| 0 <= j < longer.len() implies '0' <= #[trigger] longer[j] <= '9' by {
            if j < i - start {
                assert(longer[j] == digits.take(i - start)[j]);
            }
        }
        value = 10 * value + (c as u64 - '0' as u64);
        if value > max as u64 {
            proof {
                if all_digits(digits) {
                    lemma_digits_value_grows(digits, i - start + 1);
                }
            }
            return None;
        }
        i = i + 1;
    }
    assert(digits.take(digits.len() as int) =~= digits);
    Some(value as u32)
}

} // verus!
