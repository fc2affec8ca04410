//! Decimal rendering of integers into `String`s, as `format!` renders them
//! with and without a zero-padded width.

use vstd::prelude::*;
use vstd::string::StringExecFns;

verus! {

/// The ASCII character of a decimal digit `0..=9`.
pub open spec fn digit_char(digit: int) -> char {
    (48 + digit) as char
}

/// Decimal digits of `n`, most significant first, without leading zeros.
pub open spec fn decimal(n: nat) -> Seq<char>
    decreases n,
{
    if n < 10 {
        seq![digit_char(n as int)]
    } else {
        decimal(n / 10).push(digit_char((n % 10) as int))
    }
}

/// `count` copies of `'0'`.
pub open spec fn zeros(count: int) -> Seq<char> {
    Seq::new(if count > 0 { count as nat } else { 0 }, |i: int| '0')
}

/// `value` rendered in decimal and zero-padded to at least `width` characters,
/// the sign counted in the width, as `format!("{:0width$}", value)` does.
pub open spec fn padded(value: int, width: int) -> Seq<char> {
    let digits = decimal((if value < 0 { -value } else { value }) as nat);
    let sign: Seq<char> = if value < 0 { seq!['-'] } else { seq![] };
    sign + zeros(width - sign.len() - digits.len()) + digits
}

/// `value` rendered in decimal, as `format!("{}", value)` does.
pub open spec fn signed_decimal(value: int) -> Seq<char> {
    padded(value, 0)
}

/// Every rendered digit is an ASCII digit.
pub proof fn lemma_decimal_digits(n: nat)
    ensures
        decimal(n).len() >= 1,
        forall|i: int| 0 <= i < decimal(n).len() ==> '0' <= #[trigger] decimal(n)[i] <= '9',
    decreases n,
{
    if n >= 10 {
        lemma_decimal_digits(n / 10);
    }
}

/// `10` raised to `k`.
pub open spec fn pow10(k: nat) -> nat
    decreases k,
{
    if k == 0 {
        1
    } else {
        10 * pow10((k - 1) as nat)
    }
}

/// Numbers below `10^k` have at most `k` digits.
pub proof fn lemma_decimal_len_bound(n: nat, k: nat)
    requires
        k >= 1,
        n < pow10(k),
    ensures
        decimal(n).len() <= k,
    decreases k,
{
    if n >= 10 {
        assert(k >= 2) by {
            if k == 1 {
                assert(pow10(1) == 10) by {
                    reveal_with_fuel(pow10, 2);
                }
            }
        }
        lemma_decimal_len_bound(n / 10, (k - 1) as nat);
    }
}

/// Calls `String::push`, which appends the character `c` to `text`.
#[verifier::external_body]
pub(crate) fn push_char(text: &mut String, c: char)
    ensures
        final(text)@ == old(text)@.push(c),
{
    text.push(c);
}

/// Appends the characters of `tail` to `text`.
pub(crate) fn push_str(text: &mut String, tail: &str)
    ensures
        final(text)@ == old(text)@ + tail@,
{
    text.append(tail);
}

/// Appends the decimal digits of `n`.
pub fn push_decimal(text: &mut String, n: u64)
    ensures
        final(text)@ == old(text)@ + decimal(n as nat),
    decreases n,
{
    if n >= 10 {
        push_decimal(text, n / 10);
    }
    let digit: u8 = (n % 10) as u8;
    push_char(text, (48u8 + digit) as char);
    proof {
        assert(decimal(n as nat) == if n < 10 {
            seq![digit_char(n as int)]
        } else {
            decimal((n / 10) as nat).push(digit_char((n % 10) as int))
        });
    }
}

/// Number of decimal digits of `n`.
pub fn decimal_len(n: u64) -> (len: usize)
    ensures
        len == decimal(n as nat).len(),
        1 <= len <= 20,
    decreases n,
{
    proof {
        assert(pow10(20) == 100_000_000_000_000_000_000) by {
            reveal_with_fuel(pow10, 21);
        }
        lemma_decimal_len_bound(n as nat, 20);
    }
    if n < 10 {
        1
    } else {
        decimal_len(n / 10) + 1
    }
}

/// Appends `count` zeros.
pub fn push_zeros(text: &mut String, count: usize)
    ensures
        final(text)@ == old(text)@ + zeros(count as int),
{
    let mut i: usize = 0;
    while i < count
        invariant
            i <= count,
            text@ == old(text)@ + zeros(i as int),
        decreases count - i,
    {
        push_char(text, '0');
        i = i + 1;
        assert(zeros(i as int) =~= zeros((i - 1) as int).push('0'));
    }
}

/// Appends `value` in decimal, zero-padded to at least `width` characters.
pub fn push_padded(text: &mut String, value: i64, width: usize)
    ensures
        final(text)@ == old(text)@ + padded(value as int, width as int),
{
    let magnitude: u64 = if value < 0 {
        (-(value + 1)) as u64 + 1
    } else {
        value as u64
    };
    let sign_len: usize = if value < 0 {
        push_char(text, '-');
        1
    } else {
        0
    };
    let used: usize = sign_len + decimal_len(magnitude);
    let fill: usize = if width > used {
        width - used
    } else {
        0
    };
    push_zeros(text, fill);
    push_decimal(text, magnitude);
    proof {
        let sign: Seq<char> = if value < 0 { seq!['-'] } else { seq![] };
        assert(zeros(fill as int) =~= zeros(width - sign.len() - decimal(magnitude as nat).len()));
        assert(text@ =~= old(text)@ + padded(value as int, width as int));
    }
}

} // verus!
