use vstd::prelude::*;

verus! {

/// The character of a decimal digit.
pub open spec fn digit_char(digit: int) -> char {
    if digit == 0 {
        '0'
    } else if digit == 1 {
        '1'
    } else if digit == 2 {
        '2'
    } else if digit == 3 {
        '3'
    } else if digit == 4 {
        '4'
    } else if digit == 5 {
        '5'
    } else if digit == 6 {
        '6'
    } else if digit == 7 {
        '7'
    } else if digit == 8 {
        '8'
    } else {
        '9'
    }
}

/// Whether a character is one of `0`..`9`.
pub open spec fn is_digit(c: char) -> bool {
    '0' <= c && c <= '9'
}

/// The decimal numeral of a natural number, without leading zeros.
pub open spec fn decimal(n: nat) -> Seq<char>
    decreases n,
{
    if n < 10 {
        seq![digit_char(n as int)]
    } else {
        decimal(n / 10).push(digit_char((n % 10) as int))
    }
}

/// `count` zeros.
pub open spec fn zeros(count: nat) -> Seq<char> {
    Seq::new(count, |i: int| '0')
}

/// The decimal numeral of `n`, with zeros in front of it where it has fewer
/// than `width` digits. A longer numeral is left as it is.
pub open spec fn zero_padded(n: nat, width: nat) -> Seq<char> {
    if decimal(n).len() >= width {
        decimal(n)
    } else {
        zeros((width - decimal(n).len()) as nat) + decimal(n)
    }
}

/// The decimal numeral of an integer: a minus sign before the numeral of the
/// magnitude where it is negative.
pub open spec fn signed_decimal(n: int) -> Seq<char> {
    if n < 0 {
        seq!['-'] + decimal((-n) as nat)
    } else {
        decimal(n as nat)
    }
}

/// Ten to the power `exp`.
pub open spec fn pow10(exp: nat) -> nat
    decreases exp,
{
    if exp == 0 {
        1
    } else {
        10 * pow10((exp - 1) as nat)
    }
}

/// A numeral has at least one character, and digits only.
pub proof fn lemma_decimal_digits(n: nat)
    ensures
        decimal(n).len() >= 1,
        forall|i: int| 0 <= i < decimal(n).len() ==> is_digit(#[trigger] decimal(n)[i]),
    decreases n,
{
    if n >= 10 {
        lemma_decimal_digits(n / 10);
    }
}

/// A number below ten to the `k` has at most `k` digits.
pub proof fn lemma_decimal_len(n: nat, k: nat)
    requires
        k >= 1,
        n < pow10(k),
    ensures
        decimal(n).len() <= k,
    decreases k,
{
    reveal_with_fuel(pow10, 2);
    if n >= 10 {
        assert(k >= 2);
        assert(pow10(k) == 10 * pow10((k - 1) as nat));
        assert(n / 10 < pow10((k - 1) as nat));
        lemma_decimal_len(n / 10, (k - 1) as nat);
    }
}

/// A number below ten to the `width` is padded to exactly `width` digits.
pub proof fn lemma_zero_padded_width(n: nat, width: nat)
    requires
        width >= 1,
        n < pow10(width),
    ensures
        zero_padded(n, width).len() == width,
        forall|i: int| 0 <= i < width ==> is_digit(#[trigger] zero_padded(n, width)[i]),
{
    lemma_decimal_len(n, width);
    lemma_decimal_digits(n);
}

/// What `String::push` does, as std documents it: the character is appended.
pub assume_specification[ String::push ](text: &mut String, c: char)
    ensures
        final(text)@ == old(text)@.push(c),
;

/// The character of the digit `digit`.
fn digit_to_char(digit: u64) -> (c: char)
    requires
        digit < 10,
    ensures
        c == digit_char(digit as int),
{
    if digit == 0 {
        '0'
    } else if digit == 1 {
        '1'
    } else if digit == 2 {
        '2'
    } else if digit == 3 {
        '3'
    } else if digit == 4 {
        '4'
    } else if digit == 5 {
        '5'
    } else if digit == 6 {
        '6'
    } else if digit == 7 {
        '7'
    } else if digit == 8 {
        '8'
    } else {
        '9'
    }
}

/// The digits that stand in front of the last ones once those are split off:
/// none where nothing is left of the number.
spec fn leading_digits(rest: nat) -> Seq<char> {
    if rest == 0 {
        Seq::empty()
    } else {
        decimal(rest)
    }
}

/// Appends to `out` the decimal numeral of `n`, padded with zeros to `width`.
pub fn push_zero_padded(out: &mut String, n: u64, width: usize)
    ensures
        final(out)@ == old(out)@ + zero_padded(n as nat, width as nat),
{
    let mut digits: Vec<char> = Vec::new();
    digits.push(digit_to_char(n % 10));
    let mut rest: u64 = n / 10;
    assert(decimal(n as nat) =~= leading_digits(rest as nat) + digits@.reverse());
    while rest > 0
        invariant
            digits@.len() >= 1,
            decimal(n as nat) == leading_digits(rest as nat) + digits@.reverse(),
        decreases rest,
    {
        let ghost before = digits@;
        digits.push(digit_to_char(rest % 10));
        assert(digits@.reverse() =~= seq![digit_char((rest % 10) as int)] + before.reverse());
        assert(leading_digits(rest as nat) =~= leading_digits((rest / 10) as nat) + seq![
            digit_char((rest % 10) as int),
        ]);
        rest = rest / 10;
        assert(leading_digits(rest as nat) + digits@.reverse() =~= decimal(n as nat));
    }
    assert(decimal(n as nat) =~= digits@.reverse());
    let mut padding: usize = digits.len();
    while padding < width
        invariant
            digits@.len() <= padding,
            padding <= width || padding == digits@.len(),
            out@ == old(out)@ + zeros((padding - digits@.len()) as nat),
        decreases width - padding,
    {
        out.push('0');
        padding = padding + 1;
        assert(out@ =~= old(out)@ + zeros((padding - digits@.len()) as nat));
    }
    let ghost padded = out@;
    let mut left: usize = digits.len();
    while left > 0
        invariant
            left <= digits@.len(),
            out@ == padded + digits@.reverse().subrange(0, digits@.len() - left),
        decreases left,
    {
        left = left - 1;
        out.push(digits[left]);
        assert(out@ =~= padded + digits@.reverse().subrange(0, digits@.len() - left));
    }
    assert(out@ =~= old(out)@ + zero_padded(n as nat, width as nat));
}

/// Appends to `out` the decimal numeral of `n`.
pub fn push_signed_decimal(out: &mut String, n: i64)
    ensures
        final(out)@ == old(out)@ + signed_decimal(n as int),
{
    if n < 0 {
        out.push('-');
        let magnitude: u64 = (-(n + 1)) as u64 + 1;
        push_zero_padded(out, magnitude, 0);
        assert(out@ =~= old(out)@ + signed_decimal(n as int));
    } else {
        push_zero_padded(out, n as u64, 0);
    }
}

} // verus!
