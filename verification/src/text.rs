//! Decimal text for the integer parameters that appear in generated code.

use vstd::prelude::*;

verus! {

/// The character for one decimal digit.
pub open spec fn digit_char(d: int) -> char {
    if d == 0 {
        '0'
    } else if d == 1 {
        '1'
    } else if d == 2 {
        '2'
    } else if d == 3 {
        '3'
    } else if d == 4 {
        '4'
    } else if d == 5 {
        '5'
    } else if d == 6 {
        '6'
    } else if d == 7 {
        '7'
    } else if d == 8 {
        '8'
    } else {
        '9'
    }
}

/// The decimal digits of a nonnegative number, most significant first,
/// with no leading zeros (zero itself is the single digit '0').
pub open spec fn dec_digits(n: nat) -> Seq<char>
    decreases n,
{
    if n < 10 {
        seq![digit_char(n as int)]
    } else {
        dec_digits(n / 10).push(digit_char((n % 10) as int))
    }
}

/// The canonical text of an integer: a minus sign for negative values,
/// then the decimal digits, with no decimal point.
pub open spec fn int_code(n: int) -> Seq<char> {
    if n < 0 {
        seq!['-'] + dec_digits((-n) as nat)
    } else {
        dec_digits(n as nat)
    }
}

/// Every character of a number's digit text is a decimal digit, so in
/// particular none is a newline, a tab or punctuation of the surrounding code.
pub proof fn lemma_dec_digits_plain(n: nat)
    ensures
        forall|i: int|
            0 <= i < dec_digits(n).len() ==> '0' <= #[trigger] dec_digits(n)[i] <= '9',
    decreases n,
{
    if n < 10 {
        assert(dec_digits(n) =~= seq![digit_char(n as int)]);
    } else {
        lemma_dec_digits_plain(n / 10);
        let prev = dec_digits(n / 10);
        let c = digit_char((n % 10) as int);
        assert(dec_digits(n) == prev.push(c));
        assert forall|i: int| 0 <= i < dec_digits(n).len() implies '0' <= #[trigger] dec_digits(
            n,
        )[i] <= '9' by {
            if i < prev.len() {
                assert(dec_digits(n)[i] == prev[i]);
            } else {
                assert(dec_digits(n)[i] == c);
            }
        }
    }
}

/// No character of an integer's text is a newline.
pub proof fn lemma_int_code_no_newline(n: int)
    ensures
        forall|i: int| 0 <= i < int_code(n).len() ==> #[trigger] int_code(n)[i] != '\n',
{
    if n < 0 {
        lemma_dec_digits_plain((-n) as nat);
    } else {
        lemma_dec_digits_plain(n as nat);
    }
}

/// Relies on String::push, which appends the given character to the end of
/// the string.
pub assume_specification[ String::push ](s: &mut String, ch: char)
    ensures
        final(s)@ == old(s)@.push(ch),
;

fn digit_to_char(d: u64) -> (c: char)
    requires
        d < 10,
    ensures
        c == digit_char(d as int),
{
    if d == 0 {
        '0'
    } else if d == 1 {
        '1'
    } else if d == 2 {
        '2'
    } else if d == 3 {
        '3'
    } else if d == 4 {
        '4'
    } else if d == 5 {
        '5'
    } else if d == 6 {
        '6'
    } else if d == 7 {
        '7'
    } else if d == 8 {
        '8'
    } else {
        '9'
    }
}

/// Appends the decimal digits of `n` to `out`.
pub fn push_digits(out: &mut String, n: u64)
    ensures
        final(out)@ == old(out)@ + dec_digits(n as nat),
    decreases n,
{
    if n >= 10 {
        push_digits(out, n / 10);
    }
    let c = digit_to_char(n % 10);
    out.push(c);
    proof {
        if n < 10 {
            assert(old(out)@ + dec_digits(n as nat) =~= old(out)@.push(c));
        } else {
            assert(old(out)@ + dec_digits(n as nat) =~= (old(out)@ + dec_digits(
                (n / 10) as nat,
            )).push(c));
        }
    }
}

/// Appends the canonical decimal text of `n` to `out`.
pub fn push_int(out: &mut String, n: i64)
    ensures
        final(out)@ == old(out)@ + int_code(n as int),
{
    if n < 0 {
        out.push('-');
        let wide: i128 = n as i128;
        let magnitude: u64 = (-wide) as u64;
        proof {
            assert(magnitude as nat == (-(n as int)) as nat);
        }
        push_digits(out, magnitude);
        proof {
            assert(old(out)@ + int_code(n as int) =~= old(out)@.push('-') + dec_digits(
                magnitude as nat,
            ));
        }
    } else {
        push_digits(out, n as u64);
    }
}

} // verus!
