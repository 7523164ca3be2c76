//! Building display text.

use vstd::prelude::*;

verus! {

/// `String::push` from std: appends `c`.
#[verifier::external_body]
pub fn push_char(s: &mut String, c: char)
    ensures
        final(s)@ == old(s)@.push(c),
{
    s.push(c);
}

/// The decimal digit `d`.
pub open spec fn digit_char(d: nat) -> char {
    (48 + d) as char
}

/// The decimal digits of `n`, most significant first, without leading zeros.
pub open spec fn decimal(n: nat) -> Seq<char>
    decreases n,
{
    if n < 10 {
        seq![digit_char(n)]
    } else {
        decimal(n / 10).push(digit_char(n % 10))
    }
}

/// The decimal digits of `n`, with leading zeros up to three digits.
pub open spec fn decimal_padded3(n: nat) -> Seq<char> {
    if n < 10 {
        seq!['0', '0'] + decimal(n)
    } else if n < 100 {
        seq!['0'] + decimal(n)
    } else {
        decimal(n)
    }
}

/// Appends the decimal digits of `n`.
pub fn push_decimal(s: &mut String, n: usize)
    ensures
        final(s)@ == old(s)@ + decimal(n as nat),
    decreases n,
{
    if n >= 10 {
        push_decimal(s, n / 10);
    }
    let d = (n % 10) as u8;
    let c = (48u8 + d) as char;
    push_char(s, c);
    assert(old(s)@ + decimal(n as nat) =~= if n >= 10 {
        (old(s)@ + decimal((n / 10) as nat)).push(digit_char((n % 10) as nat))
    } else {
        old(s)@.push(digit_char(n as nat))
    });
}

/// Appends the decimal digits of `n`, with leading zeros up to three digits.
pub fn push_decimal_padded3(s: &mut String, n: usize)
    ensures
        final(s)@ == old(s)@ + decimal_padded3(n as nat),
{
    let ghost start = s@;
    if n < 100 {
        push_char(s, '0');
    }
    if n < 10 {
        push_char(s, '0');
    }
    push_decimal(s, n);
    assert(s@ =~= start + decimal_padded3(n as nat));
}

/// `c` is one of the decimal digits `0` to `9`.
pub open spec fn is_digit(c: char) -> bool {
    48 <= (c as int) && (c as int) <= 57
}

/// The number that a string of decimal digits stands for, most significant first.
pub open spec fn digits_value(s: Seq<char>) -> int
    decreases s.len(),
{
    if s.len() == 0 {
        0
    } else {
        digits_value(s.drop_last()) * 10 + ((s.last() as int) - 48)
    }
}

/// A leading zero does not change the number that digits stand for.
proof fn lemma_leading_zero(s: Seq<char>)
    ensures
        digits_value(seq!['0'] + s) == digits_value(s),
    decreases s.len(),
{
    let t = seq!['0'] + s;
    if s.len() > 0 {
        lemma_leading_zero(s.drop_last());
        assert(t.drop_last() =~= seq!['0'] + s.drop_last());
        assert(t.last() == s.last());
        assert(digits_value(t) == digits_value(t.drop_last()) * 10 + ((t.last() as int) - 48));
    } else {
        assert(t.drop_last() =~= Seq::<char>::empty());
        assert(t.last() == '0');
        assert(digits_value(t.drop_last()) == 0);
        assert(digits_value(t) == digits_value(t.drop_last()) * 10 + ((t.last() as int) - 48));
        assert(('0' as int) == 48);
        assert(digits_value(t) == 0);
    }
}

/// The decimal form of `n` is made of digits, stands for `n`, starts with
/// `0` only where `n` is 0, and has one digit below 10, two below 100,
/// three below 1000 and more from there on.
pub proof fn lemma_decimal(n: nat)
    ensures
        forall|i: int| 0 <= i < decimal(n).len() ==> is_digit(#[trigger] decimal(n)[i]),
        digits_value(decimal(n)) == n,
        n >= 10 ==> decimal(n)[0] != '0',
        n < 10 ==> decimal(n).len() == 1,
        10 <= n < 100 ==> decimal(n).len() == 2,
        100 <= n < 1000 ==> decimal(n).len() == 3,
        1000 <= n ==> decimal(n).len() > 3,
    decreases n,
{
    let d = digit_char((n % 10) as nat);
    assert((d as int) == 48 + n % 10);
    if n >= 10 {
        lemma_decimal(n / 10);
        let r = decimal(n / 10);
        assert(decimal(n).drop_last() =~= r);
        assert(decimal(n)[0] == r[0]);
        assert(decimal(n).last() == d);
        assert(digits_value(decimal(n)) == digits_value(r) * 10 + ((d as int) - 48));
        assert(digits_value(decimal(n)) == n) by (nonlinear_arith)
            requires
                digits_value(decimal(n)) == digits_value(r) * 10 + ((d as int) - 48),
                digits_value(r) == n / 10,
                (d as int) == 48 + n % 10,
        ;
    } else {
        assert(decimal(n).drop_last() =~= Seq::<char>::empty());
        assert(decimal(n).last() == d);
        assert(digits_value(decimal(n)) == digits_value(Seq::<char>::empty()) * 10 + ((d as int)
            - 48));
    }
}

/// The three-digit form of `n` (as a card number is shown) is made of
/// digits and stands for `n`; below 1000 it has exactly three digits, and
/// from 100 on it is the plain decimal form.
pub proof fn lemma_decimal_padded3(n: nat)
    ensures
        forall|i: int|
            0 <= i < decimal_padded3(n).len() ==> is_digit(#[trigger] decimal_padded3(n)[i]),
        digits_value(decimal_padded3(n)) == n,
        n < 1000 ==> decimal_padded3(n).len() == 3,
        n >= 100 ==> decimal_padded3(n) == decimal(n),
{
    lemma_decimal(n);
    let d = decimal(n);
    if n < 10 {
        lemma_leading_zero(d);
        lemma_leading_zero(seq!['0'] + d);
        assert(seq!['0', '0'] + d =~= seq!['0'] + (seq!['0'] + d));
    } else if n < 100 {
        lemma_leading_zero(d);
    }
    assert forall|i: int| 0 <= i < decimal_padded3(n).len() implies is_digit(
        #[trigger] decimal_padded3(n)[i],
    ) by {
        if n < 10 {
            if i >= 2 {
                assert(decimal_padded3(n)[i] == d[i - 2]);
            }
        } else if n < 100 {
            if i >= 1 {
                assert(decimal_padded3(n)[i] == d[i - 1]);
            }
        }
    }
}

} // verus!
