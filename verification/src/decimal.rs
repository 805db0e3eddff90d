//! Decimal notation of integers, as it appears in attribute values.

use vstd::prelude::*;

verus! {

/// The character that writes the decimal digit `d` (for `0 <= d < 10`).
pub open spec fn digit_char(d: int) -> char {
    if d == 0 {
        '0'
    } else if d == 1 {
        '1'
    } else if d == 2 {
        '2'
    } else if d == 3 {
        '3'
    } else if d == 4 {
        '4'
    } else if d == 5 {
        '5'
    } else if d == 6 {
        '6'
    } else if d == 7 {
        '7'
    } else if d == 8 {
        '8'
    } else {
        '9'
    }
}

/// The decimal notation of a natural number: its digits, most significant
/// first, with no leading zero (zero itself is written `0`).
pub open spec fn dec_nat(n: nat) -> Seq<char>
    decreases n,
{
    if n < 10 {
        seq![digit_char(n as int)]
    } else {
        dec_nat(n / 10).push(digit_char((n % 10) as int))
    }
}

/// The decimal notation of an integer: a minus sign before the digits of a
/// negative number.
pub open spec fn dec_int(i: int) -> Seq<char> {
    if i < 0 {
        seq!['-'] + dec_nat((-i) as nat)
    } else {
        dec_nat(i as nat)
    }
}

/// The notation of a natural number is made of digits only.
pub proof fn lemma_dec_nat_digits(n: nat)
    ensures
        forall|i: int| 0 <= i < dec_nat(n).len() ==> '0' <= #[trigger] dec_nat(n)[i] <= '9',
    decreases n,
{
    let d = digit_char((n % 10) as int);
    assert('0' <= d <= '9');
    if n >= 10 {
        lemma_dec_nat_digits(n / 10);
        let s = dec_nat(n / 10).push(d);
        assert(dec_nat(n) == s);
        assert forall|i: int| 0 <= i < s.len() implies '0' <= #[trigger] s[i] <= '9' by {
            if i < s.len() - 1 {
                assert(s[i] == dec_nat(n / 10)[i]);
            }
        }
    } else {
        assert(dec_nat(n) == seq![d]);
    }
}

/// The notation of an integer is made of digits and, for a negative one, a
/// leading minus sign.
pub proof fn lemma_dec_int_chars(i: int)
    ensures
        forall|k: int|
            0 <= k < dec_int(i).len() ==> ('0' <= #[trigger] dec_int(i)[k] <= '9' || dec_int(i)[k]
                == '-'),
{
    if i < 0 {
        lemma_dec_nat_digits((-i) as nat);
        assert forall|k: int| 0 <= k < dec_int(i).len() implies ('0' <= #[trigger] dec_int(i)[k]
            <= '9' || dec_int(i)[k] == '-') by {
            if k > 0 {
                assert(dec_int(i)[k] == dec_nat((-i) as nat)[k - 1]);
            }
        }
    } else {
        lemma_dec_nat_digits(i as nat);
    }
}

/// The number that a string of decimal digits, most significant first,
/// stands for.
pub open spec fn digits_value(s: Seq<char>) -> int
    decreases s.len(),
{
    if s.len() == 0 {
        0
    } else {
        digits_value(s.drop_last()) * 10 + (s.last() as int - '0' as int)
    }
}

/// The notation of a natural number reads back as that number, and it
/// starts with a zero only when the number is zero.
pub proof fn lemma_dec_nat_value(n: nat)
    ensures
        digits_value(dec_nat(n)) == n,
        dec_nat(n).len() > 0,
        dec_nat(n)[0] == '0' ==> n == 0,
    decreases n,
{
    let d = (n % 10) as int;
    assert(digit_char(d) as int - '0' as int == d);
    if n >= 10 {
        lemma_dec_nat_value(n / 10);
        let s = dec_nat(n / 10).push(digit_char(d));
        assert(s.drop_last() =~= dec_nat(n / 10));
        assert(s[0] == dec_nat(n / 10)[0]);
        assert((n / 10) * 10 + n % 10 == n) by (nonlinear_arith);
        assert(n / 10 > 0) by (nonlinear_arith)
            requires
                n >= 10,
        ;
        assert(dec_nat(n) == s);
        assert(digits_value(s) == digits_value(dec_nat(n / 10)) * 10 + d);
    } else {
        assert(n % 10 == n);
        assert(dec_nat(n) == seq![digit_char(n as int)]);
        assert(seq![digit_char(n as int)].drop_last() =~= Seq::<char>::empty());
        assert(digits_value(seq![digit_char(n as int)]) == digits_value(Seq::<char>::empty()) * 10 + d);
    }
}

/// The notation of an integer reads back as that integer: a negative one
/// is a minus sign followed by the digits of its magnitude, any other one
/// its digits alone.
pub proof fn lemma_dec_int_value(i: int)
    ensures
        i >= 0 ==> digits_value(dec_int(i)) == i,
        i < 0 ==> dec_int(i)[0] == '-' && digits_value(dec_int(i).drop_first()) == -i,
{
    if i < 0 {
        lemma_dec_nat_value((-i) as nat);
        assert(dec_int(i).drop_first() =~= dec_nat((-i) as nat));
    } else {
        lemma_dec_nat_value(i as nat);
    }
}

fn push_digit(out: &mut String, d: u64)
    requires
        d < 10,
    ensures
        final(out)@ == old(out)@.push(digit_char(d as int)),
{
    match d {
        0 => {
            out.append("0");
            proof { reveal_strlit("0"); }
        },
        1 => {
            out.append("1");
            proof { reveal_strlit("1"); }
        },
        2 => {
            out.append("2");
            proof { reveal_strlit("2"); }
        },
        3 => {
            out.append("3");
            proof { reveal_strlit("3"); }
        },
        4 => {
            out.append("4");
            proof { reveal_strlit("4"); }
        },
        5 => {
            out.append("5");
            proof { reveal_strlit("5"); }
        },
        6 => {
            out.append("6");
            proof { reveal_strlit("6"); }
        },
        7 => {
            out.append("7");
            proof { reveal_strlit("7"); }
        },
        8 => {
            out.append("8");
            proof { reveal_strlit("8"); }
        },
        _ => {
            out.append("9");
            proof { reveal_strlit("9"); }
        },
    }
    assert(final(out)@ =~= old(out)@.push(digit_char(d as int)));
}

/// Appends the decimal notation of `n` to `out`.
pub fn push_unsigned(out: &mut String, n: u64)
    ensures
        final(out)@ == old(out)@ + dec_nat(n as nat),
    decreases n,
{
    if n >= 10 {
        push_unsigned(out, n / 10);
        push_digit(out, n % 10);
        assert(final(out)@ =~= old(out)@ + dec_nat(n as nat));
    } else {
        push_digit(out, n);
        assert(final(out)@ =~= old(out)@ + dec_nat(n as nat));
    }
}

/// Appends the decimal notation of `n` to `out`, with a minus sign when `n`
/// is negative.
pub fn push_signed(out: &mut String, n: i64)
    ensures
        final(out)@ == old(out)@ + dec_int(n as int),
{
    if n < 0 {
        out.append("-");
        proof { reveal_strlit("-"); }
        let magnitude: u64 = (0i128 - n as i128) as u64;
        push_unsigned(out, magnitude);
        assert(final(out)@ =~= old(out)@ + dec_int(n as int));
    } else {
        push_unsigned(out, n as u64);
    }
}

/// The decimal notation of `n`.
pub fn format_unsigned(n: u64) -> (s: String)
    ensures
        s@ == dec_nat(n as nat),
{
    let mut s = String::new();
    push_unsigned(&mut s, n);
    assert(s@ =~= dec_nat(n as nat));
    s
}

/// The decimal notation of `n`, with a minus sign when `n` is negative.
pub fn format_signed(n: i64) -> (s: String)
    ensures
        s@ == dec_int(n as int),
{
    let mut s = String::new();
    push_signed(&mut s, n);
    assert(s@ =~= dec_int(n as int));
    s
}

} // verus!
