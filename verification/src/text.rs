//! Numbers as decimal text.

use vstd::arithmetic::div_mod::lemma_div_denominator;
use vstd::prelude::*;

verus! {

/// The character of a decimal digit.
pub open spec fn digit_char(d: int) -> char {
    if d == 0 {
        '0'
    } else if d == 1 {
        '1'
    } else if d == 2 {
        '2'
    } else if d == 3 {
        '3'
    } else if d == 4 {
        '4'
    } else if d == 5 {
        '5'
    } else if d == 6 {
        '6'
    } else if d == 7 {
        '7'
    } else if d == 8 {
        '8'
    } else {
        '9'
    }
}

/// A natural number in decimal, without leading zeros.
pub open spec fn decimal(n: nat) -> Seq<char>
    decreases n,
{
    if n < 10 {
        seq![digit_char(n as int)]
    } else {
        decimal(n / 10).push(digit_char((n % 10) as int))
    }
}

/// An integer in decimal, with a minus sign if it is negative.
pub open spec fn signed_decimal(i: int) -> Seq<char> {
    if i < 0 {
        seq!['-'] + decimal((-i) as nat)
    } else {
        decimal(i as nat)
    }
}

/// The number is a power of ten.
pub open spec fn is_power_of_ten(p: nat) -> bool
    decreases p,
{
    p == 1 || (p >= 10 && p % 10 == 0 && is_power_of_ten(p / 10))
}

fn digit_str(d: u64) -> (s: &'static str)
    requires
        d < 10,
    ensures
        s@ == seq![digit_char(d as int)],
{
    proof {
        reveal_strlit("0");
        reveal_strlit("1");
        reveal_strlit("2");
        reveal_strlit("3");
        reveal_strlit("4");
        reveal_strlit("5");
        reveal_strlit("6");
        reveal_strlit("7");
        reveal_strlit("8");
        reveal_strlit("9");
    }
    let s: &'static str = if d == 0 {
        "0"
    } else if d == 1 {
        "1"
    } else if d == 2 {
        "2"
    } else if d == 3 {
        "3"
    } else if d == 4 {
        "4"
    } else if d == 5 {
        "5"
    } else if d == 6 {
        "6"
    } else if d == 7 {
        "7"
    } else if d == 8 {
        "8"
    } else {
        "9"
    };
    assert(s@ =~= seq![digit_char(d as int)]);
    s
}

/// Append a number in decimal to a text.
pub fn append_decimal(out: &mut String, n: u64)
    ensures
        final(out)@ == old(out)@ + decimal(n as nat),
{
    let mut p: u64 = 1;
    while n / p >= 10
        invariant
            p >= 1,
            is_power_of_ten(p as nat),
            n / p >= 1 || (n == 0 && p == 1),
        decreases n / p,
    {
        proof {
            let ni = n as int;
            let pi = p as int;
            lemma_div_denominator(ni, pi, 10);
            assert(pi * 10 <= ni) by (nonlinear_arith)
                requires
                    ni / pi >= 10,
                    pi >= 1,
                    ni >= 0,
            ;
            assert((pi * 10) / 10 == pi && (pi * 10) % 10 == 0);
        }
        p = p * 10;
    }
    out.append(digit_str(n / p));
    assert(out@ =~= old(out)@ + decimal((n / p) as nat));
    while p > 1
        invariant
            p >= 1,
            is_power_of_ten(p as nat),
            n / p >= 1 || (n == 0 && p == 1),
            out@ == old(out)@ + decimal((n / p) as nat),
        decreases p,
    {
        let ghost upper = p;
        p = p / 10;
        proof {
            lemma_div_denominator(n as int, p as int, 10);
            assert(p * 10 == upper);
        }
        out.append(digit_str((n / p) % 10));
        assert(out@ =~= old(out)@ + decimal((n / p) as nat));
    }
}

/// Append an integer in decimal to a text.
pub fn append_signed_decimal(out: &mut String, i: i64)
    ensures
        final(out)@ == old(out)@ + signed_decimal(i as int),
{
    if i < 0 {
        proof {
            reveal_strlit("-");
        }
        out.append("-");
        let magnitude: u64 = if i == i64::MIN {
            0x8000_0000_0000_0000
        } else {
            (-i) as u64
        };
        append_decimal(out, magnitude);
        assert(out@ =~= old(out)@ + signed_decimal(i as int));
    } else {
        append_decimal(out, i as u64);
    }
}

} // verus!
