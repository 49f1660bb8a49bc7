use vstd::prelude::*;
use vstd::arithmetic::div_mod::{lemma_div_by_multiple, lemma_mod_multiples_basic};
use crate::render::Sink;
use crate::utils::{pow10, pow10_val, lemma_pow10_pos, lemma_pow10_vals};

verus! {

/// The character for the decimal digit `d`.
pub open spec fn digit_char(d: nat) -> char {
    if d == 0 {
        '0'
    } else if d == 1 {
        '1'
    } else if d == 2 {
        '2'
    } else if d == 3 {
        '3'
    } else if d == 4 {
        '4'
    } else if d == 5 {
        '5'
    } else if d == 6 {
        '6'
    } else if d == 7 {
        '7'
    } else if d == 8 {
        '8'
    } else {
        '9'
    }
}

/// The decimal digits of `n`, most significant first, with no leading zero
/// except for `n == 0` itself.
pub open spec fn dec_digits(n: nat) -> Seq<char>
    decreases n,
{
    if n < 10 {
        seq![digit_char(n)]
    } else {
        dec_digits(n / 10).push(digit_char(n % 10))
    }
}

/// `n < 100` rendered as exactly two digits, zero padded.
pub open spec fn pad2(n: nat) -> Seq<char> {
    if n < 10 {
        seq!['0', digit_char(n)]
    } else {
        dec_digits(n)
    }
}

/// `t` tenths rendered with one decimal digit, e.g. 801.5 from 8015.
pub open spec fn one_dec(t: nat) -> Seq<char> {
    dec_digits(t / 10) + seq!['.', digit_char(t % 10)]
}

/// `h` hundredths rendered with two decimal digits, e.g. 23.43 from 2343.
pub open spec fn two_dec(h: nat) -> Seq<char> {
    dec_digits(h / 100) + seq!['.', digit_char((h % 100) / 10), digit_char(h % 10)]
}

/// A rounded value `r` in units of 10^-`d`, rendered with the fewest decimal
/// digits that represent it exactly, capped at `d`.
pub open spec fn numeral(r: nat, d: nat) -> Seq<char> {
    if r % pow10(d) == 0 {
        dec_digits(r / pow10(d))
    } else if d == 2 && r % 10 == 0 {
        one_dec(r / 10)
    } else if d == 2 {
        two_dec(r)
    } else {
        one_dec(r)
    }
}

/// `z` repetitions of the zero digit.
pub open spec fn zeros(z: nat) -> Seq<char> {
    Seq::new(z, |i: int| '0')
}

/// The sign prefix: a minus sign for negative values, nothing otherwise.
pub open spec fn sign_seq(neg: bool) -> Seq<char> {
    if neg {
        "-"@
    } else {
        Seq::<char>::empty()
    }
}

/// The digits of `n * 10^z` are the digits of `n` followed by `z` zeros.
pub proof fn lemma_dec_digits_mul_pow10(n: nat, z: nat)
    requires
        n >= 1,
    ensures
        dec_digits(n * pow10(z)) == dec_digits(n) + zeros(z),
    decreases z,
{
    if z == 0 {
        assert(n * pow10(0) == n * 1);
        assert(dec_digits(n) + zeros(0) =~= dec_digits(n));
    } else {
        let p = pow10((z - 1) as nat);
        let m = n * p;
        lemma_dec_digits_mul_pow10(n, (z - 1) as nat);
        lemma_pow10_pos((z - 1) as nat);
        assert(m >= 1) by (nonlinear_arith)
            requires
                n >= 1,
                p >= 1,
                m == n * p,
        ;
        assert(n * pow10(z) == m * 10) by (nonlinear_arith)
            requires
                pow10(z) == 10 * p,
                m == n * p,
        ;
        lemma_div_by_multiple(m as int, 10);
        lemma_mod_multiples_basic(m as int, 10);
        assert(dec_digits(m * 10) == dec_digits(m).push(digit_char(0)));
        assert((dec_digits(n) + zeros((z - 1) as nat)).push(digit_char(0)) =~= dec_digits(n)
            + zeros(z));
    }
}

/// Writes the single digit `d`.
pub fn put_digit<S: Sink>(out: &mut S, d: u128)
    requires
        old(out).inv(),
        d < 10,
    ensures
        final(out).inv(),
        final(out).target() == old(out).target(),
        final(out).fed() == old(out).fed() + seq![digit_char(d as nat)],
{
    if d == 0 {
        proof {
            reveal_strlit("0");
            assert("0"@ =~= seq![digit_char(0)]);
        }
        out.put("0");
    } else if d == 1 {
        proof {
            reveal_strlit("1");
            assert("1"@ =~= seq![digit_char(1)]);
        }
        out.put("1");
    } else if d == 2 {
        proof {
            reveal_strlit("2");
            assert("2"@ =~= seq![digit_char(2)]);
        }
        out.put("2");
    } else if d == 3 {
        proof {
            reveal_strlit("3");
            assert("3"@ =~= seq![digit_char(3)]);
        }
        out.put("3");
    } else if d == 4 {
        proof {
            reveal_strlit("4");
            assert("4"@ =~= seq![digit_char(4)]);
        }
        out.put("4");
    } else if d == 5 {
        proof {
            reveal_strlit("5");
            assert("5"@ =~= seq![digit_char(5)]);
        }
        out.put("5");
    } else if d == 6 {
        proof {
            reveal_strlit("6");
            assert("6"@ =~= seq![digit_char(6)]);
        }
        out.put("6");
    } else if d == 7 {
        proof {
            reveal_strlit("7");
            assert("7"@ =~= seq![digit_char(7)]);
        }
        out.put("7");
    } else if d == 8 {
        proof {
            reveal_strlit("8");
            assert("8"@ =~= seq![digit_char(8)]);
        }
        out.put("8");
    } else {
        proof {
            reveal_strlit("9");
            assert("9"@ =~= seq![digit_char(9)]);
        }
        out.put("9");
    }
}

/// Writes the decimal digits of `n`.
pub fn put_digits<S: Sink>(out: &mut S, n: u128)
    requires
        old(out).inv(),
    ensures
        final(out).inv(),
        final(out).target() == old(out).target(),
        final(out).fed() == old(out).fed() + dec_digits(n as nat),
    decreases n,
{
    if n < 10 {
        put_digit(out, n);
    } else {
        put_digits(out, n / 10);
        put_digit(out, n % 10);
        proof {
            assert(old(out).fed() + dec_digits((n / 10) as nat) + seq![
                digit_char((n % 10) as nat),
            ] =~= old(out).fed() + dec_digits(n as nat));
        }
    }
}

/// Writes `n < 100` as exactly two digits, zero padded.
pub fn put_pad2<S: Sink>(out: &mut S, n: u128)
    requires
        old(out).inv(),
        n < 100,
    ensures
        final(out).inv(),
        final(out).target() == old(out).target(),
        final(out).fed() == old(out).fed() + pad2(n as nat),
{
    if n < 10 {
        put_digit(out, 0);
        put_digit(out, n);
        proof {
            assert(old(out).fed() + seq![digit_char(0)] + seq![digit_char(n as nat)] =~= old(
                out,
            ).fed() + pad2(n as nat));
        }
    } else {
        put_digits(out, n);
    }
}

/// Writes `t` tenths with one decimal digit.
pub fn put_one_dec<S: Sink>(out: &mut S, t: u128)
    requires
        old(out).inv(),
    ensures
        final(out).inv(),
        final(out).target() == old(out).target(),
        final(out).fed() == old(out).fed() + one_dec(t as nat),
{
    put_digits(out, t / 10);
    proof {
        reveal_strlit(".");
    }
    out.put(".");
    put_digit(out, t % 10);
    proof {
        assert(old(out).fed() + dec_digits((t / 10) as nat) + "."@ + seq![
            digit_char((t % 10) as nat),
        ] =~= old(out).fed() + one_dec(t as nat));
    }
}

/// Writes `h` hundredths with two decimal digits.
pub fn put_two_dec<S: Sink>(out: &mut S, h: u128)
    requires
        old(out).inv(),
    ensures
        final(out).inv(),
        final(out).target() == old(out).target(),
        final(out).fed() == old(out).fed() + two_dec(h as nat),
{
    put_digits(out, h / 100);
    proof {
        reveal_strlit(".");
    }
    out.put(".");
    put_digit(out, (h % 100) / 10);
    put_digit(out, h % 10);
    proof {
        assert(old(out).fed() + dec_digits((h / 100) as nat) + "."@ + seq![
            digit_char(((h % 100) / 10) as nat),
        ] + seq![digit_char((h % 10) as nat)] =~= old(out).fed() + two_dec(h as nat));
    }
}

/// Writes the rounded value `r` in units of 10^-`d` with the fewest decimal
/// digits that represent it exactly.
pub fn put_numeral<S: Sink>(out: &mut S, r: u128, d: u32)
    requires
        old(out).inv(),
        d <= 2,
    ensures
        final(out).inv(),
        final(out).target() == old(out).target(),
        final(out).fed() == old(out).fed() + numeral(r as nat, d as nat),
{
    proof {
        lemma_pow10_vals();
    }
    let p = pow10_val(d);
    if r % p == 0 {
        put_digits(out, r / p);
    } else if d == 2 && r % 10 == 0 {
        put_one_dec(out, r / 10);
    } else if d == 2 {
        put_two_dec(out, r);
    } else {
        put_one_dec(out, r);
    }
}

/// Writes `z` zero digits.
pub fn put_zeros<S: Sink>(out: &mut S, z: usize)
    requires
        old(out).inv(),
    ensures
        final(out).inv(),
        final(out).target() == old(out).target(),
        final(out).fed() == old(out).fed() + zeros(z as nat),
{
    let mut i: usize = 0;
    proof {
        assert(out.fed() =~= old(out).fed() + zeros(0));
    }
    while i < z
        invariant
            i <= z,
            out.inv(),
            out.fed() == old(out).fed() + zeros(i as nat),
            out.target() == old(out).target(),
        decreases z - i,
    {
        proof {
            reveal_strlit("0");
        }
        out.put("0");
        proof {
            assert(old(out).fed() + zeros(i as nat) + "0"@ =~= old(out).fed() + zeros(
                (i + 1) as nat,
            ));
        }
        i = i + 1;
    }
}

} // verus!
