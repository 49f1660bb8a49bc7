use vstd::prelude::*;
use crate::digits::{
    dec_digits, digit_char, numeral, pad2, put_digit, put_digits, put_numeral, put_pad2, sign_seq,
};
use crate::render::Sink;
use crate::utils::{
    lemma_pow10_38, lemma_pow10_adds, lemma_pow10_mids, lemma_pow10_mono, lemma_pow10_vals,
    pow10, rounded_ge, rounded_units, rounded_units_val,
};
use crate::value::{Magnitude, DIGITS_LIMIT, EXP_LIMIT};

verus! {

/// The largest exponent a duration magnitude may carry: one more digit and
/// the tail arithmetic on tenths of seconds would not fit 38 digits.
pub const DUR_EXP_LIMIT: i32 = 20;

/// The decimal cap of duration rung `i`: one decimal digit below seconds,
/// two at seconds.
pub open spec fn dur_dec(i: int) -> nat {
    if i < 3 {
        1
    } else {
        2
    }
}

/// The divisor of duration rung `i`: 1000 between the sub-second rungs, 60
/// from seconds to minutes.
pub open spec fn dur_size(i: int) -> nat {
    if i < 3 {
        1000
    } else {
        60
    }
}

/// The exponent offset of duration rung `i` against the seconds value:
/// rung 0 works in nanoseconds, each promotion takes three digits back.
pub open spec fn dur_shift(i: int) -> int {
    if i >= 3 {
        0
    } else {
        9 - 3 * i
    }
}

/// The suffix of duration rung `i`.
pub open spec fn dur_suffix(i: int) -> Seq<char> {
    if i <= 0 {
        "ns"@
    } else if i == 1 {
        "µs"@
    } else if i == 2 {
        "ms"@
    } else {
        "s"@
    }
}

/// Whether the duration value `n * 10^e` seconds, rounded at rung `i`'s
/// decimal cap, still reaches the rung's divisor and is promoted past it.
pub open spec fn dur_promote(n: nat, e: int, i: int) -> bool {
    rounded_units(n, e + dur_shift(i) + dur_dec(i)) >= dur_size(i) * pow10(dur_dec(i))
}

/// The first rung at or past `i` where the scan stops, or 4 when the value
/// reaches a full minute.
pub open spec fn dur_rung_from(n: nat, e: int, i: int) -> int
    decreases 4 - i,
{
    if i < 0 || i >= 4 {
        4
    } else if dur_promote(n, e, i) {
        dur_rung_from(n, e, i + 1)
    } else {
        i
    }
}

/// The terminal rung of the duration scan.
pub open spec fn dur_rung(n: nat, e: int) -> int {
    dur_rung_from(n, e, 0)
}

pub proof fn lemma_dur_rung_from_props(n: nat, e: int, i: int)
    requires
        0 <= i <= 4,
    ensures
        i <= dur_rung_from(n, e, i) <= 4,
        dur_rung_from(n, e, i) < 4 ==> !dur_promote(n, e, dur_rung_from(n, e, i)),
    decreases 4 - i,
{
    if i < 4 && dur_promote(n, e, i) {
        lemma_dur_rung_from_props(n, e, i + 1);
    }
}

/// The positional time representation of `t` tenths of seconds: minutes
/// and seconds while under an hour, with the tenths digit only when it is
/// not zero; hours, minutes and whole seconds from an hour up, truncating
/// the tenths digit.
pub open spec fn dur_tail(t: nat) -> Seq<char> {
    if t < 36000 {
        let mm = t / 600;
        let srem = t % 600;
        if srem % 10 == 0 {
            dec_digits(mm) + ":"@ + pad2(srem / 10)
        } else {
            dec_digits(mm) + ":"@ + pad2(srem / 10) + "."@ + seq![digit_char(srem % 10)]
        }
    } else {
        dec_digits(t / 36000) + ":"@ + pad2((t % 36000) / 600) + ":"@ + pad2((t % 600) / 10)
    }
}

/// The full duration representation of a magnitude, in seconds: the sign,
/// then either the numeral and suffix of the terminal sub-minute rung, or
/// the positional minutes form of the value rounded to tenths of seconds.
/// A negative value past a minute keeps its sign in front of the whole
/// positional form.
pub open spec fn format_duration_spec(m: Magnitude) -> Seq<char> {
    let i = dur_rung(m.digits as nat, m.exp as int);
    if i < 4 {
        sign_seq(m.neg) + numeral(
            rounded_units(m.digits as nat, m.exp + dur_shift(i) + dur_dec(i)),
            dur_dec(i),
        ) + dur_suffix(i)
    } else {
        sign_seq(m.neg) + dur_tail(rounded_units(m.digits as nat, m.exp as int + 1))
    }
}

/// Sign symmetry carries over to durations: the scan and the clock tail
/// work on the absolute value, and the sign stands in front of whichever
/// form comes out.
pub proof fn lemma_duration_sign_symmetry(m: Magnitude)
    ensures
        format_duration_spec(Magnitude { neg: true, ..m }) == "-"@ + format_duration_spec(
            Magnitude { neg: false, ..m },
        ),
{
    let mn = Magnitude { neg: true, ..m };
    let mp = Magnitude { neg: false, ..m };
    let i = dur_rung(m.digits as nat, m.exp as int);
    if i < 4 {
        assert(format_duration_spec(mn) =~= "-"@ + format_duration_spec(mp));
    } else {
        assert(format_duration_spec(mn) =~= "-"@ + format_duration_spec(mp));
    }
}

/// Finds the terminal rung of the duration scan, starting at rung `i`.
pub fn dur_rung_val(n: u128, e: i32, i: usize) -> (k: usize)
    requires
        n < DIGITS_LIMIT,
        -EXP_LIMIT <= e <= EXP_LIMIT,
        i <= 4,
    ensures
        k == dur_rung_from(n as nat, e as int, i as int),
        i <= k <= 4,
    decreases 4 - i,
{
    if i >= 4 {
        4
    } else {
        let d: u32 = if i < 3 {
            1
        } else {
            2
        };
        let w: u128 = if i < 3 {
            10000
        } else {
            6000
        };
        let shift: i64 = if i >= 3 {
            0
        } else {
            9 - 3 * (i as i64)
        };
        proof {
            lemma_pow10_vals();
            lemma_pow10_mids();
            lemma_pow10_mono(17, 22);
            assert(w == dur_size(i as int) * pow10(dur_dec(i as int)));
        }
        let t: i64 = e as i64 + shift + d as i64;
        if rounded_ge(n, t, w) {
            dur_rung_val(n, e, i + 1)
        } else {
            i
        }
    }
}

/// The suffix of duration rung `i`.
pub fn dur_suffix_str(i: usize) -> (s: &'static str)
    requires
        i < 4,
    ensures
        s@ == dur_suffix(i as int),
{
    if i == 0 {
        "ns"
    } else if i == 1 {
        "µs"
    } else if i == 2 {
        "ms"
    } else {
        "s"
    }
}

/// Writes the duration representation of `m` seconds.
#[verifier::rlimit(50)]
pub fn write_duration<S: Sink>(m: &Magnitude, out: &mut S)
    requires
        old(out).inv(),
        m.wf(),
        m.exp <= DUR_EXP_LIMIT,
    ensures
        final(out).inv(),
        final(out).target() == old(out).target(),
        final(out).fed() == old(out).fed() + format_duration_spec(*m),
{
    proof {
        lemma_pow10_vals();
        lemma_pow10_mids();
        lemma_pow10_38();
        lemma_dur_rung_from_props(m.digits as nat, m.exp as int, 0);
    }
    let i = dur_rung_val(m.digits, m.exp, 0);
    if m.neg {
        out.put("-");
    }
    if i < 4 {
        let d: u32 = if i < 3 {
            1
        } else {
            2
        };
        let shift: i64 = if i >= 3 {
            0
        } else {
            9 - 3 * (i as i64)
        };
        let t: i64 = m.exp as i64 + shift + d as i64;
        proof {
            assert(!dur_promote(m.digits as nat, m.exp as int, i as int));
            lemma_pow10_mono(dur_dec(i as int), 2);
            lemma_pow10_mono(5, 38);
            lemma_pow10_mono(17, 22);
            assert(dur_size(i as int) * pow10(dur_dec(i as int)) <= 100000);
        }
        let r = rounded_units_val(m.digits, t);
        put_numeral(out, r, d);
        out.put(dur_suffix_str(i));
        proof {
            assert(out.fed() =~= old(out).fed() + format_duration_spec(*m));
        }
    } else {
        proof {
            let e1 = m.exp as int + 1;
            if e1 >= 0 {
                lemma_pow10_adds(17, 21);
                lemma_pow10_mono(e1 as nat, 21);
                crate::utils::lemma_pow10_pos(e1 as nat);
                assert(m.digits * pow10(e1 as nat) < DIGITS_LIMIT * pow10(21))
                    by (nonlinear_arith)
                    requires
                        m.digits < DIGITS_LIMIT,
                        pow10(e1 as nat) <= pow10(21),
                        pow10(e1 as nat) >= 1,
                ;
            } else {
                let k = (-e1) as nat;
                let p = pow10(k);
                crate::utils::lemma_pow10_pos(k);
                assert(pow10(18) == 10 * pow10(17));
                if k >= 18 {
                    lemma_pow10_mono(18, k);
                    crate::utils::lemma_round_div_zero(m.digits as nat, k);
                } else {
                    lemma_pow10_mono(k, 18);
                    vstd::arithmetic::div_mod::lemma_div_is_ordered_by_denominator(
                        (m.digits + p / 2) as int,
                        1,
                        p as int,
                    );
                    lemma_pow10_mono(19, 38);
                    assert(pow10(19) == 10 * pow10(18));
                }
            }
        }
        let t = rounded_units_val(m.digits, m.exp as i64 + 1);
        if t < 36000 {
            let mm = t / 600;
            let srem = t % 600;
            put_digits(out, mm);
            out.put(":");
            put_pad2(out, srem / 10);
            if srem % 10 != 0 {
                out.put(".");
                put_digit(out, srem % 10);
            }
            proof {
                assert(out.fed() =~= old(out).fed() + format_duration_spec(*m));
            }
        } else {
            let hh = t / 36000;
            let mm = (t % 36000) / 600;
            let ss = (t % 600) / 10;
            put_digits(out, hh);
            out.put(":");
            put_pad2(out, mm);
            out.put(":");
            put_pad2(out, ss);
            proof {
                assert(out.fed() =~= old(out).fed() + format_duration_spec(*m));
            }
        }
    }
}

} // verus!
