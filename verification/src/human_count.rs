use vstd::prelude::*;
use crate::digits::{
    dec_digits, digit_char, lemma_dec_digits_mul_pow10, numeral, put_digits, put_numeral,
    put_two_dec, put_zeros, sign_seq, two_dec, zeros,
};
use crate::render::Sink;
use crate::utils::{
    lemma_pow10_38, lemma_pow10_adds, lemma_pow10_mids, lemma_pow10_mono, lemma_pow10_vals,
    lemma_rounded_step_exact, lemma_rounded_step_ge, lemma_rounded_step_lower,
    lemma_rounded_units_zero, pow10, rounded_ge, rounded_units, rounded_units_val,
};
use crate::value::{Magnitude, DIGITS_LIMIT, EXP_LIMIT};

verus! {

/// The decimal cap of count rung `i`: one decimal digit through the mega
/// rung, two digits above it.
pub open spec fn count_dec(i: int) -> nat {
    if i < 3 {
        1
    } else {
        2
    }
}

/// The metric prefix of count rung `i`.
pub open spec fn count_suffix(i: int) -> Seq<char> {
    if i <= 0 {
        ""@
    } else if i == 1 {
        "k"@
    } else if i == 2 {
        "M"@
    } else if i == 3 {
        "G"@
    } else if i == 4 {
        "T"@
    } else if i == 5 {
        "P"@
    } else if i == 6 {
        "E"@
    } else if i == 7 {
        "Z"@
    } else {
        "Y"@
    }
}

/// Whether the value `n * 10^e`, rounded at rung `i`'s decimal cap, still
/// reaches the divisor of 1000 and is promoted past the rung. Rounding
/// before comparing is what carries values such as 999.996 into the next
/// rung instead of printing a numeral of 1000.
pub open spec fn count_promote(n: nat, e: int, i: int) -> bool {
    rounded_units(n, e - 3 * i + count_dec(i)) >= 1000 * pow10(count_dec(i))
}

/// The first rung at or past `i` where the scan stops, or 9 when the value
/// passes the whole table.
pub open spec fn count_rung_from(n: nat, e: int, i: int) -> int
    decreases 9 - i,
{
    if i < 0 || i >= 9 {
        9
    } else if count_promote(n, e, i) {
        count_rung_from(n, e, i + 1)
    } else {
        i
    }
}

/// The terminal rung of the count scan for the value `n * 10^e`.
pub open spec fn count_rung(n: nat, e: int) -> int {
    count_rung_from(n, e, 0)
}

pub proof fn lemma_count_rung_from_props(n: nat, e: int, i: int)
    requires
        0 <= i <= 9,
    ensures
        i <= count_rung_from(n, e, i) <= 9,
        count_rung_from(n, e, i) < 9 ==> !count_promote(n, e, count_rung_from(n, e, i)),
    decreases 9 - i,
{
    if i < 9 && count_promote(n, e, i) {
        lemma_count_rung_from_props(n, e, i + 1);
    }
}

/// The numeral shown at terminal rung `k` for the value `n * 10^e`.
pub open spec fn count_numeral(n: nat, e: int, k: int) -> Seq<char> {
    numeral(rounded_units(n, e - 3 * k + count_dec(k)), count_dec(k))
}

/// The full count representation of a magnitude with a unit label: the
/// sign, the numeral at the terminal rung with the fewest exact decimals,
/// the rung's metric prefix and the unit; or, past the whole table, the
/// remaining value with two decimals, an overflow marker and the unit.
pub open spec fn format_count_spec(m: Magnitude, unit: Seq<char>) -> Seq<char> {
    let k = count_rung(m.digits as nat, m.exp as int);
    if k < 9 {
        sign_seq(m.neg) + count_numeral(m.digits as nat, m.exp as int, k) + count_suffix(k) + unit
    } else {
        sign_seq(m.neg) + two_dec(rounded_units(m.digits as nat, m.exp - 25)) + "+"@ + unit
    }
}

/// Finds the terminal rung of the count scan, starting at rung `i`.
pub fn count_rung_val(n: u128, e: i32, i: usize) -> (k: usize)
    requires
        n < DIGITS_LIMIT,
        -EXP_LIMIT <= e <= EXP_LIMIT,
        i <= 9,
    ensures
        k == count_rung_from(n as nat, e as int, i as int),
        i <= k <= 9,
    decreases 9 - i,
{
    if i >= 9 {
        9
    } else {
        let d: u32 = if i < 3 {
            1
        } else {
            2
        };
        let w: u128 = if i < 3 {
            10000
        } else {
            100000
        };
        proof {
            lemma_pow10_vals();
            lemma_pow10_mids();
            lemma_pow10_mono(17, 22);
            assert(w == 1000 * pow10(count_dec(i as int)));
        }
        let t: i64 = e as i64 - 3 * (i as i64) + d as i64;
        if rounded_ge(n, t, w) {
            count_rung_val(n, e, i + 1)
        } else {
            i
        }
    }
}

/// Writes the count representation of `m` with the unit label `unit`.
#[verifier::rlimit(50)]
pub fn write_count<S: Sink>(m: &Magnitude, unit: &str, out: &mut S)
    requires
        old(out).inv(),
        m.wf(),
    ensures
        final(out).inv(),
        final(out).target() == old(out).target(),
        final(out).fed() == old(out).fed() + format_count_spec(*m, unit@),
{
    proof {
        lemma_pow10_vals();
        lemma_pow10_mids();
        lemma_pow10_38();
        lemma_count_rung_from_props(m.digits as nat, m.exp as int, 0);
    }
    let k = count_rung_val(m.digits, m.exp, 0);
    if m.neg {
        out.put("-");
    }
    if k < 9 {
        let d: u32 = if k < 3 {
            1
        } else {
            2
        };
        let t: i64 = m.exp as i64 - 3 * (k as i64) + d as i64;
        proof {
            assert(!count_promote(m.digits as nat, m.exp as int, k as int));
            lemma_pow10_mono(count_dec(k as int), 2);
            lemma_pow10_mono(5, 38);
            lemma_pow10_mono(17, 22);
            assert(1000 * pow10(count_dec(k as int)) <= 100000);
        }
        let r = rounded_units_val(m.digits, t);
        put_numeral(out, r, d);
        out.put(count_suffix_str(k));
        out.put(unit);
        proof {
            assert(out.fed() =~= old(out).fed() + format_count_spec(*m, unit@));
        }
    } else {
        proof {
            assert(count_promote(m.digits as nat, m.exp as int, 0));
            if m.digits == 0 {
                lemma_rounded_units_zero(m.exp as int + count_dec(0));
                assert(false);
            }
        }
        if m.exp >= 27 {
            put_digits(out, m.digits);
            put_zeros(out, (m.exp - 27) as usize);
            proof {
                reveal_strlit(".00");
                assert(".00"@ =~= seq!['.', digit_char(0), digit_char(0)]);
                lemma_overflow_big(m.digits as nat, m.exp as int);
            }
            out.put(".00");
        } else {
            proof {
                lemma_overflow_small(m.digits as nat, m.exp as int);
                lemma_pow10_mono(17, 22);
            }
            let h = rounded_units_val(m.digits, m.exp as i64 - 25);
            put_two_dec(out, h);
        }
        out.put("+");
        out.put(unit);
        proof {
            assert(out.fed() =~= old(out).fed() + format_count_spec(*m, unit@));
        }
    }
}

/// The rounded value past the whole table stays below 38 digits.
proof fn lemma_overflow_small(n: nat, e: int)
    requires
        n < DIGITS_LIMIT,
        e <= 26,
    ensures
        rounded_units(n, e - 25) < pow10(38),
{
    lemma_pow10_mids();
    lemma_pow10_38();
    lemma_pow10_vals();
    assert(pow10(18) == 10 * pow10(17));
    lemma_pow10_mono(18, 38);
    if e - 25 >= 0 {
        assert(pow10((e - 25) as nat) <= 10);
        assert(n * pow10((e - 25) as nat) <= n * 10) by (nonlinear_arith)
            requires
                pow10((e - 25) as nat) <= 10,
        ;
    } else {
        let k = (25 - e) as nat;
        let p = pow10(k);
        crate::utils::lemma_pow10_pos(k);
        vstd::arithmetic::div_mod::lemma_div_is_ordered(
            (n + p / 2) as int,
            (n + p) as int,
            p as int,
        );
        vstd::arithmetic::div_mod::lemma_hoist_over_denominator(n as int, 1, p as nat);
        assert(n / p + 1 == (n + p) / p) by {
            assert(1 * p == p) by (nonlinear_arith);
        }
        vstd::arithmetic::div_mod::lemma_div_is_ordered_by_denominator(n as int, 1, p as int);
    }
}

/// Past the whole table with a large exponent, the two-decimal overflow
/// numeral is the mantissa's digits, the exponent's zeros and ".00".
proof fn lemma_overflow_big(n: nat, e: int)
    requires
        1 <= n,
        27 <= e,
    ensures
        two_dec(rounded_units(n, e - 25)) == dec_digits(n) + zeros((e - 27) as nat) + seq![
            '.',
            digit_char(0),
            digit_char(0),
        ],
{
    let z = (e - 27) as nat;
    let q = n * pow10(z);
    lemma_pow10_adds(z, 2);
    lemma_pow10_vals();
    assert(n * pow10(z + 2) == q * 100) by (nonlinear_arith)
        requires
            pow10(z + 2) == pow10(z) * 100,
            q == n * pow10(z),
    ;
    assert(rounded_units(n, e - 25) == q * 100);
    vstd::arithmetic::div_mod::lemma_div_by_multiple(q as int, 100);
    vstd::arithmetic::div_mod::lemma_mod_multiples_basic(q as int, 100);
    assert((q * 100) % 100 == 0);
    assert(((q * 100) % 100) / 10 == 0);
    lemma_dec_digits_mul_pow10(n, z);
    assert(two_dec(q * 100) =~= dec_digits(n) + zeros(z) + seq!['.', digit_char(0), digit_char(0)]);
}

/// Sign symmetry: the count representation of a magnitude with its sign
/// set is a minus sign followed by the representation of the same
/// magnitude with its sign cleared. The scale scan never looks at the
/// sign, only at the absolute value.
pub proof fn lemma_count_sign_symmetry(m: Magnitude, unit: Seq<char>)
    ensures
        format_count_spec(Magnitude { neg: true, ..m }, unit) == "-"@ + format_count_spec(
            Magnitude { neg: false, ..m },
            unit,
        ),
{
    let mn = Magnitude { neg: true, ..m };
    let mp = Magnitude { neg: false, ..m };
    let k = count_rung(m.digits as nat, m.exp as int);
    if k < 9 {
        assert(format_count_spec(mn, unit) =~= "-"@ + format_count_spec(mp, unit));
    } else {
        assert(format_count_spec(mn, unit) =~= "-"@ + format_count_spec(mp, unit));
    }
}

/// Sign symmetry at the conversion boundary: a negative integer converts
/// to the minus sign followed by the count representation of its absolute
/// value.
pub proof fn lemma_count_sign_symmetry_int(v: int, unit: Seq<char>)
    requires
        v > 0,
    ensures
        format_count_spec(crate::value::from_int_spec(-v), unit) == "-"@ + format_count_spec(
            crate::value::from_int_spec(v),
            unit,
        ),
{
    let mp = crate::value::from_int_spec(v);
    let mn = crate::value::from_int_spec(-v);
    assert(mn == Magnitude { neg: true, ..mp });
    lemma_count_sign_symmetry(mp, unit);
}

/// Unit labels pass through unmodified: the count representation with any
/// unit label is the representation with the empty label followed by the
/// label itself, whatever characters it holds.
pub proof fn lemma_count_unit_passthrough(m: Magnitude, unit: Seq<char>)
    ensures
        format_count_spec(m, unit) == format_count_spec(m, Seq::<char>::empty()) + unit,
{
    let k = count_rung(m.digits as nat, m.exp as int);
    if k < 9 {
        assert(format_count_spec(m, unit) =~= format_count_spec(m, Seq::<char>::empty()) + unit);
    } else {
        assert(format_count_spec(m, unit) =~= format_count_spec(m, Seq::<char>::empty()) + unit);
    }
}

/// Whether the numeral shown at rung `k` is a whole number, with no
/// decimal digits.
pub open spec fn count_numeral_integral(n: nat, e: int, k: int) -> bool {
    rounded_units(n, e - 3 * k + count_dec(k)) % pow10(count_dec(k)) == 0
}

/// Every rung strictly below the terminal rung promotes.
proof fn lemma_count_scan_below(n: nat, e: int, i: int, j: int)
    requires
        0 <= i <= j < count_rung_from(n, e, i),
    ensures
        count_promote(n, e, j),
    decreases j - i,
{
    if i < j {
        lemma_count_scan_below(n, e, i + 1, j);
    }
}

/// A rung where every rung below promotes and which does not promote
/// itself is the terminal rung.
proof fn lemma_count_scan_exact(n: nat, e: int, i: int, kk: int)
    requires
        0 <= i <= kk <= 8,
        forall|j: int| i <= j < kk ==> count_promote(n, e, j),
        !count_promote(n, e, kk),
    ensures
        count_rung_from(n, e, i) == kk,
    decreases kk - i,
{
    if i < kk {
        lemma_count_scan_exact(n, e, i + 1, kk);
    }
}

/// Scale monotonicity: taking a value of at least one unit a thousandfold
/// moves its count representation exactly one rung up the scale, and
/// whenever the larger value shows a whole numeral, it shows the very
/// numeral of the smaller value, with the metric prefix one step higher.
///
/// Values below one unit fall outside the scale's lowest rung, and values
/// whose thousandfold leaves the table show the overflow marker instead
/// of a rung; the bounds leave exactly those out.
pub proof fn lemma_count_scale_monotonicity(m: Magnitude, big: Magnitude, unit: Seq<char>)
    requires
        !m.neg,
        m.wf(),
        big == (Magnitude { exp: (m.exp + 3) as i32, ..m }),
        crate::value::value_ge_one(m.digits as nat, m.exp as int),
        count_rung(m.digits as nat, m.exp as int + 3) <= 8,
        count_numeral_integral(
            m.digits as nat,
            m.exp as int + 3,
            count_rung(m.digits as nat, m.exp as int + 3),
        ),
    ensures
        count_rung(m.digits as nat, m.exp as int + 3) == count_rung(
            m.digits as nat,
            m.exp as int,
        ) + 1,
        format_count_spec(m, unit) == count_numeral(
            m.digits as nat,
            m.exp as int,
            count_rung(m.digits as nat, m.exp as int),
        ) + count_suffix(count_rung(m.digits as nat, m.exp as int)) + unit,
        format_count_spec(big, unit) == count_numeral(
            m.digits as nat,
            m.exp as int,
            count_rung(m.digits as nat, m.exp as int),
        ) + count_suffix(count_rung(m.digits as nat, m.exp as int) + 1) + unit,
{
    let n = m.digits as nat;
    let e = m.exp as int;
    let k2 = count_rung(n, e + 3);
    lemma_pow10_vals();
    crate::value::lemma_value_ge_one_rounds(n, e, 4);
    assert(count_promote(n, e + 3, 0));
    lemma_count_rung_from_props(n, e + 3, 0);
    assert(1 <= k2);
    assert(!count_promote(n, e + 3, k2));

    // Every rung below the terminal one promotes for the larger value,
    // and so does the rung below it for the smaller value.
    assert forall|j: int| 0 <= j < k2 - 1 implies count_promote(n, e, j) by {
        lemma_count_scan_below(n, e + 3, 0, j + 1);
        if j + 1 == 3 {
            lemma_rounded_step_ge(n, e - 5, 10000);
        } else {
            assert(count_dec(j + 1) == count_dec(j));
        }
    }

    // The rung below the larger value's terminal rung is terminal for the
    // smaller value: a disagreement could only come from the finer decimal
    // cap at the giga rung, and there the numeral would end in digits
    // between 95 and 99, never a whole number.
    let r2 = rounded_units(n, e + 3 - 3 * k2 + count_dec(k2));
    assert(!count_promote(n, e, k2 - 1)) by {
        if k2 == 3 {
            if count_promote(n, e, 2) {
                lemma_rounded_step_lower(n, e - 5, 10000);
                assert(r2 == rounded_units(n, e - 4));
                assert(99995 <= r2 < 100000);
                assert(r2 % 100 == 0);
                assert(false);
            }
        } else {
            assert(count_dec(k2) == count_dec(k2 - 1));
        }
    }
    lemma_count_scan_exact(n, e, 0, k2 - 1);

    // The numerals agree: with equal decimal caps they are the same
    // rounded value; across the cap change a whole numeral transfers.
    let r1 = rounded_units(n, e - 3 * (k2 - 1) + count_dec(k2 - 1));
    assert(count_numeral(n, e + 3, k2) == count_numeral(n, e, k2 - 1)) by {
        if k2 == 3 {
            let i = r2 / 100;
            assert(r2 == 100 * i) by {
                vstd::arithmetic::div_mod::lemma_fundamental_div_mod(r2 as int, 100);
            }
            lemma_rounded_step_exact(n, e - 5, 10 * i);
            assert(r1 == 10 * i);
            assert(r1 % 10 == 0) by {
                vstd::arithmetic::div_mod::lemma_mod_multiples_basic(i as int, 10);
                assert(i * 10 == 10 * i);
            }
            assert(r2 / pow10(2) == i);
            assert(r1 / pow10(1) == i) by {
                vstd::arithmetic::div_mod::lemma_div_by_multiple(i as int, 10);
                assert(i * 10 == 10 * i);
            }
            assert(r1 % pow10(1) == 0);
            assert(r2 % pow10(2) == 0);
        } else {
            assert(count_dec(k2) == count_dec(k2 - 1));
        }
    }

    assert(count_rung(big.digits as nat, big.exp as int) == k2);
    assert(format_count_spec(m, unit) =~= count_numeral(n, e, k2 - 1) + count_suffix(k2 - 1)
        + unit);
    assert(format_count_spec(big, unit) =~= count_numeral(n, e, k2 - 1) + count_suffix(k2)
        + unit);
}

/// The metric prefix of count rung `i`.
pub fn count_suffix_str(i: usize) -> (s: &'static str)
    requires
        i < 9,
    ensures
        s@ == count_suffix(i as int),
{
    if i == 0 {
        ""
    } else if i == 1 {
        "k"
    } else if i == 2 {
        "M"
    } else if i == 3 {
        "G"
    } else if i == 4 {
        "T"
    } else if i == 5 {
        "P"
    } else if i == 6 {
        "E"
    } else if i == 7 {
        "Z"
    } else {
        "Y"
    }
}

} // verus!
