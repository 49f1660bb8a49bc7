use vstd::prelude::*;
use crate::digits::{numeral, put_numeral, sign_seq};
use crate::human_count::{format_count_spec, write_count};
use crate::render::Sink;
use crate::utils::{
    lemma_pow10_38, lemma_pow10_mids, lemma_pow10_mono, lemma_pow10_vals, pow10, rounded_ge,
    rounded_units, rounded_units_val,
};
use crate::value::{Magnitude, DIGITS_LIMIT, EXP_LIMIT};

verus! {

/// The scale factor of throughput rung `j`: how many seconds of input feed
/// one unit of the rung's time base. Each promotion divides it exactly.
pub open spec fn tp_factor(j: int) -> nat {
    if j <= 0 {
        86400
    } else if j == 1 {
        3600
    } else {
        60
    }
}

/// The divisor of throughput rung `j`: 24 hours in a day, then 60 minutes
/// and 60 seconds.
pub open spec fn tp_size(j: int) -> nat {
    if j <= 0 {
        24
    } else {
        60
    }
}

/// The decimal cap of throughput rung `j`.
pub open spec fn tp_dec(j: int) -> nat {
    if j <= 0 {
        2
    } else {
        1
    }
}

/// The rate suffix of throughput rung `j`.
pub open spec fn tp_suffix(j: int) -> Seq<char> {
    if j <= 0 {
        "/d"@
    } else if j == 1 {
        "/h"@
    } else {
        "/min"@
    }
}

/// Whether the rate `n * 10^e` per second, rescaled to rung `j`'s time
/// base and rounded at its decimal cap, still reaches the rung's divisor.
pub open spec fn tp_promote(n: nat, e: int, j: int) -> bool {
    rounded_units(n * tp_factor(j), e + tp_dec(j)) >= tp_size(j) * pow10(tp_dec(j))
}

/// The first rung at or past `j` where the scan stops, or 3 when the rate
/// reaches one unit per second.
pub open spec fn tp_rung_from(n: nat, e: int, j: int) -> int
    decreases 3 - j,
{
    if j < 0 || j >= 3 {
        3
    } else if tp_promote(n, e, j) {
        tp_rung_from(n, e, j + 1)
    } else {
        j
    }
}

/// The terminal rung of the throughput scan.
pub open spec fn tp_rung(n: nat, e: int) -> int {
    tp_rung_from(n, e, 0)
}

pub proof fn lemma_tp_rung_from_props(n: nat, e: int, j: int)
    requires
        0 <= j <= 3,
    ensures
        j <= tp_rung_from(n, e, j) <= 3,
        tp_rung_from(n, e, j) < 3 ==> !tp_promote(n, e, tp_rung_from(n, e, j)),
    decreases 3 - j,
{
    if j < 3 && tp_promote(n, e, j) {
        lemma_tp_rung_from_props(n, e, j + 1);
    }
}

/// The full throughput representation of a magnitude, in units per second:
/// the sign, the numeral at the terminal coarse rung, the unit label and
/// the rate suffix; or, at one unit per second and beyond, the count
/// representation followed by a per-second suffix.
pub open spec fn format_throughput_spec(m: Magnitude, unit: Seq<char>) -> Seq<char> {
    let j = tp_rung(m.digits as nat, m.exp as int);
    if j < 3 {
        sign_seq(m.neg) + numeral(
            rounded_units((m.digits as nat) * tp_factor(j), m.exp + tp_dec(j)),
            tp_dec(j),
        ) + unit + tp_suffix(j)
    } else {
        format_count_spec(m, unit) + "/s"@
    }
}

/// The mantissa rescaled by a throughput factor stays within 22 digits.
proof fn lemma_tp_mantissa_bound(n: nat, f: nat)
    requires
        n < DIGITS_LIMIT,
        f <= 86400,
    ensures
        n * f < pow10(22),
{
    lemma_pow10_mids();
    assert(n * f < pow10(22)) by (nonlinear_arith)
        requires
            n < DIGITS_LIMIT,
            f <= 86400,
            DIGITS_LIMIT == 100_000_000_000_000_000,
            pow10(22) == 10_000_000_000_000_000_000_000,
    ;
}

/// Finds the terminal rung of the throughput scan, starting at rung `j`.
pub fn tp_rung_val(n: u128, e: i32, j: usize) -> (k: usize)
    requires
        n < DIGITS_LIMIT,
        -EXP_LIMIT <= e <= EXP_LIMIT,
        j <= 3,
    ensures
        k == tp_rung_from(n as nat, e as int, j as int),
        j <= k <= 3,
    decreases 3 - j,
{
    if j >= 3 {
        3
    } else {
        let f: u128 = if j == 0 {
            86400
        } else if j == 1 {
            3600
        } else {
            60
        };
        let d: u32 = if j == 0 {
            2
        } else {
            1
        };
        let w: u128 = if j == 0 {
            2400
        } else {
            600
        };
        proof {
            lemma_pow10_vals();
            lemma_tp_mantissa_bound(n as nat, f as nat);
            assert(w == tp_size(j as int) * pow10(tp_dec(j as int)));
        }
        let t: i64 = e as i64 + d as i64;
        if rounded_ge(n * f, t, w) {
            tp_rung_val(n, e, j + 1)
        } else {
            j
        }
    }
}

/// What stands before the unit label in a throughput representation: the
/// sign and the numeral. It does not depend on the label.
pub open spec fn tp_unit_prefix(m: Magnitude) -> Seq<char> {
    let j = tp_rung(m.digits as nat, m.exp as int);
    if j < 3 {
        sign_seq(m.neg) + numeral(
            rounded_units((m.digits as nat) * tp_factor(j), m.exp + tp_dec(j)),
            tp_dec(j),
        )
    } else {
        format_count_spec(m, Seq::<char>::empty())
    }
}

/// What follows the unit label in a throughput representation: the rate
/// suffix. It does not depend on the label.
pub open spec fn tp_unit_suffix(m: Magnitude) -> Seq<char> {
    let j = tp_rung(m.digits as nat, m.exp as int);
    if j < 3 {
        tp_suffix(j)
    } else {
        "/s"@
    }
}

/// Unit labels pass through unmodified: the throughput representation
/// with any unit label splits into a prefix, the label itself with
/// whatever characters it holds, and a rate suffix, and neither
/// neighbouring part depends on the label.
pub proof fn lemma_throughput_unit_passthrough(m: Magnitude, unit: Seq<char>)
    ensures
        format_throughput_spec(m, unit) == tp_unit_prefix(m) + unit + tp_unit_suffix(m),
{
    let j = tp_rung(m.digits as nat, m.exp as int);
    if j < 3 {
        assert(format_throughput_spec(m, unit) =~= tp_unit_prefix(m) + unit + tp_unit_suffix(m));
    } else {
        crate::human_count::lemma_count_unit_passthrough(m, unit);
        assert(format_throughput_spec(m, unit) =~= tp_unit_prefix(m) + unit + tp_unit_suffix(m));
    }
}

/// Sign symmetry carries over to throughput representations.
pub proof fn lemma_throughput_sign_symmetry(m: Magnitude, unit: Seq<char>)
    ensures
        format_throughput_spec(Magnitude { neg: true, ..m }, unit) == "-"@
            + format_throughput_spec(Magnitude { neg: false, ..m }, unit),
{
    let mn = Magnitude { neg: true, ..m };
    let mp = Magnitude { neg: false, ..m };
    let j = tp_rung(m.digits as nat, m.exp as int);
    if j < 3 {
        assert(format_throughput_spec(mn, unit) =~= "-"@ + format_throughput_spec(mp, unit));
    } else {
        crate::human_count::lemma_count_sign_symmetry(m, unit);
        assert(format_throughput_spec(mn, unit) =~= "-"@ + format_throughput_spec(mp, unit));
    }
}

/// The rate suffix of throughput rung `j`.
pub fn tp_suffix_str(j: usize) -> (s: &'static str)
    requires
        j < 3,
    ensures
        s@ == tp_suffix(j as int),
{
    if j == 0 {
        "/d"
    } else if j == 1 {
        "/h"
    } else {
        "/min"
    }
}

/// Writes the throughput representation of `m` units per second with the
/// unit label `unit`.
#[verifier::rlimit(50)]
pub fn write_throughput<S: Sink>(m: &Magnitude, unit: &str, out: &mut S)
    requires
        old(out).inv(),
        m.wf(),
    ensures
        final(out).inv(),
        final(out).target() == old(out).target(),
        final(out).fed() == old(out).fed() + format_throughput_spec(*m, unit@),
{
    proof {
        lemma_pow10_vals();
        lemma_pow10_mids();
        lemma_pow10_38();
        lemma_tp_rung_from_props(m.digits as nat, m.exp as int, 0);
    }
    let j = tp_rung_val(m.digits, m.exp, 0);
    if j < 3 {
        if m.neg {
            out.put("-");
        }
        let f: u128 = if j == 0 {
            86400
        } else if j == 1 {
            3600
        } else {
            60
        };
        let d: u32 = if j == 0 {
            2
        } else {
            1
        };
        proof {
            assert(!tp_promote(m.digits as nat, m.exp as int, j as int));
            lemma_tp_mantissa_bound(m.digits as nat, f as nat);
            lemma_pow10_mono(5, 38);
            assert(tp_size(j as int) * pow10(tp_dec(j as int)) <= 2400);
        }
        let t: i64 = m.exp as i64 + d as i64;
        let r = rounded_units_val(m.digits * f, t);
        put_numeral(out, r, d);
        out.put(unit);
        out.put(tp_suffix_str(j));
        proof {
            assert(out.fed() =~= old(out).fed() + format_throughput_spec(*m, unit@));
        }
    } else {
        write_count(m, unit, out);
        out.put("/s");
        proof {
            assert(out.fed() =~= old(out).fed() + format_throughput_spec(*m, unit@));
        }
    }
}

} // verus!
