use vstd::prelude::*;
use vstd::arithmetic::div_mod::{lemma_fundamental_div_mod, lemma_multiply_divide_lt};
use vstd::arithmetic::mul::lemma_mul_inequality;
use crate::utils::{
    pow10, round_div, round_div_val, rounded_units, lemma_pow10_adds, lemma_pow10_mids,
    lemma_pow10_mono, lemma_pow10_pos, lemma_pow10_vals, lemma_pow10_38, lemma_round_div_zero,
};

verus! {

/// The exclusive bound on a magnitude's mantissa: magnitudes keep at most
/// 17 significant decimal digits, which covers the shortest decimal form of
/// every double-precision value.
pub const DIGITS_LIMIT: u128 = 100_000_000_000_000_000;

/// The inclusive bound on a magnitude's decimal exponent, either way:
/// wide enough for the shortest decimal form of every double-precision
/// value, denormals included.
pub const EXP_LIMIT: i32 = 400;

/// An exact decimal magnitude: the value `digits * 10^exp`, negated when
/// `neg` is set.
///
/// This is the working representation every conversion operates on. Keeping
/// the mantissa and the decimal exponent apart makes every scale step exact:
/// promotions by powers of ten only move the exponent, and the coarser time
/// steps (60 and 24) divide the fixed per-day and per-hour factors evenly.
#[derive(Clone, Copy)]
pub struct Magnitude {
    /// Whether the value is negative.
    pub neg: bool,
    /// The mantissa, below `DIGITS_LIMIT`.
    pub digits: u128,
    /// The decimal exponent, within `EXP_LIMIT` either way.
    pub exp: i32,
}

impl Magnitude {
    /// The representation bounds every operation relies on.
    pub open spec fn wf(self) -> bool {
        self.digits < DIGITS_LIMIT && -EXP_LIMIT <= self.exp <= EXP_LIMIT
    }

    /// Builds a magnitude, rejecting values outside the representation
    /// bounds.
    pub fn new(neg: bool, digits: u128, exp: i32) -> (r: Option<Magnitude>)
        ensures
            r is Some <==> (digits < DIGITS_LIMIT && -EXP_LIMIT <= exp <= EXP_LIMIT),
            r is Some ==> r->Some_0 == (Magnitude { neg, digits, exp }) && r->Some_0.wf(),
    {
        if digits < DIGITS_LIMIT && -EXP_LIMIT <= exp && exp <= EXP_LIMIT {
            Some(Magnitude { neg, digits, exp })
        } else {
            None
        }
    }

    /// The magnitude of the opposite sign.
    pub fn negated(self) -> (r: Magnitude)
        ensures
            r == (Magnitude { neg: !self.neg, ..self }),
    {
        Magnitude { neg: !self.neg, digits: self.digits, exp: self.exp }
    }
}

/// Rounds a magnitude to `dec` decimal digits, half away from zero: the
/// result represents exactly the value `m` rounds to at that precision.
pub fn rounded(m: Magnitude, dec: u32) -> (r: Magnitude)
    requires
        m.wf(),
        dec <= 2,
    ensures
        r.wf(),
        r.neg == m.neg,
        r.exp + dec >= 0,
        rounded_units(r.digits as nat, r.exp + dec) == rounded_units(m.digits as nat, m.exp + dec),
{
    if m.exp + (dec as i32) >= 0 {
        m
    } else {
        let k = -(m.exp + dec as i32);
        proof {
            lemma_pow10_vals();
            lemma_pow10_mids();
            lemma_pow10_38();
        }
        if k > 38 {
            proof {
                assert(pow10(18) == 10 * pow10(17));
                lemma_pow10_mono(18, k as nat);
                lemma_round_div_zero(m.digits as nat, k as nat);
                assert(rounded_units(0, 0) == 0);
            }
            Magnitude { neg: m.neg, digits: 0, exp: -(dec as i32) }
        } else {
            let d2 = round_div_val(m.digits, k as u32);
            proof {
                let p = pow10(k as nat);
                lemma_pow10_mono(1, k as nat);
                assert(m.digits + p / 2 < p * DIGITS_LIMIT) by (nonlinear_arith)
                    requires
                        m.digits < DIGITS_LIMIT,
                        p >= 10,
                        DIGITS_LIMIT >= 2,
                ;
                lemma_multiply_divide_lt((m.digits + p / 2) as int, p as int, DIGITS_LIMIT as int);
                assert(pow10(0) == 1);
                assert(rounded_units(d2 as nat, 0) == (d2 as nat) * 1);
            }
            Magnitude { neg: m.neg, digits: d2, exp: -(dec as i32) }
        }
    }
}

/// Whether the value `n * 10^e` is at least one.
pub open spec fn value_ge_one(n: nat, e: int) -> bool {
    if e >= 0 {
        n >= 1
    } else {
        n >= pow10((-e) as nat)
    }
}

/// A value of at least one, scaled up by `s` digits and rounded, stays at
/// or above 10^s.
pub proof fn lemma_value_ge_one_rounds(n: nat, e: int, s: int)
    requires
        value_ge_one(n, e),
        s >= 0,
    ensures
        rounded_units(n, e + s) >= pow10(s as nat),
{
    if e + s >= 0 {
        if e >= 0 {
            lemma_mul_inequality(1, n as int, pow10((e + s) as nat) as int);
            lemma_pow10_mono(s as nat, (e + s) as nat);
        } else {
            lemma_pow10_adds((-e) as nat, (e + s) as nat);
            lemma_mul_inequality(
                pow10((-e) as nat) as int,
                n as int,
                pow10((e + s) as nat) as int,
            );
            assert(pow10((-e) as nat) * pow10((e + s) as nat) == pow10(s as nat));
        }
    } else {
        let k = (-(e + s)) as nat;
        let p = pow10(k);
        let c = pow10(s as nat);
        lemma_pow10_pos(k);
        lemma_pow10_adds(k, s as nat);
        assert(n >= p * c);
        assert(p * c == c * p) by (nonlinear_arith);
        crate::utils::lemma_div_ge_iff((n + p / 2) as nat, p, c);
    }
}

/// The number of decimal digits of `n`, counting one digit for zero.
pub open spec fn num_digits(n: nat) -> nat
    decreases n,
{
    if n < 10 {
        1
    } else {
        1 + num_digits(n / 10)
    }
}

pub proof fn lemma_num_digits_bounds(n: nat)
    ensures
        num_digits(n) >= 1,
        n < pow10(num_digits(n)),
        n >= 1 ==> pow10((num_digits(n) - 1) as nat) <= n,
    decreases n,
{
    lemma_pow10_vals();
    if n >= 10 {
        let m = n / 10;
        lemma_num_digits_bounds(m);
        let nd = num_digits(m);
        lemma_fundamental_div_mod(n as int, 10);
        assert(n < pow10(nd + 1)) by {
            assert(n <= 10 * m + 9);
            assert(10 * m <= 10 * (pow10(nd) - 1)) by (nonlinear_arith)
                requires
                    m < pow10(nd),
            ;
        }
        assert(pow10(nd) <= n) by {
            assert(10 * pow10((nd - 1) as nat) <= 10 * m) by (nonlinear_arith)
                requires
                    pow10((nd - 1) as nat) <= m,
            ;
        }
    }
}

/// Counts the decimal digits of `a`.
pub fn num_digits_val(a: u128) -> (nd: u32)
    ensures
        nd == num_digits(a as nat),
        1 <= nd <= 39,
{
    let mut x: u128 = a;
    let mut nd: u32 = 1;
    proof {
        assert(pow10(0) == 1);
        assert((a as nat) * 1 == a as nat);
    }
    while x >= 10
        invariant
            nd >= 1,
            nd <= 39,
            num_digits(a as nat) == nd - 1 + num_digits(x as nat),
            (x as nat) * pow10((nd - 1) as nat) <= a as nat,
        decreases x,
    {
        proof {
            let p = pow10((nd - 1) as nat);
            lemma_pow10_pos((nd - 1) as nat);
            lemma_mul_inequality(10, x as int, p as int);
            assert(10 * p == pow10(nd as nat));
            lemma_pow10_38();
            assert((a as nat) < pow10(39));
            if nd >= 39 {
                lemma_pow10_mono(39, nd as nat);
            }
            assert(((x / 10) as nat) * pow10(nd as nat) <= (x as nat) * p) by (nonlinear_arith)
                requires
                    p >= 1,
                    pow10(nd as nat) == 10 * p,
            ;
        }
        x = x / 10;
        nd = nd + 1;
    }
    nd
}

/// The magnitude that keeps the 17 most significant decimal digits of `a`,
/// rounding half away from zero at the cut.
pub open spec fn from_nat_spec(neg: bool, a: nat) -> Magnitude {
    if a < DIGITS_LIMIT {
        Magnitude { neg, digits: a as u128, exp: 0 }
    } else {
        let k = (num_digits(a) - 17) as nat;
        let rd = round_div(a, k);
        if rd == DIGITS_LIMIT {
            Magnitude { neg, digits: (DIGITS_LIMIT / 10) as u128, exp: (k + 1) as i32 }
        } else {
            Magnitude { neg, digits: rd as u128, exp: k as i32 }
        }
    }
}

/// The magnitude representing the integer `v`, reduced to 17 significant
/// decimal digits.
pub open spec fn from_int_spec(v: int) -> Magnitude {
    if v >= 0 {
        from_nat_spec(false, v as nat)
    } else {
        from_nat_spec(true, (-v) as nat)
    }
}

/// Every integer of at most 39 digits reduces to a well-formed magnitude,
/// and one of at most 36 digits stays within the exponent range of the
/// duration writer.
pub proof fn lemma_from_nat_spec_wf(neg: bool, a: nat)
    requires
        a < pow10(39),
    ensures
        from_nat_spec(neg, a).wf(),
        a < pow10(36) ==> from_nat_spec(neg, a).exp <= 20,
{
    lemma_pow10_mids();
    lemma_pow10_38();
    if a >= DIGITS_LIMIT {
        lemma_num_digits_bounds(a);
        let nd = num_digits(a);
        if nd >= 40 {
            lemma_pow10_mono(39, (nd - 1) as nat);
            assert(false);
        }
        if nd <= 17 {
            lemma_pow10_mono(nd, 17);
            assert(false);
        }
        let k = (nd - 17) as nat;
        let p = pow10(k);
        lemma_pow10_pos(k);
        lemma_pow10_adds(17, k);
        assert((a as nat) < DIGITS_LIMIT * p);
        assert(a + p / 2 < p * (DIGITS_LIMIT + 1)) by (nonlinear_arith)
            requires
                (a as nat) < DIGITS_LIMIT * p,
                p >= 1,
        ;
        lemma_multiply_divide_lt((a + p / 2) as int, p as int, (DIGITS_LIMIT + 1) as int);
        if a < pow10(36) {
            if nd >= 37 {
                lemma_pow10_mono(36, (nd - 1) as nat);
                assert(false);
            }
        }
    }
}

/// Every integer within 39 digits either way converts to a well-formed
/// magnitude; within 36 digits it also fits the duration writer.
pub proof fn lemma_from_int_wf(v: int)
    requires
        -pow10(39) < v < pow10(39),
    ensures
        from_int_spec(v).wf(),
        -pow10(36) < v < pow10(36) ==> from_int_spec(v).exp <= 20,
{
    if v >= 0 {
        lemma_from_nat_spec_wf(false, v as nat);
    } else {
        lemma_from_nat_spec_wf(true, (-v) as nat);
    }
}

/// Builds the magnitude for a sign and an absolute value, reducing the
/// value to its 17 most significant decimal digits.
pub fn magnitude_from_parts(neg: bool, a: u128) -> (m: Magnitude)
    ensures
        m == from_nat_spec(neg, a as nat),
        m.wf(),
{
    if a < DIGITS_LIMIT {
        Magnitude { neg, digits: a, exp: 0 }
    } else {
        proof {
            lemma_pow10_mids();
            lemma_num_digits_bounds(a as nat);
            if num_digits(a as nat) < 18 {
                lemma_pow10_mono(num_digits(a as nat), 17);
            }
        }
        let nd = num_digits_val(a);
        let k = nd - 17;
        let rd = round_div_val(a, k);
        proof {
            let p = pow10(k as nat);
            lemma_pow10_pos(k as nat);
            lemma_pow10_adds(17, k as nat);
            assert((a as nat) < DIGITS_LIMIT * p);
            assert(a + p / 2 < p * (DIGITS_LIMIT + 1)) by (nonlinear_arith)
                requires
                    (a as nat) < DIGITS_LIMIT * p,
                    p >= 1,
            ;
            lemma_multiply_divide_lt((a + p / 2) as int, p as int, (DIGITS_LIMIT + 1) as int);
        }
        if rd == DIGITS_LIMIT {
            Magnitude { neg, digits: DIGITS_LIMIT / 10, exp: k as i32 + 1 }
        } else {
            Magnitude { neg, digits: rd, exp: k as i32 }
        }
    }
}

} // verus!
