use vstd::prelude::*;

verus! {

/// 10 raised to the power `k`.
pub open spec fn pow10(k: nat) -> nat
    decreases k,
{
    if k == 0 {
        1
    } else {
        10 * pow10((k - 1) as nat)
    }
}

pub proof fn lemma_pow10_pos(k: nat)
    ensures
        pow10(k) >= 1,
    decreases k,
{
    if k > 0 {
        lemma_pow10_pos((k - 1) as nat);
    }
}

pub proof fn lemma_pow10_mono(i: nat, j: nat)
    requires
        i <= j,
    ensures
        pow10(i) <= pow10(j),
    decreases j,
{
    if i < j {
        lemma_pow10_mono(i, (j - 1) as nat);
    }
}

/// Concrete values of the small powers of ten that the scale tables use.
pub proof fn lemma_pow10_vals()
    ensures
        pow10(0) == 1,
        pow10(1) == 10,
        pow10(2) == 100,
        pow10(3) == 1000,
        pow10(4) == 10000,
        pow10(5) == 100000,
        pow10(6) == 1000000,
        pow10(7) == 10000000,
        pow10(8) == 100000000,
        pow10(9) == 1000000000,
{
    reveal_with_fuel(pow10, 10);
}

/// The largest power of ten that fits in a `u128`.
pub proof fn lemma_pow10_38()
    ensures
        pow10(38) == 100_000_000_000_000_000_000_000_000_000_000_000_000,
        pow10(39) == 1_000_000_000_000_000_000_000_000_000_000_000_000_000,
{
    reveal_with_fuel(pow10, 40);
}

/// Concrete values of the middle powers of ten that the mantissa bounds use.
pub proof fn lemma_pow10_mids()
    ensures
        pow10(16) == 10_000_000_000_000_000,
        pow10(17) == 100_000_000_000_000_000,
        pow10(22) == 10_000_000_000_000_000_000_000,
{
    reveal_with_fuel(pow10, 23);
}

pub proof fn lemma_pow10_adds(i: nat, j: nat)
    ensures
        pow10(i + j) == pow10(i) * pow10(j),
    decreases i,
{
    if i == 0 {
        assert(pow10(j) == 1 * pow10(j));
    } else {
        lemma_pow10_adds((i - 1) as nat, j);
        assert(pow10(i + j) == 10 * pow10((i + j - 1) as nat));
        assert(10 * ((pow10((i - 1) as nat)) * pow10(j)) == (10 * pow10((i - 1) as nat)) * pow10(
            j,
        )) by (nonlinear_arith);
    }
}

/// Computes 10 to the power `k`.
pub fn pow10_val(k: u32) -> (r: u128)
    requires
        k <= 38,
    ensures
        r == pow10(k as nat),
{
    let mut i: u32 = 0;
    let mut r: u128 = 1;
    while i < k
        invariant
            i <= k <= 38,
            r == pow10(i as nat),
        decreases k - i,
    {
        proof {
            lemma_pow10_mono((i + 1) as nat, 38);
            lemma_pow10_38();
        }
        r = r * 10;
        i = i + 1;
    }
    r
}

/// `n` divided by 10^k, rounded half away from zero.
pub open spec fn round_div(n: nat, k: nat) -> nat {
    (n + pow10(k) / 2) / pow10(k)
}

/// The value `n * 10^t`, rounded to the nearest integer, half away from zero.
pub open spec fn rounded_units(n: nat, t: int) -> nat {
    if t >= 0 {
        n * pow10(t as nat)
    } else {
        round_div(n, (-t) as nat)
    }
}

pub proof fn lemma_round_div_zero(n: nat, k: nat)
    requires
        2 * n < pow10(k),
    ensures
        round_div(n, k) == 0,
{
    let p = pow10(k);
    lemma_pow10_pos(k);
    assert(n + p / 2 < p);
    assert((n + p / 2) / p == 0) by (nonlinear_arith)
        requires
            n + p / 2 < p,
            p >= 1,
    ;
}

pub proof fn lemma_rounded_units_zero(t: int)
    ensures
        rounded_units(0, t) == 0,
{
    if t >= 0 {
        assert(0 * pow10(t as nat) == 0);
    } else {
        lemma_pow10_pos((-t) as nat);
        lemma_round_div_zero(0, (-t) as nat);
    }
}

/// Dividing reaches a threshold exactly when the numerator reaches the
/// threshold times the divisor.
pub proof fn lemma_div_ge_iff(x: nat, p: nat, c: nat)
    requires
        p >= 1,
    ensures
        (x / p >= c) <==> (x >= c * p),
{
    if x / p >= c {
        vstd::arithmetic::div_mod::lemma_fundamental_div_mod(x as int, p as int);
        vstd::arithmetic::mul::lemma_mul_inequality(c as int, (x / p) as int, p as int);
        assert(x >= (x / p) * p >= c * p) by {
            assert(p * (x / p) == (x / p) * p) by (nonlinear_arith);
        }
    }
    if x >= c * p {
        vstd::arithmetic::div_mod::lemma_div_is_ordered((c * p) as int, x as int, p as int);
        vstd::arithmetic::div_mod::lemma_div_by_multiple(c as int, p as int);
    }
}

/// Rounding relations between two adjacent decimal positions: `u + 1`
/// keeps one decimal digit more than `u`. A value that reaches ten times
/// a threshold at the finer position reaches the threshold at the coarser
/// one.
pub proof fn lemma_rounded_step_ge(n: nat, u: int, c: nat)
    requires
        rounded_units(n, u + 1) >= 10 * c,
    ensures
        rounded_units(n, u) >= c,
{
    if u >= 0 {
        let p = pow10(u as nat);
        lemma_pow10_adds(u as nat, 1);
        lemma_pow10_vals();
        assert(n * pow10((u + 1) as nat) == 10 * (n * p)) by (nonlinear_arith)
            requires
                pow10((u + 1) as nat) == p * 10,
        ;
    } else {
        let q = (-u - 1) as nat;
        let p = pow10(q);
        let big = pow10((q + 1) as nat);
        lemma_pow10_pos(q);
        assert(big == 10 * p);
        assert(big / 2 == 5 * p) by {
            vstd::arithmetic::div_mod::lemma_div_by_multiple((5 * p) as int, 2);
            assert((5 * p) * 2 == 10 * p) by (nonlinear_arith);
        }
        assert(rounded_units(n, u + 1) == (n + p / 2) / p) by {
            if u + 1 == 0 {
                assert(rounded_units(n, 0) == n * 1);
                assert((n + 0) / 1 == n) by (nonlinear_arith);
            }
        }
        lemma_div_ge_iff((n + p / 2) as nat, p, 10 * c);
        assert(n + 5 * p >= (10 * c) * p + 5 * p - p / 2);
        assert((10 * c) * p + 5 * p - p / 2 >= c * big) by {
            assert(c * big == (10 * c) * p) by (nonlinear_arith)
                requires
                    big == 10 * p,
            ;
        }
        lemma_div_ge_iff((n + big / 2) as nat, big, c);
    }
}

/// A value that reaches a threshold at the coarser position comes within
/// half a coarse step of ten times the threshold at the finer one.
pub proof fn lemma_rounded_step_lower(n: nat, u: int, c: nat)
    requires
        rounded_units(n, u) >= c,
        c >= 1,
    ensures
        rounded_units(n, u + 1) + 5 >= 10 * c,
{
    if u >= 0 {
        let p = pow10(u as nat);
        lemma_pow10_adds(u as nat, 1);
        lemma_pow10_vals();
        assert(n * pow10((u + 1) as nat) == 10 * (n * p)) by (nonlinear_arith)
            requires
                pow10((u + 1) as nat) == p * 10,
        ;
    } else {
        let q = (-u - 1) as nat;
        let p = pow10(q);
        let big = pow10((q + 1) as nat);
        lemma_pow10_pos(q);
        assert(big == 10 * p);
        assert(big / 2 == 5 * p) by {
            vstd::arithmetic::div_mod::lemma_div_by_multiple((5 * p) as int, 2);
            assert((5 * p) * 2 == 10 * p) by (nonlinear_arith);
        }
        assert(rounded_units(n, u + 1) == (n + p / 2) / p) by {
            if u + 1 == 0 {
                assert(rounded_units(n, 0) == n * 1);
                assert((n + 0) / 1 == n) by (nonlinear_arith);
            }
        }
        lemma_div_ge_iff((n + big / 2) as nat, big, c);
        assert(n + 5 * p >= c * big);
        assert(n + p / 2 >= (10 * c - 5) * p) by {
            assert(c * big == (10 * c) * p) by (nonlinear_arith)
                requires
                    big == 10 * p,
            ;
            assert((10 * c - 5) * p == (10 * c) * p - 5 * p) by (nonlinear_arith);
        }
        lemma_div_ge_iff((n + p / 2) as nat, p, (10 * c - 5) as nat);
    }
}

/// A value that rounds to an exact multiple of ten at the finer position
/// rounds to the same numeral at the coarser one.
pub proof fn lemma_rounded_step_exact(n: nat, u: int, a: nat)
    requires
        rounded_units(n, u + 1) == 10 * a,
    ensures
        rounded_units(n, u) == a,
{
    if u >= 0 {
        let p = pow10(u as nat);
        lemma_pow10_adds(u as nat, 1);
        lemma_pow10_vals();
        assert(n * pow10((u + 1) as nat) == 10 * (n * p)) by (nonlinear_arith)
            requires
                pow10((u + 1) as nat) == p * 10,
        ;
    } else {
        let q = (-u - 1) as nat;
        let p = pow10(q);
        let big = pow10((q + 1) as nat);
        lemma_pow10_pos(q);
        assert(big == 10 * p);
        assert(big / 2 == 5 * p) by {
            vstd::arithmetic::div_mod::lemma_div_by_multiple((5 * p) as int, 2);
            assert((5 * p) * 2 == 10 * p) by (nonlinear_arith);
        }
        assert(rounded_units(n, u + 1) == (n + p / 2) / p) by {
            if u + 1 == 0 {
                assert(rounded_units(n, 0) == n * 1);
                assert((n + 0) / 1 == n) by (nonlinear_arith);
            }
        }
        let x = n + p / 2;
        vstd::arithmetic::div_mod::lemma_fundamental_div_mod(x as int, p as int);
        assert(x == p * (10 * a) + x % p);
        assert(2 * (p / 2) <= p && p <= 2 * (p / 2) + 1);
        let y = n + big / 2;
        assert(y == x + 5 * p - p / 2);
        assert(a * big <= y < (a + 1) * big) by {
            assert(p * (10 * a) == a * big && (a + 1) * big == p * (10 * a) + 10 * p)
                by (nonlinear_arith)
                requires
                    big == 10 * p,
            ;
        }
        assert((y - a * big) < big) by {
            assert((a + 1) * big == a * big + big) by (nonlinear_arith);
        }
        assert(y == big * a + (y - a * big)) by {
            assert(big * a == a * big) by (nonlinear_arith);
        }
        vstd::arithmetic::div_mod::lemma_fundamental_div_mod_converse(
            y as int,
            big as int,
            a as int,
            (y - a * big) as int,
        );
    }
}

/// Computes `n` divided by 10^k, rounded half away from zero.
pub fn round_div_val(n: u128, k: u32) -> (r: u128)
    requires
        k <= 38,
    ensures
        r == round_div(n as nat, k as nat),
{
    let p = pow10_val(k);
    proof {
        lemma_pow10_pos(k as nat);
        lemma_pow10_mono(k as nat, 38);
        lemma_pow10_38();
    }
    let q = n / p;
    let rem = n % p;
    let half = p / 2;
    proof {
        vstd::arithmetic::div_mod::lemma_fundamental_div_mod(n as int, p as int);
    }
    if rem + half >= p {
        proof {
            assert(p >= 2);
            vstd::arithmetic::div_mod::lemma_div_is_ordered_by_denominator(n as int, 2, p as int);
            assert(p * (q + 1) == p * q + p) by (nonlinear_arith);
            assert(n + half == p * (q + 1) + (rem + half - p));
            vstd::arithmetic::div_mod::lemma_fundamental_div_mod_converse(
                (n + half) as int,
                p as int,
                (q + 1) as int,
                (rem + half - p) as int,
            );
        }
        q + 1
    } else {
        proof {
            assert(n + half == p * q + (rem + half));
            vstd::arithmetic::div_mod::lemma_fundamental_div_mod_converse(
                (n + half) as int,
                p as int,
                q as int,
                (rem + half) as int,
            );
        }
        q
    }
}

/// Computes the value `n * 10^t` rounded to the nearest integer, half away
/// from zero, whenever that integer fits in 38 decimal digits.
pub fn rounded_units_val(n: u128, t: i64) -> (r: u128)
    requires
        n < pow10(22),
        -1000 <= t <= 1000,
        rounded_units(n as nat, t as int) < pow10(38),
    ensures
        r == rounded_units(n as nat, t as int),
{
    proof {
        lemma_pow10_38();
        lemma_pow10_mono(22, 38);
    }
    if t >= 0 {
        if n == 0 {
            proof {
                lemma_rounded_units_zero(t as int);
            }
            0
        } else {
            proof {
                if t > 38 {
                    lemma_pow10_mono(38, t as nat);
                    assert(n * pow10(t as nat) >= 1 * pow10(t as nat)) by (nonlinear_arith)
                        requires
                            n >= 1,
                    ;
                }
            }
            let p = pow10_val(t as u32);
            proof {
                assert(n * p == rounded_units(n as nat, t as int));
            }
            n * p
        }
    } else if t < -38 {
        proof {
            lemma_pow10_mono(23, (-t) as nat);
            lemma_pow10_38();
            assert(pow10(23) == 10 * pow10(22));
            lemma_round_div_zero(n as nat, (-t) as nat);
        }
        0
    } else {
        round_div_val(n, (-t) as u32)
    }
}

/// Decides whether the value `n * 10^t`, rounded half away from zero,
/// reaches the threshold `w`, without materializing the rounded value.
pub fn rounded_ge(n: u128, t: i64, w: u128) -> (b: bool)
    requires
        n < pow10(22),
        1 <= w <= 1000000,
        -1000 <= t <= 1000,
    ensures
        b == (rounded_units(n as nat, t as int) >= w),
{
    proof {
        lemma_pow10_vals();
    }
    if n == 0 {
        proof {
            lemma_rounded_units_zero(t as int);
        }
        false
    } else if t >= 7 {
        proof {
            lemma_pow10_mono(7, t as nat);
            assert(n * pow10(t as nat) >= 1 * pow10(t as nat)) by (nonlinear_arith)
                requires
                    n >= 1,
            ;
        }
        true
    } else if t >= 0 {
        let p = pow10_val(t as u32);
        proof {
            lemma_pow10_mono(t as nat, 6);
            assert(n * p < pow10(22) * pow10(6)) by (nonlinear_arith)
                requires
                    n < pow10(22),
                    p <= pow10(6),
                    p >= 1,
            ;
            lemma_pow10_adds(22, 6);
            lemma_pow10_mono(28, 38);
            lemma_pow10_38();
        }
        n * p >= w
    } else if t < -38 {
        proof {
            lemma_pow10_mono(23, (-t) as nat);
            lemma_pow10_38();
            assert(pow10(23) == 10 * pow10(22));
            lemma_round_div_zero(n as nat, (-t) as nat);
        }
        false
    } else {
        proof {
            lemma_pow10_38();
            lemma_pow10_mono(22, 38);
        }
        let r = round_div_val(n, (-t) as u32);
        r >= w
    }
}

} // verus!
