//! Relevance scores: doubles, held by their bits and compared by their value.

use vstd::prelude::*;

verus! {

/// Number of magnitudes that share one exponent, two to the 52nd.
pub const STEP: u64 = 4_503_599_627_370_496;

/// The bit of the sign, two to the 63rd.
pub const SIGN: u64 = 9_223_372_036_854_775_808;

/// The value of a double without its sign, in units of the smallest one that
/// is not zero.
pub open spec fn magnitude(m: nat) -> int {
    let e = m / (STEP as nat);
    let f = m % (STEP as nat);
    if e == 0 {
        f as int
    } else {
        (STEP + f) * vstd::arithmetic::power2::pow2((e - 1) as nat)
    }
}

/// The value of a double other than a NaN, in units of the smallest positive
/// one.
pub open spec fn score_value(bits: u64) -> int {
    if bits < SIGN {
        magnitude(bits as nat)
    } else {
        -magnitude((bits - SIGN) as nat)
    }
}

/// `top` and `second` are both above zero, and `top` is at least twice
/// `second`.
pub open spec fn dominates(top: u64, second: u64) -> bool {
    score_value(top) > 0 && score_value(second) > 0 && score_value(top) >= 2 * score_value(second)
}

proof fn lemma_magnitude_grows(a: nat, b: nat)
    requires
        a < b,
    ensures
        0 <= magnitude(a) < magnitude(b),
{
    let s = STEP as nat;
    let ea = a / s;
    let fa = a % s;
    let eb = b / s;
    let fb = b % s;
    assert(a == ea * s + fa && b == eb * s + fb && fa < s && fb < s);
    assert(ea <= eb);
    if eb > 0 {
        vstd::arithmetic::power2::lemma_pow2_pos((eb - 1) as nat);
        let pb = vstd::arithmetic::power2::pow2((eb - 1) as nat);
        assert(s + fb >= s);
        assert((s + fb) * pb >= s * pb) by (nonlinear_arith)
            requires
                pb > 0,
                fb >= 0,
        ;
        if ea == 0 {
            assert(s * pb >= s) by (nonlinear_arith)
                requires
                    pb > 0,
            ;
        } else {
            vstd::arithmetic::power2::lemma_pow2_pos((ea - 1) as nat);
            let pa = vstd::arithmetic::power2::pow2((ea - 1) as nat);
            assert(0 <= (s + fa) * pa) by (nonlinear_arith)
                requires
                    pa > 0,
                    fa >= 0,
            ;
            if ea == eb {
                assert((s + fa) * pa < (s + fb) * pa) by (nonlinear_arith)
                    requires
                        pa > 0,
                        fa < fb,
                ;
            } else {
                vstd::arithmetic::power2::lemma_pow2_unfold(ea);
                let pc = vstd::arithmetic::power2::pow2(ea);
                if ea < eb - 1 {
                    vstd::arithmetic::power2::lemma_pow2_strictly_increases(ea, (eb - 1) as nat);
                }
                assert(pc <= pb);
                assert((s + fa) * pa < (s + s) * pa) by (nonlinear_arith)
                    requires
                        pa > 0,
                        fa < s,
                ;
                assert((s + s) * pa == s * pc) by (nonlinear_arith)
                    requires
                        pc == 2 * pa,
                ;
                assert(s * pc <= s * pb) by (nonlinear_arith)
                    requires
                        pc <= pb,
                ;
            }
        }
    }
}

proof fn lemma_magnitude_zero()
    ensures
        magnitude(0) == 0,
{
}

/// Twice the magnitude has the next exponent, or lies below it.
spec fn doubled(m: nat) -> nat {
    if m < STEP {
        2 * m
    } else {
        m + STEP as nat
    }
}

proof fn lemma_doubled(m: nat)
    ensures
        magnitude(doubled(m)) == 2 * magnitude(m),
{
    let s = STEP as nat;
    let e = m / s;
    let f = m % s;
    if m < s {
        if 2 * m < s {
            assert((2 * m) / s == 0 && (2 * m) % s == 2 * m);
        } else {
            assert((2 * m) / s == 1 && (2 * m) % s == 2 * m - s);
            vstd::arithmetic::power2::lemma2_to64();
            assert((s + (2 * m - s)) * 1 == 2 * m);
        }
    } else {
        assert((m + s) / s == e + 1 && (m + s) % s == f);
        assert(e >= 1);
        vstd::arithmetic::power2::lemma_pow2_unfold(e);
        let p = vstd::arithmetic::power2::pow2((e - 1) as nat);
        let q = vstd::arithmetic::power2::pow2(e);
        assert((s + f) * q == 2 * ((s + f) * p)) by (nonlinear_arith)
            requires
                q == 2 * p,
        ;
    }
}

/// Whether the first score is below the second.
pub fn score_less(a: u64, b: u64) -> (r: bool)
    ensures
        r == (score_value(a) < score_value(b)),
{
    proof {
        let ma: nat = if a < SIGN {
            a as nat
        } else {
            (a - SIGN) as nat
        };
        let mb: nat = if b < SIGN {
            b as nat
        } else {
            (b - SIGN) as nat
        };
        lemma_magnitude_zero();
        if ma < mb {
            lemma_magnitude_grows(ma, mb);
        } else if mb < ma {
            lemma_magnitude_grows(mb, ma);
        }
        if 0 < ma {
            lemma_magnitude_grows(0, ma);
        }
        if 0 < mb {
            lemma_magnitude_grows(0, mb);
        }
    }
    if a < SIGN {
        b < SIGN && a < b
    } else if b < SIGN {
        a != SIGN || b != 0
    } else {
        b < a
    }
}

/// Whether `top` dominates `second`: both are above zero, and `top` is at
/// least twice `second`.
pub fn score_dominates(top: u64, second: u64) -> (r: bool)
    ensures
        r == dominates(top, second),
{
    proof {
        lemma_magnitude_zero();
        if 0 < top < SIGN {
            lemma_magnitude_grows(0, top as nat);
        }
        if 0 < second < SIGN {
            lemma_magnitude_grows(0, second as nat);
        }
        if top > SIGN {
            lemma_magnitude_grows(0, (top - SIGN) as nat);
        }
        if second > SIGN {
            lemma_magnitude_grows(0, (second - SIGN) as nat);
        }
        lemma_doubled(second as nat);
        let d = doubled(second as nat);
        if (top as nat) < d {
            lemma_magnitude_grows(top as nat, d);
        } else if d < top as nat {
            lemma_magnitude_grows(d, top as nat);
        }
    }
    if top == 0 || top >= SIGN || second == 0 || second >= SIGN {
        return false;
    }
    let twice = if second < STEP {
        second * 2
    } else {
        second + STEP
    };
    top >= twice
}

// ---------------------------------------------------------------------------
// Laws
// ---------------------------------------------------------------------------

/// The value of a score is that of the double with these bits: below the first
/// exponent the bits count themselves, from there on one exponent more doubles
/// the value, between two exponents the steps are equal, and the sign negates.
pub proof fn law_scores_are_doubles(m: u64)
    requires
        m < 0x8000_0000_0000_0000,
    ensures
        0x0010_0000_0000_0000 <= m < 0x7FE0_0000_0000_0000 ==> score_value(
            (m + 0x0010_0000_0000_0000) as u64,
        ) == 2 * score_value(m),
        m < 0x0020_0000_0000_0000 ==> score_value(m) == m,
        score_value((m + 0x8000_0000_0000_0000) as u64) == -score_value(m),
{
    vstd::arithmetic::power2::lemma2_to64();
    let s = STEP as nat;
    if m < s {
        assert((m as nat) / s == 0 && (m as nat) % s == m);
    } else if m < 2 * s {
        assert((m as nat) / s == 1 && (m as nat) % s == m - s);
        assert((s + (m - s)) * 1 == m);
    }
    if s <= m < 0x7FE0_0000_0000_0000 {
        lemma_doubled(m as nat);
    }
}

/// Scores above zero are ordered as their bits are.
pub proof fn law_scores_are_ordered_by_their_bits(a: u64, b: u64)
    requires
        a < 0x8000_0000_0000_0000,
        b < 0x8000_0000_0000_0000,
    ensures
        score_value(a) < score_value(b) <==> a < b,
        dominates(a, b) <==> score_value(b) > 0 && score_value(a) >= 2 * score_value(b),
{
    lemma_magnitude_zero();
    if a < b {
        lemma_magnitude_grows(a as nat, b as nat);
    } else if b < a {
        lemma_magnitude_grows(b as nat, a as nat);
    }
    if 0 < b {
        lemma_magnitude_grows(0, b as nat);
    }
}

} // verus!
