//! Durations given in seconds as a double, turned into whole milliseconds
//! the way `(seconds * 1000.0).round() as u64` computes them.
//!
//! The double is held as its IEEE-754 bit pattern. Its value is
//! `significand * 2^scale`; the product by 1000 is rounded to 53 significant
//! bits (to nearest, ties to even), then to a whole number (halves away from
//! zero), and capped at `u64::MAX`. A negative non-zero, infinite or NaN
//! duration has no milliseconds.
use vstd::arithmetic::power2::{
    lemma2_to64, lemma_pow2_adds, lemma_pow2_pos, lemma_pow2_strictly_increases, lemma_pow2_unfold,
    pow2,
};
use vstd::prelude::*;

verus! {

/// The biased exponent field of a double.
pub open spec fn f64_exponent(bits: u64) -> nat {
    ((bits / 0x10_0000_0000_0000) % 0x800) as nat
}

/// The significand of a double: the fraction field, with the hidden bit of
/// a normal number.
pub open spec fn f64_significand(bits: u64) -> nat {
    let fraction = (bits % 0x10_0000_0000_0000) as nat;
    if f64_exponent(bits) == 0 {
        fraction
    } else {
        fraction + 0x10_0000_0000_0000
    }
}

/// The power of two that scales the significand.
pub open spec fn f64_scale(bits: u64) -> int {
    if f64_exponent(bits) == 0 {
        -1074
    } else {
        f64_exponent(bits) - 1075
    }
}

/// How many low bits of `t` to drop, from `s` on, to keep 53 significant
/// bits.
pub open spec fn dropped_from(t: nat, s: nat) -> nat
    decreases 64 - s,
{
    if s >= 64 || t < pow2(53 + s) {
        s
    } else {
        dropped_from(t, s + 1)
    }
}

/// `t / 2^s` rounded to the nearest whole number, ties to even.
pub open spec fn round_even(t: nat, s: nat) -> nat {
    if s == 0 {
        t
    } else {
        let q = t / pow2(s);
        let r = t % pow2(s);
        let half = pow2((s - 1) as nat);
        if r > half || (r == half && q % 2 == 1) {
            q + 1
        } else {
            q
        }
    }
}

/// `p * 2^f` rounded to a whole number, halves away from zero.
pub open spec fn round_scaled(p: nat, f: int) -> nat {
    if f >= 0 {
        p * pow2(f as nat)
    } else {
        let d = pow2((-f) as nat);
        if 2 * (p % d) >= d {
            p / d + 1
        } else {
            p / d
        }
    }
}

pub open spec fn cap_u64(n: nat) -> u64 {
    if n > u64::MAX {
        u64::MAX
    } else {
        n as u64
    }
}

/// The milliseconds of a duration of `bits` seconds.
pub open spec fn spec_duration_ms(bits: u64) -> Option<u64> {
    if f64_exponent(bits) == 0x7ff {
        None
    } else if f64_significand(bits) == 0 {
        Some(0)
    } else if bits >= 0x8000_0000_0000_0000 {
        None
    } else {
        let t = 1000 * f64_significand(bits);
        let s = dropped_from(t, 0);
        Some(cap_u64(round_scaled(round_even(t, s), f64_scale(bits) + s)))
    }
}

/// `2^e` for `e` up to 64.
fn pow2_exec(e: u64) -> (r: u128)
    requires
        e <= 64,
    ensures
        r == pow2(e as nat),
{
    let mut r: u128 = 1;
    let mut i: u64 = 0;
    proof {
        lemma2_to64();
    }
    while i < e
        invariant
            i <= e <= 64,
            r == pow2(i as nat),
        decreases e - i,
    {
        proof {
            lemma_pow2_unfold((i + 1) as nat);
            lemma2_to64();
            lemma_pow2_strictly_increases(i as nat, 64);
        }
        r = r * 2;
        i = i + 1;
    }
    r
}

fn dropped_bits(t: u64) -> (s: u64)
    ensures
        s == dropped_from(t as nat, 0),
        s <= 64,
{
    let mut s: u64 = 0;
    while s < 11 && (t as u128) >= pow2_exec(53 + s)
        invariant
            s <= 11,
            dropped_from(t as nat, 0) == dropped_from(t as nat, s as nat),
        decreases 11 - s,
    {
        s = s + 1;
    }
    proof {
        lemma2_to64();
    }
    s
}

fn round_even_exec(t: u64, s: u64) -> (r: u64)
    requires
        s <= 64,
    ensures
        r == round_even(t as nat, s as nat),
{
    if s == 0 {
        return t;
    }
    let d = pow2_exec(s);
    let half = pow2_exec(s - 1);
    proof {
        lemma_pow2_unfold(s as nat);
        lemma_pow2_pos((s - 1) as nat);
    }
    let q = (t as u128) / d;
    let r = (t as u128) % d;
    assert(q <= t) by (nonlinear_arith)
        requires
            q == (t as u128) / d,
            d >= 2,
    {
    }
    assert(2 * q <= t) by (nonlinear_arith)
        requires
            q == (t as u128) / d,
            d >= 2,
    {
    }
    if r > half || (r == half && q % 2 == 1) {
        (q + 1) as u64
    } else {
        q as u64
    }
}

fn round_scaled_capped(p: u64, f: i64) -> (r: u64)
    requires
        -4096 <= f <= 4096,
    ensures
        r == cap_u64(round_scaled(p as nat, f as int)),
{
    if p == 0 {
        proof {
            if f < 0 {
                lemma_pow2_pos((-f) as nat);
            }
        }
        return 0;
    }
    if f >= 0 {
        if f >= 64 {
            proof {
                lemma2_to64();
                lemma_pow2_adds(64, (f - 64) as nat);
                lemma_pow2_pos((f - 64) as nat);
                assert(p * pow2(f as nat) >= pow2(64)) by (nonlinear_arith)
                    requires
                        p >= 1,
                        pow2(f as nat) == pow2(64) * pow2((f - 64) as nat),
                        pow2((f - 64) as nat) >= 1,
                {
                }
            }
            return u64::MAX;
        }
        let d = pow2_exec(f as u64);
        proof {
            lemma2_to64();
            lemma_pow2_adds(f as nat, (64 - f) as nat);
            lemma_pow2_pos((64 - f) as nat);
            assert(d <= pow2(64)) by (nonlinear_arith)
                requires
                    d == pow2(f as nat),
                    pow2(f as nat) * pow2((64 - f) as nat) == pow2(64),
                    pow2((64 - f) as nat) >= 1,
            {
            }
            assert((p as nat) * d <= 0xffff_ffff_ffff_ffff * 0x1_0000_0000_0000_0000) by (
            nonlinear_arith)
                requires
                    p <= 0xffff_ffff_ffff_ffff,
                    d <= 0x1_0000_0000_0000_0000,
            {
            }
        }
        let v = (p as u128) * d;
        if v > 0xffff_ffff_ffff_ffff {
            u64::MAX
        } else {
            v as u64
        }
    } else {
        let k = 0 - f;
        if k > 64 {
            proof {
                lemma2_to64();
                lemma_pow2_adds(65, (k - 65) as nat);
                lemma_pow2_pos((k - 65) as nat);
                lemma_pow2_unfold(65);
                let d = pow2(k as nat);
                assert(d >= 2 * pow2(64)) by (nonlinear_arith)
                    requires
                        d == pow2(65) * pow2((k - 65) as nat),
                        pow2(65) == 2 * pow2(64),
                        pow2((k - 65) as nat) >= 1,
                {
                }
                assert(p as nat / d == 0 && (p as nat) % d == p) by (nonlinear_arith)
                    requires
                        p < pow2(64),
                        d >= 2 * pow2(64),
                {
                }
            }
            return 0;
        }
        let d = pow2_exec(k as u64);
        proof {
            lemma_pow2_pos(k as nat);
            lemma2_to64();
            if k < 64 {
                lemma_pow2_strictly_increases(k as nat, 64);
            }
        }
        let w = (p as u128) / d;
        let r = (p as u128) % d;
        assert(w <= p) by (nonlinear_arith)
            requires
                w == (p as u128) / d,
                d >= 1,
        {
        }
        if 2 * r >= d {
            assert(w < p) by (nonlinear_arith)
                requires
                    w == (p as u128) / d,
                    r == (p as u128) % d,
                    d >= 1,
                    2 * r >= d,
                    p >= 1,
            {
                if d == 1 {
                    assert(r == 0);
                }
            }
            (w + 1) as u64
        } else {
            w as u64
        }
    }
}

/// Milliseconds of a duration given by the bit pattern of a double number
/// of seconds: `(seconds * 1000.0).round() as u64`, for a finite duration
/// that is not below zero.
pub fn duration_ms_from_seconds(bits: u64) -> (r: Option<u64>)
    ensures
        r == spec_duration_ms(bits),
{
    let exponent = (bits / 0x10_0000_0000_0000) % 0x800;
    let fraction = bits % 0x10_0000_0000_0000;
    if exponent == 0x7ff {
        return None;
    }
    let significand = if exponent == 0 {
        fraction
    } else {
        fraction + 0x10_0000_0000_0000
    };
    if significand == 0 {
        return Some(0);
    }
    if bits >= 0x8000_0000_0000_0000 {
        return None;
    }
    let scale: i64 = if exponent == 0 {
        -1074
    } else {
        exponent as i64 - 1075
    };
    let t = significand * 1000;
    let s = dropped_bits(t);
    let p = round_even_exec(t, s);
    Some(round_scaled_capped(p, scale + s as i64))
}

} // verus!
