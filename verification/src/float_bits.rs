//! Conversions between integers and IEEE-754 single precision bit
//! patterns, with the semantics of Rust's `as` casts.

use vstd::arithmetic::div_mod::{
    lemma_div_by_multiple, lemma_div_by_multiple_is_strongly_ordered, lemma_div_is_ordered,
    lemma_fundamental_div_mod,
};
use vstd::arithmetic::power2::{
    lemma2_to64, lemma2_to64_rest, lemma_pow2_adds, lemma_pow2_pos, lemma_pow2_strictly_increases,
    lemma_pow2_unfold, pow2,
};
use vstd::bits::{lemma_u64_shl_is_mul, lemma_u64_shr_is_div};
use vstd::prelude::*;

verus! {

/// Biased exponent field of a bit pattern.
pub open spec fn f32_exp(bits: u32) -> nat {
    ((bits / 0x80_0000) % 256) as nat
}

/// Fraction field of a bit pattern.
pub open spec fn f32_frac(bits: u32) -> nat {
    (bits % 0x80_0000) as nat
}

/// Sign bit of a bit pattern.
pub open spec fn f32_neg(bits: u32) -> bool {
    bits >= 0x8000_0000
}

/// Magnitude of a finite float (exponent field `e` below 255, fraction
/// `m`), rounded toward zero to an integer.
pub open spec fn f32_trunc_abs(e: nat, m: nat) -> nat {
    if e == 0 {
        0
    } else if e >= 150 {
        (m + 0x80_0000) * pow2((e - 150) as nat)
    } else {
        (m + 0x80_0000) / pow2((150 - e) as nat)
    }
}

pub open spec fn clamp_i64(v: int) -> i64 {
    if v > i64::MAX {
        i64::MAX
    } else if v < i64::MIN {
        i64::MIN
    } else {
        v as i64
    }
}

/// The float with bit pattern `bits`, rounded toward zero and saturated to
/// the range of `i64`; NaN gives 0 (Rust's `as i64` on `f32`).
pub open spec fn f32_bits_to_i64(bits: u32) -> i64 {
    let e = f32_exp(bits);
    let m = f32_frac(bits);
    if e == 255 {
        if m != 0 {
            0
        } else if f32_neg(bits) {
            i64::MIN
        } else {
            i64::MAX
        }
    } else {
        let a = f32_trunc_abs(e, m) as int;
        clamp_i64(
            if f32_neg(bits) {
                -a
            } else {
                a
            },
        )
    }
}

/// Integer part of the float with bit pattern `bits`, saturated, NaN to 0.
pub fn f32_bits_to_i64_exec(bits: u32) -> (r: i64)
    ensures
        r == f32_bits_to_i64(bits),
{
    let neg = bits >= 0x8000_0000u32;
    let e = (bits >> 23u32) & 0xFFu32;
    let m = bits & 0x7F_FFFFu32;
    assert(e == (bits / 0x80_0000) % 256 && m == bits % 0x80_0000) by (bit_vector)
        requires
            e == (bits >> 23u32) & 0xFFu32,
            m == bits & 0x7F_FFFFu32,
    ;
    if e == 255 {
        if m != 0 {
            return 0;
        }
        return if neg {
            i64::MIN
        } else {
            i64::MAX
        };
    }
    if e == 0 {
        return 0;
    }
    let sig: u64 = (m as u64) + 0x80_0000u64;
    proof {
        lemma2_to64();
        lemma2_to64_rest();
    }
    let mag: u64;
    if e >= 150 {
        let sh: u64 = (e - 150) as u64;
        if sh >= 40 {
            proof {
                if sh > 40 {
                    lemma_pow2_strictly_increases(40, sh as nat);
                }
                let p = pow2(sh as nat);
                assert(sig * p >= 0x80_0000 * 0x100_0000_0000) by (nonlinear_arith)
                    requires
                        sig >= 0x80_0000,
                        p >= 0x100_0000_0000,
                ;
            }
            return if neg {
                i64::MIN
            } else {
                i64::MAX
            };
        }
        proof {
            if sh < 39 {
                lemma_pow2_strictly_increases(sh as nat, 39);
            }
            let p = pow2(sh as nat);
            assert(sig * p < 0x8000_0000_0000_0000) by (nonlinear_arith)
                requires
                    sig < 0x100_0000,
                    p <= 0x80_0000_0000,
            ;
            lemma_u64_shl_is_mul(sig, sh);
        }
        mag = sig << sh;
    } else {
        let sh: u64 = (150 - e) as u64;
        if sh >= 24 {
            proof {
                if sh > 24 {
                    lemma_pow2_strictly_increases(24, sh as nat);
                }
                assert(sig < pow2(sh as nat));
                vstd::arithmetic::div_mod::lemma_basic_div(sig as int, pow2(sh as nat) as int);
            }
            mag = 0;
        } else {
            proof {
                lemma_u64_shr_is_div(sig, sh);
                lemma_pow2_pos(sh as nat);
                lemma_div_is_ordered(sig as int, 0x100_0000, pow2(sh as nat) as int);
                assert(0x100_0000int / pow2(sh as nat) as int <= 0x100_0000) by {
                    vstd::arithmetic::div_mod::lemma_div_is_ordered_by_denominator(
                        0x100_0000,
                        1,
                        pow2(sh as nat) as int,
                    );
                }
            }
            mag = sig >> sh;
        }
    }
    if neg {
        0i64 - (mag as i64)
    } else {
        mag as i64
    }
}

/// Number of binary digits of `a` (0 for 0).
pub open spec fn bit_len(a: nat) -> nat
    decreases a,
{
    if a == 0 {
        0
    } else {
        1 + bit_len(a / 2)
    }
}

/// `a / 2^s` rounded to the nearest integer, ties to the even one.
pub open spec fn round_half_even(a: nat, s: nat) -> nat {
    let d = pow2(s);
    let q = a / d;
    let r = a % d;
    if 2 * r > d || (2 * r == d && q % 2 == 1) {
        q + 1
    } else {
        q
    }
}

/// Significand (with its leading one) and unbiased exponent of the float
/// nearest to the positive integer `a`, ties to even.
pub open spec fn f32_round(a: nat) -> (nat, nat) {
    let k = bit_len(a);
    if k <= 24 {
        (a * pow2((24 - k) as nat), (k - 1) as nat)
    } else {
        let q = round_half_even(a, (k - 24) as nat);
        if q == pow2(24) {
            (pow2(23), k)
        } else {
            (q, (k - 1) as nat)
        }
    }
}

/// Bit pattern of the float nearest to `i`, ties to even (Rust's `as f32`
/// on `i64`).
pub open spec fn i64_to_f32_bits(i: i64) -> u32 {
    if i == 0 {
        0
    } else {
        let a: nat = if i < 0 {
            (-i) as nat
        } else {
            i as nat
        };
        let (sig, e) = f32_round(a);
        let sign: int = if i < 0 {
            0x8000_0000
        } else {
            0
        };
        (sign + (e + 127) * 0x80_0000 + (sig - 0x80_0000)) as u32
    }
}

proof fn lemma_bit_len_bounds(a: nat)
    requires
        a > 0,
    ensures
        bit_len(a) >= 1,
        pow2((bit_len(a) - 1) as nat) <= a < pow2(bit_len(a)),
    decreases a,
{
    lemma_pow2_unfold(bit_len(a));
    if a == 1 {
        assert(bit_len(0) == 0);
        lemma2_to64();
    } else {
        lemma_bit_len_bounds(a / 2);
        let k = bit_len(a / 2);
        lemma_pow2_unfold(k);
    }
}

proof fn lemma_bit_len_u64(a: u64)
    requires
        a > 0,
    ensures
        1 <= bit_len(a as nat) <= 64,
{
    lemma_bit_len_bounds(a as nat);
    let k = bit_len(a as nat);
    lemma2_to64();
    if k > 64 {
        lemma_pow2_strictly_increases(64, (k - 1) as nat);
    }
}

/// Bit pattern of the float nearest to `i`, ties to even.
pub fn i64_to_f32_bits_exec(i: i64) -> (r: u32)
    ensures
        r == i64_to_f32_bits(i),
{
    if i == 0 {
        return 0;
    }
    let neg = i < 0;
    let a: u64 = if i == i64::MIN {
        0x8000_0000_0000_0000u64
    } else if neg {
        (0 - i) as u64
    } else {
        i as u64
    };
    let ghost an: nat = if i < 0 {
        (-i) as nat
    } else {
        i as nat
    };
    assert(a == an);
    // number of binary digits
    let mut k: u64 = 0;
    let mut t: u64 = a;
    proof {
        lemma_bit_len_u64(a);
    }
    while t > 0
        invariant
            k + bit_len(t as nat) == bit_len(a as nat),
            bit_len(a as nat) <= 64,
        decreases t,
    {
        assert(t >> 1u64 == t / 2) by (bit_vector);
        t = t >> 1u64;
        k = k + 1;
    }
    proof {
        lemma_bit_len_bounds(a as nat);
        lemma2_to64();
        lemma2_to64_rest();
    }
    let sig: u64;
    let e: u64;
    if k <= 24 {
        let sh: u64 = 24 - k;
        proof {
            lemma_pow2_adds((k - 1) as nat, sh as nat);
            lemma_pow2_adds(k as nat, sh as nat);
            lemma_pow2_pos(sh as nat);
            let p = pow2(sh as nat);
            assert(a * p < pow2(k as nat) * p) by (nonlinear_arith)
                requires
                    a < pow2(k as nat),
                    p > 0,
            ;
            assert(a * p >= pow2((k - 1) as nat) * p) by (nonlinear_arith)
                requires
                    a >= pow2((k - 1) as nat),
                    p > 0,
            ;
            assert((k - 1) as nat + sh as nat == 23);
            assert(k as nat + sh as nat == 24);
            lemma_u64_shl_is_mul(a, sh);
        }
        sig = a << sh;
        e = k - 1;
    } else {
        let s: u64 = k - 24;
        proof {
            lemma_pow2_pos(s as nat);
            lemma_u64_shr_is_div(a, s);
        }
        let q = a >> s;
        let ghost d: int = pow2(s as nat) as int;
        proof {
            // 2^23 <= q < 2^24
            lemma_pow2_adds(23, s as nat);
            lemma_pow2_adds(24, s as nat);
            assert(23 + s as nat == (k - 1) as nat);
            assert(24 + s as nat == k as nat);
            lemma_div_is_ordered(pow2(23) * d, a as int, d);
            lemma_div_by_multiple(pow2(23) as int, d);
            lemma_div_by_multiple_is_strongly_ordered(
                a as int,
                pow2(24) * d,
                pow2(24) as int,
                d,
            );
            lemma_div_by_multiple(pow2(24) as int, d);
            lemma_fundamental_div_mod(a as int, d);
            assert(q * d <= a) by (nonlinear_arith)
                requires
                    a as int == d * (a as int / d) + (a as int) % d,
                    q as int == a as int / d,
                    (a as int) % d >= 0,
            ;
            lemma_u64_shl_is_mul(q, s);
            lemma_pow2_unfold(s as nat);
            lemma_u64_shl_is_mul(1, (s - 1) as u64);
        }
        let r = a - (q << s);
        let half: u64 = 1u64 << (s - 1);
        assert(r as int == (a as int) % d);
        assert(2 * half == d);
        let mut q2 = q;
        if r > half || (r == half && q & 1 == 1) {
            q2 = q + 1;
        }
        assert((q & 1 == 1) == (q % 2 == 1)) by (bit_vector);
        assert(q2 == round_half_even(a as nat, s as nat));
        if q2 == 0x100_0000 {
            sig = 0x80_0000;
            e = k;
        } else {
            sig = q2;
            e = k - 1;
        }
    }
    assert((sig as nat, e as nat) == f32_round(a as nat));
    let sign_bit: u32 = if neg {
        0x8000_0000u32
    } else {
        0
    };
    let ex: u32 = (e + 127) as u32;
    let frac: u32 = (sig - 0x80_0000) as u32;
    assert(ex << 23u32 == ex * 0x80_0000) by (bit_vector)
        requires
            ex < 512,
    ;
    sign_bit + (ex << 23u32) + frac
}

/// Whether a bit pattern is a NaN: exponent field all ones, fraction not
/// zero.
pub open spec fn f32_is_nan(bits: u32) -> bool {
    f32_exp(bits) == 255 && f32_frac(bits) != 0
}

/// Whether a bit pattern is a zero of either sign.
pub open spec fn f32_is_zero(bits: u32) -> bool {
    f32_exp(bits) == 0 && f32_frac(bits) == 0
}

/// IEEE-754 equality of two floats given by their bit patterns: a NaN
/// equals nothing, the two zeros are equal, and other values are equal when
/// their patterns are.
pub open spec fn f32_bits_equal(a: u32, b: u32) -> bool {
    !f32_is_nan(a) && !f32_is_nan(b) && (a == b || (f32_is_zero(a) && f32_is_zero(b)))
}

/// IEEE-754 equality of two floats given by their bit patterns.
pub fn f32_bits_equal_exec(a: u32, b: u32) -> (r: bool)
    ensures
        r == f32_bits_equal(a, b),
{
    let ea = (a / 0x80_0000) % 256;
    let fa = a % 0x80_0000;
    let eb = (b / 0x80_0000) % 256;
    let fb = b % 0x80_0000;
    let nan_a = ea == 255 && fa != 0;
    let nan_b = eb == 255 && fb != 0;
    let zero_a = ea == 0 && fa == 0;
    let zero_b = eb == 0 && fb == 0;
    !nan_a && !nan_b && (a == b || (zero_a && zero_b))
}

} // verus!
