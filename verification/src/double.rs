//! Reading a non-negative integer out of a double-precision number, given by its bit pattern.

use vstd::arithmetic::div_mod::{
    lemma_basic_div, lemma_div_by_multiple, lemma_fundamental_div_mod, lemma_mod_bound,
};
use vstd::arithmetic::power2::{
    lemma2_to64, lemma2_to64_rest, lemma_pow2_adds, lemma_pow2_pos, lemma_pow2_strictly_increases,
    lemma_pow2_unfold, pow2,
};
use vstd::bits::{lemma_u64_shl_is_mul, lemma_u64_shr_is_div};
use vstd::prelude::*;

verus! {

/// Bit 63: set in the pattern of a number with a minus sign.
pub open spec fn sign_bit(bits: u64) -> bool {
    bits >= 0x8000_0000_0000_0000
}

/// Bits 52 to 62: the biased exponent.
pub open spec fn exponent_field(bits: u64) -> int {
    (bits / 0x10_0000_0000_0000) as int % 2048
}

/// Bits 0 to 51: the fraction.
pub open spec fn fraction_field(bits: u64) -> int {
    bits as int % 0x10_0000_0000_0000
}

/// Neither an infinity nor a NaN.
pub open spec fn is_finite(bits: u64) -> bool {
    exponent_field(bits) != 2047
}

/// A zero, of either sign.
pub open spec fn is_zero(bits: u64) -> bool {
    exponent_field(bits) == 0 && fraction_field(bits) == 0
}

/// Finite and not below zero; minus zero is not below zero.
pub open spec fn is_finite_non_negative(bits: u64) -> bool {
    is_finite(bits) && (!sign_bit(bits) || is_zero(bits))
}

/// The integer part of the magnitude of a finite number. A number with exponent field `e > 0`
/// and fraction `f` is `(2^52 + f) * 2^(e - 1075)`; one with exponent field 0 is below 1.
pub open spec fn integer_part(bits: u64) -> int {
    let e = exponent_field(bits);
    let significand = 0x10_0000_0000_0000 + fraction_field(bits);
    if e == 0 {
        0
    } else if e >= 1075 {
        significand * pow2((e - 1075) as nat)
    } else {
        significand / pow2((1075 - e) as nat) as int
    }
}

/// The integer part of a number, held to the range of `u64`.
pub open spec fn saturated_integer_part(bits: u64) -> u64 {
    if integer_part(bits) > u64::MAX {
        u64::MAX
    } else {
        integer_part(bits) as u64
    }
}

/// A finite, non-negative number as an unsigned integer: rounded towards zero, and
/// `u64::MAX` for what lies beyond. Any other number gives `None`.
pub fn to_unsigned(bits: u64) -> (r: Option<u64>)
    ensures
        r == if is_finite_non_negative(bits) {
            Some(saturated_integer_part(bits))
        } else {
            None
        },
{
    let e: u64 = (bits / 0x10_0000_0000_0000) % 2048;
    let f: u64 = bits % 0x10_0000_0000_0000;
    if e == 2047 {
        return None;
    }
    if bits >= 0x8000_0000_0000_0000 && !(e == 0 && f == 0) {
        return None;
    }
    if e == 0 {
        return Some(0);
    }
    let significand: u64 = 0x10_0000_0000_0000 + f;
    if e < 1075 {
        let down: u64 = 1075 - e;
        proof {
            lemma_pow2_pos(down as nat);
        }
        if down > 52 {
            proof {
                lemma2_to64();
                lemma2_to64_rest();
                if down > 53 {
                    lemma_pow2_strictly_increases(53, down as nat);
                }
                lemma_basic_div(significand as int, pow2(down as nat) as int);
            }
            return Some(0);
        }
        proof {
            lemma_u64_shr_is_div(significand, down);
        }
        Some(significand >> down)
    } else {
        let up: u64 = e - 1075;
        proof {
            lemma2_to64();
            lemma2_to64_rest();
        }
        if up > 11 {
            proof {
                if up > 12 {
                    lemma_pow2_strictly_increases(12, up as nat);
                }
                assert(significand * pow2(up as nat) > u64::MAX) by (nonlinear_arith)
                    requires
                        significand >= 0x10_0000_0000_0000,
                        pow2(up as nat) >= 0x1000,
                ;
            }
            return Some(u64::MAX);
        }
        proof {
            if up < 11 {
                lemma_pow2_strictly_increases(up as nat, 11);
            }
            lemma_pow2_pos(up as nat);
            assert(significand * pow2(up as nat) <= u64::MAX) by (nonlinear_arith)
                requires
                    significand <= 0x1f_ffff_ffff_ffff,
                    0 < pow2(up as nat) <= 0x800,
            ;
            lemma_u64_shl_is_mul(significand, up);
        }
        Some(significand << up)
    }
}

/// A finite number with no minus sign whose value is exactly the integer `n`. A number with
/// exponent field `e > 0` and significand `s` is `s * 2^(e - 1075)`.
pub open spec fn denotes_integer(bits: u64, n: int) -> bool {
    let e = exponent_field(bits);
    let significand = 0x10_0000_0000_0000 + fraction_field(bits);
    if is_zero(bits) {
        n == 0
    } else {
        &&& !sign_bit(bits)
        &&& 0 < e < 2047
        &&& if e >= 1075 {
            n == significand * pow2((e - 1075) as nat)
        } else {
            n * pow2((1075 - e) as nat) == significand
        }
    }
}

/// A number whose value is an integer that fits in `u64` is read as that integer.
pub proof fn whole_numbers_are_read_exactly(bits: u64, n: u64)
    requires
        denotes_integer(bits, n as int),
    ensures
        is_finite_non_negative(bits),
        saturated_integer_part(bits) == n,
{
    let e = exponent_field(bits);
    if !is_zero(bits) && e < 1075 {
        let p = pow2((1075 - e) as nat) as int;
        lemma_pow2_pos((1075 - e) as nat);
        lemma_div_by_multiple(n as int, p);
    }
}

/// What [`to_unsigned`] gives, on the bits themselves. With the exponent bits all set there is no
/// number, and with the sign bit set there is one only where no other bit is. Else the result is
/// the integer that the number lies at or above by less than one, or `u64::MAX` where that is
/// smaller.
pub proof fn numbers_are_rounded_down(bits: u64, r: Option<u64>)
    requires
        call_ensures(to_unsigned, (bits,), r),
    ensures
        ({
            let e = bits as int / 0x10_0000_0000_0000 % 2048;
            let significand = 0x10_0000_0000_0000 + bits as int % 0x10_0000_0000_0000;
            &&& r is None <==> e == 2047 || bits > 0x8000_0000_0000_0000
            &&& r is Some && e == 0 ==> r == Some(0u64)
            &&& r is Some && 0 < e < 1075 ==> r->Some_0 * pow2((1075 - e) as nat) <= significand < (
            r->Some_0 + 1) * pow2((1075 - e) as nat)
            &&& r is Some && e >= 1075 ==> {
                let whole = significand * pow2((e - 1075) as nat);
                r->Some_0 == if whole < 0x1_0000_0000_0000_0000 {
                    whole
                } else {
                    0xffff_ffff_ffff_ffff
                }
            }
        }),
{
    let e = exponent_field(bits);
    let f = fraction_field(bits);
    let significand = 0x10_0000_0000_0000 + f;
    assert(e == bits as int / 0x10_0000_0000_0000 % 2048);
    assert(is_finite_non_negative(bits) <==> !(e == 2047 || bits > 0x8000_0000_0000_0000));
    if 0 < e < 1075 && is_finite_non_negative(bits) {
        let p = pow2((1075 - e) as nat) as int;
        let q = significand / p;
        lemma_pow2_pos((1075 - e) as nat);
        lemma_fundamental_div_mod(significand, p);
        lemma_mod_bound(significand, p);
        assert(0 <= q <= significand && q * p <= significand < (q + 1) * p) by (nonlinear_arith)
            requires
                significand == p * q + significand % p,
                0 <= significand % p < p,
                significand >= 0,
        ;
    }
}

/// A larger number is never read as a smaller integer.
pub proof fn reading_keeps_the_order(a: u64, b: u64, of_a: Option<u64>, of_b: Option<u64>)
    requires
        a <= b < 0x7ff0_0000_0000_0000,
        call_ensures(to_unsigned, (a,), of_a),
        call_ensures(to_unsigned, (b,), of_b),
    ensures
        of_a is Some,
        of_b is Some,
        of_a->Some_0 <= of_b->Some_0,
{
    numbers_are_rounded_down(a, of_a);
    numbers_are_rounded_down(b, of_b);
    let one: int = 0x10_0000_0000_0000;
    let ea = a as int / one;
    let eb = b as int / one;
    let sa = one + a as int % one;
    let sb = one + b as int % one;
    let x = of_a->Some_0 as int;
    let y = of_b->Some_0 as int;
    if 0 < ea && eb < 1075 {
        let pa = pow2((1075 - ea) as nat) as int;
        let pb = pow2((1075 - eb) as nat) as int;
        let k = pow2((eb - ea) as nat) as int;
        lemma_pow2_pos((eb - ea) as nat);
        lemma_pow2_pos((1075 - eb) as nat);
        lemma_pow2_adds((1075 - eb) as nat, (eb - ea) as nat);
        assert((1075 - eb) as nat + (eb - ea) as nat == (1075 - ea) as nat);
        if ea < eb {
            lemma2_to64();
            if eb - ea > 1 {
                lemma_pow2_strictly_increases(1, (eb - ea) as nat);
            }
            assert(k >= 2);
        } else {
            lemma2_to64();
            assert(k == 1);
        }
        assert(sa <= sb * k) by (nonlinear_arith)
            requires
                sa <= sb || (k >= 2 && sa < 2 * sb),
                k >= 1,
                sb > 0,
        ;
        assert(x <= y) by (nonlinear_arith)
            requires
                x * pa <= sa,
                sb < (y + 1) * pb,
                pa == pb * k,
                sa <= sb * k,
                pb > 0,
                k >= 1,
        ;
    } else if 0 < ea < 1075 {
        let pa = pow2((1075 - ea) as nat) as int;
        let up = pow2((eb - 1075) as nat) as int;
        lemma_pow2_pos((1075 - ea) as nat);
        lemma_pow2_pos((eb - 1075) as nat);
        lemma2_to64();
        if 1075 - ea > 1 {
            lemma_pow2_strictly_increases(1, (1075 - ea) as nat);
        }
        assert(x < one) by (nonlinear_arith)
            requires
                x * pa <= sa,
                sa < 2 * one,
                pa >= 2,
                x >= 0,
        ;
        assert(sb * up >= one) by (nonlinear_arith)
            requires
                sb >= one,
                up >= 1,
                one > 0,
        ;
    } else if ea >= 1075 {
        let ua = pow2((ea - 1075) as nat) as int;
        let ub = pow2((eb - 1075) as nat) as int;
        let k = pow2((eb - ea) as nat) as int;
        lemma_pow2_pos((ea - 1075) as nat);
        lemma_pow2_pos((eb - ea) as nat);
        lemma_pow2_adds((ea - 1075) as nat, (eb - ea) as nat);
        assert((ea - 1075) as nat + (eb - ea) as nat == (eb - 1075) as nat);
        lemma2_to64();
        if eb - ea > 1 {
            lemma_pow2_strictly_increases(1, (eb - ea) as nat);
        }
        assert(sa * ua <= sb * ub) by (nonlinear_arith)
            requires
                ub == ua * k,
                sa <= sb && k >= 1 || (k >= 2 && sa < 2 * sb),
                ua >= 1,
                sb > 0,
        ;
    }
}

/// The bit pattern of the integer `n`, where `2^k <= n < 2^(k + 1)` and `k <= 52`: exponent
/// field `1023 + k`, and the binary digits of `n` below the leading one as the fraction.
pub open spec fn integer_pattern(n: int, k: nat) -> int {
    (1023 + k) * 0x10_0000_0000_0000 + (n - pow2(k)) * pow2((52 - k) as nat)
}

/// The bit pattern of a positive integer below `2^53` denotes it, and it is read back from there.
pub proof fn integers_are_read_back(n: u64, k: nat, bits: u64)
    requires
        k <= 52,
        pow2(k) <= n < pow2(k + 1),
        bits == integer_pattern(n as int, k),
    ensures
        denotes_integer(bits, n as int),
        is_finite_non_negative(bits),
        saturated_integer_part(bits) == n,
{
    let one: int = 0x10_0000_0000_0000;
    let scale = pow2((52 - k) as nat) as int;
    let f = (n - pow2(k)) * scale;
    lemma2_to64();
    lemma2_to64_rest();
    lemma_pow2_pos((52 - k) as nat);
    lemma_pow2_adds(k, (52 - k) as nat);
    lemma_pow2_unfold(k + 1);
    assert(0 <= f < one) by (nonlinear_arith)
        requires
            f == (n - pow2(k)) * scale,
            pow2(k) <= n < 2 * pow2(k),
            pow2(k) * scale == one,
            scale > 0,
    ;
    assert(bits as int / one == 1023 + k && bits as int % one == f) by (nonlinear_arith)
        requires
            bits == (1023 + k) * one + f,
            0 <= f < one,
    ;
    assert(one + f == n * scale) by (nonlinear_arith)
        requires
            f == (n - pow2(k)) * scale,
            pow2(k) * scale == one,
    ;
    assert(exponent_field(bits) == 1023 + k);
    assert((1075 - exponent_field(bits)) as nat == (52 - k) as nat);
    if k == 52 {
        assert(pow2(0) == 1);
        assert(n * scale == n) by (nonlinear_arith)
            requires
                scale == 1,
        ;
        assert((one + f) * pow2(0) == one + f) by (nonlinear_arith)
            requires
                pow2(0) == 1,
        ;
    }
    whole_numbers_are_read_exactly(bits, n);
}

/// Every integer up to `2^53` is the value of some double-precision number.
pub proof fn integers_have_a_pattern(n: u64)
    requires
        n <= 0x20_0000_0000_0000,
    ensures
        exists|bits: u64| denotes_integer(bits, n as int),
{
    lemma2_to64();
    lemma2_to64_rest();
    if n == 0 {
        assert(denotes_integer(0, 0));
    } else if n == 0x20_0000_0000_0000 {
        let bits = 0x4340_0000_0000_0000u64;
        assert(exponent_field(bits) == 1076);
        assert(fraction_field(bits) == 0);
        assert(denotes_integer(bits, n as int));
    } else {
        let k = lemma_leading_bit(n as nat);
        if k > 53 {
            lemma_pow2_strictly_increases(53, k);
        }
        let scale = pow2((52 - k) as nat) as int;
        lemma_pow2_pos((52 - k) as nat);
        lemma_pow2_adds(k, (52 - k) as nat);
        lemma_pow2_unfold(k + 1);
        assert(0 <= (n - pow2(k)) * scale < 0x10_0000_0000_0000) by (nonlinear_arith)
            requires
                pow2(k) <= n < 2 * pow2(k),
                pow2(k) * scale == 0x10_0000_0000_0000,
                scale > 0,
        ;
        let bits = integer_pattern(n as int, k) as u64;
        integers_are_read_back(n, k, bits);
        assert(denotes_integer(bits, n as int));
    }
}

/// The place of the leading one of a positive number's binary digits.
proof fn lemma_leading_bit(n: nat) -> (k: nat)
    requires
        n > 0,
    ensures
        pow2(k) <= n < pow2(k + 1),
    decreases n,
{
    lemma2_to64();
    if n == 1 {
        0
    } else {
        let k = lemma_leading_bit(n / 2);
        lemma_pow2_unfold(k + 1);
        lemma_pow2_unfold(k + 2);
        k + 1
    }
}

} // verus!
