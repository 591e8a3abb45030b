//! Single precision numbers, by their IEEE 754 bits.
//!
//! Font sizes are single precision numbers. They are kept as raw bits, since
//! the numbers themselves have neither an equivalence nor a hash.

use vstd::arithmetic::power2::{
    lemma_pow2_adds, lemma_pow2_pos, lemma_pow2_strictly_increases, pow2,
};
use vstd::prelude::*;

verus! {

/// The exponent field.
pub open spec fn exponent(bits: u32) -> nat {
    ((bits / 0x80_0000) % 256) as nat
}

/// The fraction field.
pub open spec fn fraction(bits: u32) -> nat {
    (bits % 0x80_0000) as nat
}

/// The magnitude of a finite number, in units of the smallest positive number,
/// of which there are `pow2(149)` in one.
pub open spec fn magnitude(bits: u32) -> nat {
    if exponent(bits) == 0 {
        fraction(bits)
    } else {
        (0x80_0000 + fraction(bits)) * pow2((exponent(bits) - 1) as nat)
    }
}

/// Whether these are the bits of the whole number `n`. Both zeros are zero.
pub open spec fn is_whole(bits: u32, n: nat) -> bool {
    &&& exponent(bits) < 255
    &&& magnitude(bits) == n * pow2(149)
    &&& bits < 0x8000_0000 || n == 0
}

/// The whole number that these are the bits of, if it is one and fits 16 bits.
pub open spec fn whole_number_of(bits: u32) -> Option<u16> {
    if exists|n: u16| is_whole(bits, n as nat) {
        Some(choose|n: u16| is_whole(bits, n as nat))
    } else {
        None
    }
}

/// A number is at most one whole number.
pub proof fn lemma_is_whole_unique(bits: u32, a: nat, b: nat)
    requires
        is_whole(bits, a),
        is_whole(bits, b),
    ensures
        a == b,
{
    lemma_pow2_pos(149);
    let p: nat = pow2(149);
    assert(a == b) by (nonlinear_arith)
        requires
            a * p == b * p,
            p > 0,
    ;
}

/// Below one, only zero is whole.
proof fn lemma_below_one(bits: u32, n: nat)
    requires
        exponent(bits) < 127,
        is_whole(bits, n),
    ensures
        n == 0,
        magnitude(bits) == 0,
{
    let e: nat = exponent(bits);
    let f: nat = fraction(bits);
    lemma_pow2_pos(149);
    lemma_pow2_bounds();
    assert(magnitude(bits) < pow2(149)) by {
        if e == 0 {
        } else {
            let q: nat = pow2((e - 1) as nat);
            if e - 1 < 125 {
                lemma_pow2_strictly_increases((e - 1) as nat, 125);
            }
            lemma_pow2_adds(24, 125);
            assert((0x80_0000 + f) * q < pow2(24) * pow2(125)) by (nonlinear_arith)
                requires
                    f < 0x80_0000,
                    pow2(24) == 0x100_0000,
                    0 < q <= pow2(125),
            ;
        }
    }
    let p: nat = pow2(149);
    assert(n == 0) by (nonlinear_arith)
        requires
            n * p < p,
    ;
    assert(n * p == 0) by (nonlinear_arith)
        requires
            n == 0,
    ;
}

/// No number past the range of `u16` is a whole number within it.
proof fn lemma_above_u16(bits: u32, n: nat)
    requires
        exponent(bits) > 142,
        is_whole(bits, n),
    ensures
        n > 0xffff,
{
    let e: nat = exponent(bits);
    let f: nat = fraction(bits);
    lemma_pow2_bounds();
    let q: nat = pow2((e - 1) as nat);
    if 142 < e - 1 {
        lemma_pow2_strictly_increases(142, (e - 1) as nat);
    }
    lemma_pow2_adds(23, 142);
    lemma_pow2_adds(16, 149);
    let p: nat = pow2(149);
    assert((0x80_0000 + f) * q >= pow2(23) * pow2(142)) by (nonlinear_arith)
        requires
            pow2(23) == 0x80_0000,
            q >= pow2(142),
    ;
    assert(n > 0xffff) by (nonlinear_arith)
        requires
            n * p >= 0x1_0000 * p,
            p > 0,
    ;
}

/// From one to the end of the range of `u16`, the significand decides.
proof fn lemma_in_range(bits: u32, k: nat, n: nat)
    requires
        exponent(bits) == 127 + k,
        k <= 15,
        bits < 0x8000_0000,
    ensures
        is_whole(bits, n) <==> 0x80_0000 + fraction(bits) == n * pow2((23 - k) as nat),
{
    let s: nat = 0x80_0000 + fraction(bits);
    let q: nat = pow2(126 + k);
    let d: nat = pow2((23 - k) as nat);
    lemma_pow2_pos(126 + k);
    lemma_pow2_adds((23 - k) as nat, 126 + k);
    assert(n * (d * q) == (n * d) * q) by (nonlinear_arith);
    assert(s * q == (n * d) * q <==> s == n * d) by (nonlinear_arith)
        requires
            q > 0,
    ;
}

proof fn lemma_pow2_bounds()
    ensures
        pow2(16) == 0x1_0000,
        pow2(23) == 0x80_0000,
        pow2(24) == 0x100_0000,
        pow2(149) > 0x80_0000,
        forall|i: nat| #[trigger] pow2(i) > 0,
{
    vstd::arithmetic::power2::lemma2_to64();
    assert forall|i: nat| #[trigger] pow2(i) > 0 by {
        lemma_pow2_pos(i);
    }
    lemma_pow2_strictly_increases(23, 149);
}

/// The whole number that these are the bits of, if it is one and fits.
pub fn whole_number(bits: u32) -> (res: Option<u16>)
    ensures
        res == whole_number_of(bits),
{
    let res: Option<u16> = decode_whole_number(bits);
    proof {
        if let Some(n) = res {
            lemma_is_whole_unique(bits, n as nat, whole_number_of(bits).unwrap() as nat);
        }
    }
    res
}

fn decode_whole_number(bits: u32) -> (res: Option<u16>)
    ensures
        match res {
            Some(n) => is_whole(bits, n as nat),
            None => forall|n: u16| !is_whole(bits, n as nat),
        },
{
    let e: u32 = (bits / 0x80_0000) % 256;
    let f: u32 = bits % 0x80_0000;
    proof {
        lemma_pow2_bounds();
        assert forall|n: u16| e < 127 && #[trigger] is_whole(bits, n as nat) implies magnitude(bits)
            == 0 && n == 0 by {
            lemma_below_one(bits, n as nat);
        }
        assert forall|n: u16| e > 142 implies !(#[trigger] is_whole(bits, n as nat)) by {
            if is_whole(bits, n as nat) {
                lemma_above_u16(bits, n as nat);
            }
        }
    }
    if e == 0 && f == 0 {
        assert(0 * pow2(149) == 0);
        return Some(0);
    }
    if bits >= 0x8000_0000 || e < 127 || e > 142 {
        proof {
            if bits >= 0x8000_0000 && 127 <= e {
                lemma_pow2_pos((e - 1) as nat);
                assert((0x80_0000 + fraction(bits)) * pow2((e - 1) as nat) > 0)
                    by (nonlinear_arith)
                    requires
                        pow2((e - 1) as nat) > 0,
                ;
                assert(0 * pow2(149) == 0);
            }
            if 0 < e < 127 {
                lemma_pow2_pos((e - 1) as nat);
                assert((0x80_0000 + fraction(bits)) * pow2((e - 1) as nat) > 0)
                    by (nonlinear_arith)
                    requires
                        pow2((e - 1) as nat) > 0,
                ;
            }
        }
        return None;
    }
    let k: u32 = e - 127;
    let s: u32 = 0x80_0000 + f;
    proof {
        vstd::bits::lemma_u32_pow2_no_overflow((23 - k) as nat);
        vstd::bits::lemma_u32_shl_is_mul(1, (23 - k) as u32);
        assert forall|n: u16| #[trigger] is_whole(bits, n as nat) <==> s == n * pow2(
            (23 - k) as nat,
        ) by {
            lemma_in_range(bits, k as nat, n as nat);
        }
    }
    let d: u32 = 1u32 << (23 - k);
    proof {
        lemma_pow2_adds((23 - k) as nat, (k + 1) as nat);
        if k + 1 < 16 {
            lemma_pow2_strictly_increases((k + 1) as nat, 16);
        }
        assert(s < 0x1_0000 * d) by (nonlinear_arith)
            requires
                s < 0x100_0000,
                d * pow2((k + 1) as nat) == 0x100_0000,
                pow2((k + 1) as nat) <= 0x1_0000,
                d > 0,
        ;
        vstd::arithmetic::div_mod::lemma_fundamental_div_mod(s as int, d as int);
        assert(s / d < 0x1_0000) by (nonlinear_arith)
            requires
                s < 0x1_0000 * d,
                d > 0,
        ;
    }
    if s % d == 0 {
        let n: u32 = s / d;
        assert(s == n * d) by (nonlinear_arith)
            requires
                s == d * n + 0,
        ;
        assert(is_whole(bits, (n as u16) as nat));
        Some(n as u16)
    } else {
        proof {
            assert forall|n: u16| !is_whole(bits, n as nat) by {
                if is_whole(bits, n as nat) {
                    assert(s == n * d);
                    vstd::arithmetic::div_mod::lemma_mod_multiples_basic(n as int, d as int);
                }
            }
        }
        None
    }
}

/// A number is the whole number `n` only if `n` is what it is found to be.
proof fn lemma_whole_number_is_found(bits: u32, n: u16)
    ensures
        whole_number_of(bits) == Some(n) <==> is_whole(bits, n as nat),
{
    if is_whole(bits, n as nat) {
        lemma_is_whole_unique(bits, n as nat, whole_number_of(bits).unwrap() as nat);
    }
}

/// Zero is found in the bits of both zeros, and in no others.
pub proof fn law_zero_has_two_signs(bits: u32)
    ensures
        whole_number_of(bits) == Some(0u16) <==> bits == 0 || bits == 0x8000_0000,
{
    lemma_whole_number_is_found(bits, 0);
    lemma_pow2_bounds();
    assert(0 * pow2(149) == 0);
    if exponent(bits) > 0 {
        let q: nat = pow2((exponent(bits) - 1) as nat);
        assert((0x80_0000 + fraction(bits)) * q > 0) by (nonlinear_arith)
            requires
                q > 0,
        ;
    }
}

/// Any other whole number is found in one pattern of bits only: that of IEEE
/// 754, with the exponent `k` of its highest power of two, and what is left of
/// it below that power as the fraction.
pub proof fn law_whole_number_has_one_pattern(bits: u32, n: u16, k: nat)
    requires
        k < 16,
        pow2(k) <= n < pow2(k + 1),
    ensures
        whole_number_of(bits) == Some(n) <==> bits == (127 + k) * 0x80_0000 + (n - pow2(k)) * pow2(
            (23 - k) as nat,
        ),
{
    lemma_whole_number_is_found(bits, n);
    lemma_pow2_bounds();
    let p: nat = pow2(k);
    let d: nat = pow2((23 - k) as nat);
    lemma_pow2_adds(k, (23 - k) as nat);
    lemma_pow2_adds(k + 1, (23 - k) as nat);
    assert((n - p) * d == n * d - p * d) by (nonlinear_arith);
    assert(p * d <= n * d < pow2(k + 1) * d) by (nonlinear_arith)
        requires
            p <= n < pow2(k + 1),
            d > 0,
    ;
    if is_whole(bits, n as nat) {
        if exponent(bits) < 127 {
            lemma_below_one(bits, n as nat);
        }
        if exponent(bits) > 142 {
            lemma_above_u16(bits, n as nat);
        }
        let j: nat = (exponent(bits) - 127) as nat;
        lemma_in_range(bits, j, n as nat);
        let e: nat = pow2((23 - j) as nat);
        lemma_pow2_adds(j, (23 - j) as nat);
        lemma_pow2_adds(j + 1, (23 - j) as nat);
        assert(pow2(j) <= n < pow2(j + 1)) by (nonlinear_arith)
            requires
                pow2(j) * e <= n * e < pow2(j + 1) * e,
                e > 0,
        ;
        if j < k {
            if j + 1 < k {
                lemma_pow2_strictly_increases(j + 1, k);
            }
        } else if k < j {
            if k + 1 < j {
                lemma_pow2_strictly_increases(k + 1, j);
            }
        }
        assert(j == k);
    }
    if bits == (127 + k) * 0x80_0000 + (n - p) * d {
        assert(bits / 0x80_0000 == 127 + k);
        assert(exponent(bits) == 127 + k);
        assert(fraction(bits) == (n - p) * d);
        lemma_in_range(bits, k, n as nat);
    }
}

} // verus!
