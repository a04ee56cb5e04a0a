//! Half and single precision as bit patterns.
//!
//! A pattern of either format is a sign and a magnitude, and magnitudes are ordered as the
//! numbers they stand for.

use vstd::prelude::*;

verus! {

/// `a / unit`, rounded to the nearest integer, ties to an even one.
pub open spec fn round_half_even(a: int, unit: int) -> int {
    let q = a / unit;
    let r = a % unit;
    if 2 * r > unit || (2 * r == unit && q % 2 == 1) {
        q + 1
    } else {
        q
    }
}

/// Nothing is nearer than the rounded quotient, and where another integer is as near, the
/// rounded one is even.
pub proof fn law_rounding_is_nearest_and_even(a: int, unit: int, other: int)
    requires
        unit > 0,
        a >= 0,
    ensures
        ({
            let q = round_half_even(a, unit);
            let near = a - q * unit;
            let far = a - other * unit;
            &&& -unit <= 2 * near <= unit
            &&& (if near < 0 { -near } else { near }) <= (if far < 0 { -far } else { far })
            &&& other != q && (if near < 0 { -near } else { near }) == (if far < 0 { -far } else {
                far
            }) ==> q % 2 == 0
        }),
{
    let q = a / unit;
    let r = a % unit;
    assert(a == q * unit + r && 0 <= r < unit) by (nonlinear_arith)
        requires
            unit > 0,
            q == a / unit,
            r == a % unit,
    ;
    let n = round_half_even(a, unit);
    assert((q + 1) * unit == q * unit + unit) by (nonlinear_arith);
    let d = other - n;
    assert(other * unit == n * unit + d * unit) by (nonlinear_arith)
        requires
            d == other - n,
    ;
    assert(d >= 1 ==> d * unit >= unit) by (nonlinear_arith)
        requires
            unit > 0,
    ;
    assert(d <= -1 ==> d * unit <= -unit) by (nonlinear_arith)
        requires
            unit > 0,
    ;
    assert(d >= 2 ==> d * unit >= 2 * unit) by (nonlinear_arith)
        requires
            unit > 0,
    ;
    assert(d <= -2 ==> d * unit <= -2 * unit) by (nonlinear_arith)
        requires
            unit > 0,
    ;
}

/// The half-precision magnitude nearest to a single-precision magnitude: infinity beyond the
/// largest number, one quiet pattern for everything that is no number.
pub open spec fn half_magnitude(m: int) -> int {
    let exp = m / 0x80_0000;
    if m > 0x7f80_0000 {
        0x7e00
    } else if exp >= 143 {
        0x7c00
    } else if exp >= 113 {
        round_half_even(m - 0x3800_0000, 0x2000)
    } else if exp >= 102 {
        round_half_even(0x80_0000 + m % 0x80_0000, vstd::arithmetic::power2::pow2((126 - exp) as nat) as int)
    } else {
        0
    }
}

/// The half-precision pattern of a single-precision pattern.
pub open spec fn half_of(bits: u32) -> int {
    if bits < 0x8000_0000 {
        half_magnitude(bits as int)
    } else {
        0x8000 + half_magnitude(bits - 0x8000_0000)
    }
}

proof fn lemma_units(shift: nat)
    requires
        shift <= 24,
    ensures
        0 < vstd::arithmetic::power2::pow2(shift) <= 0x100_0000,
{
    vstd::arithmetic::power2::lemma_pow2_pos(shift);
    vstd::arithmetic::power2::lemma2_to64();
    if shift < 24 {
        vstd::arithmetic::power2::lemma_pow2_strictly_increases(shift, 24);
    }
}

fn round_to_even(a: u32, unit: u32) -> (q: u32)
    requires
        unit > 0,
        unit <= 0x100_0000,
        a <= 0x7fff_ffff,
    ensures
        q == round_half_even(a as int, unit as int),
        q <= a / unit + 1,
{
    let q: u32 = a / unit;
    let r: u32 = a % unit;
    if 2 * r > unit || (2 * r == unit && q % 2 == 1) {
        q + 1
    } else {
        q
    }
}

fn magnitude_to_half(m: u32) -> (h: u16)
    requires
        m < 0x8000_0000,
    ensures
        h == half_magnitude(m as int),
        h <= 0x7e00,
{
    let exp: u32 = m / 0x80_0000;
    if m > 0x7f80_0000 {
        return 0x7e00;
    }
    if exp >= 143 {
        return 0x7c00;
    }
    if exp >= 113 {
        return round_to_even(m - 0x3800_0000, 0x2000) as u16;
    }
    if exp >= 102 {
        let shift: u32 = 126 - exp;
        proof {
            lemma_units(shift as nat);
            vstd::bits::lemma_u32_shl_is_mul(1, shift);
        }
        let unit: u32 = 1u32 << shift;
        let a: u32 = 0x80_0000 + m % 0x80_0000;
        proof {
            vstd::arithmetic::power2::lemma2_to64();
            if shift > 14 {
                vstd::arithmetic::power2::lemma_pow2_strictly_increases(14, shift as nat);
            }
            assert(a / unit <= 0x400) by (nonlinear_arith)
                requires
                    a < 0x100_0000,
                    unit >= 0x4000,
            ;
        }
        return round_to_even(a, unit) as u16;
    }
    0
}

/// Converts single to half precision, to the nearest and on ties to an even pattern.
pub fn f32_to_f16_bits(bits: u32) -> (h: u16)
    ensures
        h == half_of(bits),
{
    if bits < 0x8000_0000 {
        magnitude_to_half(bits)
    } else {
        0x8000 + magnitude_to_half(bits - 0x8000_0000)
    }
}

// ---------------------------------------------------------------------------
// Widening
// ---------------------------------------------------------------------------

/// `m` is the single-precision magnitude of the half-precision magnitude `h`.  A subnormal
/// half is `h` units of 2 to the power -24; the single has the same value.
pub open spec fn widens(h: int, m: int) -> bool {
    if h == 0 {
        m == 0
    } else if h < 0x400 {
        &&& 103 <= m / 0x80_0000 <= 112
        &&& 0x80_0000 + m % 0x80_0000 == h * vstd::arithmetic::power2::pow2((126 - m / 0x80_0000) as nat)
    } else if h < 0x7c00 {
        m == h * 0x2000 + 0x3800_0000
    } else {
        m == h * 0x2000 + 0x7000_0000
    }
}

/// Brings a subnormal half into single precision: doubles it up to the implicit bit.
fn normalize(h: u32) -> (m: u32)
    requires
        0 < h < 0x400,
    ensures
        widens(h as int, m as int),
        m < 0x8000_0000,
{
    let mut v: u32 = h;
    let mut i: u32 = 0;
    proof {
        vstd::arithmetic::power2::lemma2_to64();
    }
    while v < 0x400
        invariant
            0 < h < 0x400,
            v == h * vstd::arithmetic::power2::pow2(i as nat),
            h <= v < 0x800,
            i <= 10,
            vstd::arithmetic::power2::pow2(0) == 1,
            vstd::arithmetic::power2::pow2(10) == 0x400,
        decreases 0x800 - v,
    {
        proof {
            vstd::arithmetic::power2::lemma_pow2_unfold((i + 1) as nat);
            assert(h * (2 * vstd::arithmetic::power2::pow2(i as nat)) == 2 * (h * vstd::arithmetic::power2::pow2(i as nat))) by (nonlinear_arith);
            if i == 10 {
                assert(h * 0x400 >= 0x400) by (nonlinear_arith)
                    requires
                        h >= 1,
                ;
            }
        }
        v = v * 2;
        i += 1;
    }
    if i == 0 {
        assert(h * 1 == h) by (nonlinear_arith);
    }
    let m: u32 = (113 - i) * 0x80_0000 + (v - 0x400) * 0x2000;
    proof {
        let e = m as int / 0x80_0000;
        assert(e == 113 - i);
        assert(m as int % 0x80_0000 == (v - 0x400) * 0x2000);
        vstd::arithmetic::power2::lemma_pow2_adds(i as nat, 13);
        vstd::arithmetic::power2::lemma2_to64();
        assert(h * (vstd::arithmetic::power2::pow2(i as nat) * 0x2000) == (h * vstd::arithmetic::power2::pow2(i as nat)) * 0x2000)
            by (nonlinear_arith);
    }
    m
}

/// Converts half to single precision, exactly.
pub fn f16_to_f32(bits: u16) -> (wide: u32)
    ensures
        bits < 0x8000 ==> wide < 0x8000_0000 && widens(bits as int, wide as int),
        bits >= 0x8000 ==> wide >= 0x8000_0000 && widens(
            bits - 0x8000,
            wide - 0x8000_0000,
        ),
{
    let h: u32 = if bits < 0x8000 {
        bits as u32
    } else {
        bits as u32 - 0x8000
    };
    let m: u32 = if h == 0 {
        0
    } else if h < 0x400 {
        normalize(h)
    } else if h < 0x7c00 {
        h * 0x2000 + 0x3800_0000
    } else {
        h * 0x2000 + 0x7000_0000
    };
    if bits < 0x8000 {
        m
    } else {
        m + 0x8000_0000
    }
}

// ---------------------------------------------------------------------------
// Laws
// ---------------------------------------------------------------------------

/// Widening loses nothing: every half that is a number comes back from its single.
pub proof fn law_half_round_trips(h: int, m: int)
    requires
        0 <= h <= 0x7c00,
        widens(h, m),
    ensures
        half_magnitude(m) == h,
{
    if 0 < h < 0x400 {
        let shift = (126 - m / 0x80_0000) as nat;
        lemma_units(shift);
        let u = vstd::arithmetic::power2::pow2(shift) as int;
        assert((h * u) / u == h && (h * u) % u == 0) by (nonlinear_arith)
            requires
                u > 0,
        ;
    } else if 0x400 <= h < 0x7c00 {
        assert((h * 0x2000) / 0x2000 == h && (h * 0x2000) % 0x2000 == 0);
    }
}

/// A larger number never becomes a smaller half.
pub proof fn law_half_is_monotonic(a: int, b: int)
    requires
        0 <= a <= b <= 0x7f80_0000,
    ensures
        half_magnitude(a) <= half_magnitude(b),
{
    let ea = a / 0x80_0000;
    let eb = b / 0x80_0000;
    assert(ea <= eb);
    if 102 <= ea < 113 {
        lemma_subnormal(a);
    }
    if 102 <= eb < 113 {
        lemma_subnormal(b);
        if ea == eb {
            lemma_units((126 - ea) as nat);
            lemma_rounding_is_monotonic(
                0x80_0000 + a % 0x80_0000,
                0x80_0000 + b % 0x80_0000,
                vstd::arithmetic::power2::pow2((126 - ea) as nat) as int,
            );
        }
    }
    if 102 <= ea < eb < 113 {
        lemma_subnormal_step(a, b);
    }
    if 113 <= eb < 143 {
        lemma_rounding_is_monotonic(0x80_0000, b - 0x3800_0000, 0x2000);
        lemma_rounding_is_monotonic(b - 0x3800_0000, 0xf80_0000, 0x2000);
        if 113 <= ea {
            lemma_rounding_is_monotonic(a - 0x3800_0000, b - 0x3800_0000, 0x2000);
        }
    }
    if 113 <= ea < 143 {
        lemma_rounding_is_monotonic(a - 0x3800_0000, 0xf80_0000, 0x2000);
    }
}

proof fn lemma_rounding_is_monotonic(a: int, b: int, unit: int)
    requires
        0 <= a <= b,
        unit > 0,
    ensures
        round_half_even(a, unit) <= round_half_even(b, unit),
{
    let qa = a / unit;
    let qb = b / unit;
    assert(qa <= qb) by (nonlinear_arith)
        requires
            0 <= a <= b,
            unit > 0,
            qa == a / unit,
            qb == b / unit,
    ;
    if qa == qb {
        assert(a % unit <= b % unit) by (nonlinear_arith)
            requires
                0 <= a <= b,
                unit > 0,
                a / unit == b / unit,
        ;
    }
}

/// What a magnitude below the normal halves becomes is a subnormal half, or the least normal.
proof fn lemma_subnormal(m: int)
    requires
        102 <= m / 0x80_0000 < 113,
        0 <= m,
    ensures
        0 <= half_magnitude(m) <= 0x400,
{
    let exp = m / 0x80_0000;
    let shift = (126 - exp) as nat;
    let u = vstd::arithmetic::power2::pow2(shift) as int;
    let a = 0x80_0000 + m % 0x80_0000;
    lemma_units(shift);
    vstd::arithmetic::power2::lemma2_to64();
    if shift > 14 {
        vstd::arithmetic::power2::lemma_pow2_strictly_increases(14, shift);
    }
    assert(a <= 0x400 * u) by (nonlinear_arith)
        requires
            a < 0x100_0000,
            u >= 0x4000,
    ;
    lemma_rounding_is_monotonic(a, 0x400 * u, u);
    assert((0x400 * u) / u == 0x400 && (0x400 * u) % u == 0) by (nonlinear_arith)
        requires
            u > 0,
    ;
}

/// Between two binades below the normal halves lies a half.
proof fn lemma_subnormal_step(a: int, b: int)
    requires
        0 <= a,
        0 <= b,
        102 <= a / 0x80_0000 < b / 0x80_0000 < 113,
    ensures
        half_magnitude(a) <= half_magnitude(b),
{
    let ea = a / 0x80_0000;
    let eb = b / 0x80_0000;
    let ua = vstd::arithmetic::power2::pow2((126 - ea) as nat) as int;
    let ub = vstd::arithmetic::power2::pow2((126 - eb) as nat) as int;
    let top = vstd::arithmetic::power2::pow2((ea - 102) as nat) as int;
    let bottom = vstd::arithmetic::power2::pow2((eb - 103) as nat) as int;
    lemma_units((126 - ea) as nat);
    lemma_units((126 - eb) as nat);
    vstd::arithmetic::power2::lemma2_to64();
    vstd::arithmetic::power2::lemma_pow2_adds((ea - 102) as nat, (126 - ea) as nat);
    vstd::arithmetic::power2::lemma_pow2_adds((eb - 103) as nat, (126 - eb) as nat);
    assert(top * ua == 0x100_0000);
    assert(bottom * ub == 0x80_0000);
    if ea - 102 < eb - 103 {
        vstd::arithmetic::power2::lemma_pow2_strictly_increases(
            (ea - 102) as nat,
            (eb - 103) as nat,
        );
    }
    lemma_rounding_is_monotonic(0x80_0000 + a % 0x80_0000, top * ua, ua);
    lemma_rounding_is_monotonic(bottom * ub, 0x80_0000 + b % 0x80_0000, ub);
    assert((top * ua) / ua == top && (top * ua) % ua == 0) by (nonlinear_arith)
        requires
            ua > 0,
    ;
    assert((bottom * ub) / ub == bottom && (bottom * ub) % ub == 0) by (nonlinear_arith)
        requires
            ub > 0,
    ;
}

} // verus!
