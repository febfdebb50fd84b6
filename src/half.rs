use vstd::arithmetic::power2::{lemma2_to64, lemma_pow2_adds, lemma_pow2_unfold, pow2};
use vstd::prelude::*;

verus! {

/// Sign bit of a half-precision bit pattern.
pub open spec fn half_sign(h: u16) -> nat {
    (h / 0x8000) as nat
}

/// Biased exponent (5 bits) of a half-precision bit pattern.
pub open spec fn half_exponent(h: u16) -> nat {
    ((h / 0x400) % 0x20) as nat
}

/// Mantissa (10 bits) of a half-precision bit pattern.
pub open spec fn half_mantissa(h: u16) -> nat {
    (h % 0x400) as nat
}

/// Sign bit of a single-precision bit pattern.
pub open spec fn single_sign(f: u32) -> nat {
    (f / 0x8000_0000) as nat
}

/// Biased exponent (8 bits) of a single-precision bit pattern.
pub open spec fn single_exponent(f: u32) -> nat {
    ((f / 0x80_0000) % 0x100) as nat
}

/// Mantissa (23 bits) of a single-precision bit pattern.
pub open spec fn single_mantissa(f: u32) -> nat {
    (f % 0x80_0000) as nat
}

proof fn lemma_assemble(s: u32, e: u32, m: u32)
    requires
        s <= 1,
        e <= 0xff,
        m < 0x80_0000,
    ensures
        s * 0x8000_0000 + e * 0x80_0000 + m <= u32::MAX,
        single_sign((s * 0x8000_0000 + e * 0x80_0000 + m) as u32) == s,
        single_exponent((s * 0x8000_0000 + e * 0x80_0000 + m) as u32) == e,
        single_mantissa((s * 0x8000_0000 + e * 0x80_0000 + m) as u32) == m,
{
    assert(((s * 0x8000_0000 + e * 0x80_0000 + m) as u32) / 0x8000_0000 == s && (((s * 0x8000_0000
        + e * 0x80_0000 + m) as u32) / 0x80_0000) % 0x100 == e && ((s * 0x8000_0000 + e
        * 0x80_0000 + m) as u32) % 0x80_0000 == m) by (bit_vector)
        requires
            s <= 1,
            e <= 0xff,
            m < 0x80_0000,
    ;
}

/// Bits of the single-precision number whose value is that of the
/// half-precision number with bits `h`: the sign is kept; infinities and NaNs
/// stay so, with the payload kept; normal numbers keep their mantissa and
/// exponent; subnormal numbers become normal ones of the same value.
pub fn half_to_single_bits(h: u16) -> (r: u32)
    ensures
        single_sign(r) == half_sign(h),
        half_exponent(h) == 0x1f ==> single_exponent(r) == 0xff && single_mantissa(r)
            == half_mantissa(h) * 0x2000,
        0 < half_exponent(h) < 0x1f ==> single_exponent(r) == half_exponent(h) + 112
            && single_mantissa(r) == half_mantissa(h) * 0x2000,
        half_exponent(h) == 0 && half_mantissa(h) == 0 ==> single_exponent(r) == 0
            && single_mantissa(r) == 0,
        half_exponent(h) == 0 && half_mantissa(h) > 0 ==> {
            &&& 103 <= single_exponent(r) <= 112
            &&& (0x80_0000 + single_mantissa(r)) * pow2((single_exponent(r) - 103) as nat)
                == half_mantissa(h) * 0x80_0000
        },
{
    let sign = (h / 0x8000) as u32;
    let exp = ((h / 0x400) % 0x20) as u32;
    let mant = (h % 0x400) as u32;
    let (e, m): (u32, u32) = if exp == 0x1f {
        (0xff, mant * 0x2000)
    } else if exp > 0 {
        (exp + 112, mant * 0x2000)
    } else if mant == 0 {
        (0, 0)
    } else {
        // Shift the mantissa up to the leading one, lowering the exponent.
        let mut v: u32 = mant;
        let mut e: u32 = 113;
        proof {
            lemma2_to64();
            assert(mant * pow2(0) == mant) by (nonlinear_arith)
                requires
                    pow2(0) == 1,
            ;
        }
        while v < 0x400
            invariant
                1 <= mant < 0x400,
                1 <= v < 0x800,
                103 <= e <= 113,
                v == mant * pow2((113 - e) as nat),
            decreases e,
        {
            proof {
                lemma2_to64();
                if e == 103 {
                    assert(v >= 0x400) by (nonlinear_arith)
                        requires
                            v == mant * pow2(10),
                            pow2(10) == 0x400,
                            mant >= 1,
                    ;
                }
                lemma_pow2_unfold((113 - e + 1) as nat);
                assert(v * 2 == mant * pow2((113 - (e - 1)) as nat)) by (nonlinear_arith)
                    requires
                        v == mant * pow2((113 - e) as nat),
                        pow2((113 - (e - 1)) as nat) == 2 * pow2((113 - e) as nat),
                ;
            }
            v = v * 2;
            e = e - 1;
        }
        proof {
            lemma2_to64();
            if e == 113 {
                assert(v == mant) by (nonlinear_arith)
                    requires
                        v == mant * pow2(0),
                        pow2(0) == 1,
                ;
            }
            lemma_pow2_adds((113 - e) as nat, (e - 103) as nat);
            assert(((113 - e) + (e - 103)) as nat == 10);
            assert((0x80_0000 + (v - 0x400) * 0x2000) * pow2((e - 103) as nat) == mant * 0x80_0000)
                by (nonlinear_arith)
                requires
                    v == mant * pow2((113 - e) as nat),
                    pow2((113 - e) as nat) * pow2((e - 103) as nat) == 0x400,
                    v >= 0x400,
            ;
        }
        (e, (v - 0x400) * 0x2000)
    };
    proof {
        lemma_assemble(sign, e, m);
    }
    sign * 0x8000_0000 + e * 0x80_0000 + m
}

} // verus!
