//! Exact fractions of machine integers.

use vstd::prelude::*;

verus! {

/// A non-negative fraction `num / den`. It is a number only where `den > 0`.
#[derive(Clone, Copy, Debug, PartialEq, Eq, Structural)]
pub struct Ratio {
    pub num: u64,
    pub den: u64,
}

/// `floor(value * num / den)`, for `den > 0`.
pub open spec fn scaled_floor(value: int, num: int, den: int) -> int {
    (value * num) / den
}

/// The product of two 64-bit numbers fits in 128 bits.
pub proof fn lemma_product_fits(a: u64, b: u64)
    ensures
        0 <= a * b <= u128::MAX,
{
    assert(0 <= (a as int) * (b as int) <= 0xffff_ffff_ffff_ffff * 0xffff_ffff_ffff_ffff)
        by (nonlinear_arith)
        requires
            0 <= a as int <= 0xffff_ffff_ffff_ffff,
            0 <= b as int <= 0xffff_ffff_ffff_ffff,
    ;
}

/// The order of fractions with denominators is transitive, and strict where
/// one step is strict.
pub proof fn lemma_le_transitive(a: Ratio, b: Ratio, c: Ratio)
    requires
        a.wf(),
        b.wf(),
        c.wf(),
        a.le(b),
        b.le(c),
    ensures
        a.le(c),
        !b.le(a) ==> !c.le(a),
        !c.le(b) ==> !c.le(a),
{
    let (an, ad) = (a.num as int, a.den as int);
    let (bn, bd) = (b.num as int, b.den as int);
    let (cn, cd) = (c.num as int, c.den as int);
    assert(an * cd <= cn * ad) by (nonlinear_arith)
        requires
            an * bd <= bn * ad,
            bn * cd <= cn * bd,
            ad > 0,
            bd > 0,
            cd > 0,
            an >= 0,
            bn >= 0,
            cn >= 0,
    {
        assert(an * bd * cd <= bn * ad * cd);
        assert(bn * cd * ad <= cn * bd * ad);
        assert(an * cd * bd <= cn * ad * bd);
    }
    if !b.le(a) {
        assert(an * cd < cn * ad) by (nonlinear_arith)
            requires
                an * bd < bn * ad,
                bn * cd <= cn * bd,
                ad > 0,
                bd > 0,
                cd > 0,
                an >= 0,
                bn >= 0,
                cn >= 0,
        {
            assert(an * bd * cd < bn * ad * cd);
            assert(bn * cd * ad <= cn * bd * ad);
            assert(an * cd * bd < cn * ad * bd);
        }
    }
    if !c.le(b) {
        assert(an * cd < cn * ad) by (nonlinear_arith)
            requires
                an * bd <= bn * ad,
                bn * cd < cn * bd,
                ad > 0,
                bd > 0,
                cd > 0,
                an >= 0,
                bn >= 0,
                cn >= 0,
        {
            assert(an * bd * cd <= bn * ad * cd);
            assert(bn * cd * ad < cn * bd * ad);
            assert(an * cd * bd < cn * ad * bd);
        }
    }
}

/// `floor(a * num * c / (den * e))`, for `den * e > 0`.
pub open spec fn scaled_floor_by(a: int, num: int, c: int, den: int, e: int) -> int {
    (a * num * c) / (den * e)
}

/// Computes `floor(a * num * c / (den * e))`. `None` exactly when the
/// divisor is 0 or the result is past `u32`.
pub fn fraction_floor(a: u32, num: u64, c: u32, den: u64, e: u32) -> (out: Option<u32>)
    ensures
        out.is_some() <==> den > 0 && e > 0 && scaled_floor_by(
            a as int,
            num as int,
            c as int,
            den as int,
            e as int,
        ) <= u32::MAX,
        out.is_some() ==> out.unwrap() == scaled_floor_by(
            a as int,
            num as int,
            c as int,
            den as int,
            e as int,
        ),
{
    if den == 0 || e == 0 {
        return None;
    }
    assert(0 <= (a as int) * (c as int) <= 0xffff_ffff * 0xffff_ffff) by (nonlinear_arith)
        requires
            0 <= a as int <= 0xffff_ffff,
            0 <= c as int <= 0xffff_ffff,
    ;
    let both: u64 = (a as u64) * (c as u64);
    proof {
        lemma_product_fits(both, num);
        lemma_product_fits(den, e as u64);
        assert((a as int) * (num as int) * (c as int) == (both as int) * (num as int))
            by (nonlinear_arith)
            requires
                both as int == (a as int) * (c as int),
        ;
        assert((den as int) * (e as int) > 0) by (nonlinear_arith)
            requires
                den as int > 0,
                e as int > 0,
        ;
    }
    let dividend: u128 = (both as u128) * (num as u128);
    let divisor: u128 = (den as u128) * (e as u128);
    let quotient: u128 = dividend / divisor;
    if quotient > u32::MAX as u128 {
        None
    } else {
        Some(quotient as u32)
    }
}

impl Ratio {
    /// The fraction has a denominator.
    pub open spec fn wf(self) -> bool {
        self.den > 0
    }

    /// The fraction is one or more.
    pub open spec fn at_least_one(self) -> bool {
        self.num >= self.den
    }

    /// The fraction is exactly one.
    pub open spec fn is_one(self) -> bool {
        self.num == self.den
    }

    /// The two fractions are the same number.
    pub open spec fn same_number(self, other: Ratio) -> bool {
        self.num * other.den == other.num * self.den
    }

    /// The fraction is not greater than `other`, both taken as numbers.
    pub open spec fn le(self, other: Ratio) -> bool {
        self.num * other.den <= other.num * self.den
    }

    /// `floor(value * self)`.
    pub open spec fn floor_of(self, value: int) -> int {
        scaled_floor(value, self.num as int, self.den as int)
    }

    /// Whether the fraction is not greater than `other`.
    pub fn is_le(&self, other: &Ratio) -> (b: bool)
        ensures
            b == self.le(*other),
    {
        proof {
            lemma_product_fits(self.num, other.den);
            lemma_product_fits(other.num, self.den);
        }
        (self.num as u128) * (other.den as u128) <= (other.num as u128) * (self.den as u128)
    }

    /// Multiplies a length by the fraction and rounds down. `None` exactly
    /// when the fraction has no denominator or the product is past `u32`.
    pub fn apply(&self, value: u32) -> (out: Option<u32>)
        ensures
            out.is_some() <==> self.wf() && self.floor_of(value as int) <= u32::MAX,
            out.is_some() ==> out.unwrap() == self.floor_of(value as int),
    {
        if self.den == 0 {
            return None;
        }
        assert((value as int) * (self.num as int) <= 0xffff_ffff * 0xffff_ffff_ffff_ffff)
            by (nonlinear_arith)
            requires
                0 <= value as int <= 0xffff_ffff,
                0 <= self.num as int <= 0xffff_ffff_ffff_ffff,
        ;
        let product: u128 = (value as u128) * (self.num as u128);
        let quotient: u128 = product / (self.den as u128);
        if quotient > u32::MAX as u128 {
            None
        } else {
            Some(quotient as u32)
        }
    }
}

} // verus!
