//! Units of length and exact numbers.
//!
//! Lengths and numeric operands are kept as integers and ratios of integers,
//! so that every conversion between millimetres and points is exact.

use vstd::prelude::*;

verus! {

/// Number of [`Pt`] units in one point.
pub const UNITS_PER_PT: i64 = 127000;

/// Number of [`Pt`] units in one micrometre.
pub const UNITS_PER_MICROMETRE: i64 = 360;

/// An exact rational number `num / den` with a positive denominator.
///
/// The pair is kept as given: `1/2` and `2/4` denote the same quantity but
/// are different values. The numerator is never the least 64-bit number, so
/// that every value has a negative.
#[derive(Clone, Copy, Debug, PartialEq, Eq, Structural)]
pub struct Real {
    num: i64,
    den: u32,
}

/// The number `num / den`.
pub closed spec fn ratio(num: i64, den: u32) -> Real {
    Real { num, den }
}

/// A pair that a [`Real`] can hold.
pub open spec fn ratio_ok(num: i64, den: u32) -> bool {
    den != 0 && num != i64::MIN
}

impl Real {
    #[verifier::type_invariant]
    spec fn inv(self) -> bool {
        ratio_ok(self.num, self.den)
    }

    /// The numerator.
    pub closed spec fn spec_num(self) -> i64 {
        self.num
    }

    /// The denominator.
    pub closed spec fn spec_den(self) -> u32 {
        self.den
    }

    /// The negative of the number.
    pub open spec fn spec_neg(self) -> Real {
        ratio((-self.spec_num()) as i64, self.spec_den())
    }

    /// The ratio `num / den`; `None` exactly when `den` is zero or `num` is
    /// the least 64-bit number.
    pub fn new(num: i64, den: u32) -> (r: Option<Real>)
        ensures
            r.is_some() <==> ratio_ok(num, den),
            r matches Some(x) ==> x == ratio(num, den),
    {
        if den == 0 || num == i64::MIN {
            None
        } else {
            Some(Real { num, den })
        }
    }

    /// The whole number `n`, as `n / 1`.
    pub fn from_int(n: i32) -> (r: Real)
        ensures
            r == ratio(n as i64, 1),
    {
        Real { num: n as i64, den: 1 }
    }

    /// The numerator.
    pub fn num(&self) -> (n: i64)
        ensures
            n == self.spec_num(),
            n != i64::MIN,
    {
        proof {
            use_type_invariant(self);
        }
        self.num
    }

    /// The denominator, which is never zero.
    pub fn den(&self) -> (d: u32)
        ensures
            d == self.spec_den(),
            d > 0,
    {
        proof {
            use_type_invariant(self);
        }
        self.den
    }

    /// Whether the number is zero.
    pub fn is_zero(&self) -> (z: bool)
        ensures
            z == (self.spec_num() == 0),
    {
        self.num == 0
    }

    /// The negative of the number.
    pub fn neg(self) -> (r: Real)
        ensures
            r == self.spec_neg(),
    {
        proof {
            use_type_invariant(&self);
        }
        Real { num: -self.num, den: self.den }
    }
}

/// A ratio has the numerator and the denominator it was made of.
pub proof fn lemma_ratio_parts(num: i64, den: u32)
    ensures
        ratio(num, den).spec_num() == num,
        ratio(num, den).spec_den() == den,
{
}

/// A length in millimetres, held as a whole number of micrometres.
#[derive(Clone, Copy, Debug, PartialEq, Eq, Structural)]
pub struct Mm {
    pub micrometres: i32,
}

/// A length in points (1/72 inch), held in units of 1/127000 pt.
///
/// One micrometre is exactly 360 such units, so every [`Mm`] has an exact
/// counterpart.
#[derive(Clone, Copy, Debug, PartialEq, Eq, Structural)]
pub struct Pt {
    pub units: i64,
}

impl Mm {
    /// A length of `mm` whole millimetres; `None` when it does not fit.
    pub fn from_millimetres(mm: i32) -> (r: Option<Mm>)
        ensures
            r.is_some() <==> i32::MIN <= mm * 1000 <= i32::MAX,
            r matches Some(m) ==> m.micrometres == mm * 1000,
    {
        if mm > i32::MAX / 1000 || mm < i32::MIN / 1000 {
            None
        } else {
            Some(Mm { micrometres: mm * 1000 })
        }
    }

    /// The same length in points.
    pub open spec fn spec_to_pt(self) -> Pt {
        Pt { units: (self.micrometres * UNITS_PER_MICROMETRE) as i64 }
    }

    /// The same length in points. The conversion is exact.
    pub fn to_pt(self) -> (p: Pt)
        ensures
            p == self.spec_to_pt(),
            p.units == self.micrometres * 360,
    {
        Pt { units: (self.micrometres as i64) * UNITS_PER_MICROMETRE }
    }
}

impl Pt {
    /// The length as an exact number of points, `units / 127000`. The
    /// least 64-bit number of units counts as the one above it.
    pub open spec fn spec_to_real(self) -> Real {
        if self.units == i64::MIN {
            ratio((i64::MIN + 1) as i64, 127000)
        } else {
            ratio(self.units, 127000)
        }
    }

    /// The length as an exact number of points, `units / 127000`.
    pub fn to_real(self) -> (r: Real)
        ensures
            r == self.spec_to_real(),
    {
        if self.units == i64::MIN {
            Real { num: i64::MIN + 1, den: 127000 }
        } else {
            Real { num: self.units, den: 127000 }
        }
    }

    /// A length of `pt` whole points; `None` when it does not fit.
    pub fn from_points(pt: i64) -> (r: Option<Pt>)
        ensures
            r.is_some() <==> i64::MIN <= pt * UNITS_PER_PT <= i64::MAX,
            r matches Some(p) ==> p.units == pt * UNITS_PER_PT,
    {
        if pt > i64::MAX / UNITS_PER_PT || pt < i64::MIN / UNITS_PER_PT {
            None
        } else {
            Some(Pt { units: pt * UNITS_PER_PT })
        }
    }
}

/// Converting millimetres to points and back gives the same length.
pub proof fn lemma_mm_pt_round_trip(m: Mm)
    ensures
        m.spec_to_pt().units / UNITS_PER_MICROMETRE == m.micrometres,
        m.spec_to_pt().units % UNITS_PER_MICROMETRE == 0,
{
}

} // verus!
