//! Binary floating-point values held by their bits. The commands only store,
//! classify and order such values; all arithmetic on them happens elsewhere.
use vstd::prelude::*;

verus! {

/// The bit pattern of the sign.
pub const SIGN: u64 = 0x8000_0000_0000_0000;

/// The magnitude bits of infinity.
pub const INFINITE: u64 = 0x7FF0_0000_0000_0000;

/// A double-precision value by its IEEE 754 bit pattern. Single-precision
/// values are held widened, which loses nothing.
#[derive(Clone, Copy, Debug, PartialEq, Eq, Structural)]
pub struct Real {
    pub bits: u64,
}

/// Zero.
#[verifier::allow_in_spec]
pub fn zero() -> Real
    returns
        (Real { bits: 0 }),
{
    Real { bits: 0 }
}

/// One.
#[verifier::allow_in_spec]
pub fn one() -> Real
    returns
        (Real { bits: 0x3FF0_0000_0000_0000 }),
{
    Real { bits: 0x3FF0_0000_0000_0000 }
}

/// Three hundred and sixty, the degrees of a full turn.
#[verifier::allow_in_spec]
pub fn full_turn() -> Real
    returns
        (Real { bits: 0x4076_8000_0000_0000 }),
{
    Real { bits: 0x4076_8000_0000_0000 }
}

impl Real {
    /// The bits without the sign.
    pub open spec fn magnitude(self) -> int {
        if self.bits >= SIGN {
            self.bits - SIGN
        } else {
            self.bits as int
        }
    }

    /// Whether the sign bit is set.
    pub open spec fn negative(self) -> bool {
        self.bits >= SIGN
    }

    /// Neither infinite nor a NaN.
    pub open spec fn finite(self) -> bool {
        self.magnitude() < INFINITE
    }

    /// Not a number.
    pub open spec fn nan(self) -> bool {
        self.magnitude() > INFINITE
    }

    /// An integer that orders numbers as their values do: both zeros have the
    /// rank 0, and of two numbers the greater has the greater rank.
    pub open spec fn rank(self) -> int {
        if self.negative() {
            -self.magnitude()
        } else {
            self.magnitude()
        }
    }

    /// Whether two values are equal as numbers.
    pub open spec fn equals(self, other: Real) -> bool {
        !self.nan() && !other.nan() && self.rank() == other.rank()
    }

    /// Whether the first of two numbers is less than the second.
    pub open spec fn below(self, other: Real) -> bool {
        !self.nan() && !other.nan() && self.rank() < other.rank()
    }

    /// Whether the first of two numbers is not less than the second.
    pub open spec fn reaches(self, other: Real) -> bool {
        !self.nan() && !other.nan() && self.rank() >= other.rank()
    }

    /// A finite number greater than zero.
    pub open spec fn positive(self) -> bool {
        self.finite() && self.rank() > 0
    }

    /// A finite number that is not less than zero.
    pub open spec fn width_like(self) -> bool {
        self.finite() && self.rank() >= 0
    }

    /// A rank that orders all values, NaNs included and the negative zero
    /// below the positive one.
    pub open spec fn total_rank(self) -> int {
        if self.negative() {
            -self.magnitude() - 1
        } else {
            self.magnitude()
        }
    }

    /// The bits without the sign.
    pub fn size(&self) -> (r: u64)
        ensures
            r == self.magnitude(),
    {
        if self.bits >= SIGN {
            self.bits - SIGN
        } else {
            self.bits
        }
    }

    /// Whether the value is neither infinite nor a NaN.
    pub fn is_finite(&self) -> (r: bool)
        ensures
            r == self.finite(),
    {
        self.size() < INFINITE
    }

    /// Whether the value is zero, of either sign.
    pub fn is_zero(&self) -> (r: bool)
        ensures
            r == self.equals(zero()),
            r == (self.rank() == 0),
    {
        self.size() == 0
    }

    /// Whether the value is a finite number greater than zero.
    pub fn is_positive(&self) -> (r: bool)
        ensures
            r == self.positive(),
    {
        self.bits > 0 && self.bits < INFINITE
    }

    /// Whether the value is a finite number that is not less than zero.
    pub fn is_width(&self) -> (r: bool)
        ensures
            r == self.width_like(),
    {
        self.bits < INFINITE || self.bits == SIGN
    }

    /// Whether two values are equal as numbers.
    pub fn same_value(&self, other: &Real) -> (r: bool)
        ensures
            r == self.equals(*other),
    {
        let a: u64 = self.size();
        let b: u64 = other.size();
        a <= INFINITE && a == b && (a == 0 || self.bits == other.bits)
    }

    /// Whether the first of two numbers is less than the second.
    pub fn less(&self, other: &Real) -> (r: bool)
        ensures
            r == self.below(*other),
    {
        let a: u64 = self.size();
        let b: u64 = other.size();
        if a > INFINITE || b > INFINITE {
            return false;
        }
        if self.bits >= SIGN {
            if other.bits >= SIGN {
                b < a
            } else {
                a != 0 || b != 0
            }
        } else {
            other.bits < SIGN && a < b
        }
    }

    /// Whether the first of two numbers is not less than the second.
    pub fn at_least(&self, other: &Real) -> (r: bool)
        ensures
            r == self.reaches(*other),
    {
        other.less(self) || self.same_value(other)
    }

    /// Whether the first of two values comes before the second in the total
    /// order of all bit patterns.
    pub fn total_less(&self, other: &Real) -> (r: bool)
        ensures
            r == (self.total_rank() < other.total_rank()),
    {
        if self.bits >= SIGN {
            if other.bits >= SIGN {
                other.bits < self.bits
            } else {
                true
            }
        } else {
            other.bits < SIGN && self.bits < other.bits
        }
    }
}

/// A point or a direction in space.
#[derive(Clone, Copy, Debug, PartialEq, Eq, Structural)]
pub struct Point3 {
    pub x: Real,
    pub y: Real,
    pub z: Real,
}

/// The origin, and the direction of no length.
#[verifier::allow_in_spec]
pub fn origin() -> Point3
    returns
        (Point3 { x: zero(), y: zero(), z: zero() }),
{
    Point3 { x: zero(), y: zero(), z: zero() }
}

/// The upward direction.
#[verifier::allow_in_spec]
pub fn upward() -> Point3
    returns
        (Point3 { x: zero(), y: zero(), z: one() }),
{
    Point3 { x: zero(), y: zero(), z: one() }
}

impl Point3 {
    /// Whether all three coordinates are finite.
    pub open spec fn finite(self) -> bool {
        self.x.finite() && self.y.finite() && self.z.finite()
    }

    /// Whether two points have equal coordinates.
    pub open spec fn equals(self, other: Point3) -> bool {
        self.x.equals(other.x) && self.y.equals(other.y) && self.z.equals(other.z)
    }

    /// Whether all three coordinates are finite.
    pub fn is_finite(&self) -> (r: bool)
        ensures
            r == self.finite(),
    {
        self.x.is_finite() && self.y.is_finite() && self.z.is_finite()
    }

    /// Whether two points have equal coordinates.
    pub fn same_place(&self, other: &Point3) -> (r: bool)
        ensures
            r == self.equals(*other),
    {
        self.x.same_value(&other.x) && self.y.same_value(&other.y) && self.z.same_value(&other.z)
    }
}

/// A point in a plane.
#[derive(Clone, Copy, Debug, PartialEq, Eq, Structural)]
pub struct Point2 {
    pub x: Real,
    pub y: Real,
}

/// Of two values the one that orders first keeps its place: values below in
/// number order are also below in the total order.
pub proof fn orders_agree(a: Real, b: Real)
    requires
        a.below(b),
    ensures
        a.total_rank() < b.total_rank(),
{
}

} // verus!
