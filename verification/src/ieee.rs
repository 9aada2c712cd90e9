//! Single-precision numbers as bit patterns, with their numeric order.
//!
//! A value is never interpreted here beyond what its order needs: the sign
//! bit, and the magnitude held in the remaining 31 bits.

use vstd::prelude::*;

verus! {

/// The pattern above which a magnitude encodes no number.
pub const INFINITY_BITS: u32 = 0x7f80_0000;

/// The pattern of the sign bit alone.
pub const SIGN_BIT: u32 = 0x8000_0000;

/// The largest finite value.
pub const MAX_BITS: u32 = 0x7f7f_ffff;

/// The least finite value.
pub const MIN_BITS: u32 = 0xff7f_ffff;

/// An IEEE-754 single-precision number, held as its 32 bits.
#[derive(Clone, Copy, Debug, PartialEq, Eq, Structural)]
pub struct Ieee32 {
    pub bits: u32,
}

impl Ieee32 {
    /// The bits without the sign.
    pub open spec fn magnitude(self) -> int {
        if self.bits >= SIGN_BIT {
            self.bits - SIGN_BIT
        } else {
            self.bits as int
        }
    }

    /// True when the bits encode no number.
    pub open spec fn is_nan(self) -> bool {
        self.magnitude() > INFINITY_BITS
    }

    /// An integer that orders numbers as their values are ordered: for `a` and
    /// `b` that are numbers, `a < b` exactly when `a.key() < b.key()`. Both
    /// zeros have key 0.
    pub open spec fn key(self) -> int {
        if self.bits >= SIGN_BIT {
            -self.magnitude()
        } else {
            self.magnitude()
        }
    }

    /// `self <= other` as numbers; false when either is no number.
    pub open spec fn le(self, other: Ieee32) -> bool {
        !self.is_nan() && !other.is_nan() && self.key() <= other.key()
    }

    /// `self < other` as numbers; false when either is no number.
    pub open spec fn lt(self, other: Ieee32) -> bool {
        !self.is_nan() && !other.is_nan() && self.key() < other.key()
    }

    /// Wraps a bit pattern.
    pub fn from_bits(bits: u32) -> (v: Ieee32)
        ensures
            v.bits == bits,
    {
        Ieee32 { bits }
    }

    /// Tells whether the bits encode no number.
    pub fn nan(&self) -> (r: bool)
        ensures
            r == self.is_nan(),
    {
        if self.bits >= SIGN_BIT {
            self.bits - SIGN_BIT > INFINITY_BITS
        } else {
            self.bits > INFINITY_BITS
        }
    }

    /// Computes the ordering key.
    pub fn order_key(&self) -> (k: i64)
        ensures
            k == self.key(),
    {
        if self.bits >= SIGN_BIT {
            let m: u32 = self.bits - SIGN_BIT;
            -(m as i64)
        } else {
            self.bits as i64
        }
    }

    /// Decides `self <= other`.
    pub fn at_most(&self, other: &Ieee32) -> (r: bool)
        ensures
            r == self.le(*other),
    {
        !self.nan() && !other.nan() && self.order_key() <= other.order_key()
    }

    /// Decides `self < other`.
    pub fn less_than(&self, other: &Ieee32) -> (r: bool)
        ensures
            r == self.lt(*other),
    {
        !self.nan() && !other.nan() && self.order_key() < other.order_key()
    }
}

/// Two numbers.
#[derive(Clone, Copy, Debug, PartialEq, Eq, Structural)]
pub struct Vector2 {
    pub x: Ieee32,
    pub y: Ieee32,
}

/// Three numbers: a position, a direction or a scale.
#[derive(Clone, Copy, Debug, PartialEq, Eq, Structural)]
pub struct Vector3 {
    pub x: Ieee32,
    pub y: Ieee32,
    pub z: Ieee32,
}

/// Four numbers: a weight quad, or a rotation quaternion as `(x, y, z, w)`.
#[derive(Clone, Copy, Debug, PartialEq, Eq, Structural)]
pub struct Vector4 {
    pub x: Ieee32,
    pub y: Ieee32,
    pub z: Ieee32,
    pub w: Ieee32,
}

/// The four bone references of one vertex.
#[derive(Clone, Copy, Debug, PartialEq, Eq, Structural)]
pub struct U16Vec4 {
    pub x: u16,
    pub y: u16,
    pub z: u16,
    pub w: u16,
}

} // verus!
