//! Points of the BN254 groups over the base field and over its quadratic extension.
//!
//! Points are built from their affine coordinates without checking that they lie
//! on the curve: callers that need that assurance must check it themselves.

use crate::field::Fq;
use vstd::prelude::*;

verus! {

/// An element `c0 + c1 * u` of the quadratic extension of the base field.
#[derive(Clone, Copy, Debug, PartialEq, Eq, Structural)]
pub struct Fq2 {
    pub c0: Fq,
    pub c1: Fq,
}

impl Fq2 {
    pub fn new(c0: Fq, c1: Fq) -> (r: Fq2)
        ensures
            r == (Fq2 { c0, c1 }),
    {
        Fq2 { c0, c1 }
    }

    /// Whether both components are zero.
    pub fn is_zero(&self) -> (r: bool)
        ensures
            r == (self.c0.value() == 0 && self.c1.value() == 0),
    {
        self.c0.is_zero() && self.c1.is_zero()
    }
}

/// A point of the group over the base field.
#[derive(Clone, Copy, Debug, PartialEq, Eq, Structural)]
pub enum G1Point {
    /// The point at infinity.
    Identity,
    /// The affine point `(x, y)`, taken as given.
    Affine { x: Fq, y: Fq },
}

/// A point of the group over the quadratic extension field.
#[derive(Clone, Copy, Debug, PartialEq, Eq, Structural)]
pub enum G2Point {
    /// The point at infinity.
    Identity,
    /// The affine point `(x, y)`, taken as given.
    Affine { x: Fq2, y: Fq2 },
}

/// `p` is the point built from coordinates whose residues are `x` and `y`.
pub open spec fn g1_from_values(p: G1Point, x: nat, y: nat) -> bool {
    if x == 0 && y == 0 {
        p is Identity
    } else {
        p matches G1Point::Affine { x: px, y: py } && px.value() == x && py.value() == y
    }
}

/// `p` is the point built from extension coordinates `x = x0 + x1 u` and
/// `y = y0 + y1 u`, given by the residues of their components.
pub open spec fn g2_from_values(p: G2Point, x0: nat, x1: nat, y0: nat, y1: nat) -> bool {
    if x0 == 0 && x1 == 0 && y0 == 0 && y1 == 0 {
        p is Identity
    } else {
        p matches G2Point::Affine { x: px, y: py } && px.c0.value() == x0 && px.c1.value() == x1
            && py.c0.value() == y0 && py.c1.value() == y1
    }
}

impl G1Point {
    pub fn identity() -> (r: G1Point)
        ensures
            r is Identity,
    {
        G1Point::Identity
    }

    /// The affine point `(x, y)`, with no check that it lies on the curve.
    pub fn new_unchecked(x: Fq, y: Fq) -> (r: G1Point)
        ensures
            r == (G1Point::Affine { x, y }),
    {
        G1Point::Affine { x, y }
    }

    /// The point with coordinates `(x, y)`, where `(0, 0)` stands for the point at
    /// infinity.
    pub fn from_coordinates(x: Fq, y: Fq) -> (r: G1Point)
        ensures
            g1_from_values(r, x.value(), y.value()),
            !(x.value() == 0 && y.value() == 0) ==> r == (G1Point::Affine { x, y }),
    {
        if x.is_zero() && y.is_zero() {
            G1Point::identity()
        } else {
            G1Point::new_unchecked(x, y)
        }
    }

    /// Whether this is the point at infinity.
    pub fn is_zero(&self) -> (r: bool)
        ensures
            r == self is Identity,
    {
        match self {
            G1Point::Identity => true,
            G1Point::Affine { .. } => false,
        }
    }
}

impl G2Point {
    pub fn identity() -> (r: G2Point)
        ensures
            r is Identity,
    {
        G2Point::Identity
    }

    /// The affine point `(x, y)`, with no check that it lies on the curve.
    pub fn new_unchecked(x: Fq2, y: Fq2) -> (r: G2Point)
        ensures
            r == (G2Point::Affine { x, y }),
    {
        G2Point::Affine { x, y }
    }

    /// The point with coordinates `(x, y)`, where `(0, 0)` stands for the point at
    /// infinity.
    pub fn from_coordinates(x: Fq2, y: Fq2) -> (r: G2Point)
        ensures
            g2_from_values(r, x.c0.value(), x.c1.value(), y.c0.value(), y.c1.value()),
            !(x.is_zero_spec() && y.is_zero_spec()) ==> r == (G2Point::Affine { x, y }),
    {
        if x.is_zero() && y.is_zero() {
            G2Point::identity()
        } else {
            G2Point::new_unchecked(x, y)
        }
    }

    /// Whether this is the point at infinity.
    pub fn is_zero(&self) -> (r: bool)
        ensures
            r == self is Identity,
    {
        match self {
            G2Point::Identity => true,
            G2Point::Affine { .. } => false,
        }
    }
}

impl Fq2 {
    pub open spec fn is_zero_spec(self) -> bool {
        self.c0.value() == 0 && self.c1.value() == 0
    }
}

} // verus!
