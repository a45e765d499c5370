//! Homogeneous tuples: points and vectors in three dimensions.

use crate::binary64::{
    is_near_one, is_near_zero, lemma_near_one_range, lemma_near_zero_range, lemma_negated,
    near_one, near_zero, negate, negated, ONE, ZERO,
};
use vstd::prelude::*;

verus! {

/// Four binary64 components, each held as its bit pattern. A `w` of 1.0
/// marks a point, a `w` of 0.0 a vector.
#[derive(Clone, Copy, Debug, PartialEq, Eq, Structural)]
pub struct Tuple {
    pub x: u64,
    pub y: u64,
    pub z: u64,
    pub w: u64,
}

impl Tuple {
    /// The tuple is a point: its `w` is within the tolerance of 1.0.
    pub open spec fn spec_is_point(self) -> bool {
        near_one(self.w)
    }

    /// The tuple is a vector: its `w` is within the tolerance of 0.0.
    pub open spec fn spec_is_vector(self) -> bool {
        near_zero(self.w)
    }

    /// The tuple with the sign of every component flipped.
    pub open spec fn spec_neg(self) -> Tuple {
        Tuple {
            x: negated(self.x),
            y: negated(self.y),
            z: negated(self.z),
            w: negated(self.w),
        }
    }

    /// Whether the tuple is a point.
    pub fn is_point(&self) -> (point: bool)
        ensures
            point == self.spec_is_point(),
    {
        is_near_one(self.w)
    }

    /// Whether the tuple is a vector.
    pub fn is_vector(&self) -> (vector: bool)
        ensures
            vector == self.spec_is_vector(),
    {
        is_near_zero(self.w)
    }

    /// A tuple from the bit patterns of its four components.
    pub fn new(x: u64, y: u64, z: u64, w: u64) -> (tuple: Tuple)
        ensures
            tuple == (Tuple { x, y, z, w }),
    {
        Tuple { x, y, z, w }
    }

    /// The point at the given coordinates: a point, and no vector.
    pub fn new_point(x: u64, y: u64, z: u64) -> (point: Tuple)
        ensures
            point == (Tuple { x, y, z, w: ONE }),
            point.spec_is_point(),
            !point.spec_is_vector(),
    {
        proof {
            lemma_point_and_vector(x, y, z);
        }
        Tuple { x, y, z, w: ONE }
    }

    /// The vector with the given coordinates: a vector, and no point.
    pub fn new_vector(x: u64, y: u64, z: u64) -> (vector: Tuple)
        ensures
            vector == (Tuple { x, y, z, w: ZERO }),
            vector.spec_is_vector(),
            !vector.spec_is_point(),
    {
        proof {
            lemma_point_and_vector(x, y, z);
        }
        Tuple { x, y, z, w: ZERO }
    }

    /// The tuple with the sign of every component flipped.
    pub fn neg(&self) -> (flipped: Tuple)
        ensures
            flipped == self.spec_neg(),
    {
        Tuple { x: negate(self.x), y: negate(self.y), z: negate(self.z), w: negate(self.w) }
    }
}

/// Whatever its coordinates, a tuple with a `w` of 1.0 is a point and no
/// vector, and a tuple with a `w` of 0.0 is a vector and no point.
pub proof fn lemma_point_and_vector(x: u64, y: u64, z: u64)
    ensures
        (Tuple { x, y, z, w: ONE }).spec_is_point(),
        !(Tuple { x, y, z, w: ONE }).spec_is_vector(),
        (Tuple { x, y, z, w: ZERO }).spec_is_vector(),
        !(Tuple { x, y, z, w: ZERO }).spec_is_point(),
{
    lemma_near_one_range(ONE);
    lemma_near_zero_range(ONE);
    lemma_near_one_range(ZERO);
    lemma_near_zero_range(ZERO);
}

/// No tuple is both a point and a vector.
pub proof fn lemma_point_is_no_vector(tuple: Tuple)
    ensures
        !(tuple.spec_is_point() && tuple.spec_is_vector()),
{
    lemma_near_one_range(tuple.w);
    lemma_near_zero_range(tuple.w);
}

/// Negating twice gives the tuple back.
pub proof fn lemma_neg_is_involutive(tuple: Tuple)
    ensures
        tuple.spec_neg().spec_neg() == tuple,
{
    lemma_negated(tuple.x);
    lemma_negated(tuple.y);
    lemma_negated(tuple.z);
    lemma_negated(tuple.w);
}

/// Negation keeps a vector a vector.
pub proof fn lemma_neg_of_vector(tuple: Tuple)
    ensures
        tuple.spec_neg().spec_is_vector() == tuple.spec_is_vector(),
{
    lemma_negated(tuple.w);
}

} // verus!
