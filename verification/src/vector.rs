//! Plane vectors over binary64 bit patterns.

use vstd::prelude::*;
use crate::ieee::{
    difference, difference_spec, neg, neg_spec, product_spec, quotient_spec, root, soft_product,
    soft_quotient, soft_sum, sqrt_spec, sum_spec,
};

verus! {

/// A point or displacement in the plane; each component is the bit pattern of
/// a binary64 number. Two vectors are equal when their patterns are.
#[derive(Clone, Copy, Debug, PartialEq, Eq, Hash, Default, Structural)]
pub struct Vector2D(pub u64, pub u64);

impl Vector2D {
    /// Component-wise sum.
    pub open spec fn plus_spec(self, other: Vector2D) -> Vector2D {
        Vector2D(sum_spec(self.0, other.0), sum_spec(self.1, other.1))
    }

    /// Component-wise difference.
    pub open spec fn minus_spec(self, other: Vector2D) -> Vector2D {
        Vector2D(difference_spec(self.0, other.0), difference_spec(self.1, other.1))
    }

    /// Both components multiplied by `factor`.
    pub open spec fn scaled_spec(self, factor: u64) -> Vector2D {
        Vector2D(product_spec(self.0, factor), product_spec(self.1, factor))
    }

    /// Both components divided by `divisor`.
    pub open spec fn divided_spec(self, divisor: u64) -> Vector2D {
        Vector2D(quotient_spec(self.0, divisor), quotient_spec(self.1, divisor))
    }

    /// Both components with the sign flipped.
    pub open spec fn negated_spec(self) -> Vector2D {
        Vector2D(neg_spec(self.0), neg_spec(self.1))
    }

    /// `x1 * x2 + y1 * y2`.
    pub open spec fn dot_spec(self, other: Vector2D) -> u64 {
        sum_spec(product_spec(self.0, other.0), product_spec(self.1, other.1))
    }

    /// `x1 * y2 - y1 * x2`.
    pub open spec fn cross_spec(self, other: Vector2D) -> u64 {
        difference_spec(product_spec(self.0, other.1), product_spec(self.1, other.0))
    }

    /// The squared length, `x * x + y * y`.
    pub open spec fn length_squared_spec(self) -> u64 {
        self.dot_spec(self)
    }

    /// The length.
    pub open spec fn length_spec(self) -> u64 {
        sqrt_spec(self.length_squared_spec())
    }

    /// The squared length of `self - other`.
    pub open spec fn distance_squared_spec(self, other: Vector2D) -> u64 {
        self.minus_spec(other).length_squared_spec()
    }

    /// The vector turned a quarter turn to the left: `(y, -x)`.
    pub open spec fn rotate90_left_spec(self) -> Vector2D {
        Vector2D(self.1, neg_spec(self.0))
    }

    /// The vector turned a quarter turn to the right: `(-y, x)`.
    pub open spec fn rotate90_right_spec(self) -> Vector2D {
        Vector2D(neg_spec(self.1), self.0)
    }

    /// The vector divided by its own length.
    pub open spec fn normalize_spec(self) -> Vector2D {
        self.divided_spec(self.length_spec())
    }

    /// Component-wise sum.
    pub fn plus(self, other: Vector2D) -> (r: Vector2D)
        ensures
            r == self.plus_spec(other),
    {
        Vector2D(soft_sum(self.0, other.0), soft_sum(self.1, other.1))
    }

    /// Component-wise difference.
    pub fn minus(self, other: Vector2D) -> (r: Vector2D)
        ensures
            r == self.minus_spec(other),
    {
        Vector2D(difference(self.0, other.0), difference(self.1, other.1))
    }

    /// Both components multiplied by `factor`.
    pub fn scaled(self, factor: u64) -> (r: Vector2D)
        ensures
            r == self.scaled_spec(factor),
    {
        Vector2D(soft_product(self.0, factor), soft_product(self.1, factor))
    }

    /// Both components divided by `divisor`.
    pub fn divided(self, divisor: u64) -> (r: Vector2D)
        ensures
            r == self.divided_spec(divisor),
    {
        Vector2D(soft_quotient(self.0, divisor), soft_quotient(self.1, divisor))
    }

    /// Both components with the sign flipped.
    pub fn negated(self) -> (r: Vector2D)
        ensures
            r == self.negated_spec(),
    {
        Vector2D(neg(self.0), neg(self.1))
    }

    /// The dot product.
    pub fn dot_product(self, other: Vector2D) -> (r: u64)
        ensures
            r == self.dot_spec(other),
    {
        soft_sum(soft_product(self.0, other.0), soft_product(self.1, other.1))
    }

    /// The cross product, a single number in the plane.
    pub fn cross_product(self, other: Vector2D) -> (r: u64)
        ensures
            r == self.cross_spec(other),
    {
        difference(soft_product(self.0, other.1), soft_product(self.1, other.0))
    }

    /// The squared length.
    pub fn length_squared(self) -> (r: u64)
        ensures
            r == self.length_squared_spec(),
    {
        self.dot_product(self)
    }

    /// The length.
    pub fn length(self) -> (r: u64)
        ensures
            r == self.length_spec(),
    {
        root(self.length_squared())
    }

    /// The squared distance to `other`.
    pub fn distance_squared(self, other: Vector2D) -> (r: u64)
        ensures
            r == self.distance_squared_spec(other),
    {
        self.minus(other).length_squared()
    }

    /// The vector turned a quarter turn to the left.
    pub fn rotate90_left(self) -> (r: Vector2D)
        ensures
            r == self.rotate90_left_spec(),
    {
        Vector2D(self.1, neg(self.0))
    }

    /// The vector turned a quarter turn to the right.
    pub fn rotate90_right(self) -> (r: Vector2D)
        ensures
            r == self.rotate90_right_spec(),
    {
        Vector2D(neg(self.1), self.0)
    }

    /// The vector divided by its own length.
    pub fn normalize(self) -> (r: Vector2D)
        ensures
            r == self.normalize_spec(),
    {
        self.divided(self.length())
    }
}

} // verus!
