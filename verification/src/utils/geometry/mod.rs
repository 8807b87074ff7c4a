//! Points, vectors and rotations in fixed-point coordinates, each tagged with
//! the space it lives in.

pub mod bounds;
pub mod inset;
pub mod transform;

use crate::fixed::Fixed;
use std::marker::PhantomData;
use vstd::prelude::*;

verus! {

/// The plane that the leaf is drawn on.
#[derive(Clone, Copy, Debug, PartialEq, Eq)]
pub struct ScreenSpace;

/// The space that the leaf grows in.
#[derive(Clone, Copy, Debug, PartialEq, Eq)]
pub struct WorldSpace;

/// A displacement in the space `U`.
#[derive(Debug, PartialEq, Eq)]
pub struct Vector3D<U> {
    pub x: Fixed,
    pub y: Fixed,
    pub z: Fixed,
    pub unit: PhantomData<U>,
}

/// A place in the space `U`.
#[derive(Debug, PartialEq, Eq)]
pub struct Point3D<U> {
    pub x: Fixed,
    pub y: Fixed,
    pub z: Fixed,
    pub unit: PhantomData<U>,
}

/// A place in the plane `U`.
#[derive(Debug, PartialEq, Eq)]
pub struct Point2D<U> {
    pub x: Fixed,
    pub y: Fixed,
    pub unit: PhantomData<U>,
}

/// A rotation about the vertical axis of the space `U`, held as the cosine
/// and the sine of its angle.
#[derive(Debug, PartialEq, Eq)]
pub struct Rotation3D<U> {
    pub cos: Fixed,
    pub sin: Fixed,
    pub unit: PhantomData<U>,
}

/// The point lists of the polygons, in order.
pub open spec fn outlines<A>(polygons: Seq<Vec<A>>) -> Seq<Seq<A>> {
    Seq::new(polygons.len(), |i: int| polygons[i]@)
}

/// The points of all the polygons in one list: polygon after polygon, each
/// in its own order.
pub open spec fn all_points<A>(polygons: Seq<Seq<A>>) -> Seq<A>
    decreases polygons.len(),
{
    if polygons.len() == 0 {
        Seq::empty()
    } else {
        all_points(polygons.drop_last()) + polygons.last()
    }
}

/// A place on the drawing plane.
pub type ScreenPoint = Point2D<ScreenSpace>;

/// A displacement in the space that the leaf grows in.
pub type WorldVector = Vector3D<WorldSpace>;

/// A place in the space that the leaf grows in.
pub type WorldPoint = Point3D<WorldSpace>;

/// A rotation about the vertical axis of the space that the leaf grows in.
pub type WorldRotation = Rotation3D<WorldSpace>;

impl<U> Clone for Vector3D<U> {
    fn clone(&self) -> (copy: Self)
        ensures
            copy == *self,
    {
        *self
    }
}

impl<U> Copy for Vector3D<U> {

}

impl<U> Clone for Point3D<U> {
    fn clone(&self) -> (copy: Self)
        ensures
            copy == *self,
    {
        *self
    }
}

impl<U> Copy for Point3D<U> {

}

impl<U> Clone for Point2D<U> {
    fn clone(&self) -> (copy: Self)
        ensures
            copy == *self,
    {
        *self
    }
}

impl<U> Copy for Point2D<U> {

}

impl<U> Clone for Rotation3D<U> {
    fn clone(&self) -> (copy: Self)
        ensures
            copy == *self,
    {
        *self
    }
}

impl<U> Copy for Rotation3D<U> {

}

impl<U> Vector3D<U> {
    /// The vector with the given coordinates.
    pub open spec fn at(x: Fixed, y: Fixed, z: Fixed) -> Self {
        Vector3D { x, y, z, unit: PhantomData }
    }

    /// This vector with each coordinate multiplied by `factor`.
    pub open spec fn stretched(self, factor: Fixed) -> Self {
        Self::at(self.x.product(factor), self.y.product(factor), self.z.product(factor))
    }

    /// The sum of the two vectors, coordinate by coordinate.
    pub open spec fn moved(self, by: Self) -> Self {
        Self::at(self.x.sum(by.x), self.y.sum(by.y), self.z.sum(by.z))
    }

    /// The point that this vector leads to from the origin.
    pub open spec fn tip(self) -> Point3D<U> {
        Point3D::at(self.x, self.y, self.z)
    }

    /// The vector with the given coordinates.
    pub fn new(x: Fixed, y: Fixed, z: Fixed) -> (v: Self)
        ensures
            v == Self::at(x, y, z),
    {
        Vector3D { x, y, z, unit: PhantomData }
    }

    /// The vector of length zero.
    pub fn zero() -> (v: Self)
        ensures
            v == Self::at(Fixed::of(0), Fixed::of(0), Fixed::of(0)),
    {
        Self::new(Fixed::zero(), Fixed::zero(), Fixed::zero())
    }

    /// The vector whose coordinates are all one.
    pub fn one() -> (v: Self)
        ensures
            v == Self::at(Fixed::of(1_000_000), Fixed::of(1_000_000), Fixed::of(1_000_000)),
    {
        Self::new(Fixed::one(), Fixed::one(), Fixed::one())
    }

    /// This vector, each coordinate multiplied by `factor`.
    pub fn scaled(self, factor: Fixed) -> (v: Self)
        ensures
            v == self.stretched(factor),
    {
        Self::new(self.x.times(factor), self.y.times(factor), self.z.times(factor))
    }

    /// The sum of the two vectors.
    pub fn plus(self, by: Self) -> (v: Self)
        ensures
            v == self.moved(by),
    {
        Self::new(self.x.plus(by.x), self.y.plus(by.y), self.z.plus(by.z))
    }

    /// The point that this vector leads to from the origin.
    pub fn to_point(self) -> (p: Point3D<U>)
        ensures
            p == self.tip(),
    {
        Point3D::new(self.x, self.y, self.z)
    }
}

impl<U> Point3D<U> {
    /// The point with the given coordinates.
    pub open spec fn at(x: Fixed, y: Fixed, z: Fixed) -> Self {
        Point3D { x, y, z, unit: PhantomData }
    }

    /// The point with the given coordinates.
    pub fn new(x: Fixed, y: Fixed, z: Fixed) -> (p: Self)
        ensures
            p == Self::at(x, y, z),
    {
        Point3D { x, y, z, unit: PhantomData }
    }
}

impl<U> Point2D<U> {
    /// The point with the given coordinates.
    pub open spec fn at(x: Fixed, y: Fixed) -> Self {
        Point2D { x, y, unit: PhantomData }
    }

    /// The point with the given coordinates.
    pub fn new(x: Fixed, y: Fixed) -> (p: Self)
        ensures
            p == Self::at(x, y),
    {
        Point2D { x, y, unit: PhantomData }
    }
}

impl<U> Rotation3D<U> {
    /// The rotation whose angle has the given cosine and sine.
    pub open spec fn of(cos: Fixed, sin: Fixed) -> Self {
        Rotation3D { cos, sin, unit: PhantomData }
    }

    /// This rotation followed by `other`: the angles add up.
    pub open spec fn followed_by(self, other: Self) -> Self {
        Self::of(
            self.cos.product(other.cos).difference(self.sin.product(other.sin)),
            self.sin.product(other.cos).sum(self.cos.product(other.sin)),
        )
    }

    /// The rotation by the opposite angle.
    pub open spec fn reversed(self) -> Self {
        Self::of(self.cos, self.sin.opposite())
    }

    /// The vector turned about the vertical axis; its height is kept.
    pub open spec fn turned(self, v: Vector3D<U>) -> Vector3D<U> {
        Vector3D::at(
            v.x.product(self.cos).difference(v.y.product(self.sin)),
            v.x.product(self.sin).sum(v.y.product(self.cos)),
            v.z,
        )
    }

    /// The rotation whose angle has the given cosine and sine.
    pub fn new(cos: Fixed, sin: Fixed) -> (r: Self)
        ensures
            r == Self::of(cos, sin),
    {
        Rotation3D { cos, sin, unit: PhantomData }
    }

    /// The rotation that turns nothing.
    pub fn identity() -> (r: Self)
        ensures
            r == Self::of(Fixed::of(1_000_000), Fixed::of(0)),
    {
        Self::new(Fixed::one(), Fixed::zero())
    }

    /// The rotation by an eighth of a full turn, to the nearest millionth.
    pub fn eighth_turn() -> (r: Self)
        ensures
            r == Self::of(Fixed::of(707_107), Fixed::of(707_107)),
    {
        Self::new(Fixed::from_micros(707_107), Fixed::from_micros(707_107))
    }

    /// This rotation followed by `other`.
    pub fn compose(&self, other: &Self) -> (r: Self)
        ensures
            r == self.followed_by(*other),
    {
        Self::new(
            self.cos.times(other.cos).minus(self.sin.times(other.sin)),
            self.sin.times(other.cos).plus(self.cos.times(other.sin)),
        )
    }

    /// The rotation by the opposite angle.
    pub fn inverse(&self) -> (r: Self)
        ensures
            r == self.reversed(),
    {
        Self::new(self.cos, self.sin.negated())
    }

    /// The vector, turned about the vertical axis.
    pub fn transform_vector3d(&self, v: Vector3D<U>) -> (r: Vector3D<U>)
        ensures
            r == self.turned(v),
    {
        Vector3D::new(
            v.x.times(self.cos).minus(v.y.times(self.sin)),
            v.x.times(self.sin).plus(v.y.times(self.cos)),
            v.z,
        )
    }
}

} // verus!
