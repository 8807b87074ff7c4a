//! Moving and scaling points, fitting them into a box, and projecting them
//! onto the drawing plane.

use crate::error::PlantError;
use crate::fixed::{Fixed, SCALE};
use crate::utils::geometry::bounds::Box3D;
use crate::utils::geometry::{
    all_points, outlines, Point2D, Point3D, ScreenPoint, Vector3D, WorldPoint, WorldSpace,
};
use vstd::prelude::*;

verus! {

/// A move followed by a scaling along each axis.
#[derive(Debug, PartialEq, Eq)]
pub struct Transform3D<U> {
    pub offset: Vector3D<U>,
    pub scale: Vector3D<U>,
}

/// A transform of the space that the leaf grows in.
pub type WorldTransform = Transform3D<WorldSpace>;

impl<U> Clone for Transform3D<U> {
    fn clone(&self) -> (copy: Self)
        ensures
            copy == *self,
    {
        *self
    }
}

impl<U> Copy for Transform3D<U> {

}

/// The share of the target box that fitted points take up along each axis.
pub open spec fn inset() -> Fixed {
    Fixed::of(950_000)
}

/// By how much a number is to be moved so that the middle of `low` and
/// `high` comes to lie at zero.
pub open spec fn recentring(low: Fixed, high: Fixed) -> Fixed {
    low.sum(high).opposite().ratio(Fixed::of(2 * SCALE))
}

impl<U> Transform3D<U> {
    /// The transform that moves by the given amounts and scales by one.
    pub open spec fn moving(x: Fixed, y: Fixed, z: Fixed) -> Self {
        Transform3D {
            offset: Vector3D::at(x, y, z),
            scale: Vector3D::at(Fixed::of(SCALE as int), Fixed::of(SCALE as int), Fixed::of(SCALE as int)),
        }
    }

    /// This transform with a further scaling along each axis.
    pub open spec fn scaled_by(self, x: Fixed, y: Fixed, z: Fixed) -> Self {
        Transform3D {
            offset: self.offset,
            scale: Vector3D::at(
                self.scale.x.product(x),
                self.scale.y.product(y),
                self.scale.z.product(z),
            ),
        }
    }

    /// Where the transform takes the point: moved first, scaled second.
    pub open spec fn image(self, p: Point3D<U>) -> Point3D<U> {
        Point3D::at(
            p.x.sum(self.offset.x).product(self.scale.x),
            p.y.sum(self.offset.y).product(self.scale.y),
            p.z.sum(self.offset.z).product(self.scale.z),
        )
    }

    /// Where the transform takes each point of each polygon.
    pub open spec fn images(self, polygons: Seq<Seq<Point3D<U>>>) -> Seq<Seq<Point3D<U>>> {
        Seq::new(
            polygons.len(),
            |i: int| Seq::new(polygons[i].len(), |j: int| self.image(polygons[i][j])),
        )
    }

    /// The transform that takes the middle of `source` to the origin and
    /// scales each axis so that `source` takes up the inset share of the
    /// extent of `destination`.
    pub open spec fn fitting(source: Box3D<U>, destination: Box3D<U>) -> Self {
        Self::moving(
            recentring(source.min.x, source.max.x),
            recentring(source.min.y, source.max.y),
            recentring(source.min.z, source.max.z),
        ).scaled_by(
            destination.extent_x().ratio(source.extent_x()),
            destination.extent_y().ratio(source.extent_y()),
            destination.extent_z().ratio(source.extent_z()),
        ).scaled_by(inset(), inset(), inset())
    }

    /// What fitting the polygons into `destination` gives: the polygons
    /// under the fitting transform, or the reason why there is none.
    pub open spec fn fitted(polygons: Seq<Seq<Point3D<U>>>, destination: Box3D<U>) -> Result<
        Seq<Seq<Point3D<U>>>,
        PlantError,
    > {
        match Box3D::grown_over(all_points(polygons)) {
            None => Err(PlantError::EmptyGeometry),
            Some(source) => if source.is_flat() || destination.is_flat() {
                Err(PlantError::DegenerateBox)
            } else {
                Ok(Self::fitting(source, destination).images(polygons))
            },
        }
    }

    /// The transform that moves by the given amounts.
    pub fn translation(x: Fixed, y: Fixed, z: Fixed) -> (t: Self)
        ensures
            t == Self::moving(x, y, z),
    {
        Transform3D { offset: Vector3D::new(x, y, z), scale: Vector3D::one() }
    }

    /// This transform with a scaling applied after it.
    pub fn then_scale(&self, x: Fixed, y: Fixed, z: Fixed) -> (t: Self)
        ensures
            t == self.scaled_by(x, y, z),
    {
        Transform3D {
            offset: self.offset,
            scale: Vector3D::new(
                self.scale.x.times(x),
                self.scale.y.times(y),
                self.scale.z.times(z),
            ),
        }
    }

    /// The point, moved and scaled.
    pub fn transform_point3d(&self, p: Point3D<U>) -> (q: Point3D<U>)
        ensures
            q == self.image(p),
    {
        Point3D::new(
            p.x.plus(self.offset.x).times(self.scale.x),
            p.y.plus(self.offset.y).times(self.scale.y),
            p.z.plus(self.offset.z).times(self.scale.z),
        )
    }

    /// The transform that fits `source` into `destination`, centred on the
    /// origin and inset from the faces. There is none where either box is
    /// flat along an axis.
    pub fn fit(source: &Box3D<U>, destination: &Box3D<U>) -> (result: Result<Self, PlantError>)
        ensures
            result == if source.is_flat() || destination.is_flat() {
                Err::<Self, PlantError>(PlantError::DegenerateBox)
            } else {
                Ok::<Self, PlantError>(Self::fitting(*source, *destination))
            },
    {
        let width = source.width();
        let height = source.height();
        let depth = source.depth();
        if width.is_zero() || height.is_zero() || depth.is_zero() {
            return Err(PlantError::DegenerateBox);
        }
        let target_width = destination.width();
        let target_height = destination.height();
        let target_depth = destination.depth();
        if target_width.is_zero() || target_height.is_zero() || target_depth.is_zero() {
            return Err(PlantError::DegenerateBox);
        }
        let two = Fixed::from_int(2);
        let margin = Fixed::from_micros(950_000);
        let moved = Self::translation(
            source.min.x.plus(source.max.x).negated().over(two),
            source.min.y.plus(source.max.y).negated().over(two),
            source.min.z.plus(source.max.z).negated().over(two),
        );
        let scaled = moved.then_scale(
            target_width.over(width),
            target_height.over(height),
            target_depth.over(depth),
        );
        Ok(scaled.then_scale(margin, margin, margin))
    }

    /// Fits the polygons into `destination`: their bounding box is centred
    /// on the origin and scaled, axis by axis, to the inset share of the
    /// extent of `destination`. Polygons and points keep their order.
    pub fn fit_polygons(polygons: &Vec<Vec<Point3D<U>>>, destination: &Box3D<U>) -> (result: Result<
        Vec<Vec<Point3D<U>>>,
        PlantError,
    >)
        ensures
            match Self::fitted(outlines(polygons@), *destination) {
                Ok(shapes) => result matches Ok(fitted) && outlines(fitted@) == shapes,
                Err(e) => result == Err::<Vec<Vec<Point3D<U>>>, PlantError>(e),
            },
    {
        let source = match Box3D::from_points(polygons) {
            Ok(source) => source,
            Err(_) => {
                return Err(PlantError::EmptyGeometry);
            },
        };
        let transform = match Self::fit(&source, destination) {
            Ok(transform) => transform,
            Err(_) => {
                return Err(PlantError::DegenerateBox);
            },
        };
        let mut fitted: Vec<Vec<Point3D<U>>> = Vec::new();
        let mut i: usize = 0;
        while i < polygons.len()
            invariant
                i <= polygons.len(),
                fitted@.len() == i,
                forall|a: int|
                    0 <= a < i ==> (#[trigger] fitted@[a])@ == Seq::new(
                        polygons@[a]@.len(),
                        |j: int| transform.image(polygons@[a]@[j]),
                    ),
            decreases polygons.len() - i,
        {
            let polygon = &polygons[i];
            let mut moved: Vec<Point3D<U>> = Vec::new();
            let mut j: usize = 0;
            while j < polygon.len()
                invariant
                    j <= polygon.len(),
                    moved@.len() == j,
                    forall|b: int| 0 <= b < j ==> #[trigger] moved@[b] == transform.image(polygon@[b]),
                decreases polygon.len() - j,
            {
                moved.push(transform.transform_point3d(polygon[j]));
                j += 1;
            }
            assert(moved@ == Seq::new(polygon@.len(), |j: int| transform.image(polygon@[j])));
            fitted.push(moved);
            i += 1;
        }
        assert(outlines(fitted@) == transform.images(outlines(polygons@)));
        Ok(fitted)
    }
}

/// A view of the world from a point on the third axis, onto the plane
/// through the origin.
#[derive(Clone, Copy, Debug, PartialEq, Eq)]
pub struct ProjectionMatrix {
    /// How far the eye is from the plane.
    pub distance: Fixed,
}

impl ProjectionMatrix {
    /// By how much a point at this height is brought nearer to the axis:
    /// one, less the height as a share of the distance of the eye.
    pub open spec fn divisor(self, p: WorldPoint) -> Fixed {
        Fixed::of(SCALE as int).difference(p.z.ratio(self.distance))
    }

    /// Where the point is seen on the plane; `None` where the eye is in the
    /// plane, or the point level with the eye or behind it.
    pub open spec fn seen(self, p: WorldPoint) -> Option<ScreenPoint> {
        if self.distance@ != 0 && self.divisor(p)@ > 0 {
            Some(ScreenPoint::at(p.x.ratio(self.divisor(p)), p.y.ratio(self.divisor(p))))
        } else {
            None
        }
    }

    /// The points that can be seen, in order, each where it is seen.
    pub open spec fn seen_path(self, points: Seq<WorldPoint>) -> Seq<ScreenPoint>
        decreases points.len(),
    {
        if points.len() == 0 {
            Seq::empty()
        } else {
            match self.seen(points.last()) {
                Some(q) => self.seen_path(points.drop_last()).push(q),
                None => self.seen_path(points.drop_last()),
            }
        }
    }

    /// What can be seen of some points is no more than the points.
    pub proof fn lemma_seen_path_is_no_longer(self, points: Seq<WorldPoint>)
        ensures
            self.seen_path(points).len() <= points.len(),
        decreases points.len(),
    {
        if points.len() > 0 {
            self.lemma_seen_path_is_no_longer(points.drop_last());
        }
    }

    /// The view from the given distance.
    pub fn perspective(d: Fixed) -> (projection: Self)
        ensures
            projection.distance == d,
    {
        ProjectionMatrix { distance: d }
    }

    /// Where the point is seen on the plane, if it can be seen.
    pub fn transform_point3d(&self, p: WorldPoint) -> (q: Option<ScreenPoint>)
        ensures
            q == self.seen(p),
    {
        if self.distance.is_zero() {
            return None;
        }
        let w = Fixed::one().minus(p.z.over(self.distance));
        if w.greater_than(Fixed::zero()) {
            Some(Point2D::new(p.x.over(w), p.y.over(w)))
        } else {
            None
        }
    }

    /// Projects every polygon: each keeps its place, and holds the points of
    /// it that can be seen, in order.
    pub fn project_polygons(&self, polygons: &Vec<Vec<WorldPoint>>) -> (projected: Vec<
        Vec<ScreenPoint>,
    >)
        ensures
            projected@.len() == polygons@.len(),
            forall|i: int|
                0 <= i < polygons@.len() ==> (#[trigger] projected@[i])@ == self.seen_path(
                    polygons@[i]@,
                ),
    {
        let mut projected: Vec<Vec<ScreenPoint>> = Vec::new();
        let mut i: usize = 0;
        while i < polygons.len()
            invariant
                i <= polygons.len(),
                projected@.len() == i,
                forall|a: int|
                    0 <= a < i ==> (#[trigger] projected@[a])@ == self.seen_path(polygons@[a]@),
            decreases polygons.len() - i,
        {
            let polygon = &polygons[i];
            let mut path: Vec<ScreenPoint> = Vec::new();
            let mut j: usize = 0;
            assert(polygon@.take(0) == Seq::<WorldPoint>::empty());
            while j < polygon.len()
                invariant
                    j <= polygon.len(),
                    path@ == self.seen_path(polygon@.take(j as int)),
                decreases polygon.len() - j,
            {
                proof {
                    assert(polygon@.take(j + 1).drop_last() == polygon@.take(j as int));
                    assert(polygon@.take(j + 1).last() == polygon@[j as int]);
                }
                match self.transform_point3d(polygon[j]) {
                    Some(q) => path.push(q),
                    None => {},
                }
                j += 1;
            }
            assert(polygon@.take(j as int) == polygon@);
            projected.push(path);
            i += 1;
        }
        projected
    }
}

} // verus!
