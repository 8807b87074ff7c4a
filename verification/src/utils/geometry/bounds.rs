//! Boxes with sides along the axes, and the smallest box around a set of
//! points.

use crate::error::PlantError;
use crate::fixed::Fixed;
use crate::utils::geometry::{all_points, outlines, Point3D, WorldSpace};
use vstd::prelude::*;

verus! {

/// A box with sides along the axes, given by its lowest and its highest
/// corner.
#[derive(Debug, PartialEq, Eq)]
pub struct Box3D<U> {
    pub min: Point3D<U>,
    pub max: Point3D<U>,
}

/// A box in the space that the leaf grows in.
pub type WorldBox = Box3D<WorldSpace>;

impl<U> Clone for Box3D<U> {
    fn clone(&self) -> (copy: Self)
        ensures
            copy == *self,
    {
        *self
    }
}

impl<U> Copy for Box3D<U> {

}

impl<U> Box3D<U> {
    /// Whether the point lies in the box, its faces included.
    pub open spec fn holds(self, p: Point3D<U>) -> bool {
        &&& self.min.x@ <= p.x@ <= self.max.x@
        &&& self.min.y@ <= p.y@ <= self.max.y@
        &&& self.min.z@ <= p.z@ <= self.max.z@
    }

    /// The box that holds `p` and nothing else.
    pub open spec fn around(p: Point3D<U>) -> Self {
        Box3D { min: p, max: p }
    }

    /// The smallest box that holds this box and `p`.
    pub open spec fn widened(self, p: Point3D<U>) -> Self {
        Box3D {
            min: Point3D::at(
                if p.x@ < self.min.x@ { p.x } else { self.min.x },
                if p.y@ < self.min.y@ { p.y } else { self.min.y },
                if p.z@ < self.min.z@ { p.z } else { self.min.z },
            ),
            max: Point3D::at(
                if p.x@ > self.max.x@ { p.x } else { self.max.x },
                if p.y@ > self.max.y@ { p.y } else { self.max.y },
                if p.z@ > self.max.z@ { p.z } else { self.max.z },
            ),
        }
    }

    /// The box grown point by point over `points`; `None` where there is no
    /// point.
    pub open spec fn grown_over(points: Seq<Point3D<U>>) -> Option<Self>
        decreases points.len(),
    {
        if points.len() == 0 {
            None
        } else {
            match Self::grown_over(points.drop_last()) {
                None => Some(Self::around(points.last())),
                Some(b) => Some(b.widened(points.last())),
            }
        }
    }

    /// Whether this is the smallest box that holds all the points: it holds
    /// each, and each of its six faces goes through one of them.
    pub open spec fn is_bounding_box_of(self, points: Seq<Point3D<U>>) -> bool {
        &&& forall|k: int| 0 <= k < points.len() ==> self.holds(#[trigger] points[k])
        &&& exists|k: int| 0 <= k < points.len() && (#[trigger] points[k]).x == self.min.x
        &&& exists|k: int| 0 <= k < points.len() && (#[trigger] points[k]).y == self.min.y
        &&& exists|k: int| 0 <= k < points.len() && (#[trigger] points[k]).z == self.min.z
        &&& exists|k: int| 0 <= k < points.len() && (#[trigger] points[k]).x == self.max.x
        &&& exists|k: int| 0 <= k < points.len() && (#[trigger] points[k]).y == self.max.y
        &&& exists|k: int| 0 <= k < points.len() && (#[trigger] points[k]).z == self.max.z
    }

    /// Its extent along the first axis.
    pub open spec fn extent_x(self) -> Fixed {
        self.max.x.difference(self.min.x)
    }

    /// Its extent along the second axis.
    pub open spec fn extent_y(self) -> Fixed {
        self.max.y.difference(self.min.y)
    }

    /// Its extent along the third axis.
    pub open spec fn extent_z(self) -> Fixed {
        self.max.z.difference(self.min.z)
    }

    /// Whether the box is flat along one of its axes.
    pub open spec fn is_flat(self) -> bool {
        self.extent_x()@ == 0 || self.extent_y()@ == 0 || self.extent_z()@ == 0
    }

    /// The box grown over some points is the smallest box around them.
    pub proof fn lemma_grown_is_bounding_box(points: Seq<Point3D<U>>)
        requires
            points.len() > 0,
        ensures
            Self::grown_over(points) matches Some(b) && b.is_bounding_box_of(points),
        decreases points.len(),
    {
        let rest = points.drop_last();
        let last = points.last();
        let n = points.len() - 1;
        assert(points[n] == last);
        if rest.len() == 0 {
            let b = Self::around(last);
            assert(b.is_bounding_box_of(points));
        } else {
            Self::lemma_grown_is_bounding_box(rest);
            let inner = Self::grown_over(rest)->Some_0;
            let b = inner.widened(last);
            assert forall|k: int| 0 <= k < points.len() implies b.holds(#[trigger] points[k]) by {
                if k < n {
                    assert(inner.holds(rest[k]));
                }
            }
            let kx = choose|k: int| 0 <= k < rest.len() && (#[trigger] rest[k]).x == inner.min.x;
            let ky = choose|k: int| 0 <= k < rest.len() && (#[trigger] rest[k]).y == inner.min.y;
            let kz = choose|k: int| 0 <= k < rest.len() && (#[trigger] rest[k]).z == inner.min.z;
            let lx = choose|k: int| 0 <= k < rest.len() && (#[trigger] rest[k]).x == inner.max.x;
            let ly = choose|k: int| 0 <= k < rest.len() && (#[trigger] rest[k]).y == inner.max.y;
            let lz = choose|k: int| 0 <= k < rest.len() && (#[trigger] rest[k]).z == inner.max.z;
            assert(points[kx] == rest[kx] && points[ky] == rest[ky] && points[kz] == rest[kz]);
            assert(points[lx] == rest[lx] && points[ly] == rest[ly] && points[lz] == rest[lz]);
            assert(points[if last.x@ < inner.min.x@ { n } else { kx }].x == b.min.x);
            assert(points[if last.y@ < inner.min.y@ { n } else { ky }].y == b.min.y);
            assert(points[if last.z@ < inner.min.z@ { n } else { kz }].z == b.min.z);
            assert(points[if last.x@ > inner.max.x@ { n } else { lx }].x == b.max.x);
            assert(points[if last.y@ > inner.max.y@ { n } else { ly }].y == b.max.y);
            assert(points[if last.z@ > inner.max.z@ { n } else { lz }].z == b.max.z);
            assert(b.is_bounding_box_of(points));
        }
    }

    /// The box between the two corners.
    pub fn new(min: Point3D<U>, max: Point3D<U>) -> (b: Self)
        ensures
            b.min == min,
            b.max == max,
    {
        Box3D { min, max }
    }

    /// The extent along the first axis.
    pub fn width(&self) -> (extent: Fixed)
        ensures
            extent == self.extent_x(),
    {
        self.max.x.minus(self.min.x)
    }

    /// The extent along the second axis.
    pub fn height(&self) -> (extent: Fixed)
        ensures
            extent == self.extent_y(),
    {
        self.max.y.minus(self.min.y)
    }

    /// The extent along the third axis.
    pub fn depth(&self) -> (extent: Fixed)
        ensures
            extent == self.extent_z(),
    {
        self.max.z.minus(self.min.z)
    }

    /// This box, made to hold `p` too.
    fn widen(self, p: Point3D<U>) -> (b: Self)
        ensures
            b == self.widened(p),
    {
        Box3D {
            min: Point3D::new(
                p.x.lower(self.min.x),
                p.y.lower(self.min.y),
                p.z.lower(self.min.z),
            ),
            max: Point3D::new(
                p.x.upper(self.max.x),
                p.y.upper(self.max.y),
                p.z.upper(self.max.z),
            ),
        }
    }

    /// The smallest box around all the points of all the polygons.
    pub fn from_points(polygons: &Vec<Vec<Point3D<U>>>) -> (result: Result<Self, PlantError>)
        ensures
            match result {
                Ok(b) => Self::grown_over(all_points(outlines(polygons@))) == Some(b)
                    && b.is_bounding_box_of(all_points(outlines(polygons@))),
                Err(e) => e == PlantError::EmptyGeometry && all_points(outlines(polygons@)).len()
                    == 0,
            },
    {
        let mut found: Option<Self> = None;
        let ghost shapes = outlines(polygons@);
        let mut i: usize = 0;
        assert(shapes.take(0) == Seq::<Seq<Point3D<U>>>::empty());
        while i < polygons.len()
            invariant
                i <= polygons.len(),
                shapes == outlines(polygons@),
                found == Self::grown_over(all_points(shapes.take(i as int))),
            decreases polygons.len() - i,
        {
            let polygon = &polygons[i];
            let ghost so_far = all_points(shapes.take(i as int));
            let mut j: usize = 0;
            assert(so_far + polygon@.take(0) == so_far);
            while j < polygon.len()
                invariant
                    j <= polygon.len(),
                    found == Self::grown_over(so_far + polygon@.take(j as int)),
                decreases polygon.len() - j,
            {
                let p = polygon[j];
                proof {
                    let seen = so_far + polygon@.take(j + 1);
                    assert(seen.drop_last() == so_far + polygon@.take(j as int));
                    assert(seen.last() == p);
                }
                found = match found {
                    None => Some(Box3D { min: p, max: p }),
                    Some(b) => Some(b.widen(p)),
                };
                j += 1;
            }
            proof {
                assert(polygon@.take(j as int) == polygon@);
                assert(shapes.take(i + 1).drop_last() == shapes.take(i as int));
                assert(shapes.take(i + 1).last() == polygon@);
            }
            i += 1;
        }
        proof {
            assert(shapes.take(i as int) == shapes);
            if all_points(shapes).len() > 0 {
                Self::lemma_grown_is_bounding_box(all_points(shapes));
            }
        }
        match found {
            Some(b) => Ok(b),
            None => Err(PlantError::EmptyGeometry),
        }
    }
}

} // verus!
