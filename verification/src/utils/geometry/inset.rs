//! Why fitted points come to lie inside the target box: the proof that the
//! fitting transform keeps the margin it promises.

use crate::fixed::{clamp, quotient, Fixed, SCALE};
use crate::utils::geometry::bounds::Box3D;
use crate::utils::geometry::transform::{inset, recentring, Transform3D};
use crate::utils::geometry::{all_points, Point3D};
use vstd::prelude::*;

verus! {

/// The largest coordinate, in millionths, for which the fitting is proved
/// free of saturation.
pub open spec fn reach() -> int {
    4_000_000_000_000_000_000
}

/// The smallest extent, in millionths, from which rounding cannot push a
/// fitted point over the margin.
pub open spec fn least_extent() -> int {
    19
}

/// Whether the interval from `low` to `high` is wide enough and near
/// enough to zero to be fitted without loss.
pub open spec fn fits_from(low: Fixed, high: Fixed) -> bool {
    &&& -reach() <= low@
    &&& high@ <= reach()
    &&& high@ - low@ >= least_extent()
}

/// Whether the interval from `low` to `high` can be fitted into.
pub open spec fn fits_into(low: Fixed, high: Fixed) -> bool {
    &&& -reach() <= low@
    &&& high@ <= reach()
    &&& low@ < high@
}

/// Where fitting the interval from `low` to `high` into one as wide as that
/// from `target_low` to `target_high` takes the number `p`.
pub open spec fn fitted_along(low: Fixed, high: Fixed, target_low: Fixed, target_high: Fixed, p: Fixed) -> Fixed {
    p.sum(recentring(low, high)).product(
        Fixed::of(SCALE as int).product(
            target_high.difference(target_low).ratio(high.difference(low)),
        ).product(inset()),
    )
}

/// Half of a number, rounded toward zero, is within a half of its half.
proof fn lemma_halving(n: int)
    ensures
        n - 1 <= 2 * quotient(n * SCALE, 2 * SCALE) <= n + 1,
{
    if n >= 0 {
        assert((n * 1_000_000) / 2_000_000 == n / 2) by (nonlinear_arith)
            requires
                n >= 0,
        ;
    } else {
        let m = -n;
        assert((m * 1_000_000) / 2_000_000 == m / 2) by (nonlinear_arith)
            requires
                m >= 0,
        ;
        assert(-(n * SCALE) == m * 1_000_000) by (nonlinear_arith)
            requires
                m == -n,
        ;
    }
}

/// A quotient of numbers that are not negative, times the divisor, is no
/// more than the dividend.
proof fn lemma_quotient_is_rounded_down(n: int, d: int)
    requires
        n >= 0,
        d > 0,
    ensures
        0 <= quotient(n, d),
        quotient(n, d) * d <= n,
        0 <= clamp(quotient(n, d)) <= quotient(n, d),
{
    assert(0 <= n / d && (n / d) * d <= n) by (nonlinear_arith)
        requires
            n >= 0,
            d > 0,
    ;
}

/// Along one axis, a number inside the source interval is fitted to within
/// half the width of the target interval, on either side of zero.
pub proof fn lemma_fitted_along_is_inside(
    low: Fixed,
    high: Fixed,
    target_low: Fixed,
    target_high: Fixed,
    p: Fixed,
)
    requires
        fits_from(low, high),
        fits_into(target_low, target_high),
        low@ <= p@ <= high@,
    ensures
        -(target_high@ - target_low@) <= 2 * fitted_along(low, high, target_low, target_high, p)@
            <= target_high@ - target_low@,
{
    let e = high@ - low@;
    let d = target_high@ - target_low@;
    let n = -(low@ + high@);
    // The offset: minus the middle of the interval.
    assert(low.sum(high)@ == low@ + high@);
    assert(low.sum(high).opposite()@ == n);
    let c = quotient(n * SCALE, 2 * SCALE);
    lemma_halving(n);
    assert(Fixed::of(2 * SCALE)@ == 2 * SCALE);
    assert(recentring(low, high)@ == clamp(c));
    assert(clamp(c) == c);
    let t = p@ + c;
    assert(p.sum(recentring(low, high))@ == t);
    assert(-(e + 1) <= 2 * t <= e + 1);
    // The scale: the ratio of the widths, less the margin.
    assert(high.difference(low)@ == e);
    assert(target_high.difference(target_low)@ == d);
    lemma_quotient_is_rounded_down(d * SCALE, e);
    let r = clamp(quotient(d * SCALE, e));
    assert(target_high.difference(target_low).ratio(high.difference(low))@ == r);
    assert(r * e <= d * SCALE) by (nonlinear_arith)
        requires
            0 <= r <= quotient(d * SCALE, e),
            quotient(d * SCALE, e) * e <= d * SCALE,
            e > 0,
    ;
    assert(Fixed::of(SCALE as int)@ == SCALE);
    assert((SCALE * r) / (SCALE as int) == r) by (nonlinear_arith)
        requires
            r >= 0,
    ;
    assert(SCALE * r >= 0) by (nonlinear_arith)
        requires
            r >= 0,
    ;
    let whole = Fixed::of(SCALE as int).product(
        target_high.difference(target_low).ratio(high.difference(low)),
    );
    assert(whole@ == r);
    lemma_quotient_is_rounded_down(r * 950_000, SCALE as int);
    let s = clamp(quotient(r * 950_000, SCALE as int));
    assert(inset()@ == 950_000);
    assert(whole.product(inset())@ == s);
    assert(s * SCALE <= r * 950_000) by (nonlinear_arith)
        requires
            0 <= s <= quotient(r * 950_000, SCALE as int),
            quotient(r * 950_000, SCALE as int) * SCALE <= r * 950_000,
    ;
    // The image: both together.
    let a = if t >= 0 {
        t
    } else {
        -t
    };
    assert(a * s >= 0) by (nonlinear_arith)
        requires
            a >= 0,
            s >= 0,
    ;
    let u = (a * s) / (SCALE as int);
    assert(0 <= u && u * SCALE <= a * s) by (nonlinear_arith)
        requires
            a * s >= 0,
            u == (a * s) / 1_000_000,
    ;
    assert(2 * u <= d) by (nonlinear_arith)
        requires
            u >= 0,
            s >= 0,
            r >= 0,
            a >= 0,
            d >= 1,
            e >= 19,
            2 * a <= e + 1,
            u * 1_000_000 <= a * s,
            s * 1_000_000 <= r * 950_000,
            r * e <= d * 1_000_000,
    ;
    let image = quotient(t * s, SCALE as int);
    assert(image == if t >= 0 { u } else { -u }) by {
        if t >= 0 {
            assert(t * s == a * s);
        } else {
            assert(-(t * s) == a * s) by (nonlinear_arith)
                requires
                    a == -t,
            ;
            if t * s >= 0 {
                assert(a * s == 0);
                assert(t * s == 0);
                assert(u == 0);
            }
        }
    }
    assert(clamp(image) == image);
    assert(fitted_along(low, high, target_low, target_high, p)@ == image);
}

/// Whether the box is wide enough along each axis, and near enough to the
/// origin, to be fitted without loss.
pub open spec fn can_be_fitted<U>(source: Box3D<U>) -> bool {
    &&& fits_from(source.min.x, source.max.x)
    &&& fits_from(source.min.y, source.max.y)
    &&& fits_from(source.min.z, source.max.z)
}

/// Whether the box has its corners the right way round, apart, and near
/// enough to the origin to be fitted into.
pub open spec fn can_be_fitted_into<U>(destination: Box3D<U>) -> bool {
    &&& fits_into(destination.min.x, destination.max.x)
    &&& fits_into(destination.min.y, destination.max.y)
    &&& fits_into(destination.min.z, destination.max.z)
}

/// Whether the point lies within half of each extent of the box, on either
/// side of the origin.
pub open spec fn within_half_extents<U>(q: Point3D<U>, destination: Box3D<U>) -> bool {
    &&& -(destination.max.x@ - destination.min.x@) <= 2 * q.x@ <= destination.max.x@
        - destination.min.x@
    &&& -(destination.max.y@ - destination.min.y@) <= 2 * q.y@ <= destination.max.y@
        - destination.min.y@
    &&& -(destination.max.z@ - destination.min.z@) <= 2 * q.z@ <= destination.max.z@
        - destination.min.z@
}

/// The fitting transform takes every point of the source box, its corners
/// among them, to within half of each extent of the target box, on either
/// side of the origin: into the target box, where that is centred on the
/// origin.
pub proof fn lemma_fitted_point_is_inside<U>(
    source: Box3D<U>,
    destination: Box3D<U>,
    p: Point3D<U>,
)
    requires
        can_be_fitted(source),
        can_be_fitted_into(destination),
        source.holds(p),
    ensures
        within_half_extents(Transform3D::fitting(source, destination).image(p), destination),
{
    lemma_fitted_along_is_inside(
        source.min.x,
        source.max.x,
        destination.min.x,
        destination.max.x,
        p.x,
    );
    lemma_fitted_along_is_inside(
        source.min.y,
        source.max.y,
        destination.min.y,
        destination.max.y,
        p.y,
    );
    lemma_fitted_along_is_inside(
        source.min.z,
        source.max.z,
        destination.min.z,
        destination.max.z,
        p.z,
    );
    let q = Transform3D::fitting(source, destination).image(p);
    assert(q.x == fitted_along(
        source.min.x,
        source.max.x,
        destination.min.x,
        destination.max.x,
        p.x,
    ));
    assert(q.y == fitted_along(
        source.min.y,
        source.max.y,
        destination.min.y,
        destination.max.y,
        p.y,
    ));
    assert(q.z == fitted_along(
        source.min.z,
        source.max.z,
        destination.min.z,
        destination.max.z,
        p.z,
    ));
}

/// Each point of each polygon is among all the points.
pub proof fn lemma_all_points_holds_each<A>(polygons: Seq<Seq<A>>, i: int, j: int)
    requires
        0 <= i < polygons.len(),
        0 <= j < polygons[i].len(),
    ensures
        exists|k: int|
            0 <= k < all_points(polygons).len() && #[trigger] all_points(polygons)[k]
                == polygons[i][j],
    decreases polygons.len(),
{
    let before = all_points(polygons.drop_last());
    if i == polygons.len() - 1 {
        assert(all_points(polygons)[before.len() + j] == polygons[i][j]);
    } else {
        lemma_all_points_holds_each(polygons.drop_last(), i, j);
        let k = choose|k: int|
            0 <= k < before.len() && #[trigger] before[k] == polygons.drop_last()[i][j];
        assert(all_points(polygons)[k] == polygons[i][j]);
    }
}

/// Polygons that were fitted lie, point by point, within half of each
/// extent of the target box, on either side of the origin.
pub proof fn lemma_fitted_polygons_are_inside<U>(
    polygons: Seq<Seq<Point3D<U>>>,
    destination: Box3D<U>,
    i: int,
    j: int,
)
    requires
        Box3D::grown_over(all_points(polygons)) matches Some(source) && can_be_fitted(source),
        can_be_fitted_into(destination),
        0 <= i < polygons.len(),
        0 <= j < polygons[i].len(),
    ensures
        Transform3D::fitted(polygons, destination) matches Ok(shapes) && within_half_extents(
            shapes[i][j],
            destination,
        ),
{
    let points = all_points(polygons);
    lemma_all_points_holds_each(polygons, i, j);
    let k = choose|k: int| 0 <= k < points.len() && #[trigger] points[k] == polygons[i][j];
    Box3D::lemma_grown_is_bounding_box(points);
    let source = Box3D::grown_over(points)->Some_0;
    assert(source.holds(points[k]));
    lemma_fitted_point_is_inside(source, destination, polygons[i][j]);
}

} // verus!
