//! Points on the integer grid and the two exact predicates that the
//! triangulation is built on: orientation and in-circumcircle.
use vstd::prelude::*;

verus! {

/// Largest absolute value of a site coordinate. Keeping coordinates within
/// this bound lets every predicate be evaluated exactly in `i128`.
pub const COORD_LIMIT: i64 = 10_000_000;

/// A site on the integer grid.
#[derive(Clone, Copy, Debug, PartialEq, Eq, Structural)]
pub struct Point {
    pub x: i64,
    pub y: i64,
}

/// A point with rational coordinates `(x_num / den, y_num / den)`.
#[derive(Clone, Copy, Debug, PartialEq, Eq, Structural)]
pub struct RationalPoint {
    pub x_num: i128,
    pub y_num: i128,
    pub den: i128,
}

pub open spec fn coord_ok(v: int) -> bool {
    -COORD_LIMIT <= v <= COORD_LIMIT
}

pub open spec fn point_ok(p: Point) -> bool {
    coord_ok(p.x as int) && coord_ok(p.y as int)
}

pub open spec fn sites_ok(s: Seq<Point>) -> bool {
    forall|i: int| 0 <= i < s.len() ==> #[trigger] point_ok(s[i])
}

/// Twice the signed area of triangle `abc`: positive when `a, b, c` turn
/// counter-clockwise, zero when they are collinear.
pub open spec fn orient_spec(a: Point, b: Point, c: Point) -> int {
    (b.x - a.x) * (c.y - a.y) - (b.y - a.y) * (c.x - a.x)
}

pub open spec fn lift(dx: int, dy: int) -> int {
    dx * dx + dy * dy
}

/// The in-circle determinant: for counter-clockwise `a, b, c` it is positive
/// exactly when `d` lies strictly inside their circumcircle, zero when `d` is
/// on it.
pub open spec fn incircle_spec(a: Point, b: Point, c: Point, d: Point) -> int {
    let adx = a.x - d.x;
    let ady = a.y - d.y;
    let bdx = b.x - d.x;
    let bdy = b.y - d.y;
    let cdx = c.x - d.x;
    let cdy = c.y - d.y;
    lift(adx, ady) * (bdx * cdy - cdx * bdy) + lift(bdx, bdy) * (cdx * ady - adx * cdy) + lift(
        cdx,
        cdy,
    ) * (adx * bdy - bdx * ady)
}

/// Swapping the last two points negates the orientation.
pub proof fn lemma_orient_swap(a: Point, b: Point, c: Point)
    ensures
        orient_spec(a, c, b) == -orient_spec(a, b, c),
        orient_spec(a, a, c) == 0,
        orient_spec(a, b, b) == 0,
        orient_spec(a, b, a) == 0,
{
    let (bx, by, cx, cy) = (b.x - a.x, b.y - a.y, c.x - a.x, c.y - a.y);
    assert(cx * by - cy * bx == -(bx * cy - by * cx)) by (nonlinear_arith);
    assert(0int * cy - 0int * cx == 0) by (nonlinear_arith);
    assert(bx * (b.y - b.y) - by * (b.x - b.x) == 0) by (nonlinear_arith);
    assert(bx * 0int - by * 0int == 0) by (nonlinear_arith);
}

proof fn lemma_mul_bound(a: int, b: int, ba: int, bb: int)
    requires
        -ba <= a <= ba,
        -bb <= b <= bb,
    ensures
        -(ba * bb) <= a * b <= ba * bb,
{
    assert(-(ba * bb) <= a * b <= ba * bb) by (nonlinear_arith)
        requires
            -ba <= a <= ba,
            -bb <= b <= bb,
    ;
}

/// The orientation predicate, computed exactly.
pub fn orient(a: Point, b: Point, c: Point) -> (r: i128)
    requires
        point_ok(a),
        point_ok(b),
        point_ok(c),
    ensures
        r as int == orient_spec(a, b, c),
{
    let bx = b.x as i128 - a.x as i128;
    let by = b.y as i128 - a.y as i128;
    let cx = c.x as i128 - a.x as i128;
    let cy = c.y as i128 - a.y as i128;
    proof {
        lemma_mul_bound(bx as int, cy as int, 20_000_000, 20_000_000);
        lemma_mul_bound(by as int, cx as int, 20_000_000, 20_000_000);
    }
    bx * cy - by * cx
}

/// The in-circle predicate, computed exactly.
pub fn in_circle(a: Point, b: Point, c: Point, d: Point) -> (r: i128)
    requires
        point_ok(a),
        point_ok(b),
        point_ok(c),
        point_ok(d),
    ensures
        r as int == incircle_spec(a, b, c, d),
{
    let adx = a.x as i128 - d.x as i128;
    let ady = a.y as i128 - d.y as i128;
    let bdx = b.x as i128 - d.x as i128;
    let bdy = b.y as i128 - d.y as i128;
    let cdx = c.x as i128 - d.x as i128;
    let cdy = c.y as i128 - d.y as i128;
    proof {
        let m: int = 20_000_000;
        lemma_mul_bound(adx as int, adx as int, m, m);
        lemma_mul_bound(ady as int, ady as int, m, m);
        lemma_mul_bound(bdx as int, bdx as int, m, m);
        lemma_mul_bound(bdy as int, bdy as int, m, m);
        lemma_mul_bound(cdx as int, cdx as int, m, m);
        lemma_mul_bound(cdy as int, cdy as int, m, m);
        lemma_mul_bound(bdx as int, cdy as int, m, m);
        lemma_mul_bound(cdx as int, bdy as int, m, m);
        lemma_mul_bound(cdx as int, ady as int, m, m);
        lemma_mul_bound(adx as int, cdy as int, m, m);
        lemma_mul_bound(adx as int, bdy as int, m, m);
        lemma_mul_bound(bdx as int, ady as int, m, m);
    }
    let la = adx * adx + ady * ady;
    let lb = bdx * bdx + bdy * bdy;
    let lc = cdx * cdx + cdy * cdy;
    let xa = bdx * cdy - cdx * bdy;
    let xb = cdx * ady - adx * cdy;
    let xc = adx * bdy - bdx * ady;
    proof {
        let k: int = 800_000_000_000_000;
        lemma_mul_bound(la as int, xa as int, k, k);
        lemma_mul_bound(lb as int, xb as int, k, k);
        lemma_mul_bound(lc as int, xc as int, k, k);
    }
    la * xa + lb * xb + lc * xc
}

/// The circumcenter of `a, b, c` as a rational point; its denominator is
/// twice the orientation of `a, b, c`.
pub open spec fn circumcenter_spec(a: Point, b: Point, c: Point) -> (int, int, int) {
    let bx = b.x - a.x;
    let by = b.y - a.y;
    let cx = c.x - a.x;
    let cy = c.y - a.y;
    let d = 2 * (bx * cy - by * cx);
    let ux = cy * lift(bx, by) - by * lift(cx, cy);
    let uy = bx * lift(cx, cy) - cx * lift(bx, by);
    (a.x * d + ux, a.y * d + uy, d)
}

pub open spec fn rational_view(p: RationalPoint) -> (int, int, int) {
    (p.x_num as int, p.y_num as int, p.den as int)
}

/// Squared distance from the rational point `(xn / d, yn / d)` to `p`,
/// scaled by `d * d`.
pub open spec fn scaled_dist2(c: (int, int, int), p: Point) -> int {
    let dx = c.0 - p.x * c.2;
    let dy = c.1 - p.y * c.2;
    dx * dx + dy * dy
}

proof fn lemma_square_expand1(u: int, p: int, d: int)
    ensures
        (u - p * d) * (u - p * d) == u * u - 2 * (d * (p * u)) + d * (d * (p * p)),
{
    assert((u - p * d) * (u - p * d) == u * u - 2 * (d * (p * u)) + d * (d * (p * p)))
        by (nonlinear_arith);
}

proof fn lemma_square_expand(u: int, w: int, p: int, q: int, d: int)
    ensures
        (u - p * d) * (u - p * d) + (w - q * d) * (w - q * d) == u * u + w * w - d * (2 * (p * u
            + q * w)) + d * (d * (p * p + q * q)),
{
    lemma_square_expand1(u, p, d);
    lemma_square_expand1(w, q, d);
    assert(d * (2 * (p * u + q * w)) == 2 * (d * (p * u)) + 2 * (d * (q * w))) by (nonlinear_arith);
    assert(d * (d * (p * p + q * q)) == d * (d * (p * p)) + d * (d * (q * q))) by (nonlinear_arith);
}

/// The circumcenter is equally far from the three corners.
pub proof fn lemma_circumcenter_equidistant(a: Point, b: Point, c: Point)
    ensures
        scaled_dist2(circumcenter_spec(a, b, c), a) == scaled_dist2(circumcenter_spec(a, b, c), b),
        scaled_dist2(circumcenter_spec(a, b, c), a) == scaled_dist2(circumcenter_spec(a, b, c), c),
{
    let bx = b.x - a.x;
    let by = b.y - a.y;
    let cx = c.x - a.x;
    let cy = c.y - a.y;
    let lb = bx * bx + by * by;
    let lc = cx * cx + cy * cy;
    let d = 2 * (bx * cy - by * cx);
    let ux = cy * lb - by * lc;
    let uy = bx * lc - cx * lb;
    assert(2 * (bx * ux + by * uy) == d * lb) by (nonlinear_arith)
        requires
            lb == bx * bx + by * by,
            lc == cx * cx + cy * cy,
            d == 2 * (bx * cy - by * cx),
            ux == cy * lb - by * lc,
            uy == bx * lc - cx * lb,
    ;
    assert(2 * (cx * ux + cy * uy) == d * lc) by (nonlinear_arith)
        requires
            lb == bx * bx + by * by,
            lc == cx * cx + cy * cy,
            d == 2 * (bx * cy - by * cx),
            ux == cy * lb - by * lc,
            uy == bx * lc - cx * lb,
    ;
    lemma_square_expand(ux, uy, bx, by, d);
    assert(d * (2 * (bx * ux + by * uy)) == d * (d * lb)) by (nonlinear_arith)
        requires
            2 * (bx * ux + by * uy) == d * lb,
    ;
    lemma_square_expand(ux, uy, cx, cy, d);
    assert(d * (2 * (cx * ux + cy * uy)) == d * (d * lc)) by (nonlinear_arith)
        requires
            2 * (cx * ux + cy * uy) == d * lc,
    ;
    let cc = circumcenter_spec(a, b, c);
    assert(cc.0 - a.x * d == ux);
    assert(cc.1 - a.y * d == uy);
    assert(cc.0 - b.x * d == ux - bx * d) by (nonlinear_arith)
        requires
            cc.0 == a.x * d + ux,
            bx == b.x - a.x,
    ;
    assert(cc.1 - b.y * d == uy - by * d) by (nonlinear_arith)
        requires
            cc.1 == a.y * d + uy,
            by == b.y - a.y,
    ;
    assert(cc.0 - c.x * d == ux - cx * d) by (nonlinear_arith)
        requires
            cc.0 == a.x * d + ux,
            cx == c.x - a.x,
    ;
    assert(cc.1 - c.y * d == uy - cy * d) by (nonlinear_arith)
        requires
            cc.1 == a.y * d + uy,
            cy == c.y - a.y,
    ;
}

/// The circumcenter of a triangle, computed exactly.
pub fn circumcenter(a: Point, b: Point, c: Point) -> (r: RationalPoint)
    requires
        point_ok(a),
        point_ok(b),
        point_ok(c),
    ensures
        rational_view(r) == circumcenter_spec(a, b, c),
{
    let bx = b.x as i128 - a.x as i128;
    let by = b.y as i128 - a.y as i128;
    let cx = c.x as i128 - a.x as i128;
    let cy = c.y as i128 - a.y as i128;
    proof {
        let m: int = 20_000_000;
        lemma_mul_bound(bx as int, bx as int, m, m);
        lemma_mul_bound(by as int, by as int, m, m);
        lemma_mul_bound(cx as int, cx as int, m, m);
        lemma_mul_bound(cy as int, cy as int, m, m);
        lemma_mul_bound(bx as int, cy as int, m, m);
        lemma_mul_bound(by as int, cx as int, m, m);
    }
    let lb = bx * bx + by * by;
    let lc = cx * cx + cy * cy;
    let d = 2 * (bx * cy - by * cx);
    proof {
        let m: int = 20_000_000;
        let k: int = 800_000_000_000_000;
        lemma_mul_bound(cy as int, lb as int, m, k);
        lemma_mul_bound(by as int, lc as int, m, k);
        lemma_mul_bound(bx as int, lc as int, m, k);
        lemma_mul_bound(cx as int, lb as int, m, k);
        lemma_mul_bound(a.x as int, d as int, m, 2 * k);
        lemma_mul_bound(a.y as int, d as int, m, 2 * k);
    }
    let ux = cy * lb - by * lc;
    let uy = bx * lc - cx * lb;
    RationalPoint { x_num: a.x as i128 * d + ux, y_num: a.y as i128 * d + uy, den: d }
}

} // verus!
