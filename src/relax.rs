//! Lloyd relaxation.
//!
//! Each site whose cell is closed moves to the area-weighted centroid of its
//! cell. The cell's vertices are first rounded down to the grid and clamped
//! to the coordinate range, and the centroid is rounded down too. A site
//! keeps its position when its cell is open, has fewer than three or more
//! than `MAX_CELL_VERTICES` vertices, has a vertex with a non-positive
//! denominator, has no positive area, or has its centroid outside the
//! coordinate range. The result is a new diagram built from the moved sites.
use vstd::prelude::*;
use vstd::arithmetic::div_mod::{lemma_fundamental_div_mod, lemma_fundamental_div_mod_converse, lemma_mod_pos_bound};
use crate::geometry::{point_ok, sites_ok, Point, RationalPoint, COORD_LIMIT};
use crate::dual::VoronoiCell;
use crate::voronoi::Voronoi;

verus! {

/// Largest number of vertices of a cell that relaxation moves a site for.
pub const MAX_CELL_VERTICES: usize = 1_048_576;

pub open spec fn clamp_coord(v: int) -> int {
    if v < -COORD_LIMIT {
        -COORD_LIMIT as int
    } else if v > COORD_LIMIT {
        COORD_LIMIT as int
    } else {
        v
    }
}

/// A Voronoi vertex rounded down to the grid and clamped to the range.
pub open spec fn grid_vertex(p: RationalPoint) -> (int, int) {
    (clamp_coord(p.x_num / p.den), clamp_coord(p.y_num / p.den))
}

pub open spec fn next_index(n: int, i: int) -> int {
    if i + 1 < n {
        i + 1
    } else {
        0
    }
}

pub open spec fn cross_at(poly: Seq<(int, int)>, i: int) -> int {
    let p = poly[i];
    let q = poly[next_index(poly.len() as int, i)];
    p.0 * q.1 - q.0 * p.1
}

/// Twice the signed area of the first `k` fans of the shoelace formula.
pub open spec fn area2_upto(poly: Seq<(int, int)>, k: nat) -> int
    decreases k,
{
    if k == 0 {
        0
    } else {
        area2_upto(poly, (k - 1) as nat) + cross_at(poly, k - 1)
    }
}

/// Six times the area-weighted first moment in x, over the first `k` fans.
pub open spec fn moment_x_upto(poly: Seq<(int, int)>, k: nat) -> int
    decreases k,
{
    if k == 0 {
        0
    } else {
        let i = k - 1;
        moment_x_upto(poly, (k - 1) as nat) + (poly[i].0 + poly[next_index(poly.len() as int, i)].0)
            * cross_at(poly, i)
    }
}

/// Six times the area-weighted first moment in y, over the first `k` fans.
pub open spec fn moment_y_upto(poly: Seq<(int, int)>, k: nat) -> int
    decreases k,
{
    if k == 0 {
        0
    } else {
        let i = k - 1;
        moment_y_upto(poly, (k - 1) as nat) + (poly[i].1 + poly[next_index(poly.len() as int, i)].1)
            * cross_at(poly, i)
    }
}

pub open spec fn cell_polygon(cell: VoronoiCell) -> Seq<(int, int)> {
    cell.vertices@.map_values(|p: RationalPoint| grid_vertex(p))
}

/// The centroid of `poly`, rounded down: the first moments over three times
/// twice the area.
pub open spec fn centroid(poly: Seq<(int, int)>) -> (int, int) {
    let n = poly.len();
    let a2 = area2_upto(poly, n);
    (moment_x_upto(poly, n) / (3 * a2), moment_y_upto(poly, n) / (3 * a2))
}

/// Whether relaxation moves the site with cell `cell`.
pub open spec fn moves(cell: VoronoiCell) -> bool {
    let poly = cell_polygon(cell);
    let c = centroid(poly);
    &&& cell.closed
    &&& 3 <= cell.vertices@.len() <= MAX_CELL_VERTICES
    &&& forall|i: int| 0 <= i < cell.vertices@.len() ==> (#[trigger] cell.vertices@[i]).den > 0
    &&& area2_upto(poly, poly.len()) > 0
    &&& -COORD_LIMIT <= c.0 <= COORD_LIMIT
    &&& -COORD_LIMIT <= c.1 <= COORD_LIMIT
}

/// Where relaxation puts a site with cell `cell`.
pub open spec fn relaxed_site(site: Point, cell: VoronoiCell) -> Point {
    if moves(cell) {
        let c = centroid(cell_polygon(cell));
        Point { x: c.0 as i64, y: c.1 as i64 }
    } else {
        site
    }
}

/// `a / b` rounded down.
fn floor_div(a: i128, b: i128) -> (r: i128)
    requires
        b > 0,
    ensures
        r as int == a as int / b as int,
{
    if a >= 0 {
        a / b
    } else {
        let c = -(a + 1);
        let q = c / b;
        proof {
            let rem = c as int % b as int;
            lemma_fundamental_div_mod(c as int, b as int);
            lemma_mod_pos_bound(c as int, b as int);
            assert(c as int == b * q + rem);
            assert(a as int == (-q - 1) * b + (b - rem - 1)) by (nonlinear_arith)
                requires
                    c as int == b * q + rem,
                    a as int == -(c + 1),
            ;
            lemma_fundamental_div_mod_converse(a as int, b as int, -q - 1, b - rem - 1);
        }
        -q - 1
    }
}

fn clamp(v: i128) -> (r: i64)
    ensures
        r as int == clamp_coord(v as int),
{
    if v < -(COORD_LIMIT as i128) {
        -COORD_LIMIT
    } else if v > COORD_LIMIT as i128 {
        COORD_LIMIT
    } else {
        v as i64
    }
}

proof fn lemma_mul_bound(a: int, b: int, ba: int, bb: int)
    requires
        -ba <= a <= ba,
        -bb <= b <= bb,
    ensures
        -(ba * bb) <= a * b <= ba * bb,
{
    assert(-(ba * bb) <= a * b <= ba * bb) by (nonlinear_arith)
        requires
            -ba <= a <= ba,
            -bb <= b <= bb,
    ;
}

/// The cell's vertices on the grid, or `None` where a denominator is not
/// positive.
fn grid_polygon(cell: &VoronoiCell) -> (r: Option<Vec<(i64, i64)>>)
    ensures
        match r {
            Some(poly) => (forall|i: int| 0 <= i < cell.vertices@.len() ==> (#[trigger] cell.vertices@[i]).den > 0)
                && poly@.len() == cell.vertices@.len()
                && forall|i: int| 0 <= i < poly@.len() ==> (
                    (#[trigger] poly@[i]).0 as int, poly@[i].1 as int) == cell_polygon(*cell)[i]
                    && point_ok(Point { x: poly@[i].0, y: poly@[i].1 }),
            None => !forall|i: int| 0 <= i < cell.vertices@.len() ==> (#[trigger] cell.vertices@[i]).den > 0,
        },
{
    let v = &cell.vertices;
    let mut poly: Vec<(i64, i64)> = Vec::new();
    let mut i: usize = 0;
    while i < v.len()
        invariant
            v@ == cell.vertices@,
            i <= v@.len(),
            poly@.len() == i,
            forall|j: int| 0 <= j < i ==> (#[trigger] v@[j]).den > 0,
            forall|j: int| 0 <= j < i ==> (
                (#[trigger] poly@[j]).0 as int, poly@[j].1 as int) == cell_polygon(*cell)[j]
                && point_ok(Point { x: poly@[j].0, y: poly@[j].1 }),
        decreases v@.len() - i,
    {
        let p = v[i];
        if p.den <= 0 {
            return None;
        }
        let gx = clamp(floor_div(p.x_num, p.den));
        let gy = clamp(floor_div(p.y_num, p.den));
        poly.push((gx, gy));
        i += 1;
    }
    Some(poly)
}

/// Where relaxation puts `site`, whose cell is `cell`.
pub fn relaxed_position(site: Point, cell: &VoronoiCell) -> (r: Point)
    ensures
        r == relaxed_site(site, *cell),
{
    let n = cell.vertices.len();
    if !cell.closed || n < 3 || n > MAX_CELL_VERTICES {
        return site;
    }
    let poly = match grid_polygon(cell) {
        Some(p) => p,
        None => {
            return site;
        },
    };
    let ghost pp = cell_polygon(*cell);
    let mut a2: i128 = 0;
    let mut mx: i128 = 0;
    let mut my: i128 = 0;
    let mut i: usize = 0;
    while i < n
        invariant
            n == poly@.len(),
            pp.len() == n,
            n <= MAX_CELL_VERTICES,
            forall|j: int| 0 <= j < n ==> (
                (#[trigger] poly@[j]).0 as int, poly@[j].1 as int) == pp[j]
                && point_ok(Point { x: poly@[j].0, y: poly@[j].1 }),
            i <= n,
            a2 as int == area2_upto(pp, i as nat),
            mx as int == moment_x_upto(pp, i as nat),
            my as int == moment_y_upto(pp, i as nat),
            -(i * 200_000_000_000_000) <= a2 <= i * 200_000_000_000_000,
            -(i * 4_000_000_000_000_000_000_000) <= mx <= i * 4_000_000_000_000_000_000_000,
            -(i * 4_000_000_000_000_000_000_000) <= my <= i * 4_000_000_000_000_000_000_000,
        decreases n - i,
    {
        let k: usize = if i + 1 < n {
            i + 1
        } else {
            0
        };
        let (px, py) = poly[i];
        let (qx, qy) = poly[k];
        assert(point_ok(Point { x: poly@[i as int].0, y: poly@[i as int].1 }));
        assert(point_ok(Point { x: poly@[k as int].0, y: poly@[k as int].1 }));
        proof {
            let m: int = 10_000_000;
            lemma_mul_bound(px as int, qy as int, m, m);
            lemma_mul_bound(qx as int, py as int, m, m);
        }
        let cr = px as i128 * qy as i128 - qx as i128 * py as i128;
        proof {
            lemma_mul_bound((px + qx) as int, cr as int, 20_000_000, 200_000_000_000_000);
            lemma_mul_bound((py + qy) as int, cr as int, 20_000_000, 200_000_000_000_000);
            assert(cr as int == cross_at(pp, i as int));
        }
        a2 = a2 + cr;
        mx = mx + (px as i128 + qx as i128) * cr;
        my = my + (py as i128 + qy as i128) * cr;
        i += 1;
    }
    if a2 <= 0 {
        return site;
    }
    let cx = floor_div(mx, 3 * a2);
    let cy = floor_div(my, 3 * a2);
    if cx < -(COORD_LIMIT as i128) || cx > COORD_LIMIT as i128 || cy < -(COORD_LIMIT as i128) || cy
        > COORD_LIMIT as i128 {
        return site;
    }
    Point { x: cx as i64, y: cy as i64 }
}

/// The sites after one relaxation step.
pub open spec fn relaxed_sites(vor: Voronoi) -> Seq<Point> {
    Seq::new(vor.sites@.len(), |v: int| relaxed_site(vor.sites@[v], vor.cells@[v]))
}

impl Voronoi {
    /// One step of Lloyd relaxation: a new diagram built from the sites moved
    /// to their cell centroids.
    pub fn relax(&self) -> (r: Voronoi)
        requires
            sites_ok(self.sites@),
            self.cells@.len() == self.sites@.len(),
        ensures
            r.wf(),
            r.sites@ == relaxed_sites(*self),
    {
        let mut sites: Vec<Point> = Vec::new();
        let mut v: usize = 0;
        while v < self.sites.len()
            invariant
                sites_ok(self.sites@),
                self.cells@.len() == self.sites@.len(),
                v <= self.sites@.len(),
                sites@.len() == v,
                forall|x: int| 0 <= x < v ==> #[trigger] sites@[x] == relaxed_site(self.sites@[x], self.cells@[x]),
                forall|x: int| 0 <= x < v ==> #[trigger] point_ok(sites@[x]),
            decreases self.sites@.len() - v,
        {
            let p = relaxed_position(self.sites[v], &self.cells[v]);
            assert(point_ok(self.sites@[v as int]));
            sites.push(p);
            v += 1;
        }
        assert(sites@ =~= relaxed_sites(*self));
        Voronoi::build(sites)
    }
}

} // verus!
