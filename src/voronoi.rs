//! The built diagram: sites, their triangulation, the Voronoi vertices and
//! cells, and flat segment lists for a renderer.
use vstd::prelude::*;
use crate::geometry::{point_ok, sites_ok, Point, RationalPoint, COORD_LIMIT};
use crate::delaunay::{delaunay_triangles, lemma_triangles_have_empty_circles, triangulate, Triangle};
use crate::dual::{cell_of, cell_wf, center_of, circumcenters, tris_ok, VoronoiCell};

verus! {

/// A Voronoi diagram together with the Delaunay triangulation it is dual to.
#[derive(Debug)]
pub struct Voronoi {
    pub sites: Vec<Point>,
    pub triangles: Vec<Triangle>,
    /// The circumcenter of each triangle, by triangle index.
    pub centers: Vec<RationalPoint>,
    /// The cell of each site, by site index.
    pub cells: Vec<VoronoiCell>,
}

/// Why a site sequence cannot be built into a diagram.
#[derive(Clone, Copy, Debug, PartialEq, Eq, Structural)]
pub enum GeometryError {
    /// The site at this index has a coordinate outside
    /// `[-COORD_LIMIT, COORD_LIMIT]`.
    CoordinateOutOfRange(usize),
}

/// The three edges of a triangle, in its winding order.
pub open spec fn triangle_segments(s: Seq<Point>, t: Triangle) -> Seq<(Point, Point)> {
    seq![
        (s[t.a as int], s[t.b as int]),
        (s[t.b as int], s[t.c as int]),
        (s[t.c as int], s[t.a as int]),
    ]
}

/// The edges of all triangles, three per triangle, in triangle order.
pub open spec fn all_triangle_segments(s: Seq<Point>, tris: Seq<Triangle>) -> Seq<(Point, Point)>
    decreases tris.len(),
{
    if tris.len() == 0 {
        Seq::empty()
    } else {
        all_triangle_segments(s, tris.drop_last()) + triangle_segments(s, tris.last())
    }
}

pub open spec fn cell_segment_count(cell: VoronoiCell) -> int {
    let n = cell.vertices@.len();
    if n < 2 {
        0
    } else if cell.closed {
        n as int
    } else {
        n - 1
    }
}

/// The boundary edges of a cell: one between each vertex and the next, and
/// for a closed cell one more from the last vertex back to the first.
pub open spec fn cell_segments(cell: VoronoiCell) -> Seq<(RationalPoint, RationalPoint)> {
    let v = cell.vertices@;
    Seq::new(
        cell_segment_count(cell) as nat,
        |i: int|
            (
                v[i],
                if i + 1 < v.len() {
                    v[i + 1]
                } else {
                    v[0]
                },
            ),
    )
}

/// The edges of all cells, in site order.
pub open spec fn all_cell_segments(cells: Seq<VoronoiCell>) -> Seq<(RationalPoint, RationalPoint)>
    decreases cells.len(),
{
    if cells.len() == 0 {
        Seq::empty()
    } else {
        all_cell_segments(cells.drop_last()) + cell_segments(cells.last())
    }
}

impl Voronoi {
    /// The diagram is the one built from its sites.
    pub open spec fn wf(&self) -> bool {
        let s = self.sites@;
        let t = self.triangles@;
        &&& sites_ok(s)
        &&& t == delaunay_triangles(s)
        &&& tris_ok(s, t)
        &&& self.centers@.len() == t.len()
        &&& forall|m: int|
            0 <= m < t.len() ==> crate::geometry::rational_view(#[trigger] self.centers@[m])
                == center_of(s, t[m])
        &&& self.cells@.len() == s.len()
        &&& forall|v: int|
            0 <= v < s.len() ==> cell_wf(t, self.centers@, v as usize, #[trigger] self.cells@[v])
    }

    /// Every Voronoi vertex of a built diagram has a positive denominator: it
    /// is the circumcenter of a counter-clockwise triangle.
    pub proof fn lemma_centers_have_positive_denominators(&self)
        requires
            self.wf(),
        ensures
            forall|m: int| 0 <= m < self.centers@.len() ==> (#[trigger] self.centers@[m]).den > 0,
    {
        let s = self.sites@;
        lemma_triangles_have_empty_circles(s);
        assert forall|m: int| 0 <= m < self.centers@.len() implies (#[trigger] self.centers@[m]).den
            > 0 by {
            assert(crate::delaunay::empty_circle_triangle(s, self.triangles@[m]));
            assert(crate::geometry::rational_view(self.centers@[m]) == center_of(s, self.triangles@[m]));
        }
    }

    /// Builds the diagram of `sites`, or names the first site whose
    /// coordinates are out of range.
    pub fn try_build(sites: Vec<Point>) -> (r: Result<Voronoi, GeometryError>)
        ensures
            match r {
                Ok(vor) => sites_ok(sites@) && vor.wf() && vor.sites@ == sites@,
                Err(GeometryError::CoordinateOutOfRange(i)) => i < sites@.len() && !point_ok(
                    sites@[i as int],
                ) && forall|j: int| 0 <= j < i ==> #[trigger] point_ok(sites@[j]),
            },
    {
        let mut i: usize = 0;
        while i < sites.len()
            invariant
                i <= sites@.len(),
                forall|j: int| 0 <= j < i ==> #[trigger] point_ok(sites@[j]),
            decreases sites@.len() - i,
        {
            let p = sites[i];
            if p.x < -COORD_LIMIT || p.x > COORD_LIMIT || p.y < -COORD_LIMIT || p.y > COORD_LIMIT {
                return Err(GeometryError::CoordinateOutOfRange(i));
            }
            i += 1;
        }
        Ok(Voronoi::build(sites))
    }

    /// Triangulates `sites` and derives the Voronoi cells.
    pub fn build(sites: Vec<Point>) -> (r: Voronoi)
        requires
            sites_ok(sites@),
        ensures
            r.wf(),
            r.sites@ == sites@,
    {
        let triangles = triangulate(&sites);
        proof {
            lemma_triangles_have_empty_circles(sites@);
            assert forall|m: int| 0 <= m < triangles@.len() implies (#[trigger] triangles@[m]).a
                < sites@.len() && triangles@[m].b < sites@.len() && triangles@[m].c
                < sites@.len() by {
                assert(crate::delaunay::empty_circle_triangle(sites@, triangles@[m]));
            }
        }
        let centers = circumcenters(&sites, &triangles);
        let mut cells: Vec<VoronoiCell> = Vec::new();
        let mut v: usize = 0;
        while v < sites.len()
            invariant
                centers@.len() == triangles@.len(),
                v <= sites@.len(),
                cells@.len() == v,
                forall|x: int|
                    0 <= x < v ==> cell_wf(triangles@, centers@, x as usize, #[trigger] cells@[x]),
            decreases sites@.len() - v,
        {
            cells.push(cell_of(&triangles, &centers, v));
            v += 1;
        }
        Voronoi { sites, triangles, centers, cells }
    }

    /// The triangulation as a flat list of edges, three per triangle.
    pub fn triangle_edges(&self) -> (r: Vec<(Point, Point)>)
        requires
            tris_ok(self.sites@, self.triangles@),
        ensures
            r@ == all_triangle_segments(self.sites@, self.triangles@),
    {
        let s = &self.sites;
        let tris = &self.triangles;
        let mut r: Vec<(Point, Point)> = Vec::new();
        let mut m: usize = 0;
        while m < tris.len()
            invariant
                tris_ok(s@, tris@),
                m <= tris@.len(),
                r@ == all_triangle_segments(s@, tris@.take(m as int)),
            decreases tris@.len() - m,
        {
            let t = tris[m];
            assert(tris@[m as int] == t);
            r.push((s[t.a], s[t.b]));
            r.push((s[t.b], s[t.c]));
            r.push((s[t.c], s[t.a]));
            proof {
                let p = tris@.take(m as int + 1);
                assert(p.drop_last() =~= tris@.take(m as int));
                assert(p.last() == t);
                assert(r@ =~= all_triangle_segments(s@, p));
            }
            m += 1;
        }
        assert(tris@.take(tris@.len() as int) =~= tris@);
        r
    }

    /// The Voronoi cells as a flat list of edges, cell by cell in site order.
    pub fn cell_edges(&self) -> (r: Vec<(RationalPoint, RationalPoint)>)
        ensures
            r@ == all_cell_segments(self.cells@),
    {
        let cells = &self.cells;
        let mut r: Vec<(RationalPoint, RationalPoint)> = Vec::new();
        let mut m: usize = 0;
        while m < cells.len()
            invariant
                m <= cells@.len(),
                r@ == all_cell_segments(cells@.take(m as int)),
            decreases cells@.len() - m,
        {
            let cell = &cells[m];
            let v = &cell.vertices;
            let n = v.len();
            let count: usize = if n < 2 {
                0
            } else if cell.closed {
                n
            } else {
                n - 1
            };
            let ghost base = r@;
            let mut i: usize = 0;
            while i < count
                invariant
                    cell == cells@[m as int],
                    v@ == cell.vertices@,
                    n == v@.len(),
                    count == cell_segment_count(*cell),
                    i <= count,
                    r@ == base + cell_segments(*cell).take(i as int),
                decreases count - i,
            {
                let next = if i + 1 < n {
                    v[i + 1]
                } else {
                    v[0]
                };
                r.push((v[i], next));
                assert(r@ =~= base + cell_segments(*cell).take(i as int + 1));
                i += 1;
            }
            proof {
                let p = cells@.take(m as int + 1);
                assert(p.drop_last() =~= cells@.take(m as int));
                assert(cell_segments(*cell).take(count as int) =~= cell_segments(*cell));
                assert(r@ =~= all_cell_segments(p));
            }
            m += 1;
        }
        assert(cells@.take(cells@.len() as int) =~= cells@);
        r
    }
}

} // verus!
