//! The Voronoi dual of a triangulation.
//!
//! The Voronoi vertices are the circumcenters of the triangles. The cell of a
//! site is the chain of its incident triangles, walked counter-clockwise
//! around the site: each triangle `(v, p, q)` is followed by the triangle
//! `(v, q, r)` that shares its edge `v q`. A cell whose chain comes back to
//! its first triangle is closed (bounded). A site on the convex hull has an
//! open cell: its chain starts at a triangle with no predecessor and ends at
//! one with no successor, and the two unbounded edges are left to the caller.
use vstd::prelude::*;
use crate::geometry::{circumcenter, circumcenter_spec, point_ok, rational_view, sites_ok, Point, RationalPoint};
use crate::delaunay::Triangle;

verus! {

/// The vertex list of the cell of one site.
#[derive(Debug)]
pub struct VoronoiCell {
    /// Indices of the incident triangles, counter-clockwise around the site.
    pub triangles: Vec<usize>,
    /// The circumcenters of those triangles, in the same order.
    pub vertices: Vec<RationalPoint>,
    /// Whether the chain closes around the site.
    pub closed: bool,
}

pub open spec fn incident(t: Triangle, v: usize) -> bool {
    t.a == v || t.b == v || t.c == v
}

/// The two other corners `(p, q)` of `t`, so that `v, p, q` keeps the
/// triangle's winding.
pub open spec fn corners(t: Triangle, v: usize) -> (usize, usize) {
    if t.a == v {
        (t.b, t.c)
    } else if t.b == v {
        (t.c, t.a)
    } else {
        (t.a, t.b)
    }
}

/// Around `v`, triangle `u` is followed by triangle `w`: they share the
/// edge from `v` that leaves `u` and enters `w`.
pub open spec fn follows(u: Triangle, w: Triangle, v: usize) -> bool {
    incident(u, v) && incident(w, v) && corners(u, v).1 == corners(w, v).0
}

pub open spec fn tris_ok(s: Seq<Point>, tris: Seq<Triangle>) -> bool {
    forall|m: int|
        0 <= m < tris.len() ==> (#[trigger] tris[m]).a < s.len() && tris[m].b < s.len()
            && tris[m].c < s.len()
}

pub open spec fn center_of(s: Seq<Point>, t: Triangle) -> (int, int, int) {
    circumcenter_spec(s[t.a as int], s[t.b as int], s[t.c as int])
}

/// Triangle `m` has a predecessor around `v` in `tris`.
pub open spec fn has_predecessor(tris: Seq<Triangle>, v: usize, m: int) -> bool {
    exists|p: int| 0 <= p < tris.len() && #[trigger] follows(tris[p], tris[m], v)
}

/// The circumcenters of all triangles, in order.
pub fn circumcenters(sites: &Vec<Point>, tris: &Vec<Triangle>) -> (r: Vec<RationalPoint>)
    requires
        sites_ok(sites@),
        tris_ok(sites@, tris@),
    ensures
        r@.len() == tris@.len(),
        forall|m: int| 0 <= m < r@.len() ==> rational_view(#[trigger] r@[m]) == center_of(sites@, tris@[m]),
{
    let mut r: Vec<RationalPoint> = Vec::new();
    let mut m: usize = 0;
    while m < tris.len()
        invariant
            sites_ok(sites@),
            tris_ok(sites@, tris@),
            m <= tris@.len(),
            r@.len() == m,
            forall|x: int| 0 <= x < m ==> rational_view(#[trigger] r@[x]) == center_of(sites@, tris@[x]),
        decreases tris@.len() - m,
    {
        let t = tris[m];
        proof {
            assert(tris@[m as int] == t);
            assert(point_ok(sites@[t.a as int]));
            assert(point_ok(sites@[t.b as int]));
            assert(point_ok(sites@[t.c as int]));
        }
        r.push(circumcenter(sites[t.a], sites[t.b], sites[t.c]));
        m += 1;
    }
    r
}

fn corners_of(t: Triangle, v: usize) -> (r: (usize, usize))
    ensures
        r == corners(t, v),
{
    if t.a == v {
        (t.b, t.c)
    } else if t.b == v {
        (t.c, t.a)
    } else {
        (t.a, t.b)
    }
}

/// The first triangle incident to `v` that enters through corner `w`.
fn find_entering(tris: &Vec<Triangle>, v: usize, w: usize) -> (r: Option<usize>)
    ensures
        match r {
            Some(m) => m < tris@.len() && incident(tris@[m as int], v) && corners(tris@[m as int], v).0 == w,
            None => forall|m: int|
                0 <= m < tris@.len() && incident(#[trigger] tris@[m], v) ==> corners(tris@[m], v).0 != w,
        },
{
    let mut m: usize = 0;
    while m < tris.len()
        invariant
            m <= tris@.len(),
            forall|x: int|
                0 <= x < m && incident(#[trigger] tris@[x], v) ==> corners(tris@[x], v).0 != w,
        decreases tris@.len() - m,
    {
        let t = tris[m];
        if (t.a == v || t.b == v || t.c == v) && corners_of(t, v).0 == w {
            return Some(m);
        }
        m += 1;
    }
    None
}

/// The first triangle incident to `v` with no predecessor around `v`, if any.
fn find_chain_start(tris: &Vec<Triangle>, v: usize) -> (r: Option<usize>)
    ensures
        match r {
            Some(m) => m < tris@.len() && incident(tris@[m as int], v) && !has_predecessor(tris@, v, m as int),
            None => forall|m: int|
                0 <= m < tris@.len() && incident(#[trigger] tris@[m], v) ==> has_predecessor(tris@, v, m),
        },
{
    let mut m: usize = 0;
    while m < tris.len()
        invariant
            m <= tris@.len(),
            forall|x: int|
                0 <= x < m && incident(#[trigger] tris@[x], v) ==> has_predecessor(tris@, v, x),
        decreases tris@.len() - m,
    {
        let t = tris[m];
        if t.a == v || t.b == v || t.c == v {
            let w = corners_of(t, v).0;
            // a predecessor of t leaves through w
            let mut p: usize = 0;
            let mut found = false;
            while p < tris.len()
                invariant
                    m < tris@.len(),
                    t == tris@[m as int],
                    incident(t, v),
                    w == corners(t, v).0,
                    p <= tris@.len(),
                    found ==> has_predecessor(tris@, v, m as int),
                    !found ==> forall|y: int| 0 <= y < p ==> !#[trigger] follows(tris@[y], t, v),
                decreases tris@.len() - p,
            {
                let u = tris[p];
                if (u.a == v || u.b == v || u.c == v) && corners_of(u, v).1 == w {
                    assert(follows(tris@[p as int], tris@[m as int], v));
                    found = true;
                }
                p += 1;
            }
            if !found {
                return Some(m);
            }
        }
        m += 1;
    }
    None
}

/// The chain of triangles that ends at the walk's last triangle has no
/// successor around `v`.
pub open spec fn chain_ends(tris: Seq<Triangle>, v: usize, last: int) -> bool {
    forall|m: int|
        0 <= m < tris.len() && incident(#[trigger] tris[m], v) ==> corners(tris[m], v).0 != corners(
            tris[last],
            v,
        ).1
}

/// What the cell of site `v` holds: a chain of incident triangles, each
/// followed by the next around `v`, with their circumcenters as vertices. The
/// chain is empty only for a site with no triangle; it starts at a triangle
/// with no predecessor where there is one; a chain that is not closed ends
/// at a triangle with no successor (unless it ran through as many steps as
/// there are triangles).
pub open spec fn cell_wf(
    tris: Seq<Triangle>,
    centers: Seq<RationalPoint>,
    v: usize,
    cell: VoronoiCell,
) -> bool {
    let c = cell.triangles@;
    &&& c.len() <= tris.len()
    &&& cell.vertices@.len() == c.len()
    &&& forall|m: int|
        0 <= m < c.len() ==> c[m] < tris.len() && incident(tris[#[trigger] c[m] as int], v)
            && cell.vertices@[m] == centers[c[m] as int]
    &&& forall|m: int|
        0 <= m < c.len() - 1 ==> #[trigger] follows(tris[c[m] as int], tris[c[m + 1] as int], v)
    &&& cell.closed ==> c.len() > 0 && follows(tris[c[c.len() - 1] as int], tris[c[0] as int], v)
    &&& (c.len() == 0 <==> forall|m: int| 0 <= m < tris.len() ==> !incident(#[trigger] tris[m], v))
    &&& c.len() > 0 ==> (!has_predecessor(tris, v, c[0] as int) || forall|m: int|
        0 <= m < tris.len() && incident(#[trigger] tris[m], v) ==> has_predecessor(tris, v, m))
    &&& !cell.closed && 0 < c.len() < tris.len() ==> chain_ends(tris, v, c[c.len() - 1] as int)
}

/// The cell of site `v`, walked counter-clockwise.
pub fn cell_of(tris: &Vec<Triangle>, centers: &Vec<RationalPoint>, v: usize) -> (r: VoronoiCell)
    requires
        centers@.len() == tris@.len(),
    ensures
        cell_wf(tris@, centers@, v, r),
{
    let start = match find_chain_start(tris, v) {
        Some(m) => m,
        None => {
            let mut m: usize = 0;
            while m < tris.len() && !(tris[m].a == v || tris[m].b == v || tris[m].c == v)
                invariant
                    m <= tris@.len(),
                    forall|x: int| 0 <= x < m ==> !incident(#[trigger] tris@[x], v),
                decreases tris@.len() - m,
            {
                m += 1;
            }
            if m == tris.len() {
                return VoronoiCell { triangles: Vec::new(), vertices: Vec::new(), closed: false };
            }
            m
        },
    };
    let mut chain: Vec<usize> = Vec::new();
    chain.push(start);
    let mut cur = start;
    let mut closed = false;
    let mut done = false;
    while !done
        invariant
            start < tris@.len(),
            incident(tris@[start as int], v),
            chain@.len() >= 1,
            chain@.len() <= tris@.len(),
            chain@[0] == start,
            cur == chain@[chain@.len() - 1],
            forall|m: int|
                0 <= m < chain@.len() ==> #[trigger] chain@[m] < tris@.len() && incident(
                    tris@[chain@[m] as int],
                    v,
                ),
            forall|m: int|
                0 <= m < chain@.len() - 1 ==> #[trigger] follows(
                    tris@[chain@[m] as int],
                    tris@[chain@[m + 1] as int],
                    v,
                ),
            closed ==> done && follows(tris@[cur as int], tris@[start as int], v),
            done && !closed && chain@.len() < tris@.len() ==> chain_ends(tris@, v, cur as int),
        decreases tris@.len() - chain@.len(), if done { 0int } else { 1int },
    {
        let w = corners_of(tris[cur], v).1;
        match find_entering(tris, v, w) {
            None => {
                done = true;
            },
            Some(x) => {
                if x == start {
                    closed = true;
                    done = true;
                } else if chain.len() == tris.len() {
                    done = true;
                } else {
                    proof {
                        assert(chain@[chain@.len() - 1] == cur);
                    }
                    chain.push(x);
                    cur = x;
                    proof {
                        assert(chain@[chain@.len() - 2] == chain@[chain@.len() - 1 - 1]);
                        assert(follows(tris@[chain@[chain@.len() - 2] as int], tris@[chain@[chain@.len() - 1] as int], v));
                    }
                }
            },
        }
    }
    let mut vertices: Vec<RationalPoint> = Vec::new();
    let mut m: usize = 0;
    while m < chain.len()
        invariant
            centers@.len() == tris@.len(),
            forall|x: int| 0 <= x < chain@.len() ==> #[trigger] chain@[x] < tris@.len(),
            m <= chain@.len(),
            vertices@.len() == m,
            forall|x: int| 0 <= x < m ==> vertices@[x] == centers@[#[trigger] chain@[x] as int],
        decreases chain@.len() - m,
    {
        vertices.push(centers[chain[m]]);
        m += 1;
    }
    VoronoiCell { triangles: chain, vertices, closed }
}

} // verus!
