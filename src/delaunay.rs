//! Delaunay triangulation of a site sequence.
//!
//! A triple of distinct, non-collinear sites `i < j < k` forms a triangle
//! exactly when no site lies strictly inside its circumcircle. Ties among
//! cocircular sites are broken by a fixed rule: the sites on a common empty
//! circle form a convex polygon, which is fanned out from its vertex of
//! lowest index. A site that coincides with an earlier one is not a vertex
//! of any triangle. Triangles are listed in lexicographic order of their
//! sorted vertex indices, each wound counter-clockwise and starting at its
//! lowest index.
use vstd::prelude::*;
use crate::geometry::{lemma_orient_swap, in_circle, incircle_spec, orient, orient_spec, point_ok, sites_ok, Point};

verus! {

/// A triangle given by three site indices, wound counter-clockwise.
#[derive(Clone, Copy, Debug, PartialEq, Eq, Structural)]
pub struct Triangle {
    pub a: usize,
    pub b: usize,
    pub c: usize,
}

/// Site `i` coincides with a site of lower index.
pub open spec fn is_dup(s: Seq<Point>, i: int) -> bool {
    exists|p: int| 0 <= p < i && s[p] == s[i]
}

/// The triangle on sites `i < j < k`, wound counter-clockwise.
pub open spec fn tri_of(s: Seq<Point>, i: int, j: int, k: int) -> Triangle {
    if orient_spec(s[i], s[j], s[k]) > 0 {
        Triangle { a: i as usize, b: j as usize, c: k as usize }
    } else {
        Triangle { a: i as usize, b: k as usize, c: j as usize }
    }
}

/// Site `q` does not rule out triangle `t`: it is not strictly inside the
/// circumcircle, and if it is on the circle it neither precedes the fan apex
/// `t.a` nor lies beyond the edge `t.b t.c` opposite the apex.
pub open spec fn admits(s: Seq<Point>, t: Triangle, q: int) -> bool {
    let v = incircle_spec(s[t.a as int], s[t.b as int], s[t.c as int], s[q]);
    v <= 0 && (v == 0 ==> t.a <= q && orient_spec(s[t.b as int], s[t.c as int], s[q]) >= 0)
}

pub open spec fn accepted(s: Seq<Point>, i: int, j: int, k: int) -> bool {
    &&& 0 <= i < j < k < s.len()
    &&& s.len() <= usize::MAX
    &&& !is_dup(s, i) && !is_dup(s, j) && !is_dup(s, k)
    &&& orient_spec(s[i], s[j], s[k]) != 0
    &&& forall|q: int| 0 <= q < s.len() ==> #[trigger] admits(s, tri_of(s, i, j, k), q)
}

pub open spec fn step(s: Seq<Point>, prev: Seq<Triangle>, i: int, j: int, k: int) -> Seq<Triangle> {
    if accepted(s, i, j, k) {
        prev.push(tri_of(s, i, j, k))
    } else {
        prev
    }
}

/// The triangles found among the triples that precede `(i, j, k)` in
/// lexicographic order over `[0, n)^3`.
pub open spec fn emitted_before(s: Seq<Point>, i: nat, j: nat, k: nat) -> Seq<Triangle>
    decreases i, j, k,
{
    let last = (s.len() - 1) as nat;
    if k > 0 {
        step(s, emitted_before(s, i, j, (k - 1) as nat), i as int, j as int, k - 1)
    } else if j > 0 {
        step(s, emitted_before(s, i, (j - 1) as nat, last), i as int, j - 1, last as int)
    } else if i > 0 {
        step(s, emitted_before(s, (i - 1) as nat, last, last), i - 1, last as int, last as int)
    } else {
        Seq::empty()
    }
}

/// The Delaunay triangulation of `s`.
pub open spec fn delaunay_triangles(s: Seq<Point>) -> Seq<Triangle> {
    emitted_before(s, s.len(), 0, 0)
}

/// Triangle `t` is on sites of `s` that repeat no earlier site, starts at its
/// lowest index, is wound counter-clockwise, and no site of `s` lies strictly
/// inside its circumcircle.
pub open spec fn empty_circle_triangle(s: Seq<Point>, t: Triangle) -> bool {
    &&& t.a < s.len() && t.b < s.len() && t.c < s.len()
    &&& t.a < t.b && t.a < t.c
    &&& !is_dup(s, t.a as int) && !is_dup(s, t.b as int) && !is_dup(s, t.c as int)
    &&& orient_spec(s[t.a as int], s[t.b as int], s[t.c as int]) > 0
    &&& forall|q: int|
        0 <= q < s.len() ==> #[trigger] incircle_spec(
            s[t.a as int],
            s[t.b as int],
            s[t.c as int],
            s[q],
        ) <= 0
}

proof fn lemma_accepted_valid(s: Seq<Point>, i: int, j: int, k: int)
    requires
        accepted(s, i, j, k),
    ensures
        empty_circle_triangle(s, tri_of(s, i, j, k)),
{
    let t = tri_of(s, i, j, k);
    let (a, b, c) = (s[i], s[j], s[k]);
    lemma_orient_swap(a, b, c);
    assert(orient_spec(s[t.a as int], s[t.b as int], s[t.c as int]) > 0);
    assert forall|q: int| 0 <= q < s.len() implies #[trigger] incircle_spec(
        s[t.a as int],
        s[t.b as int],
        s[t.c as int],
        s[q],
    ) <= 0 by {
        assert(admits(s, t, q));
    }
}

proof fn lemma_emitted_valid(s: Seq<Point>, i: nat, j: nat, k: nat)
    ensures
        forall|x: int|
            0 <= x < emitted_before(s, i, j, k).len() ==> #[trigger] empty_circle_triangle(
                s,
                emitted_before(s, i, j, k)[x],
            ),
    decreases i, j, k,
{
    let last = (s.len() - 1) as nat;
    let (pi, pj, pk) = if k > 0 {
        (i, j, (k - 1) as nat)
    } else if j > 0 {
        (i, (j - 1) as nat, last)
    } else if i > 0 {
        ((i - 1) as nat, last, last)
    } else {
        (0nat, 0nat, 0nat)
    };
    if k > 0 || j > 0 || i > 0 {
        lemma_emitted_valid(s, pi, pj, pk);
        if accepted(s, pi as int, pj as int, pk as int) {
            lemma_accepted_valid(s, pi as int, pj as int, pk as int);
        }
        assert(emitted_before(s, i, j, k) == step(
            s,
            emitted_before(s, pi, pj, pk),
            pi as int,
            pj as int,
            pk as int,
        ));
    }
}

/// Delaunay validity: every triangle of the triangulation is wound
/// counter-clockwise, no site lies strictly inside its circumcircle, and no
/// site that repeats an earlier one is a corner.
pub proof fn lemma_triangles_have_empty_circles(s: Seq<Point>)
    ensures
        forall|x: int|
            0 <= x < delaunay_triangles(s).len() ==> #[trigger] empty_circle_triangle(
                s,
                delaunay_triangles(s)[x],
            ),
{
    lemma_emitted_valid(s, s.len(), 0, 0);
}

/// The triangulation depends on the site sequence alone: equal sequences
/// give the same triangles, in the same order.
pub proof fn lemma_triangulation_deterministic(s1: Seq<Point>, s2: Seq<Point>)
    requires
        s1 == s2,
    ensures
        delaunay_triangles(s1) == delaunay_triangles(s2),
{
}

/// Fewer than three sites give no triangle.
pub proof fn lemma_few_sites_no_triangles(s: Seq<Point>)
    requires
        s.len() < 3,
    ensures
        delaunay_triangles(s).len() == 0,
{
    lemma_triangles_have_empty_circles(s);
    if delaunay_triangles(s).len() > 0 {
        let t = delaunay_triangles(s)[0];
        assert(empty_circle_triangle(s, t));
        lemma_orient_swap(s[t.a as int], s[t.b as int], s[t.c as int]);
    }
}

/// Sites that all lie on one line (coincident sites included) give no
/// triangle.
pub proof fn lemma_collinear_sites_no_triangles(s: Seq<Point>)
    requires
        forall|i: int, j: int, k: int|
            0 <= i < s.len() && 0 <= j < s.len() && 0 <= k < s.len() ==> #[trigger] orient_spec(
                s[i],
                s[j],
                s[k],
            ) == 0,
    ensures
        delaunay_triangles(s).len() == 0,
{
    lemma_triangles_have_empty_circles(s);
    if delaunay_triangles(s).len() > 0 {
        let t = delaunay_triangles(s)[0];
        assert(empty_circle_triangle(s, t));
    }
}

/// For each site, whether it coincides with a site of lower index.
pub fn duplicate_flags(sites: &Vec<Point>) -> (r: Vec<bool>)
    ensures
        r@.len() == sites@.len(),
        forall|i: int| 0 <= i < r@.len() ==> r@[i] == is_dup(sites@, i),
{
    let n = sites.len();
    let mut r: Vec<bool> = Vec::new();
    let mut i: usize = 0;
    while i < n
        invariant
            n == sites@.len(),
            i <= n,
            r@.len() == i,
            forall|x: int| 0 <= x < i ==> r@[x] == is_dup(sites@, x),
        decreases n - i,
    {
        let mut found = false;
        let mut p: usize = 0;
        while p < i
            invariant
                n == sites@.len(),
                i < n,
                p <= i,
                found ==> is_dup(sites@, i as int),
                !found ==> forall|y: int| 0 <= y < p ==> sites@[y] != sites@[i as int],
            decreases i - p,
        {
            if sites[p] == sites[i] {
                found = true;
            }
            p += 1;
        }
        r.push(found);
        i += 1;
    }
    r
}

/// Whether sites `i, j, k` form a triangle of the triangulation.
fn accepts(sites: &Vec<Point>, dup: &Vec<bool>, i: usize, j: usize, k: usize) -> (r: bool)
    requires
        sites_ok(sites@),
        dup@.len() == sites@.len(),
        forall|x: int| 0 <= x < dup@.len() ==> dup@[x] == is_dup(sites@, x),
        i < sites@.len(),
        j < sites@.len(),
        k < sites@.len(),
    ensures
        r == accepted(sites@, i as int, j as int, k as int),
{
    let ghost s = sites@;
    if !(i < j && j < k) || dup[i] || dup[j] || dup[k] {
        return false;
    }
    proof {
        assert(point_ok(s[i as int]));
        assert(point_ok(s[j as int]));
        assert(point_ok(s[k as int]));
    }
    let o = orient(sites[i], sites[j], sites[k]);
    if o == 0 {
        return false;
    }
    let t = if o > 0 {
        Triangle { a: i, b: j, c: k }
    } else {
        Triangle { a: i, b: k, c: j }
    };
    assert(t == tri_of(s, i as int, j as int, k as int));
    let n = sites.len();
    let mut q: usize = 0;
    while q < n
        invariant
            n == s.len(),
            s == sites@,
            sites_ok(s),
            t.a < n && t.b < n && t.c < n,
            t == tri_of(s, i as int, j as int, k as int),
            q <= n,
            forall|y: int| 0 <= y < q ==> #[trigger] admits(s, t, y),
        decreases n - q,
    {
        proof {
            assert(point_ok(s[q as int]));
            assert(point_ok(s[t.a as int]));
            assert(point_ok(s[t.b as int]));
            assert(point_ok(s[t.c as int]));
        }
        let v = in_circle(sites[t.a], sites[t.b], sites[t.c], sites[q]);
        if v > 0 {
            assert(!admits(s, t, q as int));
            return false;
        }
        if v == 0 {
            if q < t.a {
                assert(!admits(s, t, q as int));
                return false;
            }
            let w = orient(sites[t.b], sites[t.c], sites[q]);
            if w < 0 {
                assert(!admits(s, t, q as int));
                return false;
            }
        }
        q += 1;
    }
    true
}

/// Builds the Delaunay triangulation of `sites`.
pub fn triangulate(sites: &Vec<Point>) -> (r: Vec<Triangle>)
    requires
        sites_ok(sites@),
    ensures
        r@ == delaunay_triangles(sites@),
{
    let n = sites.len();
    let dup = duplicate_flags(sites);
    let mut r: Vec<Triangle> = Vec::new();
    let mut i: usize = 0;
    while i < n
        invariant
            n == sites@.len(),
            sites_ok(sites@),
            dup@.len() == n,
            forall|x: int| 0 <= x < n ==> dup@[x] == is_dup(sites@, x),
            i <= n,
            r@ == emitted_before(sites@, i as nat, 0, 0),
        decreases n - i,
    {
        let mut j: usize = 0;
        while j < n
            invariant
                n == sites@.len(),
                sites_ok(sites@),
                dup@.len() == n,
                forall|x: int| 0 <= x < n ==> dup@[x] == is_dup(sites@, x),
                i < n,
                j <= n,
                r@ == emitted_before(sites@, i as nat, j as nat, 0),
            decreases n - j,
        {
            let mut k: usize = 0;
            while k < n
                invariant
                    n == sites@.len(),
                    sites_ok(sites@),
                    dup@.len() == n,
                    forall|x: int| 0 <= x < n ==> dup@[x] == is_dup(sites@, x),
                    i < n,
                    j < n,
                    k <= n,
                    r@ == emitted_before(sites@, i as nat, j as nat, k as nat),
                decreases n - k,
            {
                if accepts(sites, &dup, i, j, k) {
                    let t = if orient(sites[i], sites[j], sites[k]) > 0 {
                        Triangle { a: i, b: j, c: k }
                    } else {
                        Triangle { a: i, b: k, c: j }
                    };
                    r.push(t);
                }
                k += 1;
            }
            j += 1;
        }
        i += 1;
    }
    r
}

} // verus!
