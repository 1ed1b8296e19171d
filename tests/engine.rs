use voronoi::delaunay::{duplicate_flags, triangulate, Triangle};
use voronoi::dual::cell_of;
use voronoi::geometry::{circumcenter, in_circle, orient, Point, RationalPoint};
use voronoi::relax::relaxed_position;
use voronoi::sampler::generate;
use voronoi::voronoi::{GeometryError, Voronoi};

fn pt(x: i64, y: i64) -> Point {
    Point { x, y }
}

fn pts(v: &[(i64, i64)]) -> Vec<Point> {
    v.iter().map(|&(x, y)| pt(x, y)).collect()
}

fn tri(a: usize, b: usize, c: usize) -> Triangle {
    Triangle { a, b, c }
}

fn to_f64(p: &RationalPoint) -> (f64, f64) {
    (p.x_num as f64 / p.den as f64, p.y_num as f64 / p.den as f64)
}

fn wheel() -> Vec<Point> {
    pts(&[(0, 0), (0, 1000), (866, 500), (866, -500), (0, -1000), (-866, -500), (-866, 500)])
}

fn polygon_area(v: &[(f64, f64)]) -> f64 {
    let n = v.len();
    let mut s = 0.0;
    for i in 0..n {
        let (x0, y0) = v[i];
        let (x1, y1) = v[(i + 1) % n];
        s += x0 * y1 - x1 * y0;
    }
    s / 2.0
}

#[test]
fn orientation_signs() {
    assert_eq!(orient(pt(0, 0), pt(1, 0), pt(0, 1)), 1);
    assert_eq!(orient(pt(0, 0), pt(0, 1), pt(1, 0)), -1);
    assert_eq!(orient(pt(0, 0), pt(1, 1), pt(2, 2)), 0);
    assert_eq!(orient(pt(1, 2), pt(4, 6), pt(-3, 5)), 25);
}

#[test]
fn in_circle_signs() {
    let (a, b, c) = (pt(0, 0), pt(2, 0), pt(0, 2));
    assert!(in_circle(a, b, c, pt(1, 1)) > 0);
    assert_eq!(in_circle(a, b, c, pt(2, 2)), 0);
    assert!(in_circle(a, b, c, pt(3, 3)) < 0);
    assert_eq!(in_circle(a, b, c, pt(1, 1)), 8);
}

#[test]
fn circumcenter_of_right_triangle() {
    let c = circumcenter(pt(0, 0), pt(2, 0), pt(0, 2));
    assert_eq!(c.den, 8);
    assert_eq!((c.x_num, c.y_num), (8, 8));
    let c = circumcenter(pt(1, 1), pt(5, 1), pt(1, 7));
    assert_eq!(to_f64(&c), (3.0, 4.0));
}

#[test]
fn unit_square_two_triangles_on_diagonal() {
    let s = pts(&[(0, 0), (1, 0), (0, 1), (1, 1)]);
    let t = triangulate(&s);
    assert_eq!(t, vec![tri(0, 1, 3), tri(0, 3, 2)]);
    let v = Voronoi::build(s);
    assert_eq!(v.cells.len(), 4);
    for cell in &v.cells {
        assert!(!cell.closed);
        assert!(!cell.triangles.is_empty());
    }
    assert_eq!(v.cells[0].triangles, vec![0, 1]);
    assert_eq!(v.cells[1].triangles, vec![0]);
    assert_eq!(v.cells[2].triangles, vec![1]);
    assert_eq!(v.cells[3].triangles, vec![1, 0]);
    // both triangles share the circumcenter (1/2, 1/2)
    assert_eq!(to_f64(&v.centers[0]), (0.5, 0.5));
    assert_eq!(to_f64(&v.centers[1]), (0.5, 0.5));
}

#[test]
fn wheel_of_six_triangles_and_hexagonal_center_cell() {
    let v = Voronoi::build(wheel());
    assert_eq!(v.triangles.len(), 6);
    for t in &v.triangles {
        assert_eq!(t.a, 0);
    }
    let center = &v.cells[0];
    assert!(center.closed);
    assert_eq!(center.vertices.len(), 6);
    let verts: Vec<(f64, f64)> = center.vertices.iter().map(to_f64).collect();
    for &(x, y) in &verts {
        let r = (x * x + y * y).sqrt();
        assert!((r - 577.35).abs() < 2.0, "vertex radius {}", r);
    }
    for i in 0..6 {
        let (x0, y0) = verts[i];
        let (x1, y1) = verts[(i + 1) % 6];
        let side = ((x1 - x0).powi(2) + (y1 - y0).powi(2)).sqrt();
        assert!((side - 577.35).abs() < 3.0, "side {}", side);
    }
    let area = polygon_area(&verts);
    assert!((area - 866_025.4).abs() < 3_000.0, "area {}", area);
    for cell in &v.cells[1..] {
        assert!(!cell.closed);
        assert_eq!(cell.triangles.len(), 2);
    }
}

#[test]
fn degenerate_inputs_give_no_triangles() {
    assert!(triangulate(&vec![]).is_empty());
    assert!(triangulate(&pts(&[(3, 4)])).is_empty());
    assert!(triangulate(&pts(&[(3, 4), (5, 6)])).is_empty());
    assert!(triangulate(&pts(&[(7, 7), (7, 7), (7, 7)])).is_empty());
    assert!(triangulate(&pts(&[(0, 0), (1, 1), (2, 2), (5, 5)])).is_empty());
    let v = Voronoi::build(vec![]);
    assert!(v.triangle_edges().is_empty());
    assert!(v.cell_edges().is_empty());
}

#[test]
fn duplicate_site_is_not_a_vertex() {
    let s = pts(&[(0, 0), (10, 0), (0, 10), (10, 0)]);
    assert_eq!(duplicate_flags(&s), vec![false, false, false, true]);
    let t = triangulate(&s);
    assert_eq!(t, vec![tri(0, 1, 2)]);
    let v = Voronoi::build(s);
    assert!(v.cells[3].triangles.is_empty());
}

#[test]
fn cocircular_tie_break_is_a_fan_from_lowest_index() {
    // a regular octagon-like set on one circle: (±5, 0), (0, ±5), (±3, ±4)
    let s = pts(&[(3, 4), (5, 0), (0, 5), (-3, 4), (-5, 0), (0, -5), (3, -4), (-3, -4)]);
    let t = triangulate(&s);
    assert_eq!(t.len(), 6);
    for x in &t {
        assert_eq!(x.a, 0);
    }
    assert_eq!(t, triangulate(&s));
}

#[test]
fn triangulation_is_deterministic() {
    let s = generate(40, 7);
    assert_eq!(triangulate(&s), triangulate(&s));
    let a = Voronoi::build(s.clone());
    let b = Voronoi::build(s);
    assert_eq!(a.triangle_edges(), b.triangle_edges());
    assert_eq!(a.cell_edges(), b.cell_edges());
}

#[test]
fn random_triangulation_is_delaunay() {
    for seed in 0..3u64 {
        let s = generate(30, seed);
        let t = triangulate(&s);
        assert!(!t.is_empty());
        for x in &t {
            assert!(orient(s[x.a], s[x.b], s[x.c]) > 0);
            for q in &s {
                assert!(in_circle(s[x.a], s[x.b], s[x.c], *q) <= 0);
            }
        }
    }
}

#[test]
fn euler_relation_on_random_sites() {
    for seed in 10..14u64 {
        let s = generate(25, seed);
        let n = s.len() as i64;
        let v = Voronoi::build(s);
        let mut edges: Vec<(usize, usize)> = Vec::new();
        for t in &v.triangles {
            for (p, q) in [(t.a, t.b), (t.b, t.c), (t.c, t.a)] {
                edges.push((p.min(q), p.max(q)));
            }
        }
        edges.sort();
        edges.dedup();
        let hull = v.cells.iter().filter(|c| !c.closed).count() as i64;
        let f = v.triangles.len() as i64;
        let e = edges.len() as i64;
        assert_eq!(n - e + f, 1);
        assert_eq!(f, 2 * n - 2 - hull);
        assert_eq!(e, 3 * n - 3 - hull);
    }
}

#[test]
fn bounded_cells_tile_the_triangulated_region() {
    // one interior site: its cell is the only bounded one, and its area is
    // that of the hexagon its six neighbours cut out
    let v = Voronoi::build(wheel());
    let closed: Vec<_> = v.cells.iter().filter(|c| c.closed).collect();
    assert_eq!(closed.len(), 1);
    let total: f64 = closed
        .iter()
        .map(|c| polygon_area(&c.vertices.iter().map(to_f64).collect::<Vec<_>>()))
        .sum();
    assert!(total > 0.0);
    assert!((total - 866_025.4).abs() < 3_000.0);
}

#[test]
fn exported_edges() {
    let v = Voronoi::build(pts(&[(0, 0), (1, 0), (0, 1), (1, 1)]));
    let e = v.triangle_edges();
    assert_eq!(e.len(), 6);
    assert_eq!(e[0], (pt(0, 0), pt(1, 0)));
    assert_eq!(e[1], (pt(1, 0), pt(1, 1)));
    assert_eq!(e[2], (pt(1, 1), pt(0, 0)));
    assert_eq!(e[5], (pt(0, 1), pt(0, 0)));
    // open cells of two vertices give one edge each, of one vertex none
    assert_eq!(v.cell_edges().len(), 2);
    let w = Voronoi::build(wheel());
    // the closed center cell gives six edges, each open outer cell one
    assert_eq!(w.cell_edges().len(), 12);
    assert_eq!(w.triangle_edges().len(), 18);
}

#[test]
fn sampler_is_reproducible_and_in_range() {
    let a = generate(50, 42);
    let b = generate(50, 42);
    let c = generate(50, 43);
    assert_eq!(a.len(), 50);
    assert_eq!(a, b);
    assert_ne!(a, c);
    for p in &a {
        assert!(p.x.abs() <= 10_000_000 && p.y.abs() <= 10_000_000);
    }
    assert!(generate(0, 1).is_empty());
}

#[test]
fn relaxation_moves_only_closed_cells() {
    let v = Voronoi::build(pts(&[(100, 50), (0, 1000), (866, 500), (866, -500), (0, -1000), (-866, -500), (-866, 500)]));
    assert!(v.cells[0].closed);
    let r = v.relax();
    // the interior site moves to its cell's centroid, near the origin
    assert_ne!(r.sites[0], pt(100, 50));
    assert!(r.sites[0].x.abs() < 100 && r.sites[0].y.abs() < 60);
    for i in 1..7 {
        assert_eq!(r.sites[i], v.sites[i]);
    }
    assert_eq!(relaxed_position(pt(5, 5), &v.cells[1]), pt(5, 5));
}

#[test]
fn relaxed_position_of_square_cell() {
    // a site at the center of a 3x3 grid has a square cell with corners (±1, ±1)
    let s = pts(&[(0, 0), (-2, -2), (0, -2), (2, -2), (2, 0), (2, 2), (0, 2), (-2, 2), (-2, 0)]);
    let v = Voronoi::build(s);
    let c = &v.cells[0];
    assert!(c.closed);
    assert_eq!(relaxed_position(pt(0, 0), c), pt(0, 0));
    assert_eq!(relaxed_position(pt(1, 1), c), pt(0, 0));
}

fn energy(v: &Voronoi, keep: &[bool]) -> f64 {
    let mut e = 0.0;
    for (i, c) in v.cells.iter().enumerate() {
        if keep[i] {
            let verts: Vec<(f64, f64)> = c.vertices.iter().map(to_f64).collect();
            let a = polygon_area(&verts);
            let n = verts.len();
            let (mut cx, mut cy) = (0.0, 0.0);
            for k in 0..n {
                let (x0, y0) = verts[k];
                let (x1, y1) = verts[(k + 1) % n];
                let cr = x0 * y1 - x1 * y0;
                cx += (x0 + x1) * cr;
                cy += (y0 + y1) * cr;
            }
            cx /= 6.0 * a;
            cy /= 6.0 * a;
            let (sx, sy) = (v.sites[i].x as f64, v.sites[i].y as f64);
            e += (sx - cx).powi(2) + (sy - cy).powi(2);
        }
    }
    e
}

/// A 9x9 grid of spacing 1000 with every site jittered by up to 250.
fn jittered_grid(seed: u64) -> Vec<Point> {
    let noise = generate(81, seed);
    let mut s = Vec::new();
    for i in 0..9i64 {
        for j in 0..9i64 {
            let n = noise[(i * 9 + j) as usize];
            s.push(pt(i * 1000 + n.x.rem_euclid(501) - 250, j * 1000 + n.y.rem_euclid(501) - 250));
        }
    }
    s
}

#[test]
fn relaxation_usually_lowers_energy() {
    let trials = 20u64;
    let mut ok = 0;
    for seed in 100..100 + trials {
        let v = Voronoi::build(jittered_grid(seed));
        let r = v.relax();
        // compare over the sites well inside the grid, whose cells are bounded
        let keep: Vec<bool> = (0..81)
            .map(|k| {
                let (i, j) = (k / 9, k % 9);
                (2..7).contains(&i) && (2..7).contains(&j)
            })
            .collect();
        for k in 0..81 {
            if keep[k] {
                assert!(v.cells[k].closed && r.cells[k].closed);
            }
        }
        if energy(&r, &keep) <= energy(&v, &keep) {
            ok += 1;
        }
    }
    assert!(ok * 100 >= 95 * trials, "{} of {}", ok, trials);
}

#[test]
fn out_of_range_site_is_rejected() {
    let s = pts(&[(0, 0), (10_000_000, -10_000_000), (10_000_001, 0), (0, -20_000_000)]);
    match Voronoi::try_build(s) {
        Err(e) => assert_eq!(e, GeometryError::CoordinateOutOfRange(2)),
        Ok(_) => panic!("out-of-range site accepted"),
    }
    let v = Voronoi::try_build(pts(&[(0, 0), (10, 0), (0, 10)])).expect("sites in range");
    assert_eq!(v.triangles, vec![tri(0, 1, 2)]);
    assert!(v.cells.iter().all(|c| !c.closed && c.vertices.len() == 1));
}
