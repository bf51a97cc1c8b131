use delaunator::Point;
use naturalneighbor::{InterpolatorError, Location, Triangulation, DEFAULT_DEGREE_LIMITATION};

fn corners(m: &Triangulation, points: &[Point], t: usize) -> [Point; 3] {
    let (a, b, c) = m.triangle_sites(t);
    [points[a].clone(), points[b].clone(), points[c].clone()]
}

fn holds(m: &Triangulation, points: &[Point], t: usize, q: &Point) -> bool {
    let [p1, p2, p3] = corners(m, points, t);
    let area2 = -p2.y * p3.x + p1.y * (-p2.x + p3.x) + p1.x * (p2.y - p3.y) + p2.x * p3.y;
    let s = (p1.y * p3.x - p1.x * p3.y + (p3.y - p1.y) * q.x + (p1.x - p3.x) * q.y) / area2;
    let u = (p1.x * p2.y - p1.y * p2.x + (p1.y - p2.y) * q.x + (p2.x - p1.x) * q.y) / area2;
    s >= 0.0 && u >= 0.0 && 1.0 - s - u >= 0.0
}

fn in_circumcircle(m: &Triangulation, points: &[Point], t: usize, q: &Point) -> bool {
    let [p1, p2, p3] = corners(m, points, t);
    let d = 2.0 * (p1.x * (p2.y - p3.y) + p2.x * (p3.y - p1.y) + p3.x * (p1.y - p2.y));
    let n1 = p1.x * p1.x + p1.y * p1.y;
    let n2 = p2.x * p2.x + p2.y * p2.y;
    let n3 = p3.x * p3.x + p3.y * p3.y;
    let cx = (n1 * (p2.y - p3.y) + n2 * (p3.y - p1.y) + n3 * (p1.y - p2.y)) / d;
    let cy = (n1 * (p3.x - p2.x) + n2 * (p1.x - p3.x) + n3 * (p2.x - p1.x)) / d;
    let r2 = (p1.x - cx).powi(2) + (p1.y - cy).powi(2);
    (cx - q.x).powi(2) + (cy - q.y).powi(2) < r2
}

fn candidates(m: &Triangulation, points: &[Point], q: &Point) -> Vec<usize> {
    (0..m.num_triangles()).filter(|&t| holds(m, points, t, q)).collect()
}

fn locate(m: &Triangulation, points: &[Point], q: &Point) -> Location {
    let cands = candidates(m, points, q);
    match m.locate(&cands, &|s: usize| points[s] == *q) {
        Location::Ambiguous => {
            let eps = 1e-12;
            let probes: Vec<Vec<usize>> = [(1.415, 1.339), (1.335, -1.483), (-1.421, -1.384), (-1.498, 1.322)]
                .iter()
                .map(|(dx, dy)| {
                    let p = Point { x: q.x + eps * dx, y: q.y + eps * dy };
                    candidates(m, points, &p)
                })
                .collect();
            m.resolve_probes(&probes)
        }
        other => other,
    }
}

fn grid(n: usize) -> Vec<Point> {
    let mut points = Vec::new();
    for y in 0..n {
        for x in 0..n {
            points.push(Point { x: x as f64, y: y as f64 });
        }
    }
    points
}

fn unit_square() -> Vec<Point> {
    vec![
        Point { x: 0.0, y: 0.0 },
        Point { x: 1.0, y: 0.0 },
        Point { x: 1.0, y: 1.0 },
        Point { x: 0.0, y: 1.0 },
    ]
}

#[test]
fn square_center_has_four_natural_neighbors() {
    let points = unit_square();
    let m = Triangulation::from_points(&points).unwrap();
    let q = Point { x: 0.5, y: 0.5 };
    assert_eq!(candidates(&m, &points, &q).len(), 2);
    let start = match locate(&m, &points, &q) {
        Location::Start(e) => e,
        other => panic!("unexpected {:?}", other),
    };
    let cells = m
        .natural_neighbors(start, DEFAULT_DEGREE_LIMITATION, &|t: usize| in_circumcircle(&m, &points, t, &q))
        .unwrap();
    let mut sites: Vec<usize> = cells.iter().map(|c| c.site).collect();
    sites.sort();
    assert_eq!(sites, vec![0, 1, 2, 3]);
    for c in &cells {
        assert!(!c.fan.is_empty());
    }
}

#[test]
fn far_query_is_outside() {
    let points = unit_square();
    let m = Triangulation::from_points(&points).unwrap();
    assert_eq!(locate(&m, &points, &Point { x: 50.0, y: -30.0 }), Location::Outside);
}

#[test]
fn query_on_site_is_placed_on_it() {
    let points = grid(4);
    let m = Triangulation::from_points(&points).unwrap();
    let q = Point { x: 1.0, y: 2.0 };
    assert_eq!(locate(&m, &points, &q), Location::OnSite(9));
}

#[test]
fn query_on_edge_is_settled_by_probes() {
    let points = grid(5);
    let m = Triangulation::from_points(&points).unwrap();
    let q = Point { x: 2.5, y: 2.0 };
    let first = locate(&m, &points, &q);
    assert!(matches!(first, Location::Start(_)));
    assert_eq!(locate(&m, &points, &q), first);
}

#[test]
fn interior_query_neighbors_close() {
    let points = grid(6);
    let m = Triangulation::from_points(&points).unwrap();
    let q = Point { x: 2.3, y: 3.6 };
    let start = match locate(&m, &points, &q) {
        Location::Start(e) => e,
        other => panic!("unexpected {:?}", other),
    };
    let ring = m
        .envelope(start, DEFAULT_DEGREE_LIMITATION, &|t: usize| in_circumcircle(&m, &points, t, &q))
        .unwrap();
    let k = ring.len();
    assert!(k >= 3);
    for i in 0..k {
        assert_eq!(ring[i].base, ring[(i + 1) % k].prev);
    }
    let mut sites: Vec<usize> = ring.iter().map(|x| m.origin(x.base)).collect();
    sites.sort();
    assert_eq!(sites, vec![20, 21, 26, 27]);
}

#[test]
fn small_limit_fails_and_later_queries_succeed() {
    let points = grid(6);
    let m = Triangulation::from_points(&points).unwrap();
    let q = Point { x: 2.3, y: 3.6 };
    let start = match locate(&m, &points, &q) {
        Location::Start(e) => e,
        other => panic!("unexpected {:?}", other),
    };
    assert_eq!(
        m.natural_neighbors(start, 3, &|_t: usize| true).err(),
        Some(InterpolatorError::TooManyNeighbors(3))
    );
    let cells = m
        .natural_neighbors(start, DEFAULT_DEGREE_LIMITATION, &|t: usize| in_circumcircle(&m, &points, t, &q))
        .unwrap();
    assert_eq!(cells.len(), 4);
}

#[test]
fn failed_query_leaves_triangulation_unchanged() {
    let points = grid(6);
    let m = Triangulation::from_points(&points).unwrap();
    let fresh = Triangulation::from_points(&points).unwrap();
    let q = Point { x: 2.3, y: 3.6 };
    let start = match locate(&m, &points, &q) {
        Location::Start(e) => e,
        other => panic!("unexpected {:?}", other),
    };
    let first = m.envelope(start, 3, &|_t: usize| true);
    assert_eq!(first, Err(InterpolatorError::TooManyNeighbors(3)));
    assert_eq!(m.envelope(start, 3, &|_t: usize| true), first);
    let test = |t: usize| in_circumcircle(&m, &points, t, &q);
    assert_eq!(
        m.envelope(start, DEFAULT_DEGREE_LIMITATION, &test),
        fresh.envelope(start, DEFAULT_DEGREE_LIMITATION, &|t: usize| in_circumcircle(&fresh, &points, t, &q))
    );
}
