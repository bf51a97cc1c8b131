use vstd::prelude::*;

use crate::error::{InterpolatorError, TriangulationError};

verus! {

/// A site as delaunator reads it; its coordinates stay opaque here.
#[verifier::external_type_specification]
#[verifier::external_body]
pub struct ExPoint(delaunator::Point);

/// The half-edge that follows `e` around its triangle.
pub open spec fn next_edge(e: int) -> int {
    if e % 3 == 2 {
        e - 2
    } else {
        e + 1
    }
}

/// Half-edge `e` names a site of the triangulation.
pub open spec fn corner_ok(sites: nat, corners: Seq<usize>, e: int) -> bool {
    corners[e] < sites
}

/// Half-edge `e` is on the hull, or its twin points back to it.
pub open spec fn twin_ok(twins: Seq<usize>, e: int) -> bool {
    twins[e] < twins.len() ==> twins[twins[e] as int] == e
}

/// Corner and twin lists that describe whole triangles over `sites` sites,
/// with reciprocal twins.
pub open spec fn well_formed(sites: nat, corners: Seq<usize>, twins: Seq<usize>) -> bool {
    &&& corners.len() % 3 == 0
    &&& twins.len() == corners.len()
    &&& forall|e: int| 0 <= e < corners.len() ==> #[trigger] corner_ok(sites, corners, e)
    &&& forall|e: int| 0 <= e < twins.len() ==> #[trigger] twin_ok(twins, e)
}

/// The first half-edge at or after `from` whose corner names no site.
pub open spec fn first_bad_corner(sites: nat, corners: Seq<usize>, from: nat) -> Option<nat>
    decreases corners.len() - from,
{
    if from >= corners.len() {
        None
    } else if !corner_ok(sites, corners, from as int) {
        Some(from)
    } else {
        first_bad_corner(sites, corners, from + 1)
    }
}

/// The first half-edge at or after `from` whose twin does not point back.
pub open spec fn first_bad_twin(twins: Seq<usize>, from: nat) -> Option<nat>
    decreases twins.len() - from,
{
    if from >= twins.len() {
        None
    } else if !twin_ok(twins, from as int) {
        Some(from)
    } else {
        first_bad_twin(twins, from + 1)
    }
}

/// What is wrong with corner and twin lists, checked in this order: whole
/// triangles, equal lengths, at least one triangle, the first corner that
/// names no site, the first twin that does not point back.
pub open spec fn build_error(sites: nat, corners: Seq<usize>, twins: Seq<usize>) -> Option<
    TriangulationError,
> {
    if corners.len() % 3 != 0 {
        Some(TriangulationError::IncompleteTriangle)
    } else if twins.len() != corners.len() {
        Some(TriangulationError::LengthMismatch)
    } else if corners.len() == 0 {
        Some(TriangulationError::Degenerate)
    } else if first_bad_corner(sites, corners, 0) is Some {
        Some(TriangulationError::SiteOutOfRange(first_bad_corner(sites, corners, 0)->0 as usize))
    } else if first_bad_twin(twins, 0) is Some {
        Some(TriangulationError::TwinMismatch(first_bad_twin(twins, 0)->0 as usize))
    } else {
        None
    }
}

/// The half-edge that follows `e` around its triangle.
pub fn next_harfedge(e: usize) -> (r: usize)
    requires
        e < usize::MAX,
    ensures
        r == next_edge(e as int),
{
    if e % 3 == 2 {
        e - 2
    } else {
        e + 1
    }
}

/// The half-edge after `e` is in range and in the same triangle.
pub proof fn lemma_next_in_range(e: int, len: int)
    requires
        0 <= e < len,
        len % 3 == 0,
    ensures
        0 <= next_edge(e) < len,
        next_edge(e) / 3 == e / 3,
{
}

/// The corner and twin lists that delaunator::triangulate gives for the sites.
pub uninterp spec fn delaunay_of(points: Seq<delaunator::Point>) -> (Seq<usize>, Seq<usize>);

/// The IEEE 754 bit patterns of the two coordinates of a site.
pub uninterp spec fn coordinate_bits(p: delaunator::Point) -> (u64, u64);

/// The bit pattern `b` is that of a finite value of magnitude below 2^64
/// (biased exponent below 1087); infinities and NaN have exponent 2047.
pub open spec fn coordinate_ok(b: u64) -> bool {
    b & 0x7fff_ffff_ffff_ffff < 0x43f0_0000_0000_0000
}

/// Both coordinates of the site are acceptable.
pub open spec fn site_ok(p: delaunator::Point) -> bool {
    coordinate_ok(coordinate_bits(p).0) && coordinate_ok(coordinate_bits(p).1)
}

/// The first site at or after `from` with an unacceptable coordinate.
pub open spec fn first_invalid_site(points: Seq<delaunator::Point>, from: nat) -> Option<nat>
    decreases points.len() - from,
{
    if from >= points.len() {
        None
    } else if !site_ok(points[from as int]) {
        Some(from)
    } else {
        first_invalid_site(points, from + 1)
    }
}

/// Relies on f64::to_bits: the raw bit patterns of the two coordinates.
#[verifier::external_body]
fn site_bits(p: &delaunator::Point) -> (r: (u64, u64))
    ensures
        r == coordinate_bits(*p),
{
    (p.x.to_bits(), p.y.to_bits())
}

/// Relies on delaunator::triangulate: it depends on the sites alone, and, as
/// its documentation gives, its corner list holds whole triangles of site
/// indices and each twin points back or is `EMPTY` (`usize::MAX`). Sites are
/// limited to finite coordinates below 2^64 in magnitude: a NaN (or an
/// overflow to one in its orientation test) makes its hull walk read past
/// the sites and panic.
#[verifier::external_body]
fn delaunay(points: &[delaunator::Point]) -> (r: (Vec<usize>, Vec<usize>))
    requires
        forall|i: int| 0 <= i < points@.len() ==> #[trigger] site_ok(points@[i]),
    ensures
        (r.0@, r.1@) == delaunay_of(points@),
        well_formed(points@.len(), r.0@, r.1@),
{
    let t = delaunator::triangulate(points);
    (t.triangles, t.halfedges)
}

/// The adjacency of a triangulation: for each half-edge `e`, its origin site
/// `triangles[e]` and its twin `halfedges[e]` (a value past the end on the hull).
/// Half-edge `e` belongs to triangle `e / 3`.
#[derive(Clone)]
pub struct Triangulation {
    sites: usize,
    triangles: Vec<usize>,
    halfedges: Vec<usize>,
}

impl Triangulation {
    /// The number of sites.
    pub closed spec fn sites(self) -> nat {
        self.sites as nat
    }

    /// The origin site of each half-edge.
    pub closed spec fn corners(self) -> Seq<usize> {
        self.triangles@
    }

    /// The twin of each half-edge.
    pub closed spec fn twins(self) -> Seq<usize> {
        self.halfedges@
    }

    /// Builds a triangulation over `sites` sites from its corner and twin lists,
    /// after checking them in the order that `build_error` gives.
    pub fn new(sites: usize, triangles: Vec<usize>, halfedges: Vec<usize>) -> (r: Result<
        Triangulation,
        TriangulationError,
    >)
        ensures
            build_error(sites as nat, triangles@, halfedges@) is None <==> (well_formed(
                sites as nat,
                triangles@,
                halfedges@,
            ) && triangles@.len() > 0),
            match r {
                Ok(m) => build_error(sites as nat, triangles@, halfedges@) is None && m.wf()
                    && m.sites() == sites && m.corners() == triangles@ && m.twins() == halfedges@,
                Err(x) => build_error(sites as nat, triangles@, halfedges@) == Some(x),
            },
    {
        let n = triangles.len();
        if n % 3 != 0 {
            return Err(TriangulationError::IncompleteTriangle);
        }
        if halfedges.len() != n {
            return Err(TriangulationError::LengthMismatch);
        }
        if n == 0 {
            return Err(TriangulationError::Degenerate);
        }
        let mut e: usize = 0;
        while e < n
            invariant
                n == triangles@.len(),
                n == halfedges@.len(),
                n > 0,
                n % 3 == 0,
                e <= n,
                forall|j: int| 0 <= j < e ==> #[trigger] corner_ok(sites as nat, triangles@, j),
                first_bad_corner(sites as nat, triangles@, 0) == first_bad_corner(
                    sites as nat,
                    triangles@,
                    e as nat,
                ),
            decreases n - e,
        {
            if triangles[e] >= sites {
                assert(first_bad_corner(sites as nat, triangles@, e as nat) == Some(e as nat));
                return Err(TriangulationError::SiteOutOfRange(e));
            }
            e = e + 1;
        }
        let mut e: usize = 0;
        while e < n
            invariant
                n == triangles@.len(),
                n == halfedges@.len(),
                n > 0,
                n % 3 == 0,
                e <= n,
                forall|j: int| 0 <= j < e ==> #[trigger] twin_ok(halfedges@, j),
                forall|j: int| 0 <= j < n ==> #[trigger] corner_ok(sites as nat, triangles@, j),
                first_bad_corner(sites as nat, triangles@, 0) is None,
                first_bad_twin(halfedges@, 0) == first_bad_twin(halfedges@, e as nat),
            decreases n - e,
        {
            let t = halfedges[e];
            if t < n && halfedges[t] != e {
                assert(first_bad_twin(halfedges@, e as nat) == Some(e as nat));
                return Err(TriangulationError::TwinMismatch(e));
            }
            e = e + 1;
        }
        Ok(Triangulation { sites, triangles, halfedges })
    }

    /// Triangulates the points (Delaunay) and builds the adjacency from the
    /// result. Fails with `InvalidSite` at the first site with a coordinate
    /// that is not finite or reaches 2^64 in magnitude, and with `Degenerate`
    /// where the sites span no triangle.
    pub fn from_points(points: &[delaunator::Point]) -> (r: Result<
        Triangulation,
        TriangulationError,
    >)
        ensures
            match first_invalid_site(points@, 0) {
                Some(i) => r == Err::<Triangulation, _>(TriangulationError::InvalidSite(i as usize)),
                None => match r {
                    Ok(m) => {
                        &&& m.wf()
                        &&& m.sites() == points@.len()
                        &&& m.corners() == delaunay_of(points@).0
                        &&& m.twins() == delaunay_of(points@).1
                    },
                    Err(x) => {
                        &&& x == TriangulationError::Degenerate
                        &&& delaunay_of(points@).0.len() == 0
                        &&& build_error(
                            points@.len(),
                            delaunay_of(points@).0,
                            delaunay_of(points@).1,
                        ) == Some(x)
                    },
                },
            },
    {
        let n = points.len();
        let mut i: usize = 0;
        while i < n
            invariant
                n == points@.len(),
                i <= n,
                forall|j: int| 0 <= j < i ==> #[trigger] site_ok(points@[j]),
                first_invalid_site(points@, 0) == first_invalid_site(points@, i as nat),
            decreases n - i,
        {
            let (bx, by) = site_bits(&points[i]);
            if bx & 0x7fff_ffff_ffff_ffff >= 0x43f0_0000_0000_0000 || by & 0x7fff_ffff_ffff_ffff
                >= 0x43f0_0000_0000_0000 {
                assert(first_invalid_site(points@, i as nat) == Some(i as nat));
                return Err(TriangulationError::InvalidSite(i));
            }
            i = i + 1;
        }
        let (triangles, halfedges) = delaunay(points);
        Triangulation::new(n, triangles, halfedges)
    }

    /// The number of sites.
    pub fn num_sites(&self) -> (r: usize)
        ensures
            r == self.sites(),
    {
        self.sites
    }

    /// The number of half-edges, three per triangle.
    pub fn num_half_edges(&self) -> (r: usize)
        ensures
            r == self.corners().len(),
    {
        self.triangles.len()
    }

    /// The number of triangles.
    pub fn num_triangles(&self) -> (r: usize)
        requires
            self.wf(),
        ensures
            r == self.corners().len() / 3,
    {
        self.triangles.len() / 3
    }

    /// The origin site of half-edge `e`.
    pub fn origin(&self, e: usize) -> (r: usize)
        requires
            self.wf(),
            e < self.corners().len(),
        ensures
            r == self.corners()[e as int],
            r < self.sites(),
    {
        assert(corner_ok(self.sites(), self.corners(), e as int));
        self.triangles[e]
    }

    /// The twin of half-edge `e`; a value at or past the number of half-edges
    /// on the hull.
    pub fn twin(&self, e: usize) -> (r: usize)
        requires
            e < self.twins().len(),
        ensures
            r == self.twins()[e as int],
    {
        self.halfedges[e]
    }

    /// The three corner sites of triangle `t`, in winding order.
    pub fn triangle_sites(&self, t: usize) -> (r: (usize, usize, usize))
        requires
            self.wf(),
            t < self.corners().len() / 3,
        ensures
            r == (self.corners()[3 * t], self.corners()[3 * t + 1], self.corners()[3 * t + 2]),
            r.0 < self.sites() && r.1 < self.sites() && r.2 < self.sites(),
    {
        let n = self.num_half_edges();
        assert(3 * t + 2 < n) by (nonlinear_arith)
            requires
                t < n / 3,
        ;
        let b = 3 * t;
        (self.origin(b), self.origin(b + 1), self.origin(b + 2))
    }

    /// Checks that one value is given per site.
    pub fn check_values(&self, n_values: usize) -> (r: Result<(), InterpolatorError>)
        ensures
            r is Ok <==> n_values == self.sites(),
            r is Err ==> r == Err::<(), _>(InterpolatorError::DifferentNumberOfPointsAndValues),
    {
        if n_values != self.sites {
            Err(InterpolatorError::DifferentNumberOfPointsAndValues)
        } else {
            Ok(())
        }
    }

    /// The lists are well formed and hold a triangle; every constructor
    /// establishes it.
    pub open spec fn wf(self) -> bool {
        &&& well_formed(self.sites(), self.corners(), self.twins())
        &&& self.corners().len() > 0
    }
}

} // verus!
