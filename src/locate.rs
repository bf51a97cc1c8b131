use vstd::prelude::*;

use crate::envelope::{decides, test_of};
use crate::mesh::{corner_ok, Triangulation};

verus! {

/// Where a query stands in a triangulation.
#[derive(Debug, Clone, Copy, PartialEq, Eq, Structural)]
pub enum Location {
    /// No triangle holds the query: there is nothing to interpolate.
    Outside,
    /// The query is this site.
    OnSite(usize),
    /// The envelope walk starts at this half-edge.
    Start(usize),
    /// Several triangles hold the query and none of their corners is it: the
    /// query lies on a shared edge and must be probed nearby.
    Ambiguous,
}

/// Every candidate is a triangle of `m`.
pub open spec fn triangles_of(m: Triangulation, cands: Seq<usize>) -> bool {
    forall|i: int| 0 <= i < cands.len() ==> #[trigger] cands[i] < m.corners().len() / 3
}

impl Triangulation {
    /// The first corner, in candidate order and then winding order, of the
    /// candidates from index `i` on that `at` marks as the query itself.
    pub open spec fn coincident_from(self, cands: Seq<usize>, at: spec_fn(usize) -> bool, i: nat) -> Option<
        usize,
    >
        decreases cands.len() - i,
    {
        if i >= cands.len() {
            None
        } else {
            let t = cands[i as int] as int;
            let a = self.corners()[3 * t];
            let b = self.corners()[3 * t + 1];
            let c = self.corners()[3 * t + 2];
            if at(a) {
                Some(a)
            } else if at(b) {
                Some(b)
            } else if at(c) {
                Some(c)
            } else {
                self.coincident_from(cands, at, i + 1)
            }
        }
    }

    /// Where a query stands, given the triangles that hold it (`cands`) and
    /// which sites coincide with it (`at`): outside with none; at half-edge
    /// `3 t` of the one triangle `t`; else on the first coincident corner;
    /// else ambiguous.
    pub open spec fn location_of(self, cands: Seq<usize>, at: spec_fn(usize) -> bool) -> Location {
        if cands.len() == 0 {
            Location::Outside
        } else if cands.len() == 1 {
            Location::Start((3 * cands[0]) as usize)
        } else {
            match self.coincident_from(cands, at, 0) {
                Some(s) => Location::OnSite(s),
                None => Location::Ambiguous,
            }
        }
    }

    /// The first probe from index `i` on that one triangle alone holds gives
    /// the start at its half-edge `3 t`; with none the query stays outside.
    pub open spec fn probed_from(self, probes: Seq<Vec<usize>>, i: nat) -> Location
        decreases probes.len() - i,
    {
        if i >= probes.len() {
            Location::Outside
        } else if probes[i as int]@.len() == 1 {
            Location::Start((3 * probes[i as int]@[0]) as usize)
        } else {
            self.probed_from(probes, i + 1)
        }
    }

    proof fn lemma_coincident_found(
        self,
        cands: Seq<usize>,
        at: spec_fn(usize) -> bool,
        j: nat,
        i: int,
        k: int,
    )
        requires
            j <= i < cands.len(),
            0 <= k < 3,
            at(self.corners()[3 * cands[i] + k]),
        ensures
            self.coincident_from(cands, at, j) is Some,
            at(self.coincident_from(cands, at, j)->0),
        decreases i - j,
    {
        if j < i {
            let t = cands[j as int] as int;
            if !at(self.corners()[3 * t]) && !at(self.corners()[3 * t + 1]) && !at(
                self.corners()[3 * t + 2],
            ) {
                self.lemma_coincident_found(cands, at, j + 1, i, k);
            }
        }
    }

    proof fn lemma_coincident_is_site(self, cands: Seq<usize>, at: spec_fn(usize) -> bool, j: nat)
        requires
            self.wf(),
            triangles_of(self, cands),
        ensures
            self.coincident_from(cands, at, j) is Some ==> self.coincident_from(cands, at, j)->0
                < self.sites(),
        decreases cands.len() - j,
    {
        if j < cands.len() {
            let t = cands[j as int] as int;
            assert(3 * t + 2 < self.corners().len()) by (nonlinear_arith)
                requires
                    0 <= t < self.corners().len() / 3,
            ;
            assert(corner_ok(self.sites(), self.corners(), 3 * t));
            assert(corner_ok(self.sites(), self.corners(), 3 * t + 1));
            assert(corner_ok(self.sites(), self.corners(), 3 * t + 2));
            self.lemma_coincident_is_site(cands, at, j + 1);
        }
    }

    /// Where several triangles hold a query and a corner of one of them is the
    /// query itself, the query is placed on a site, and that site is the query.
    pub proof fn lemma_on_vertex(self, cands: Seq<usize>, at: spec_fn(usize) -> bool, i: int, k: int)
        requires
            self.wf(),
            triangles_of(self, cands),
            cands.len() >= 2,
            0 <= i < cands.len(),
            0 <= k < 3,
            at(self.corners()[3 * cands[i] + k]),
        ensures
            self.location_of(cands, at) is OnSite,
            at(self.location_of(cands, at)->OnSite_0),
            self.location_of(cands, at)->OnSite_0 < self.sites(),
    {
        self.lemma_coincident_found(cands, at, 0, i, k);
        self.lemma_coincident_is_site(cands, at, 0);
    }

    /// Locates a query from the triangles that hold it, in the order found;
    /// `at(s)` tells whether site `s` is the query itself.
    pub fn locate<F: Fn(usize) -> bool>(&self, cands: &Vec<usize>, at: &F) -> (r: Location)
        requires
            self.wf(),
            triangles_of(*self, cands@),
            decides(*at),
        ensures
            r == self.location_of(cands@, test_of(*at)),
            r matches Location::OnSite(s) ==> s < self.sites(),
    {
        let ghost at_s = test_of(*at);
        let n = cands.len();
        if n == 0 {
            return Location::Outside;
        }
        if n == 1 {
            let t = cands[0];
            let h = self.num_half_edges();
            assert(3 * t < h) by (nonlinear_arith)
                requires
                    t < h / 3,
            ;
            return Location::Start(3 * t);
        }
        let mut i: usize = 0;
        while i < n
            invariant
                self.wf(),
                n == cands@.len(),
                n >= 2,
                i <= n,
                triangles_of(*self, cands@),
                decides(*at),
                at_s == test_of(*at),
                self.coincident_from(cands@, at_s, i as nat) == self.coincident_from(cands@, at_s, 0),
            decreases n - i,
        {
            let (a, b, c) = self.triangle_sites(cands[i]);
            if at(a) {
                return Location::OnSite(a);
            }
            if at(b) {
                return Location::OnSite(b);
            }
            if at(c) {
                return Location::OnSite(c);
            }
            i = i + 1;
        }
        Location::Ambiguous
    }

    proof fn lemma_probed_settles(self, probes: Seq<Vec<usize>>, i: nat)
        ensures
            self.probed_from(probes, i) is Outside || self.probed_from(probes, i) is Start,
        decreases probes.len() - i,
    {
        if i < probes.len() && probes[i as int]@.len() != 1 {
            self.lemma_probed_settles(probes, i + 1);
        }
    }

    /// Settles an ambiguous query from the triangles that hold each of the
    /// probe points about it, tried in order.
    pub fn resolve_probes(&self, probes: &Vec<Vec<usize>>) -> (r: Location)
        requires
            self.wf(),
            forall|i: int| 0 <= i < probes@.len() ==> triangles_of(*self, #[trigger] probes@[i]@),
        ensures
            r == self.probed_from(probes@, 0),
            r is Outside || r is Start,
    {
        proof {
            self.lemma_probed_settles(probes@, 0);
        }
        let n = probes.len();
        let h = self.num_half_edges();
        let mut i: usize = 0;
        while i < n
            invariant
                self.wf(),
                n == probes@.len(),
                h == self.corners().len(),
                i <= n,
                forall|i: int| 0 <= i < probes@.len() ==> triangles_of(*self, #[trigger] probes@[i]@),
                self.probed_from(probes@, i as nat) == self.probed_from(probes@, 0),
            decreases n - i,
        {
            let probe = &probes[i];
            if probe.len() == 1 {
                let t = probe[0];
                assert(triangles_of(*self, probes@[i as int]@));
                assert(3 * t < h) by (nonlinear_arith)
                    requires
                        t < h / 3,
                ;
                return Location::Start(3 * t);
            }
            i = i + 1;
        }
        Location::Outside
    }
}

} // verus!
