use vstd::prelude::*;

use crate::error::InterpolatorError;
use crate::mesh::{lemma_next_in_range, next_edge, next_harfedge, Triangulation};

verus! {

/// The degree limit that bounds each walk unless the caller sets another.
pub const DEFAULT_DEGREE_LIMITATION: usize = 30;

/// Three consecutive half-edges of the insertion envelope. The origin of
/// `base` is the natural neighbor; the origins of `prev` and `next` are its
/// neighbors along the envelope.
#[derive(Debug, Clone, Copy, PartialEq, Eq, Structural)]
pub struct Triple {
    pub prev: usize,
    pub base: usize,
    pub next: usize,
}

/// A natural neighbor of a query: its site, the sites before and after it
/// along the envelope, and the triangles whose circumcenters bound its old
/// Voronoi cell between them.
#[derive(Debug)]
pub struct NeighborCell {
    pub site: usize,
    pub prev_site: usize,
    pub next_site: usize,
    pub fan: Vec<usize>,
}

/// What the test `f` answers for index `t` (a triangle, or a site).
pub open spec fn answer<F: Fn(usize) -> bool>(f: F, t: usize) -> bool {
    call_ensures(f, (t,), true)
}

/// The test `f` as a predicate.
pub open spec fn test_of<F: Fn(usize) -> bool>(f: F) -> spec_fn(usize) -> bool {
    |t: usize| answer(f, t)
}

/// `f` may be called on any index and gives one answer for each.
pub open spec fn decides<F: Fn(usize) -> bool>(f: F) -> bool {
    &&& forall|t: usize| #[trigger] call_requires(f, (t,))
    &&& forall|t: usize| !(#[trigger] call_ensures(f, (t,), true) && call_ensures(f, (t,), false))
}

/// Consecutive triples share two half-edges, and the last wraps to the first:
/// the triples go once around a closed polygon of half-edges.
pub open spec fn closed_ring(s: Seq<Triple>) -> bool {
    s.len() == 0 || {
        &&& s.len() >= 3
        &&& forall|i: int|
            0 <= i < s.len() - 1 ==> (#[trigger] s[i]).base == s[i + 1].prev && s[i].next == s[i
                + 1].base
        &&& s[s.len() - 1].base == s[0].prev
        &&& s[s.len() - 1].next == s[0].base
    }
}

/// Every half-edge in the triples is one of the `len` half-edges.
pub open spec fn within(s: Seq<Triple>, len: nat) -> bool {
    forall|i: int|
        0 <= i < s.len() ==> (#[trigger] s[i]).prev < len && s[i].base < len && s[i].next < len
}

impl Triangulation {
    /// The walk from `e` goes no further: `e` is on the hull, or the triangle
    /// across it fails the test.
    pub open spec fn stops_at(self, e: usize, inside: spec_fn(usize) -> bool) -> bool {
        self.twins()[e as int] >= self.twins().len() || !inside(
            (self.twins()[e as int] / 3) as usize,
        )
    }

    /// Crossing from `e` into the triangles that pass the test, turning about
    /// the origin of `e`, with `n` checks left: the half-edge where it stops,
    /// or `None` where the last check would still cross.
    pub open spec fn advance(self, e: usize, inside: spec_fn(usize) -> bool, n: nat) -> Option<
        usize,
    >
        decreases n,
    {
        if n == 0 || self.stops_at(e, inside) {
            Some(e)
        } else if n == 1 {
            None
        } else {
            self.advance(
                next_edge(self.twins()[e as int] as int) as usize,
                inside,
                (n - 1) as nat,
            )
        }
    }

    /// The walk around the envelope from state `(e0, e1, e2)` at round `d`,
    /// with `first` the leading pair of the first whole triple and `acc` the
    /// triples so far; `None` where the degree limit is passed.
    pub open spec fn walk(
        self,
        start: usize,
        inside: spec_fn(usize) -> bool,
        limit: nat,
        d: nat,
        e0: usize,
        e1: usize,
        e2: usize,
        first: Option<(usize, usize)>,
        acc: Seq<Triple>,
    ) -> Option<Seq<Triple>>
        decreases limit - d,
    {
        if d >= limit {
            Some(acc)
        } else {
            match self.advance(e2, inside, limit) {
                None => None,
                Some(f) => {
                    let emit = e0 < self.corners().len();
                    let first2 = if emit && first is None {
                        Some((e0, e1))
                    } else {
                        first
                    };
                    let acc2 = if emit {
                        acc.push(Triple { prev: e0, base: e1, next: f })
                    } else {
                        acc
                    };
                    let n2 = next_edge(f as int) as usize;
                    if self.corners()[start as int] == self.corners()[n2 as int] {
                        match first2 {
                            Some(p) => Some(
                                acc2.push(Triple { prev: e1, base: f, next: p.0 }).push(
                                    Triple { prev: f, base: p.0, next: p.1 },
                                ),
                            ),
                            None => Some(acc2),
                        }
                    } else if d + 1 >= limit {
                        None
                    } else {
                        self.walk(start, inside, limit, d + 1, e1, f, n2, first2, acc2)
                    }
                },
            }
        }
    }

    /// The triples of the insertion envelope found from half-edge `start`, in
    /// walking order, or `None` where a walk passes the degree limit.
    pub open spec fn envelope_of(self, start: usize, inside: spec_fn(usize) -> bool, limit: nat) -> Option<
        Seq<Triple>,
    > {
        let l = self.corners().len() as usize;
        self.walk(start, inside, limit, 0, l, l, start, None, Seq::empty())
    }

    /// The triangles about the origin of `base`, from the triangle of `ce` on,
    /// crossing at each step the twin of the half-edge that follows; `n` steps
    /// are left and `acc` holds those met so far. `None` where the fan meets
    /// the hull or the last step would still go on.
    pub open spec fn fan(self, ce: usize, base: usize, n: nat, acc: Seq<usize>) -> Option<
        Seq<usize>,
    >
        decreases n,
    {
        if n == 0 {
            Some(acc)
        } else {
            let acc2 = acc.push((ce / 3) as usize);
            let nxt = next_edge(ce as int);
            if nxt == base {
                Some(acc2)
            } else if n == 1 || self.twins()[nxt] >= self.twins().len() {
                None
            } else {
                self.fan(self.twins()[nxt], base, (n - 1) as nat, acc2)
            }
        }
    }

    /// The fan of triangles between half-edges `prev` and `base` of a triple:
    /// the old Voronoi cell of the origin of `base` passes through their
    /// circumcenters.
    pub open spec fn fan_of(self, prev: usize, base: usize, limit: nat) -> Option<Seq<usize>> {
        self.fan(prev, base, limit, Seq::empty())
    }

    /// Every triple of `s` has a fan within the limit.
    pub open spec fn fans_close(self, s: Seq<Triple>, limit: nat) -> bool {
        forall|i: int| 0 <= i < s.len() ==> (#[trigger] self.fan_of(s[i].prev, s[i].base, limit)) is Some
    }

    /// The cell `c` is what triple `t` gives.
    pub open spec fn describes(self, c: NeighborCell, t: Triple, limit: nat) -> bool {
        &&& c.site == self.corners()[t.base as int]
        &&& c.prev_site == self.corners()[t.prev as int]
        &&& c.next_site == self.corners()[t.next as int]
        &&& self.fan_of(t.prev, t.base, limit) == Some(c.fan@)
    }

    proof fn lemma_advance_stops(self, e: usize, inside: spec_fn(usize) -> bool, n: nat)
        requires
            n >= 1,
            self.advance(e, inside, n) is Some,
        ensures
            self.stops_at(self.advance(e, inside, n)->0, inside),
        decreases n,
    {
        if !self.stops_at(e, inside) && n > 1 {
            self.lemma_advance_stops(
                next_edge(self.twins()[e as int] as int) as usize,
                inside,
                (n - 1) as nat,
            );
        }
    }

    proof fn lemma_advance_larger_limit(self, e: usize, inside: spec_fn(usize) -> bool, n: nat, m: nat)
        requires
            1 <= n <= m,
            self.advance(e, inside, n) is Some,
        ensures
            self.advance(e, inside, m) == self.advance(e, inside, n),
        decreases n,
    {
        if !self.stops_at(e, inside) && n > 1 {
            self.lemma_advance_larger_limit(
                next_edge(self.twins()[e as int] as int) as usize,
                inside,
                (n - 1) as nat,
                (m - 1) as nat,
            );
        }
    }

    proof fn lemma_walk_larger_limit(
        self,
        start: usize,
        inside: spec_fn(usize) -> bool,
        n: nat,
        m: nat,
        d: nat,
        e0: usize,
        e1: usize,
        e2: usize,
        first: Option<(usize, usize)>,
        acc: Seq<Triple>,
    )
        requires
            d < n <= m,
            self.walk(start, inside, n, d, e0, e1, e2, first, acc) is Some,
        ensures
            self.walk(start, inside, m, d, e0, e1, e2, first, acc) == self.walk(
                start,
                inside,
                n,
                d,
                e0,
                e1,
                e2,
                first,
                acc,
            ),
        decreases n - d,
    {
        self.lemma_advance_larger_limit(e2, inside, n, m);
        let f = self.advance(e2, inside, n)->0;
        let emit = e0 < self.corners().len();
        let first2 = if emit && first is None {
            Some((e0, e1))
        } else {
            first
        };
        let acc2 = if emit {
            acc.push(Triple { prev: e0, base: e1, next: f })
        } else {
            acc
        };
        let n2 = next_edge(f as int) as usize;
        if self.corners()[start as int] != self.corners()[n2 as int] && d + 1 < n {
            self.lemma_walk_larger_limit(start, inside, n, m, d + 1, e1, f, n2, first2, acc2);
        }
    }

    proof fn lemma_fan_larger_limit(self, ce: usize, base: usize, n: nat, m: nat, acc: Seq<usize>)
        requires
            1 <= n <= m,
            self.fan(ce, base, n, acc) is Some,
        ensures
            self.fan(ce, base, m, acc) == self.fan(ce, base, n, acc),
        decreases n,
    {
        let nxt = next_edge(ce as int);
        if nxt != base && n > 1 {
            self.lemma_fan_larger_limit(
                self.twins()[nxt],
                base,
                (n - 1) as nat,
                (m - 1) as nat,
                acc.push((ce / 3) as usize),
            );
        }
    }

    /// A walk that succeeds under a degree limit succeeds alike under any
    /// larger one: the envelope and every fan stay the same, so a query that
    /// fails can be retried with a larger limit.
    pub proof fn lemma_larger_limit(
        self,
        start: usize,
        prev: usize,
        base: usize,
        inside: spec_fn(usize) -> bool,
        n: nat,
        m: nat,
    )
        requires
            1 <= n <= m,
        ensures
            self.envelope_of(start, inside, n) is Some ==> self.envelope_of(start, inside, m)
                == self.envelope_of(start, inside, n),
            self.fan_of(prev, base, n) is Some ==> self.fan_of(prev, base, m) == self.fan_of(
                prev,
                base,
                n,
            ),
    {
        let l = self.corners().len() as usize;
        if self.envelope_of(start, inside, n) is Some {
            self.lemma_walk_larger_limit(start, inside, n, m, 0, l, l, start, None, Seq::empty());
        }
        if self.fan_of(prev, base, n) is Some {
            self.lemma_fan_larger_limit(prev, base, n, m, Seq::empty());
        }
    }

    fn advance_exec<F: Fn(usize) -> bool>(&self, e: usize, limit: usize, inside: &F) -> (r: Option<
        usize,
    >)
        requires
            self.wf(),
            e < self.corners().len(),
            decides(*inside),
        ensures
            r == self.advance(e, test_of(*inside), limit as nat),
            r is Some ==> r->0 < self.corners().len(),
    {
        let ghost p = test_of(*inside);
        let n = self.num_half_edges();
        let mut cur = e;
        let mut d: usize = 0;
        while d < limit
            invariant
                self.wf(),
                n == self.corners().len(),
                n == self.twins().len(),
                cur < n,
                d <= limit,
                decides(*inside),
                p == test_of(*inside),
                self.advance(cur, p, (limit - d) as nat) == self.advance(e, p, limit as nat),
            decreases limit - d,
        {
            let opp = self.twin(cur);
            if opp >= n {
                return Some(cur);
            }
            let t = opp / 3;
            let hit = inside(t);
            assert(hit == p(t));
            if !hit {
                return Some(cur);
            }
            if d + 1 >= limit {
                return None;
            }
            proof {
                lemma_next_in_range(opp as int, n as int);
            }
            cur = next_harfedge(opp);
            d = d + 1;
        }
        Some(cur)
    }
    /// Walks the insertion envelope of a query from half-edge `start`, where
    /// `inside(t)` tells whether the circumcircle of triangle `t` holds the
    /// query. Returns its triples in walking order; they close a ring of
    /// half-edges. Fails where a walk passes the degree limit `limit`.
    pub fn envelope<F: Fn(usize) -> bool>(&self, start: usize, limit: usize, inside: &F) -> (r:
        Result<Vec<Triple>, InterpolatorError>)
        requires
            self.wf(),
            start < self.corners().len(),
            decides(*inside),
        ensures
            match self.envelope_of(start, test_of(*inside), limit as nat) {
                Some(s) => r is Ok && r->Ok_0@ == s,
                None => r == Err::<Vec<Triple>, _>(InterpolatorError::TooManyNeighbors(limit)),
            },
            r is Ok ==> {
                &&& closed_ring(r->Ok_0@)
                &&& within(r->Ok_0@, self.corners().len())
                &&& r->Ok_0@.len() <= limit
                &&& forall|i: int|
                    0 <= i < r->Ok_0@.len() ==> self.stops_at(
                        (#[trigger] r->Ok_0@[i]).prev,
                        test_of(*inside),
                    ) && self.stops_at(r->Ok_0@[i].base, test_of(*inside)) && self.stops_at(
                        r->Ok_0@[i].next,
                        test_of(*inside),
                    )
                &&& forall|i: int|
                    0 <= i < r->Ok_0@.len() - 2 ==> self.advance(
                        next_edge((#[trigger] r->Ok_0@[i]).base as int) as usize,
                        test_of(*inside),
                        limit as nat,
                    ) == Some(r->Ok_0@[i].next)
            },
    {
        let ghost p = test_of(*inside);
        let n = self.num_half_edges();
        let mut e0 = n;
        let mut e1 = n;
        let mut e2 = start;
        let mut first: Option<(usize, usize)> = None;
        let mut out: Vec<Triple> = Vec::new();
        let mut d: usize = 0;
        while d < limit
            invariant
                self.wf(),
                n == self.corners().len(),
                n == self.twins().len(),
                start < n,
                e0 <= n,
                e1 <= n,
                e2 < n,
                e0 < n ==> e1 < n,
                d <= limit,
                d > 0 ==> d < limit,
                d == 0 ==> first is None,
                d < 2 ==> e0 == n,
                d < 1 ==> e1 == n,
                e1 < n ==> e2 == next_edge(e1 as int),
                e0 < n ==> self.stops_at(e0, p),
                e1 < n ==> self.stops_at(e1, p),
                first is Some ==> out@.len() + 2 <= d,
                forall|i: int|
                    0 <= i < out@.len() ==> self.stops_at((#[trigger] out@[i]).prev, p)
                        && self.stops_at(out@[i].base, p) && self.stops_at(out@[i].next, p),
                forall|i: int|
                    0 <= i < out@.len() ==> self.advance(
                        next_edge((#[trigger] out@[i]).base as int) as usize,
                        p,
                        limit as nat,
                    ) == Some(out@[i].next),
                decides(*inside),
                p == test_of(*inside),
                within(out@, n as nat),
                first is None ==> out@.len() == 0,
                first is Some ==> {
                    &&& out@.len() >= 1
                    &&& e0 < n
                    &&& out@[0].prev == (first->0).0
                    &&& out@[0].base == (first->0).1
                    &&& out@[out@.len() - 1].base == e0
                    &&& out@[out@.len() - 1].next == e1
                    &&& forall|i: int|
                        0 <= i < out@.len() - 1 ==> (#[trigger] out@[i]).base == out@[i + 1].prev
                            && out@[i].next == out@[i + 1].base
                },
                self.walk(start, p, limit as nat, d as nat, e0, e1, e2, first, out@)
                    == self.envelope_of(start, p, limit as nat),
            decreases limit - d,
        {
            let f = match self.advance_exec(e2, limit, inside) {
                Some(f) => f,
                None => {
                    return Err(InterpolatorError::TooManyNeighbors(limit));
                },
            };
            proof {
                self.lemma_advance_stops(e2, p, limit as nat);
            }
            if e0 < n {
                if first.is_none() {
                    first = Some((e0, e1));
                }
                out.push(Triple { prev: e0, base: e1, next: f });
            }
            proof {
                lemma_next_in_range(f as int, n as int);
            }
            let n2 = next_harfedge(f);
            if self.origin(start) == self.origin(n2) {
                match first {
                    Some(pair) => {
                        out.push(Triple { prev: e1, base: f, next: pair.0 });
                        out.push(Triple { prev: f, base: pair.0, next: pair.1 });
                    },
                    None => {},
                }
                return Ok(out);
            }
            if d + 1 >= limit {
                return Err(InterpolatorError::TooManyNeighbors(limit));
            }
            e0 = e1;
            e1 = f;
            e2 = n2;
            d = d + 1;
        }
        Ok(out)
    }
    /// The fan of triangles about the origin of `base`, from the triangle of
    /// `prev` to the triangle of `base`. Fails with `TooManyNeighbors(limit)`
    /// where it passes the degree limit `limit`, and with the same error where
    /// it meets the hull before reaching `base`: such a fan cannot close, a
    /// walk the guard stops as it stops a runaway one.
    pub fn fan_triangles(&self, prev: usize, base: usize, limit: usize) -> (r: Result<
        Vec<usize>,
        InterpolatorError,
    >)
        requires
            self.wf(),
            prev < self.corners().len(),
        ensures
            match self.fan_of(prev, base, limit as nat) {
                Some(s) => r is Ok && r->Ok_0@ == s,
                None => r == Err::<Vec<usize>, _>(InterpolatorError::TooManyNeighbors(limit)),
            },
            r is Ok ==> forall|i: int|
                0 <= i < r->Ok_0@.len() ==> #[trigger] r->Ok_0@[i] < self.corners().len() / 3,
    {
        let n = self.num_half_edges();
        let mut ce = prev;
        let mut out: Vec<usize> = Vec::new();
        let mut d: usize = 0;
        while d < limit
            invariant
                self.wf(),
                n == self.corners().len(),
                n == self.twins().len(),
                ce < n,
                d <= limit,
                forall|i: int| 0 <= i < out@.len() ==> #[trigger] out@[i] < n / 3,
                self.fan(ce, base, (limit - d) as nat, out@) == self.fan_of(
                    prev,
                    base,
                    limit as nat,
                ),
            decreases limit - d,
        {
            out.push(ce / 3);
            proof {
                lemma_next_in_range(ce as int, n as int);
            }
            let nxt = next_harfedge(ce);
            if nxt == base {
                return Ok(out);
            }
            let tw = self.twin(nxt);
            if d + 1 >= limit || tw >= n {
                return Err(InterpolatorError::TooManyNeighbors(limit));
            }
            ce = tw;
            d = d + 1;
        }
        Ok(out)
    }

    /// The natural neighbors of a query, one cell per triple of the insertion
    /// envelope walked from `start` (see `envelope`), each with its fan.
    pub fn natural_neighbors<F: Fn(usize) -> bool>(
        &self,
        start: usize,
        limit: usize,
        inside: &F,
    ) -> (r: Result<Vec<NeighborCell>, InterpolatorError>)
        requires
            self.wf(),
            start < self.corners().len(),
            decides(*inside),
        ensures
            match self.envelope_of(start, test_of(*inside), limit as nat) {
                Some(s) => if self.fans_close(s, limit as nat) {
                    &&& r is Ok
                    &&& r->Ok_0@.len() == s.len()
                    &&& forall|i: int|
                        0 <= i < s.len() ==> self.describes(
                            #[trigger] r->Ok_0@[i],
                            s[i],
                            limit as nat,
                        )
                } else {
                    r == Err::<Vec<NeighborCell>, _>(InterpolatorError::TooManyNeighbors(limit))
                },
                None => r == Err::<Vec<NeighborCell>, _>(
                    InterpolatorError::TooManyNeighbors(limit),
                ),
            },
            r is Ok ==> r->Ok_0@.len() <= limit,
    {
        let ring = match self.envelope(start, limit, inside) {
            Ok(ring) => ring,
            Err(x) => {
                return Err(x);
            },
        };
        let ghost s = ring@;
        let mut cells: Vec<NeighborCell> = Vec::new();
        let mut i: usize = 0;
        while i < ring.len()
            invariant
                self.wf(),
                s == ring@,
                s.len() <= limit,
                self.envelope_of(start, test_of(*inside), limit as nat) == Some(s),
                within(s, self.corners().len()),
                i <= s.len(),
                cells@.len() == i,
                forall|j: int| 0 <= j < i ==> (#[trigger] self.fan_of(s[j].prev, s[j].base, limit as nat)) is Some,
                forall|j: int| 0 <= j < i ==> self.describes(#[trigger] cells@[j], s[j], limit as nat),
            decreases s.len() - i,
        {
            let t = ring[i];
            let fan = match self.fan_triangles(t.prev, t.base, limit) {
                Ok(fan) => fan,
                Err(x) => {
                    assert(self.fan_of(s[i as int].prev, s[i as int].base, limit as nat) is None);
                    return Err(x);
                },
            };
            cells.push(
                NeighborCell {
                    site: self.origin(t.base),
                    prev_site: self.origin(t.prev),
                    next_site: self.origin(t.next),
                    fan,
                },
            );
            i = i + 1;
        }
        Ok(cells)
    }
}

} // verus!
