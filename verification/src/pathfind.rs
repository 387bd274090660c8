//! Ways through the network: the fewest roads that lead from one
//! intersection to another, found breadth first.

use crate::network::{dangling, joins, RoadMapView};
use crate::road_map::RoadMap;
use vstd::prelude::*;

verus! {

/// What a search from one intersection has found so far.
struct Search {
    /// Whether the intersection has been reached.
    seen: Vec<bool>,
    /// Over how many roads it was reached.
    dist: Vec<usize>,
    /// The road over which it was reached.
    via: Vec<usize>,
    /// The intersection from which it was reached.
    prev: Vec<usize>,
    /// The intersections that have been reached, in the order in which they
    /// were.
    order: Vec<usize>,
}

impl Search {
    /// Road `r` leads from intersection `u` to one that has been reached over
    /// at most one road more than `u`.
    spec fn edge_done(&self, m: RoadMapView, u: int, r: int) -> bool {
        let road = m.roads[r];
        &&& road.src == u ==> self.seen@[road.dst as int] && self.dist@[road.dst as int]
            <= self.dist@[u] + 1
        &&& road.dst == u ==> self.seen@[road.src as int] && self.dist@[road.src as int]
            <= self.dist@[u] + 1
    }

    /// The intersection `v` stands in the order.
    spec fn listed(&self, v: int) -> bool {
        exists|i: int| 0 <= i < self.order@.len() && self.order@[i] == v
    }

    /// There is a place for every intersection, and the search began at
    /// `from`.
    spec fn rooted(&self, m: RoadMapView, from: usize) -> bool {
        let n = m.intersections.len();
        &&& self.seen@.len() == n
        &&& self.dist@.len() == n
        &&& self.via@.len() == n
        &&& self.prev@.len() == n
        &&& from < n
        &&& self.seen@[from as int]
        &&& self.dist@[from as int] == 0
        &&& self.order@.len() >= 1
        &&& self.order@[0] == from
    }

    /// What stands in the order has been reached, over no more roads than
    /// stand before it.
    spec fn order_reached(&self, m: RoadMapView) -> bool {
        forall|i: int|
            0 <= i < self.order@.len() ==> (#[trigger] self.order@[i]) < m.intersections.len()
                && self.seen@[self.order@[i] as int] && self.dist@[self.order@[i] as int] <= i
    }

    /// Nothing stands in the order twice.
    spec fn order_distinct(&self) -> bool {
        forall|i: int, j: int|
            0 <= i < j < self.order@.len() ==> self.order@[i] != self.order@[j]
    }

    /// What has been reached stands in the order.
    spec fn reached_listed(&self, m: RoadMapView) -> bool {
        forall|v: int| 0 <= v < m.intersections.len() && #[trigger] self.seen@[v] ==> self.listed(v)
    }

    /// The order runs from near to far.
    spec fn order_sorted(&self) -> bool {
        forall|i: int, j: int|
            0 <= i <= j < self.order@.len() ==> self.dist@[self.order@[i] as int]
                <= self.dist@[self.order@[j] as int]
    }

    /// The intersection `v` hangs by its road on one that was reached over one
    /// road less.
    spec fn hangs(&self, m: RoadMapView, v: int) -> bool {
        &&& self.via@[v] < m.roads.len()
        &&& self.prev@[v] < m.intersections.len()
        &&& self.seen@[self.prev@[v] as int]
        &&& joins(m.roads[self.via@[v] as int], self.prev@[v] as nat, v as nat)
        &&& self.dist@[v] == self.dist@[self.prev@[v] as int] + 1
    }

    /// Each reached intersection but `from` hangs on another.
    spec fn all_hang(&self, m: RoadMapView, from: usize) -> bool {
        forall|v: int|
            0 <= v < m.intersections.len() && self.seen@[v] && v != from ==> #[trigger] self.hangs(
                m,
                v,
            )
    }

    /// What has been reached hangs together.
    spec fn tree(&self, m: RoadMapView, from: usize) -> bool {
        &&& self.rooted(m, from)
        &&& self.order_reached(m)
        &&& self.order_distinct()
        &&& self.reached_listed(m)
        &&& self.order_sorted()
        &&& self.all_hang(m, from)
    }

    /// The search has looked at all roads at the first `head` intersections
    /// of the order.
    spec fn looked_before(&self, m: RoadMapView, head: int) -> bool {
        forall|i: int, r: int|
            0 <= i < head && 0 <= r < m.roads.len() ==> #[trigger] self.edge_done(
                m,
                self.order@[i] as int,
                r,
            )
    }

    /// The search has looked at the first `scanned` roads at intersection
    /// `u`.
    spec fn looked_at(&self, m: RoadMapView, u: int, scanned: int) -> bool {
        forall|r: int| 0 <= r < scanned ==> #[trigger] self.edge_done(m, u, r)
    }

    /// The farthest intersection reached is at most one road farther than the
    /// one the search is looking at.
    spec fn one_level(&self, head: int) -> bool {
        self.dist@[self.order@[self.order@.len() - 1] as int] <= self.dist@[self.order@[head] as int]
            + 1
    }

    /// How far the search has come.
    spec fn looked(&self, m: RoadMapView, head: int, scanned: int) -> bool {
        &&& 0 <= head <= self.order@.len()
        &&& self.looked_before(m, head)
        &&& head < self.order@.len() ==> self.looked_at(m, self.order@[head] as int, scanned)
            && self.one_level(head)
    }

    /// `self` is `before` with `w` reached from `u` over road `r`.
    spec fn grown_from(&self, before: Search, u: usize, w: usize, r: usize) -> bool {
        &&& self.seen@ == before.seen@.update(w as int, true)
        &&& self.dist@ == before.dist@.update(w as int, (before.dist@[u as int] + 1) as usize)
        &&& self.via@ == before.via@.update(w as int, r)
        &&& self.prev@ == before.prev@.update(w as int, u)
        &&& self.order@ == before.order@.push(w)
    }

    /// `w` can be reached from `u` over road `r` while the search looks at
    /// `u`.
    spec fn can_grow(&self, m: RoadMapView, from: usize, head: int, u: usize, w: usize, r: usize) -> bool {
        &&& self.tree(m, from)
        &&& 0 <= head < self.order@.len()
        &&& self.one_level(head)
        &&& u == self.order@[head]
        &&& w < m.intersections.len()
        &&& !self.seen@[w as int]
        &&& r < m.roads.len()
        &&& joins(m.roads[r as int], u as nat, w as nat)
        &&& self.dist@[u as int] + 1 <= usize::MAX
    }
}

proof fn lemma_grown_rooted(
    after: Search,
    before: Search,
    m: RoadMapView,
    from: usize,
    head: int,
    u: usize,
    w: usize,
    r: usize,
)
    requires
        before.can_grow(m, from, head, u, w, r),
        after.grown_from(before, u, w, r),
    ensures
        after.rooted(m, from),
        after.order_reached(m),
        after.order_distinct(),
{
    let len = before.order@.len() as int;
    assert(before.order@[head] < m.intersections.len());
    assert(before.dist@[before.order@[head] as int] <= head);
    assert forall|i: int| 0 <= i < after.order@.len() implies (#[trigger] after.order@[i])
        < m.intersections.len() && after.seen@[after.order@[i] as int]
        && after.dist@[after.order@[i] as int] <= i by {
        if i < len {
            assert(before.order@[i] < m.intersections.len());
        }
    }
    assert forall|i: int, j: int| 0 <= i < j < after.order@.len() implies after.order@[i]
        != after.order@[j] by {
        assert(before.seen@[before.order@[i] as int]);
    }
}

proof fn lemma_grown_listed(
    after: Search,
    before: Search,
    m: RoadMapView,
    from: usize,
    head: int,
    u: usize,
    w: usize,
    r: usize,
)
    requires
        before.can_grow(m, from, head, u, w, r),
        after.grown_from(before, u, w, r),
    ensures
        after.reached_listed(m),
{
    let len = before.order@.len() as int;
    assert forall|v: int| 0 <= v < m.intersections.len() && #[trigger] after.seen@[v] implies after.listed(
        v,
    ) by {
        if v == w {
            assert(after.order@[len] == v);
        } else {
            assert(before.seen@[v]);
            assert(before.listed(v));
            let j = choose|j: int| 0 <= j < len && before.order@[j] == v;
            assert(after.order@[j] == v);
        }
    }
}

proof fn lemma_grown_sorted(
    after: Search,
    before: Search,
    m: RoadMapView,
    from: usize,
    head: int,
    u: usize,
    w: usize,
    r: usize,
)
    requires
        before.can_grow(m, from, head, u, w, r),
        after.grown_from(before, u, w, r),
    ensures
        after.order_sorted(),
        after.one_level(head),
{
    let len = before.order@.len() as int;
    assert(before.order@[head] < m.intersections.len());
    assert forall|i: int, j: int| 0 <= i <= j < after.order@.len() implies after.dist@[after.order@[i] as int]
        <= after.dist@[after.order@[j] as int] by {
        if i < len {
            assert(before.seen@[before.order@[i] as int]);
            assert(before.dist@[before.order@[i] as int] <= before.dist@[before.order@[len
                - 1] as int]);
        }
        if j < len {
            assert(before.seen@[before.order@[j] as int]);
        }
    }
}

proof fn lemma_grown_hangs(
    after: Search,
    before: Search,
    m: RoadMapView,
    from: usize,
    head: int,
    u: usize,
    w: usize,
    r: usize,
)
    requires
        before.can_grow(m, from, head, u, w, r),
        after.grown_from(before, u, w, r),
    ensures
        after.all_hang(m, from),
{
    assert(before.order@[head] < m.intersections.len());
    assert(before.seen@[before.order@[head] as int]);
    assert forall|v: int|
        0 <= v < m.intersections.len() && after.seen@[v] && v != from implies #[trigger] after.hangs(
        m,
        v,
    ) by {
        if v != w {
            assert(before.hangs(m, v));
        }
    }
}

proof fn lemma_grown_looked(
    after: Search,
    before: Search,
    m: RoadMapView,
    from: usize,
    head: int,
    scanned: int,
    u: usize,
    w: usize,
    r: usize,
)
    requires
        before.can_grow(m, from, head, u, w, r),
        before.looked(m, head, scanned),
        scanned <= m.roads.len(),
        after.grown_from(before, u, w, r),
        m.wf(),
    ensures
        after.looked_before(m, head),
        after.looked_at(m, u as int, scanned),
{
    assert(before.order@[head] < m.intersections.len());
    assert(before.seen@[before.order@[head] as int]);
    assert forall|i: int, q: int| 0 <= i < head && 0 <= q < m.roads.len() implies #[trigger] after.edge_done(
        m,
        after.order@[i] as int,
        q,
    ) by {
        assert(before.edge_done(m, before.order@[i] as int, q));
        assert(before.seen@[before.order@[i] as int]);
        assert(!dangling(m.roads[q], m.intersections.len()));
    }
    assert forall|q: int| 0 <= q < scanned implies #[trigger] after.edge_done(m, u as int, q) by {
        assert(before.edge_done(m, u as int, q));
        assert(!dangling(m.roads[q], m.intersections.len()));
    }
}

/// A list of different numbers below `n` has at most `n` of them.
proof fn lemma_few_below(s: Seq<usize>, n: nat)
    requires
        forall|i: int| 0 <= i < s.len() ==> (#[trigger] s[i]) < n,
        forall|i: int, j: int| 0 <= i < j < s.len() ==> s[i] != s[j],
    ensures
        s.len() <= n,
    decreases n,
{
    if s.len() > 0 {
        if n == 0 {
            assert(s[0] < n);
        } else if exists|k: int| 0 <= k < s.len() && s[k] == n - 1 {
            let k = choose|k: int| 0 <= k < s.len() && s[k] == n - 1;
            let rest = s.remove(k);
            assert forall|i: int| 0 <= i < rest.len() implies (#[trigger] rest[i]) < n - 1 by {
                if i < k {
                    assert(rest[i] == s[i]);
                } else {
                    assert(rest[i] == s[i + 1]);
                }
            }
            assert forall|i: int, j: int| 0 <= i < j < rest.len() implies rest[i] != rest[j] by {
                let a = if i < k { i } else { i + 1 };
                let b = if j < k { j } else { j + 1 };
                assert(rest[i] == s[a] && rest[j] == s[b]);
            }
            lemma_few_below(rest, (n - 1) as nat);
        } else {
            assert forall|i: int| 0 <= i < s.len() implies (#[trigger] s[i]) < n - 1 by {
                assert(s[i] < n);
            }
            lemma_few_below(s, (n - 1) as nat);
        }
    }
}

impl Search {
    /// Takes note that road `r` leads from `u`, whose roads are being looked
    /// at, to `w`: if `w` has not been reached, it is now.
    fn visit(
        &mut self,
        u: usize,
        w: usize,
        r: usize,
        Ghost(m): Ghost<RoadMapView>,
        Ghost(from): Ghost<usize>,
        Ghost(head): Ghost<int>,
        Ghost(scanned): Ghost<int>,
    )
        requires
            old(self).tree(m, from),
            old(self).looked(m, head, scanned),
            head < old(self).order@.len(),
            u == old(self).order@[head],
            w < m.intersections.len(),
            r < m.roads.len(),
            joins(m.roads[r as int], u as nat, w as nat),
            scanned <= m.roads.len(),
            m.wf(),
        ensures
            final(self).tree(m, from),
            final(self).looked(m, head, scanned),
            head < final(self).order@.len(),
            final(self).order@[head] == u,
            final(self).seen@[w as int],
            final(self).dist@[w as int] <= final(self).dist@[u as int] + 1,
            forall|v: int|
                0 <= v < m.intersections.len() && old(self).seen@[v] ==> final(self).seen@[v]
                    && final(self).dist@[v] == old(self).dist@[v],
    {
        proof {
            assert(self.order@[head] < m.intersections.len());
            assert(self.seen@[self.order@[head] as int]);
        }
        if self.seen[w] {
            proof {
                assert(self.listed(w as int));
                let j = choose|j: int| 0 <= j < self.order@.len() && self.order@[j] == w;
                assert(self.dist@[self.order@[j] as int] <= self.dist@[self.order@[self.order@.len()
                    - 1] as int]);
            }
        } else {
            let n = self.seen.len();
            proof {
                lemma_few_below(self.order@, m.intersections.len());
                assert(self.dist@[self.order@[head] as int] <= head);
                assert(head < n);
            }
            let d = self.dist[u] + 1;
            self.seen.set(w, true);
            self.dist.set(w, d);
            self.via.set(w, r);
            self.prev.set(w, u);
            self.order.push(w);
            proof {
                let before = *old(self);
                assert(before.can_grow(m, from, head, u, w, r));
                assert(self.grown_from(before, u, w, r));
                lemma_grown_rooted(*self, before, m, from, head, u, w, r);
                lemma_grown_listed(*self, before, m, from, head, u, w, r);
                lemma_grown_sorted(*self, before, m, from, head, u, w, r);
                lemma_grown_hangs(*self, before, m, from, head, u, w, r);
                lemma_grown_looked(*self, before, m, from, head, scanned, u, w, r);
            }
        }
    }
}

/// Searches the whole network from `from`.
fn search_from(map: &RoadMap, from: usize) -> (s: Search)
    requires
        from < map@.intersections.len(),
    ensures
        s.tree(map@, from),
        s.looked(map@, s.order@.len() as int, 0),
{
    let n = map.num_intersections();
    let m = map.num_roads();
    proof {
        use_type_invariant(map);
    }
    let mut s = Search {
        seen: vec![false; n],
        dist: vec![0usize; n],
        via: vec![0usize; n],
        prev: vec![0usize; n],
        order: Vec::new(),
    };
    s.seen.set(from, true);
    s.order.push(from);
    proof {
        assert(s.order@[0] == from);
        assert forall|v: int| 0 <= v < n && #[trigger] s.seen@[v] implies s.listed(v) by {
            assert(s.order@[0] == v);
        }
    }
    let mut head: usize = 0;
    while head < s.order.len()
        invariant
            map@.wf(),
            n == map@.intersections.len(),
            m == map@.roads.len(),
            s.tree(map@, from),
            s.looked(map@, head as int, 0),
        decreases n - head,
    {
        proof {
            lemma_few_below(s.order@, n as nat);
        }
        let u = s.order[head];
        let mut r: usize = 0;
        while r < m
            invariant
                map@.wf(),
                n == map@.intersections.len(),
                m == map@.roads.len(),
                r <= m,
                head < s.order@.len(),
                u == s.order@[head as int],
                s.tree(map@, from),
                s.looked(map@, head as int, r as int),
            decreases m - r,
        {
            match map.road_ends(r) {
                Some((a, b)) => {
                    proof {
                        assert(!dangling(map@.roads[r as int], map@.intersections.len()));
                    }
                    if a == u {
                        s.visit(u, b, r, Ghost(map@), Ghost(from), Ghost(head as int), Ghost(r as int));
                    }
                    if b == u {
                        s.visit(u, a, r, Ghost(map@), Ghost(from), Ghost(head as int), Ghost(r as int));
                    }
                    assert(s.edge_done(map@, u as int, r as int));
                },
                None => {},
            }
            r += 1;
        }
        proof {
            let next = head + 1;
            assert forall|i: int, q: int| 0 <= i < next && 0 <= q < m implies #[trigger] s.edge_done(
                map@,
                s.order@[i] as int,
                q,
            ) by {
                if i == head {
                    assert(s.edge_done(map@, u as int, q));
                }
            }
        }
        head += 1;
    }
    s
}

/// A search that has looked at every road has reached whatever a way leads
/// to, over no more roads than the way has.
proof fn lemma_ways_are_found(
    s: Search,
    m: RoadMapView,
    from: usize,
    to: nat,
    roads: Seq<usize>,
    stops: Seq<usize>,
)
    requires
        m.wf(),
        s.tree(m, from),
        s.looked(m, s.order@.len() as int, 0),
        m.is_walk(from as nat, to, roads, stops),
    ensures
        to < m.intersections.len(),
        s.seen@[to as int],
        s.dist@[to as int] <= roads.len(),
    decreases roads.len(),
{
    if roads.len() > 0 {
        let k = roads.len() - 1;
        let mid = stops[k];
        let front = roads.drop_last();
        let passed = stops.drop_last();
        assert(m.is_walk(from as nat, mid as nat, front, passed)) by {
            assert forall|j: int| 0 <= j < front.len() implies (#[trigger] front[j]) < m.roads.len()
                && joins(m.roads[front[j] as int], passed[j] as nat, passed[j + 1] as nat) by {
                assert(roads[j] == front[j]);
            }
        }
        lemma_ways_are_found(s, m, from, mid as nat, front, passed);
        let r = roads[k];
        assert(r < m.roads.len() && joins(m.roads[r as int], stops[k] as nat, stops[k + 1] as nat));
        assert(!dangling(m.roads[r as int], m.intersections.len()));
        assert(s.listed(mid as int));
        let i = choose|i: int| 0 <= i < s.order@.len() && s.order@[i] == mid;
        assert(s.edge_done(m, s.order@[i] as int, r as int));
    }
}

/// The way to `to` that the search has found, read backwards off what each
/// intersection hangs on.
fn trace(s: &Search, to: usize, Ghost(m): Ghost<RoadMapView>, Ghost(from): Ghost<usize>) -> (way: (
    Vec<usize>,
    Vec<usize>,
))
    requires
        s.tree(m, from),
        to < m.intersections.len(),
        s.seen@[to as int],
    ensures
        m.is_walk(from as nat, to as nat, way.0@, way.1@),
        way.0@.len() == s.dist@[to as int],
{
    let d = s.dist[to];
    proof {
        assert(s.listed(to as int));
        let i = choose|i: int| 0 <= i < s.order@.len() && s.order@[i] == to;
        assert(s.dist@[s.order@[i] as int] <= i);
    }
    let total = s.order.len();
    let mut roads: Vec<usize> = vec![0usize; d];
    let mut stops: Vec<usize> = vec![0usize; d + 1];
    stops.set(d, to);
    let mut v = to;
    let mut k = d;
    while k > 0
        invariant
            s.tree(m, from),
            k <= d,
            roads@.len() == d,
            stops@.len() == d + 1,
            v < m.intersections.len(),
            s.seen@[v as int],
            s.dist@[v as int] == k,
            stops@[k as int] == v,
            stops@[d as int] == to,
            forall|j: int|
                k <= j < d ==> (#[trigger] roads@[j]) < m.roads.len() && joins(
                    m.roads[roads@[j] as int],
                    stops@[j] as nat,
                    stops@[j + 1] as nat,
                ),
        decreases k,
    {
        proof {
            assert(s.hangs(m, v as int));
        }
        let r = s.via[v];
        let p = s.prev[v];
        roads.set(k - 1, r);
        stops.set(k - 1, p);
        v = p;
        k -= 1;
    }
    proof {
        if v != from {
            assert(s.hangs(m, v as int));
        }
    }
    (roads, stops)
}

impl RoadMap {
    /// A way from `from` to `to` over the fewest roads, and the intersections
    /// that it passes, `from` and `to` among them. Roads are taken in either
    /// direction and whatever their lanes are. There is a way exactly where
    /// the two are joined by roads at all; from an intersection to itself it
    /// has no roads.
    pub fn simple_path_btwn(&self, from: usize, to: usize) -> (found: Option<
        (Vec<usize>, Vec<usize>),
    >)
        ensures
            match found {
                Some((roads, stops)) => self@.is_shortest_walk(
                    from as nat,
                    to as nat,
                    roads@,
                    stops@,
                ),
                None => !self@.connected(from as nat, to as nat),
            },
    {
        proof {
            use_type_invariant(self);
        }
        if from >= self.num_intersections() {
            return None;
        }
        let s = search_from(self, from);
        proof {
            assert forall|other: Seq<usize>, passing: Seq<usize>|
                self@.is_walk(from as nat, to as nat, other, passing) implies to
                < self@.intersections.len() && s.seen@[to as int] && s.dist@[to as int]
                <= other.len() by {
                lemma_ways_are_found(s, self@, from, to as nat, other, passing);
            }
        }
        if to >= self.num_intersections() || !s.seen[to] {
            return None;
        }
        Some(trace(&s, to, Ghost(self@), Ghost(from)))
    }
}

} // verus!
