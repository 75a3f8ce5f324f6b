//! Breadth-first search over a known part of the galaxy.
//!
//! A galaxy map is a list of `(planet, neighbours)` entries; when a planet
//! has several entries, the first one counts. An edge `u -> v` exists when the
//! first entry of `u` lists `v`. Planets without an entry have no outgoing
//! edges.

use vstd::prelude::*;

verus! {

/// The mathematical view of a galaxy map.
pub open spec fn adjacency_view(g: Seq<(u32, Vec<u32>)>) -> Seq<(u32, Seq<u32>)> {
    Seq::new(g.len(), |i: int| (g[i].0, g[i].1@))
}

/// `i` is the first entry of planet `u` in map `g`.
pub open spec fn is_first_entry(g: Seq<(u32, Seq<u32>)>, u: u32, i: int) -> bool {
    &&& 0 <= i < g.len()
    &&& g[i].0 == u
    &&& forall|j: int| 0 <= j < i ==> g[j].0 != u
}

/// The map has an edge from `u` to `v`.
pub open spec fn edge(g: Seq<(u32, Seq<u32>)>, u: u32, v: u32) -> bool {
    exists|i: int| is_first_entry(g, u, i) && g[i].1.contains(v)
}

/// `p` is a walk: every two consecutive planets are joined by an edge.
pub open spec fn is_walk(g: Seq<(u32, Seq<u32>)>, p: Seq<u32>) -> bool {
    &&& p.len() >= 1
    &&& forall|i: int| 0 <= i < p.len() - 1 ==> #[trigger] edge(g, p[i], p[i + 1])
}

/// A walk of at most `n` edges leads from `s` to `v`.
pub open spec fn reach_le(g: Seq<(u32, Seq<u32>)>, s: u32, v: u32, n: int) -> bool {
    exists|p: Seq<u32>| #[trigger] is_walk(g, p) && p[0] == s && p.last() == v && p.len() <= n + 1
}

/// A walk of at least one and at most `n` edges leads from `s` to `v`.
pub open spec fn reach1_le(g: Seq<(u32, Seq<u32>)>, s: u32, v: u32, n: int) -> bool {
    exists|p: Seq<u32>|
        #[trigger] is_walk(g, p) && p[0] == s && p.last() == v && 2 <= p.len() <= n + 1
}

/// `d` is the length of the shortest non-empty walk from `s` to any of
/// `targets`, and `h` is the first step of such a shortest walk.
pub open spec fn is_first_hop(g: Seq<(u32, Seq<u32>)>, s: u32, targets: Seq<u32>, h: u32, d: int) -> bool {
    &&& d >= 1
    &&& edge(g, s, h)
    &&& exists|t: u32| #[trigger] targets.contains(t) && reach1_le(g, s, t, d) && reach_le(g, h, t, d - 1)
    &&& forall|t: u32| #[trigger] targets.contains(t) ==> !reach1_le(g, s, t, d - 1)
}

/// No non-empty walk leads from `s` to any of `targets`.
pub open spec fn no_target_reachable(g: Seq<(u32, Seq<u32>)>, s: u32, targets: Seq<u32>) -> bool {
    forall|t: u32, n: int| #![trigger targets.contains(t), reach1_le(g, s, t, n)] targets.contains(t) ==> !reach1_le(g, s, t, n)
}

/// Planets named by the neighbour lists of the first `k` entries.
pub open spec fn listed_planets(g: Seq<(u32, Seq<u32>)>, k: int) -> Set<u32>
    decreases k,
{
    if k <= 0 {
        Set::empty()
    } else {
        listed_planets(g, k - 1).union(g[k - 1].1.to_set())
    }
}

pub proof fn lemma_listed_planets(g: Seq<(u32, Seq<u32>)>, k: int)
    requires
        0 <= k <= g.len(),
    ensures
        listed_planets(g, k).finite(),
        forall|v: u32| #[trigger] listed_planets(g, k).contains(v) <==> exists|i: int|
            0 <= i < k && g[i].1.contains(v),
    decreases k,
{
    broadcast use vstd::seq_lib::seq_to_set_is_finite;

    if k > 0 {
        lemma_listed_planets(g, k - 1);
        assert forall|v: u32| #[trigger] listed_planets(g, k).contains(v) <==> exists|i: int|
            0 <= i < k && g[i].1.contains(v) by {
            if listed_planets(g, k).contains(v) {
                if !listed_planets(g, k - 1).contains(v) {
                    assert(g[k - 1].1.contains(v));
                }
            }
            if exists|i: int| 0 <= i < k && g[i].1.contains(v) {
                let i = choose|i: int| 0 <= i < k && g[i].1.contains(v);
                if i == k - 1 {
                    assert(g[k - 1].1.to_set().contains(v));
                }
            }
        }
    }
}

/// Walks can only get longer: a bound that holds for `n` holds for `m >= n`.
pub proof fn lemma_reach_mono(g: Seq<(u32, Seq<u32>)>, s: u32, v: u32, n: int, m: int)
    requires
        n <= m,
        reach_le(g, s, v, n),
    ensures
        reach_le(g, s, v, m),
{
}

/// The empty walk.
pub proof fn lemma_reach_zero(g: Seq<(u32, Seq<u32>)>, s: u32, v: u32)
    ensures
        reach_le(g, s, v, 0) <==> v == s,
{
    if v == s {
        assert(is_walk(g, seq![s]));
    }
}

/// One more edge extends a walk.
pub proof fn lemma_reach_step(g: Seq<(u32, Seq<u32>)>, s: u32, u: u32, v: u32, n: int)
    requires
        reach_le(g, s, u, n),
        edge(g, u, v),
    ensures
        reach_le(g, s, v, n + 1),
        reach1_le(g, s, v, n + 1),
{
    let p = choose|p: Seq<u32>| #[trigger] is_walk(g, p) && p[0] == s && p.last() == u && p.len() <= n + 1;
    let q = p.push(v);
    assert forall|i: int| 0 <= i < q.len() - 1 implies #[trigger] edge(g, q[i], q[i + 1]) by {
        if i < p.len() - 1 {
            assert(edge(g, p[i], p[i + 1]));
        }
    }
    assert(is_walk(g, q));
}

/// A walk of at most `n >= 1` edges is either shorter, or ends with an edge
/// from a planet reached in at most `n - 1` edges.
pub proof fn lemma_reach_split(g: Seq<(u32, Seq<u32>)>, s: u32, v: u32, n: int)
    requires
        n >= 1,
        reach_le(g, s, v, n),
    ensures
        reach_le(g, s, v, n - 1) || exists|u: u32| #[trigger] reach_le(g, s, u, n - 1) && edge(g, u, v),
{
    let p = choose|p: Seq<u32>| #[trigger] is_walk(g, p) && p[0] == s && p.last() == v && p.len() <= n + 1;
    if p.len() == n + 1 {
        let q = p.drop_last();
        assert(is_walk(g, q)) by {
            assert forall|i: int| 0 <= i < q.len() - 1 implies #[trigger] edge(g, q[i], q[i + 1]) by {
                assert(edge(g, p[i], p[i + 1]));
            }
        }
        let i = p.len() - 2;
        assert(edge(g, p[i], p[i + 1]));
        assert(reach_le(g, s, q.last(), n - 1));
    }
}

/// A non-empty walk ends with an edge from a planet reached one edge earlier.
pub proof fn lemma_reach1_split(g: Seq<(u32, Seq<u32>)>, s: u32, v: u32, n: int)
    requires
        reach1_le(g, s, v, n),
    ensures
        exists|u: u32| #[trigger] reach_le(g, s, u, n - 1) && edge(g, u, v),
{
    let p = choose|p: Seq<u32>|
        #[trigger] is_walk(g, p) && p[0] == s && p.last() == v && 2 <= p.len() <= n + 1;
    let q = p.drop_last();
    assert(is_walk(g, q)) by {
        assert forall|i: int| 0 <= i < q.len() - 1 implies #[trigger] edge(g, q[i], q[i + 1]) by {
            assert(edge(g, p[i], p[i + 1]));
        }
    }
    let i = p.len() - 2;
    assert(edge(g, p[i], p[i + 1]));
    assert(reach_le(g, s, q.last(), n - 1));
}

/// When level `d` adds nothing, no longer walk reaches anything new.
pub proof fn lemma_reach_closed(g: Seq<(u32, Seq<u32>)>, s: u32, d: int, m: int)
    requires
        d >= 1,
        m >= 0,
        forall|v: u32| #[trigger] reach_le(g, s, v, d) ==> reach_le(g, s, v, d - 1),
    ensures
        forall|v: u32| #[trigger] reach_le(g, s, v, m) ==> reach_le(g, s, v, d - 1),
    decreases m,
{
    if m >= d {
        lemma_reach_closed(g, s, d, m - 1);
        assert forall|v: u32| #[trigger] reach_le(g, s, v, m) implies reach_le(g, s, v, d - 1) by {
            lemma_reach_split(g, s, v, m);
            if !reach_le(g, s, v, m - 1) {
                let u = choose|u: u32| #[trigger] reach_le(g, s, u, m - 1) && edge(g, u, v);
                lemma_reach_step(g, s, u, v, d - 1);
            }
        }
    } else {
        assert forall|v: u32| #[trigger] reach_le(g, s, v, m) implies reach_le(g, s, v, d - 1) by {
            lemma_reach_mono(g, s, v, m, d - 1);
        }
    }
}

/// Whether a vector holds a value.
pub fn vec_contains(v: &Vec<u32>, x: u32) -> (r: bool)
    ensures
        r == v@.contains(x),
{
    let mut i: usize = 0;
    while i < v.len()
        invariant
            i <= v.len(),
            forall|j: int| 0 <= j < i ==> v@[j] != x,
        decreases v.len() - i,
    {
        if v[i] == x {
            return true;
        }
        i = i + 1;
    }
    false
}

/// The first entry of planet `u`, if any.
pub fn entry_index(g: &Vec<(u32, Vec<u32>)>, u: u32) -> (r: Option<usize>)
    ensures
        match r {
            Some(i) => is_first_entry(adjacency_view(g@), u, i as int),
            None => forall|i: int| 0 <= i < g@.len() ==> g@[i].0 != u,
        },
{
    let mut i: usize = 0;
    while i < g.len()
        invariant
            i <= g.len(),
            forall|j: int| 0 <= j < i ==> g@[j].0 != u,
        decreases g.len() - i,
    {
        if g[i].0 == u {
            return Some(i);
        }
        i = i + 1;
    }
    None
}

#[verifier::spinoff_prover]
#[verifier::rlimit(60)]
/// Breadth-first search from `start`: the first step of a shortest non-empty
/// walk to any planet of `targets`, or `None` when no target is reachable.
pub fn first_hop_towards(g: &Vec<(u32, Vec<u32>)>, start: u32, targets: &Vec<u32>) -> (r: Option<u32>)
    ensures
        r is None <==> no_target_reachable(adjacency_view(g@), start, targets@),
        r is Some ==> exists|d: int| #[trigger] is_first_hop(adjacency_view(g@), start, targets@, r->0, d),
{
    let ghost gv = adjacency_view(g@);
    let ghost universe = listed_planets(gv, gv.len() as int).insert(start);
    proof {
        lemma_listed_planets(gv, gv.len() as int);
    }
    let mut visited: Vec<u32> = Vec::new();
    let mut hops: Vec<u32> = Vec::new();
    visited.push(start);
    hops.push(start);
    let ghost mut levels: Seq<int> = seq![0int];
    let ghost mut parents: Seq<int> = seq![0int];
    let ghost mut d: int = 0;
    let mut lo: usize = 0;
    let mut hi: usize = 1;
    proof {
        lemma_reach_zero(gv, start, start);
        assert forall|v: u32| visited@.contains(v) <==> reach_le(gv, start, v, d) by {
            lemma_reach_zero(gv, start, v);
            if visited@.contains(v) {
                assert(visited@[0] == v);
            }
            if reach_le(gv, start, v, d) {
                assert(visited@[0] == v);
            }
        }
    }
    while lo < hi
        invariant
            gv == adjacency_view(g@),
            universe.finite(),
            universe == listed_planets(gv, gv.len() as int).insert(start),
            forall|v: u32| #[trigger] listed_planets(gv, gv.len() as int).contains(v) <==> exists|i: int|
                0 <= i < gv.len() && gv[i].1.contains(v),
            visited@.no_duplicates(),
            visited@.len() >= 1,
            visited@[0] == start,
            hops@.len() == visited@.len(),
            levels.len() == visited@.len(),
            parents.len() == visited@.len(),
            hi == visited@.len(),
            lo <= hi,
            d == 0 ==> lo == 0 && hi == 1,
            d > 0 ==> lo >= 1,
            forall|i: int| 0 <= i < lo ==> #[trigger] levels[i] < d,
            forall|i: int| lo <= i < hi ==> #[trigger] levels[i] == d,
            forall|v: u32| #[trigger] visited@.contains(v) <==> reach_le(gv, start, v, d),
            forall|v: u32| #[trigger] visited@.contains(v) ==> universe.contains(v),
            forall|i: int| 0 <= i < visited@.len() ==> {
                &&& levels[i] <= d
                &&& reach_le(gv, start, #[trigger] visited@[i], levels[i])
                &&& (levels[i] == 0 || !reach_le(gv, start, visited@[i], levels[i] - 1))
                &&& (levels[i] >= 1 ==> edge(gv, start, hops@[i]) && reach_le(
                    gv,
                    hops@[i],
                    visited@[i],
                    levels[i] - 1,
                ))
            },
            forall|t: u32| #[trigger] targets@.contains(t) ==> !reach1_le(gv, start, t, d),
        decreases universe.len() - lo,
    {
        proof {
            assert(visited@.to_set().subset_of(universe));
            visited@.unique_seq_to_set();
            vstd::set_lib::lemma_len_subset(visited@.to_set(), universe);
        }
        let ghost old_visited = visited@;
        let ghost old_levels = levels;
        let ghost old_hops = hops@;
        let mut k: usize = lo;
        while k < hi
            invariant
                gv == adjacency_view(g@),
                forall|v: u32| #[trigger] listed_planets(gv, gv.len() as int).contains(v) <==> exists|i: int|
                    0 <= i < gv.len() && gv[i].1.contains(v),
                universe == listed_planets(gv, gv.len() as int).insert(start),
                lo <= k <= hi,
                hi == old_visited.len(),
                visited@.len() >= hi,
                visited@.subrange(0, hi as int) == old_visited,
                visited@.no_duplicates(),
                hops@.len() == visited@.len(),
                levels.len() == visited@.len(),
                levels.subrange(0, hi as int) == old_levels,
                hops@.subrange(0, hi as int) == old_hops,
                old_hops.len() == hi,
                old_levels.len() == hi,
                visited@[0] == start,
                d == 0 ==> lo == 0 && hi == 1,
                d > 0 ==> lo >= 1,
                forall|i: int| 0 <= i < lo ==> #[trigger] old_levels[i] < d,
                forall|i: int| lo <= i < hi ==> #[trigger] old_levels[i] == d,
                forall|v: u32| #[trigger] old_visited.contains(v) <==> reach_le(gv, start, v, d),
                forall|v: u32| #[trigger] visited@.contains(v) ==> universe.contains(v),
                forall|i: int| 0 <= i < hi ==> {
                    &&& old_levels[i] <= d
                    &&& reach_le(gv, start, #[trigger] old_visited[i], old_levels[i])
                    &&& (old_levels[i] == 0 || !reach_le(
                        gv,
                        start,
                        old_visited[i],
                        old_levels[i] - 1,
                    ))
                    &&& (old_levels[i] >= 1 ==> edge(gv, start, old_hops[i]) && reach_le(
                        gv,
                        old_hops[i],
                        old_visited[i],
                        old_levels[i] - 1,
                    ))
                },
                forall|i: int| hi <= i < visited@.len() ==> {
                    &&& #[trigger] levels[i] == d + 1
                    &&& !old_visited.contains(visited@[i])
                    &&& edge(gv, start, hops@[i])
                    &&& reach_le(gv, hops@[i], visited@[i], d)
                },
                parents.len() == visited@.len(),
                forall|i: int| hi <= i < visited@.len() ==> lo <= #[trigger] parents[i] < k && edge(gv, old_visited[parents[i]], visited@[i]),
                forall|kk: int, v: u32|
                    lo <= kk < k && #[trigger] edge(gv, old_visited[kk], v) && !old_visited.contains(v)
                        ==> visited@.contains(v),
                forall|kk: int, v: u32|
                    lo <= kk < k && #[trigger] edge(gv, old_visited[kk], v) ==> !targets@.contains(v),
                forall|t: u32| #[trigger] targets@.contains(t) ==> !reach1_le(gv, start, t, d),
            decreases hi - k,
        {
            let u = visited[k];
            let hop_u = hops[k];
            proof {
                assert(visited@[k as int] == old_visited[k as int]);
                assert(hops@[k as int] == old_hops[k as int]);
                assert(old_levels[k as int] == d);
                lemma_reach_mono(gv, start, u, old_levels[k as int], d);
            }
            let ghost before = visited@;
            let ghost before_levels = levels;
            let ghost before_hops = hops@;
            let ghost before_parents = parents;
            match entry_index(g, u) {
                None => {
                    proof {
                        assert forall|v: u32| !edge(gv, u, v) by {}
                    }
                },
                Some(ei) => {
                    let nbrs = &g[ei].1;
                    proof {
                        assert(nbrs@ == gv[ei as int].1);
                        assert forall|v: u32| #[trigger] edge(gv, u, v) <==> nbrs@.contains(v) by {
                            if edge(gv, u, v) {
                                let i = choose|i: int| is_first_entry(gv, u, i) && gv[i].1.contains(v);
                                assert(i == ei);
                            }
                        }
                    }
                    let mut j: usize = 0;
                    while j < nbrs.len()
                        invariant
                            gv == adjacency_view(g@),
                            forall|v: u32| #[trigger] listed_planets(gv, gv.len() as int).contains(v) <==> exists|i: int|
                                0 <= i < gv.len() && gv[i].1.contains(v),
                            universe == listed_planets(gv, gv.len() as int).insert(start),
                            0 <= ei < gv.len(),
                            nbrs@ == gv[ei as int].1,
                            forall|v: u32| #[trigger] edge(gv, u, v) <==> nbrs@.contains(v),
                            j <= nbrs@.len(),
                            lo <= k < hi,
                            u == old_visited[k as int],
                            reach_le(gv, start, u, d),
                            d >= 0,
                            hi == old_visited.len(),
                            visited@.len() >= before.len(),
                            visited@.subrange(0, before.len() as int) == before,
                            before.subrange(0, hi as int) == old_visited,
                            before.len() >= hi,
                            visited@.no_duplicates(),
                            hops@.len() == visited@.len(),
                            hops@.subrange(0, before.len() as int) == before_hops,
                            levels.len() == visited@.len(),
                            levels.subrange(0, before.len() as int) == before_levels,
                            before_levels.subrange(0, hi as int) == old_levels,
                            before_hops.len() == before.len(),
                            parents.len() == visited@.len(),
                            parents.subrange(0, before.len() as int) == before_parents,
                            before_parents.len() == before.len(),
                            forall|i: int| before.len() <= i < visited@.len() ==> #[trigger] parents[i] == k,
                            before_levels.len() == before.len(),
                            visited@[0] == start,
                            d == 0 ==> lo == 0 && hi == 1,
                            d > 0 ==> lo >= 1,
                            forall|v: u32| #[trigger] old_visited.contains(v) <==> reach_le(gv, start, v, d),
                            forall|v: u32| #[trigger] visited@.contains(v) ==> universe.contains(v),
                            forall|i: int| lo <= i < hi ==> #[trigger] old_levels[i] == d,
                            k >= 1 ==> {
                                &&& edge(gv, start, hop_u)
                                &&& reach_le(gv, hop_u, u, d - 1)
                            },
                            k == 0 ==> u == start && d == 0,
                            forall|i: int| hi <= i < before.len() ==> {
                                &&& #[trigger] before_levels[i] == d + 1
                                &&& !old_visited.contains(before[i])
                                &&& lo <= before_parents[i] < k
                                &&& edge(gv, old_visited[before_parents[i]], before[i])
                                &&& edge(gv, start, before_hops[i])
                                &&& reach_le(gv, before_hops[i], before[i], d)
                            },
                            forall|i: int| before.len() <= i < visited@.len() ==> {
                                &&& #[trigger] levels[i] == d + 1
                                &&& !old_visited.contains(visited@[i])
                                &&& edge(gv, u, visited@[i])
                                &&& edge(gv, start, hops@[i])
                                &&& reach_le(gv, hops@[i], visited@[i], d)
                            },
                            forall|jj: int| 0 <= jj < j && !old_visited.contains(#[trigger] nbrs@[jj]) ==> visited@.contains(nbrs@[jj]),
                            forall|jj: int| 0 <= jj < j ==> !targets@.contains(#[trigger] nbrs@[jj]),
                            forall|t: u32| #[trigger] targets@.contains(t) ==> !reach1_le(gv, start, t, d),
                        decreases nbrs@.len() - j,
                    {
                        let v = nbrs[j];
                        assert(edge(gv, u, v));
                        let h = if k == 0 {
                            v
                        } else {
                            hop_u
                        };
                        proof {
                            if k == 0 {
                                assert(edge(gv, start, v));
                                lemma_reach_zero(gv, v, v);
                                lemma_reach_mono(gv, v, v, 0, d);
                            } else {
                                lemma_reach_step(gv, hop_u, u, v, d - 1);
                            }
                        }
                        if vec_contains(targets, v) {
                            proof {
                                lemma_reach_step(gv, start, u, v, d);
                                assert(targets@.contains(v) && reach1_le(gv, start, v, d + 1) && reach_le(gv, h, v, d));
                                assert(is_first_hop(gv, start, targets@, h, d + 1));
                                assert(!no_target_reachable(gv, start, targets@));
                                assert(!no_target_reachable(adjacency_view(g@), start, targets@));
                            }
                            let res = Some(h);
                            proof {
                                assert(is_first_hop(adjacency_view(g@), start, targets@, res->0, d + 1));
                            }
                            return res;
                        }
                        let ghost pre_push = visited@;
                        let ghost pre_hops = hops@;
                        let ghost pre_levels = levels;
                        let ghost pre_parents = parents;
                        if !vec_contains(&visited, v) {
                            proof {
                                assert(!old_visited.contains(v)) by {
                                    if old_visited.contains(v) {
                                        let i = choose|i: int| 0 <= i < old_visited.len() && old_visited[i] == v;
                                        assert(visited@[i] == v);
                                    }
                                }
                                assert(universe.contains(v)) by {
                                    assert(gv[ei as int].1.contains(v));
                                    assert(listed_planets(gv, gv.len() as int).contains(v));
                                }
                            }
                            visited.push(v);
                            hops.push(h);
                            proof {
                                levels = levels.push(d + 1);
                                parents = parents.push(k as int);
                                assert(visited@[visited@.len() - 1] == v);
                                assert(hops@[hops@.len() - 1] == h);
                                assert(edge(gv, start, h));
                                assert(reach_le(gv, h, v, d));
                                assert forall|i: int| before.len() <= i < visited@.len() implies {
                                    &&& #[trigger] levels[i] == d + 1
                                    &&& !old_visited.contains(visited@[i])
                                    &&& edge(gv, u, visited@[i])
                                    &&& edge(gv, start, hops@[i])
                                    &&& reach_le(gv, hops@[i], visited@[i], d)
                                } by {
                                    if i < visited@.len() - 1 {
                                        assert(visited@[i] == pre_push[i]);
                                        assert(hops@[i] == pre_hops[i]);
                                        assert(levels[i] == pre_levels[i]);
                                        assert(pre_levels[i] == d + 1);
                                        assert(parents[i] == pre_parents[i]);
                                    }
                                }
                            }
                        }
                        proof {
                            assert(visited@.contains(v));
                            assert forall|x: u32| #[trigger] visited@.contains(x) implies universe.contains(x) by {
                                let i = choose|i: int| 0 <= i < visited@.len() && visited@[i] == x;
                                if i < pre_push.len() {
                                    assert(pre_push[i] == x);
                                    assert(pre_push.contains(x));
                                }
                            }
                            assert forall|x: u32| pre_push.contains(x) implies visited@.contains(x) by {
                                let i = choose|i: int| 0 <= i < pre_push.len() && pre_push[i] == x;
                                assert(visited@[i] == x);
                            }
                            assert forall|jj: int| 0 <= jj < j + 1 && !old_visited.contains(#[trigger] nbrs@[jj]) implies visited@.contains(nbrs@[jj]) by {
                                if jj < j {
                                    assert(pre_push.contains(nbrs@[jj]));
                                }
                            }
                        }
                        j = j + 1;
                    }
                },
            }
            k = k + 1;
            proof {
                assert forall|i: int| hi <= i < visited@.len() implies {
                    &&& #[trigger] levels[i] == d + 1
                    &&& !old_visited.contains(visited@[i])
                    &&& edge(gv, start, hops@[i])
                    &&& reach_le(gv, hops@[i], visited@[i], d)
                } by {
                    if i < before.len() {
                        assert(visited@[i] == before[i]);
                        assert(levels[i] == before_levels[i]);
                        assert(hops@[i] == before_hops[i]);
                        assert(before_levels[i] == d + 1);
                    } else {
                        assert(levels[i] == d + 1);
                    }
                }
                assert forall|i: int| hi <= i < visited@.len() implies lo <= #[trigger] parents[i] < k && edge(gv, old_visited[parents[i]], visited@[i]) by {
                    if i < before.len() {
                        assert(visited@[i] == before[i]);
                        assert(parents[i] == before_parents[i]);
                        assert(before_levels[i] == d + 1);
                    } else {
                        assert(parents[i] == k - 1);
                        assert(levels[i] == d + 1);
                        assert(edge(gv, u, visited@[i]));
                    }
                }
                assert forall|kk: int, v: u32|
                    lo <= kk < k && #[trigger] edge(gv, old_visited[kk], v) && !old_visited.contains(v)
                    implies visited@.contains(v) by {
                    if kk < k - 1 {
                        assert(before.contains(v));
                        let i = choose|i: int| 0 <= i < before.len() && before[i] == v;
                        assert(visited@[i] == v);
                    } else {
                        assert(edge(gv, u, v));
                    }
                }

                assert forall|kk: int, v: u32|
                    lo <= kk < k && #[trigger] edge(gv, old_visited[kk], v) implies !targets@.contains(v) by {
                    if kk == k - 1 {
                        assert(edge(gv, u, v));
                    }
                }
                assert(visited@.len() >= hi);
                assert(visited@.subrange(0, hi as int) == old_visited);
                assert(levels.subrange(0, hi as int) == old_levels);
                assert(hops@.subrange(0, hi as int) == old_hops);
            }
        }
        proof {
            // the next level
            let new_d = d + 1;
            assert forall|v: u32| #[trigger] visited@.contains(v) <==> reach_le(gv, start, v, new_d) by {
                if visited@.contains(v) {
                    let i = choose|i: int| 0 <= i < visited@.len() && visited@[i] == v;
                    if i < hi {
                        assert(old_visited[i] == v);
                        assert(old_visited.contains(v));
                        lemma_reach_mono(gv, start, v, d, new_d);
                    } else {
                        assert(levels[i] == d + 1);
                        let kk = parents[i];
                        assert(lo <= kk < hi && edge(gv, old_visited[kk], visited@[i]));
                        lemma_reach_mono(gv, start, old_visited[kk], old_levels[kk], d);
                        lemma_reach_step(gv, start, old_visited[kk], v, d);
                    }
                }
                if reach_le(gv, start, v, new_d) {
                    lemma_reach_split(gv, start, v, new_d);
                    if !reach_le(gv, start, v, d) {
                        let w = choose|w: u32| #[trigger] reach_le(gv, start, w, d) && edge(gv, w, v);
                        assert(old_visited.contains(w));
                        let i = choose|i: int| 0 <= i < old_visited.len() && old_visited[i] == w;
                        if i < lo {
                            lemma_reach_mono(gv, start, w, old_levels[i], d - 1);
                            lemma_reach_step(gv, start, w, v, d - 1);
                        }
                    } else {
                        assert(old_visited.contains(v));
                        let i = choose|i: int| 0 <= i < old_visited.len() && old_visited[i] == v;
                        assert(visited@[i] == v);
                    }
                }
            }
            assert forall|t: u32| #[trigger] targets@.contains(t) implies !reach1_le(gv, start, t, new_d) by {
                if reach1_le(gv, start, t, new_d) {
                    lemma_reach1_split(gv, start, t, new_d);
                    let w = choose|w: u32| #[trigger] reach_le(gv, start, w, new_d - 1) && edge(gv, w, t);
                    assert(old_visited.contains(w));
                    let i = choose|i: int| 0 <= i < old_visited.len() && old_visited[i] == w;
                    if i < lo {
                        lemma_reach_mono(gv, start, w, old_levels[i], d - 1);
                        lemma_reach_step(gv, start, w, t, d - 1);
                    }
                }
            }
            assert forall|i: int| 0 <= i < hi implies #[trigger] levels[i] < new_d by {
                assert(levels[i] == old_levels[i]);
                assert(old_visited[i] == old_visited[i]);
            }
            assert forall|i: int| 0 <= i < visited@.len() implies {
                &&& levels[i] <= new_d
                &&& reach_le(gv, start, #[trigger] visited@[i], levels[i])
                &&& (levels[i] == 0 || !reach_le(gv, start, visited@[i], levels[i] - 1))
                &&& (levels[i] >= 1 ==> edge(gv, start, hops@[i]) && reach_le(
                    gv,
                    hops@[i],
                    visited@[i],
                    levels[i] - 1,
                ))
            } by {
                if i < hi {
                    assert(levels[i] == old_levels[i]);
                    assert(visited@[i] == old_visited[i]);
                    assert(hops@[i] == old_hops[i]);
                } else {
                    assert(levels[i] == d + 1);
                    let kk = parents[i];
                    assert(lo <= kk < hi && edge(gv, old_visited[kk], visited@[i]));
                    assert(old_levels[kk] == d);
                    assert(reach_le(gv, start, old_visited[kk], old_levels[kk]));
                    lemma_reach_step(gv, start, old_visited[kk], visited@[i], d);
                    if reach_le(gv, start, visited@[i], d) {
                        assert(old_visited.contains(visited@[i]));
                    }
                }
            }
            d = new_d;
        }
        lo = hi;
        hi = visited.len();
    }
    proof {
        assert(d >= 1);
        assert forall|v: u32| #[trigger] reach_le(gv, start, v, d) implies reach_le(gv, start, v, d - 1) by {
            assert(visited@.contains(v));
            let i = choose|i: int| 0 <= i < visited@.len() && visited@[i] == v;
            assert(i < lo);
            assert(levels[i] < d);
            lemma_reach_mono(gv, start, v, levels[i], d - 1);
        }
        assert forall|t: u32, n: int| #![trigger targets@.contains(t), reach1_le(gv, start, t, n)] targets@.contains(t) implies !reach1_le(gv, start, t, n) by {
            if reach1_le(gv, start, t, n) {
                lemma_reach1_split(gv, start, t, n);
                let w = choose|w: u32| #[trigger] reach_le(gv, start, w, n - 1) && edge(gv, w, t);
                if n - 1 >= 0 {
                    lemma_reach_closed(gv, start, d, n - 1);
                } else {
                    let p = choose|p: Seq<u32>| #[trigger] is_walk(gv, p) && p[0] == start && p.last() == w && p.len() <= n;
                }
                lemma_reach_step(gv, start, w, t, d - 1);
            }
        }
    }
    None
}

} // verus!
