//! Routes in the planning explorers' picture of the galaxy: the nearest
//! planets of a kind, the best of them, and shortest paths.

use vstd::prelude::*;
use crate::graph::{
    adjacency_view, edge, entry_index, is_first_entry, is_walk, lemma_listed_planets, lemma_reach_closed,
    lemma_reach_mono, lemma_reach_split, lemma_reach_step, lemma_reach_zero, listed_planets, reach_le, vec_contains,
};
use crate::planner::galaxy::GalaxyKnowledge;

verus! {

/// Planet `v` is one of those sought: listed in `ids`, or, with
/// `complement`, not listed.
pub open spec fn accepts(ids: Seq<u32>, complement: bool, v: u32) -> bool {
    ids.contains(v) != complement
}

/// `r` lists, each once, the sought planets nearest to `start`: those a walk
/// of `d` edges reaches, where no walk of fewer edges reaches any; `r` is
/// empty when no walk reaches any.
pub open spec fn is_nearest(g: Seq<(u32, Seq<u32>)>, start: u32, ids: Seq<u32>, complement: bool, r: Seq<u32>) -> bool {
    &&& r.no_duplicates()
    &&& r.len() == 0 <==> forall|v: u32, n: int| #![trigger accepts(ids, complement, v), reach_le(g, start, v, n)]
        accepts(ids, complement, v) ==> !reach_le(g, start, v, n)
    &&& r.len() > 0 ==> exists|d: int| #[trigger] nearest_at(g, start, ids, complement, r, d)
}

/// `r` lists the sought planets a walk of `d` edges reaches, and no walk of
/// fewer edges reaches a sought planet.
pub open spec fn nearest_at(g: Seq<(u32, Seq<u32>)>, start: u32, ids: Seq<u32>, complement: bool, r: Seq<u32>, d: int) -> bool {
    &&& forall|v: u32| #[trigger] r.contains(v) <==> accepts(ids, complement, v) && reach_le(g, start, v, d)
    &&& forall|w: u32| #[trigger] accepts(ids, complement, w) ==> !reach_le(g, start, w, d - 1)
}

/// Some entry of `g` lists `v` as a neighbour.
pub open spec fn is_listed(g: Seq<(u32, Vec<u32>)>, v: u32) -> bool {
    exists|j: int| 0 <= j < g.len() && g[j].1@.contains(v)
}

/// A copy of a list of ids.
fn copy_list(v: &Vec<u32>) -> (r: Vec<u32>)
    ensures
        r@ == v@,
{
    let mut r: Vec<u32> = Vec::new();
    let mut i: usize = 0;
    while i < v.len()
        invariant
            i <= v@.len(),
            r@ == v@.subrange(0, i as int),
        decreases v@.len() - i,
    {
        r.push(v[i]);
        i = i + 1;
        proof {
            assert(r@ =~= v@.subrange(0, i as int));
        }
    }
    proof {
        assert(r@ =~= v@);
    }
    r
}

/// The galaxy picture as a map: each planet, in the order it was added,
/// with its neighbours.
pub open spec fn galaxy_graph(k: GalaxyKnowledge) -> Seq<(u32, Seq<u32>)> {
    Seq::new(
        k.connections.key_seq().len(),
        |i: int| (k.connections.key_seq()[i], k.connections@[k.connections.key_seq()[i]]@),
    )
}

/// The galaxy picture as a list of `(planet, neighbours)` entries.
pub fn galaxy_map(k: &GalaxyKnowledge) -> (r: Vec<(u32, Vec<u32>)>)
    requires
        k.wf(),
    ensures
        adjacency_view(r@) == galaxy_graph(*k),
        forall|u: u32, v: u32| #[trigger] edge(adjacency_view(r@), u, v) <==> k.connections@.contains_key(u) && k.connections@[u]@.contains(v),
{
    let ids = k.get_planet_ids();
    let mut r: Vec<(u32, Vec<u32>)> = Vec::new();
    let mut i: usize = 0;
    while i < ids.len()
        invariant
            k.wf(),
            i <= ids@.len(),
            ids@.no_duplicates(),
            forall|x: u32| #[trigger] ids@.contains(x) <==> k.connections@.contains_key(x),
            r@.len() == i,
            forall|j: int| 0 <= j < i ==> #[trigger] r@[j].0 == ids@[j] && k.connections@.contains_key(ids@[j])
                && r@[j].1@ == k.connections@[ids@[j]]@,
        decreases ids@.len() - i,
    {
        let id = ids[i];
        assert(ids@.contains(id)) by {
            assert(ids@[i as int] == id);
        }
        let nbrs = k.get_planet_neighbours(id).unwrap();
        r.push((id, copy_list(nbrs)));
        i = i + 1;
    }
    proof {
        let gv = adjacency_view(r@);
        assert(gv =~= galaxy_graph(*k));
        assert forall|u: u32, v: u32| #[trigger] edge(gv, u, v) <==> k.connections@.contains_key(u) && k.connections@[u]@.contains(v) by {
            if edge(gv, u, v) {
                let j = choose|j: int| is_first_entry(gv, u, j) && gv[j].1.contains(v);
                assert(r@[j].0 == ids@[j]);
            }
            if k.connections@.contains_key(u) && k.connections@[u]@.contains(v) {
                assert(ids@.contains(u));
                let j = choose|j: int| 0 <= j < ids@.len() && ids@[j] == u;
                assert(r@[j].0 == u);
                assert forall|m: int| 0 <= m < j implies gv[m].0 != u by {
                    assert(r@[m].0 == ids@[m]);
                    assert(ids@[m] != ids@[j]);
                }
                assert(is_first_entry(gv, u, j));
            }
        }
    }
    r
}

/// Adds to `layer` every planet one edge away from it.
fn expand(g: &Vec<(u32, Vec<u32>)>, layer: &Vec<u32>) -> (next: Vec<u32>)
    requires
        layer@.no_duplicates(),
    ensures
        next@.no_duplicates(),
        next@.subrange(0, layer@.len() as int) == layer@,
        next@.len() >= layer@.len(),
        forall|v: u32| #[trigger] next@.contains(v) <==> layer@.contains(v)
            || exists|u: u32| #[trigger] layer@.contains(u) && edge(adjacency_view(g@), u, v),
        forall|i: int| layer@.len() <= i < next@.len() ==> #[trigger] is_listed(g@, next@[i]),
{
    let ghost gv = adjacency_view(g@);
    let mut next = copy_list(layer);
    let mut k: usize = 0;
    while k < layer.len()
        invariant
            gv == adjacency_view(g@),
            k <= layer@.len(),
            next@.no_duplicates(),
            next@.subrange(0, layer@.len() as int) == layer@,
            next@.len() >= layer@.len(),
            forall|v: u32| #[trigger] next@.contains(v) ==> layer@.contains(v)
                || exists|u: u32| #[trigger] layer@.contains(u) && edge(gv, u, v),
            forall|j: int, v: u32| 0 <= j < k && #[trigger] edge(gv, layer@[j], v) ==> next@.contains(v),
            forall|v: u32| #[trigger] layer@.contains(v) ==> next@.contains(v),
            forall|i: int| layer@.len() <= i < next@.len() ==> #[trigger] is_listed(g@, next@[i]),
        decreases layer@.len() - k,
    {
        let u = layer[k];
        match entry_index(g, u) {
            None => {
                proof {
                    assert forall|v: u32| !edge(gv, u, v) by {}
                }
            },
            Some(ei) => {
                let nbrs = &g[ei].1;
                proof {
                    assert(nbrs@ == gv[ei as int].1);
                }
                let mut m: usize = 0;
                while m < nbrs.len()
                    invariant
                        gv == adjacency_view(g@),
                        0 <= ei < g@.len(),
                        is_first_entry(gv, u, ei as int),
                        nbrs@ == gv[ei as int].1,
                        nbrs@ == g@[ei as int].1@,
                        k < layer@.len(),
                        u == layer@[k as int],
                        m <= nbrs@.len(),
                        next@.no_duplicates(),
                        next@.subrange(0, layer@.len() as int) == layer@,
                        next@.len() >= layer@.len(),
                        forall|v: u32| #[trigger] next@.contains(v) ==> layer@.contains(v)
                            || exists|w: u32| #[trigger] layer@.contains(w) && edge(gv, w, v),
                        forall|j: int, v: u32| 0 <= j < k && #[trigger] edge(gv, layer@[j], v) ==> next@.contains(v),
                        forall|mm: int| 0 <= mm < m ==> next@.contains(#[trigger] nbrs@[mm]),
                        forall|v: u32| #[trigger] layer@.contains(v) ==> next@.contains(v),
                        forall|i: int| layer@.len() <= i < next@.len() ==> #[trigger] is_listed(g@, next@[i]),
                    decreases nbrs@.len() - m,
                {
                    let v = nbrs[m];
                    proof {
                        assert(nbrs@.contains(v)) by {
                            assert(nbrs@[m as int] == v);
                        }
                        assert(edge(gv, u, v));
                        assert(layer@.contains(u)) by {
                            assert(layer@[k as int] == u);
                        }
                    }
                    if !vec_contains(&next, v) {
                        let ghost before = next@;
                        next.push(v);
                        proof {
                            assert(next@.subrange(0, layer@.len() as int) =~= before.subrange(0, layer@.len() as int));
                            assert(next@.no_duplicates()) by {
                                assert forall|x: int, y: int| 0 <= x < y < next@.len() implies next@[x] != next@[y] by {
                                    if y == before.len() {
                                        assert(before[x] == next@[x]);
                                        assert(before.contains(next@[x]));
                                    }
                                }
                            }
                            assert forall|vv: u32| #[trigger] next@.contains(vv) implies layer@.contains(vv)
                                || exists|w: u32| #[trigger] layer@.contains(w) && edge(gv, w, vv) by {
                                let i = choose|i: int| 0 <= i < next@.len() && next@[i] == vv;
                                if i < before.len() {
                                    assert(before.contains(vv));
                                }
                            }
                            assert forall|i: int| layer@.len() <= i < next@.len() implies #[trigger] is_listed(g@, next@[i]) by {
                                if i == before.len() {
                                    assert(g@[ei as int].1@.contains(next@[i]));
                                    assert(is_listed(g@, next@[i]));
                                } else {
                                    assert(next@[i] == before[i]);
                                }
                            }
                            assert forall|mm: int| 0 <= mm < m + 1 implies next@.contains(#[trigger] nbrs@[mm]) by {
                                if mm < m {
                                    assert(before.contains(nbrs@[mm]));
                                    let i = choose|i: int| 0 <= i < before.len() && before[i] == nbrs@[mm];
                                    assert(next@[i] == nbrs@[mm]);
                                } else {
                                    assert(next@[before.len() as int] == v);
                                }
                            }
                            assert forall|j: int, vv: u32| 0 <= j < k && #[trigger] edge(gv, layer@[j], vv) implies next@.contains(vv) by {
                                assert(before.contains(vv));
                                let i = choose|i: int| 0 <= i < before.len() && before[i] == vv;
                                assert(next@[i] == vv);
                            }
                            assert forall|vv: u32| #[trigger] layer@.contains(vv) implies next@.contains(vv) by {
                                assert(before.contains(vv));
                                let i = choose|i: int| 0 <= i < before.len() && before[i] == vv;
                                assert(next@[i] == vv);
                            }
                        }
                    }
                    m = m + 1;
                }
                proof {
                    assert forall|v: u32| #[trigger] edge(gv, u, v) implies next@.contains(v) by {
                        let i = choose|i: int| is_first_entry(gv, u, i) && gv[i].1.contains(v);
                        assert(i == ei);
                        let mm = choose|mm: int| 0 <= mm < nbrs@.len() && nbrs@[mm] == v;
                        assert(next@.contains(nbrs@[mm]));
                    }
                }
            },
        }
        k = k + 1;
        proof {
            assert forall|j: int, v: u32| 0 <= j < k && #[trigger] edge(gv, layer@[j], v) implies next@.contains(v) by {
                if j == k - 1 {
                    assert(layer@[j] == u);
                }
            }
        }
    }
    proof {
        assert forall|v: u32| #[trigger] next@.contains(v) <==> layer@.contains(v)
            || exists|u: u32| #[trigger] layer@.contains(u) && edge(gv, u, v) by {
            if exists|u: u32| #[trigger] layer@.contains(u) && edge(gv, u, v) {
                let u = choose|u: u32| #[trigger] layer@.contains(u) && edge(gv, u, v);
                let j = choose|j: int| 0 <= j < layer@.len() && layer@[j] == u;
                assert(edge(gv, layer@[j], v));
            }
        }
    }
    next
}


/// The planets of `layer` that are sought.
fn sought_in(layer: &Vec<u32>, ids: &Vec<u32>, complement: bool) -> (r: Vec<u32>)
    requires
        layer@.no_duplicates(),
    ensures
        r@.no_duplicates(),
        forall|v: u32| #[trigger] r@.contains(v) <==> layer@.contains(v) && accepts(ids@, complement, v),
{
    let mut r: Vec<u32> = Vec::new();
    let mut i: usize = 0;
    while i < layer.len()
        invariant
            i <= layer@.len(),
            layer@.no_duplicates(),
            r@.no_duplicates(),
            forall|v: u32| #[trigger] r@.contains(v) <==> layer@.subrange(0, i as int).contains(v) && accepts(ids@, complement, v),
        decreases layer@.len() - i,
    {
        let v = layer[i];
        let ghost before = r@;
        proof {
            let pre = layer@.subrange(0, i as int);
            let post = layer@.subrange(0, i + 1);
            assert(post =~= pre.push(v));
            assert forall|x: u32| post.contains(x) <==> pre.contains(x) || x == v by {
                if post.contains(x) {
                    let j = choose|j: int| 0 <= j < post.len() && post[j] == x;
                    if j < pre.len() {
                        assert(pre[j] == x);
                    }
                }
                if pre.contains(x) {
                    let j = choose|j: int| 0 <= j < pre.len() && pre[j] == x;
                    assert(post[j] == x);
                }
                if x == v {
                    assert(post[pre.len() as int] == x);
                }
            }
            assert(!pre.contains(v)) by {
                if pre.contains(v) {
                    let j = choose|j: int| 0 <= j < pre.len() && pre[j] == v;
                    assert(layer@[j] == layer@[i as int]);
                }
            }
        }
        if vec_contains(ids, v) != complement {
            r.push(v);
            proof {
                assert(r@.no_duplicates()) by {
                    assert forall|x: int, y: int| 0 <= x < y < r@.len() implies r@[x] != r@[y] by {
                        if y == before.len() {
                            assert(before.contains(r@[x]));
                        }
                    }
                }
                assert forall|x: u32| #[trigger] r@.contains(x) <==> layer@.subrange(0, i + 1).contains(x) && accepts(ids@, complement, x) by {
                    if r@.contains(x) {
                        let j = choose|j: int| 0 <= j < r@.len() && r@[j] == x;
                        if j < before.len() {
                            assert(before.contains(x));
                        }
                    }
                    if before.contains(x) {
                        let j = choose|j: int| 0 <= j < before.len() && before[j] == x;
                        assert(r@[j] == x);
                    }
                    if x == v {
                        assert(r@[before.len() as int] == v);
                    }
                }
            }
        }
        i = i + 1;
    }
    proof {
        assert(layer@.subrange(0, i as int) =~= layer@);
    }
    r
}

/// The sought planets nearest to `start` (see `is_nearest`), found by
/// widening the set of reached planets one edge at a time.
pub fn nearest_accepted(g: &Vec<(u32, Vec<u32>)>, start: u32, ids: &Vec<u32>, complement: bool) -> (r: Vec<u32>)
    ensures
        is_nearest(adjacency_view(g@), start, ids@, complement, r@),
{
    let ghost gv = adjacency_view(g@);
    let ghost universe = listed_planets(gv, gv.len() as int).insert(start);
    proof {
        lemma_listed_planets(gv, gv.len() as int);
    }
    let mut layer: Vec<u32> = Vec::new();
    layer.push(start);
    let ghost mut d: int = 0;
    proof {
        assert forall|v: u32| #[trigger] layer@.contains(v) <==> reach_le(gv, start, v, d) by {
            lemma_reach_zero(gv, start, v);
            if layer@.contains(v) {
                assert(layer@[0] == v);
            }
            if v == start {
                assert(layer@[0] == v);
            }
        }
    }
    loop
        invariant
            gv == adjacency_view(g@),
            universe == listed_planets(gv, gv.len() as int).insert(start),
            universe.finite(),
            forall|v: u32| #[trigger] listed_planets(gv, gv.len() as int).contains(v) <==> exists|i: int|
                0 <= i < gv.len() && gv[i].1.contains(v),
            d >= 0,
            layer@.no_duplicates(),
            forall|v: u32| #[trigger] layer@.contains(v) <==> reach_le(gv, start, v, d),
            forall|v: u32| #[trigger] layer@.contains(v) ==> universe.contains(v),
            forall|w: u32| #[trigger] accepts(ids@, complement, w) ==> !reach_le(gv, start, w, d - 1),
        decreases universe.len() - layer@.len(),
    {
        proof {
            assert(layer@.to_set().subset_of(universe));
            layer@.unique_seq_to_set();
            vstd::set_lib::lemma_len_subset(layer@.to_set(), universe);
        }
        let found = sought_in(&layer, ids, complement);
        if found.len() > 0 {
            proof {
                assert(nearest_at(gv, start, ids@, complement, found@, d));
                let v = found@[0];
                assert(found@.contains(v));
                assert(reach_le(gv, start, v, d));
            }
            return found;
        }
        let next = expand(g, &layer);
        proof {
            assert forall|v: u32| #[trigger] next@.contains(v) <==> reach_le(gv, start, v, d + 1) by {
                if next@.contains(v) {
                    if layer@.contains(v) {
                        lemma_reach_mono(gv, start, v, d, d + 1);
                    } else {
                        let u = choose|u: u32| #[trigger] layer@.contains(u) && edge(gv, u, v);
                        lemma_reach_step(gv, start, u, v, d);
                    }
                }
                if reach_le(gv, start, v, d + 1) {
                    lemma_reach_split(gv, start, v, d + 1);
                    if !reach_le(gv, start, v, d) {
                        let u = choose|u: u32| #[trigger] reach_le(gv, start, u, d) && edge(gv, u, v);
                        assert(layer@.contains(u));
                    }
                }
            }
            assert forall|v: u32| #[trigger] next@.contains(v) implies universe.contains(v) by {
                let i = choose|i: int| 0 <= i < next@.len() && next@[i] == v;
                if i < layer@.len() {
                    assert(next@.subrange(0, layer@.len() as int)[i] == v);
                    assert(layer@.contains(v));
                } else {
                    assert(is_listed(g@, next@[i]));
                    let j = choose|j: int| 0 <= j < g@.len() && g@[j].1@.contains(v);
                    assert(gv[j].1 == g@[j].1@);
                    assert(listed_planets(gv, gv.len() as int).contains(v));
                }
            }
            assert forall|w: u32| #[trigger] accepts(ids@, complement, w) implies !reach_le(gv, start, w, d) by {
                if reach_le(gv, start, w, d) {
                    assert(layer@.contains(w));
                    assert(found@.contains(w));
                }
            }
        }
        if next.len() == layer.len() {
            proof {
                assert(next@ =~= layer@) by {
                    assert(next@ =~= next@.subrange(0, layer@.len() as int));
                }
                assert forall|v: u32| #[trigger] reach_le(gv, start, v, d + 1) implies reach_le(gv, start, v, d) by {
                    assert(next@.contains(v));
                }
                assert forall|v: u32, n: int| accepts(ids@, complement, v) implies !reach_le(gv, start, v, n) by {
                    if n >= 0 {
                        lemma_reach_closed(gv, start, d + 1, n);
                    } else {
                        if reach_le(gv, start, v, n) {
                            let p = choose|p: Seq<u32>| #[trigger] is_walk(gv, p) && p[0] == start && p.last() == v && p.len() <= n + 1;
                        }
                    }
                }
            }
            return Vec::new();
        }
        proof {
            assert(next@.to_set().subset_of(universe));
            next@.unique_seq_to_set();
            vstd::set_lib::lemma_len_subset(next@.to_set(), universe);
        }
        layer = next;
        proof {
            d = d + 1;
        }
    }
}


/// `p` is a shortest walk from `start` to `target`, without its first
/// planet.
pub open spec fn is_shortest_path(g: Seq<(u32, Seq<u32>)>, start: u32, target: u32, p: Seq<u32>) -> bool {
    &&& is_walk(g, seq![start] + p)
    &&& (seq![start] + p).last() == target
    &&& !reach_le(g, start, target, p.len() - 1)
}

/// Whether `u` has an edge to `v`.
fn has_edge(g: &Vec<(u32, Vec<u32>)>, u: u32, v: u32) -> (r: bool)
    ensures
        r == edge(adjacency_view(g@), u, v),
{
    match entry_index(g, u) {
        None => false,
        Some(ei) => {
            let r = vec_contains(&g[ei].1, v);
            proof {
                let gv = adjacency_view(g@);
                if edge(gv, u, v) {
                    let i = choose|i: int| is_first_entry(gv, u, i) && gv[i].1.contains(v);
                    assert(i == ei);
                }
                assert(gv[ei as int].1 == g@[ei as int].1@);
            }
            r
        },
    }
}

/// Walks back from `target` through the layers to `start`.
fn rebuild(g: &Vec<(u32, Vec<u32>)>, layers: &Vec<Vec<u32>>, start: u32, target: u32) -> (p: Vec<u32>)
    requires
        layers@.len() >= 1,
        forall|i: int, v: u32| 0 <= i < layers@.len() ==> (#[trigger] layers@[i]@.contains(v) <==> reach_le(adjacency_view(g@), start, v, i)),
        reach_le(adjacency_view(g@), start, target, layers@.len() - 1),
        !reach_le(adjacency_view(g@), start, target, layers@.len() - 2),
    ensures
        is_shortest_path(adjacency_view(g@), start, target, p@),
{
    let ghost gv = adjacency_view(g@);
    let mut path: Vec<u32> = Vec::new();
    let mut cur = target;
    let mut i: usize = layers.len() - 1;
    proof {
        assert(is_walk(gv, seq![cur] + path@)) by {
            assert(seq![cur] + path@ =~= seq![cur]);
        }
    }
    while i > 0
        invariant
            gv == adjacency_view(g@),
            i < layers@.len(),
            forall|k: int, v: u32| 0 <= k < layers@.len() ==> (#[trigger] layers@[k]@.contains(v) <==> reach_le(gv, start, v, k)),
            reach_le(gv, start, cur, i as int),
            !reach_le(gv, start, cur, i - 1),
            is_walk(gv, seq![cur] + path@),
            (seq![cur] + path@).last() == target,
            path@.len() == layers@.len() - 1 - i,
        decreases i,
    {
        let prev = &layers[i - 1];
        proof {
            lemma_reach_split(gv, start, cur, i as int);
        }
        let mut j: usize = 0;
        let mut found: Option<u32> = None;
        while j < prev.len()
            invariant_except_break
                found is None,
            invariant
                gv == adjacency_view(g@),
                j <= prev@.len(),
                forall|m: int| 0 <= m < j ==> !edge(gv, #[trigger] prev@[m], cur),
            ensures
                found matches Some(u) ==> prev@.contains(u) && edge(gv, u, cur),
                found is None ==> forall|m: int| 0 <= m < prev@.len() ==> !edge(gv, #[trigger] prev@[m], cur),
            decreases prev@.len() - j,
        {
            let u = prev[j];
            if has_edge(g, u, cur) {
                found = Some(u);
                proof {
                    assert(prev@[j as int] == u);
                }
                break;
            }
            j = j + 1;
        }
        let u = match found {
            Some(u) => u,
            None => {
                proof {
                    let w = choose|w: u32| #[trigger] reach_le(gv, start, w, i - 1) && edge(gv, w, cur);
                    assert(prev@.contains(w));
                    let m = choose|m: int| 0 <= m < prev@.len() && prev@[m] == w;
                    assert(!edge(gv, prev@[m], cur));
                }
                return Vec::new();
            },
        };
        proof {
            assert(prev@.contains(u));
            assert(reach_le(gv, start, u, i - 1));
            assert(edge(gv, u, cur));
            if reach_le(gv, start, u, i - 2) {
                lemma_reach_step(gv, start, u, cur, i - 2);
            }
        }
        let ghost old_walk = seq![cur] + path@;
        path.insert(0, cur);
        proof {
            let w = seq![u] + path@;
            assert(w =~= seq![u] + old_walk);
            assert forall|k: int| 0 <= k < w.len() - 1 implies #[trigger] edge(gv, w[k], w[k + 1]) by {
                if k > 0 {
                    let kk = k - 1;
                    assert(is_walk(gv, old_walk));
                    assert(0 <= kk < old_walk.len() - 1);
                    assert(edge(gv, old_walk[kk], old_walk[kk + 1]));
                    assert(w[k] == old_walk[kk]);
                    assert(w[k + 1] == old_walk[kk + 1]);
                }
            }
            assert(is_walk(gv, w));
            assert(w.last() == old_walk.last());
        }
        cur = u;
        i = i - 1;
    }
    proof {
        lemma_reach_zero(gv, start, cur);
    }
    path
}

/// A shortest walk from `start` to `target`, without `start`, or `None`
/// when no walk leads there.
pub fn shortest_path(g: &Vec<(u32, Vec<u32>)>, start: u32, target: u32) -> (r: Option<Vec<u32>>)
    ensures
        r is None <==> forall|n: int| !#[trigger] reach_le(adjacency_view(g@), start, target, n),
        r matches Some(p) ==> is_shortest_path(adjacency_view(g@), start, target, p@),
{
    let ghost gv = adjacency_view(g@);
    let ghost universe = listed_planets(gv, gv.len() as int).insert(start);
    proof {
        lemma_listed_planets(gv, gv.len() as int);
    }
    let mut first: Vec<u32> = Vec::new();
    first.push(start);
    let mut layers: Vec<Vec<u32>> = Vec::new();
    layers.push(first);
    proof {
        assert forall|v: u32| #[trigger] layers@[0]@.contains(v) <==> reach_le(gv, start, v, 0) by {
            lemma_reach_zero(gv, start, v);
            if layers@[0]@.contains(v) {
                assert(layers@[0]@[0] == v);
            }
            if v == start {
                assert(layers@[0]@[0] == v);
            }
        }
    }
    loop
        invariant
            gv == adjacency_view(g@),
            universe == listed_planets(gv, gv.len() as int).insert(start),
            universe.finite(),
            forall|v: u32| #[trigger] listed_planets(gv, gv.len() as int).contains(v) <==> exists|i: int|
                0 <= i < gv.len() && gv[i].1.contains(v),
            layers@.len() >= 1,
            forall|i: int, v: u32| 0 <= i < layers@.len() ==> (#[trigger] layers@[i]@.contains(v) <==> reach_le(gv, start, v, i)),
            layers@[layers@.len() - 1]@.no_duplicates(),
            forall|v: u32| #[trigger] layers@[layers@.len() - 1]@.contains(v) ==> universe.contains(v),
            forall|i: int| 0 <= i < layers@.len() - 1 ==> !#[trigger] reach_le(gv, start, target, i),
        decreases universe.len() - layers@[layers@.len() - 1]@.len(),
    {
        let d = layers.len() - 1;
        let last = &layers[d];
        proof {
            assert(last@.to_set().subset_of(universe));
            last@.unique_seq_to_set();
            vstd::set_lib::lemma_len_subset(last@.to_set(), universe);
        }
        if vec_contains(last, target) {
            return Some(rebuild(g, &layers, start, target));
        }
        let next = expand(g, last);
        proof {
            assert forall|v: u32| #[trigger] next@.contains(v) <==> reach_le(gv, start, v, d + 1) by {
                if next@.contains(v) {
                    if last@.contains(v) {
                        lemma_reach_mono(gv, start, v, d as int, d + 1);
                    } else {
                        let u = choose|u: u32| #[trigger] last@.contains(u) && edge(gv, u, v);
                        lemma_reach_step(gv, start, u, v, d as int);
                    }
                }
                if reach_le(gv, start, v, d + 1) {
                    lemma_reach_split(gv, start, v, d + 1);
                    if !reach_le(gv, start, v, d as int) {
                        let u = choose|u: u32| #[trigger] reach_le(gv, start, u, d as int) && edge(gv, u, v);
                        assert(last@.contains(u));
                    }
                }
            }
            assert forall|v: u32| #[trigger] next@.contains(v) implies universe.contains(v) by {
                let i = choose|i: int| 0 <= i < next@.len() && next@[i] == v;
                if i < last@.len() {
                    assert(next@.subrange(0, last@.len() as int)[i] == v);
                    assert(last@.contains(v));
                } else {
                    assert(is_listed(g@, next@[i]));
                    let j = choose|j: int| 0 <= j < g@.len() && g@[j].1@.contains(v);
                    assert(gv[j].1 == g@[j].1@);
                    assert(listed_planets(gv, gv.len() as int).contains(v));
                }
            }
            assert(!reach_le(gv, start, target, d as int));
        }
        if next.len() == last.len() {
            proof {
                assert(next@ =~= last@) by {
                    assert(next@ =~= next@.subrange(0, last@.len() as int));
                }
                assert forall|v: u32| #[trigger] reach_le(gv, start, v, d + 1) implies reach_le(gv, start, v, d as int) by {
                    assert(next@.contains(v));
                }
                assert forall|n: int| !#[trigger] reach_le(gv, start, target, n) by {
                    if n >= 0 {
                        lemma_reach_closed(gv, start, d + 1, n);
                    } else if reach_le(gv, start, target, n) {
                        let p = choose|p: Seq<u32>| #[trigger] is_walk(gv, p) && p[0] == start && p.last() == target && p.len() <= n + 1;
                    }
                }
            }
            return None;
        }
        proof {
            assert(next@.to_set().subset_of(universe));
            next@.unique_seq_to_set();
            vstd::set_lib::lemma_len_subset(next@.to_set(), universe);
        }
        layers.push(next);
    }
}

} // verus!
