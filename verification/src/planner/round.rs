//! The choices a planning explorer makes during a round: which planet to
//! explore next, where to generate or combine a resource, and the path to a
//! planet. The caller moves the explorer and talks to the planets.

use vstd::prelude::*;
use crate::graph::{adjacency_view, reach_le, vec_contains};
use crate::planner::galaxy::GalaxyKnowledge;
use crate::planner::routes::{galaxy_graph, galaxy_map, is_nearest, is_shortest_path, nearest_accepted, nearest_at, shortest_path};
use crate::resources::{BasicResourceType, ComplexResourceType};
use crate::text::{concat, decimal, number_text};

verus! {

/// Entry `i` has the largest score (ties may go either way).
pub open spec fn is_best(scores: Seq<u64>, i: int) -> bool {
    &&& 0 <= i < scores.len()
    &&& forall|j: int| 0 <= j < scores.len() ==> scores[j] <= #[trigger] scores[i]
}

/// The candidate with the largest score, the last one among equals; `None`
/// when there is no candidate.
pub fn pick_best(cands: &Vec<u32>, scores: &Vec<u64>) -> (r: Option<u32>)
    requires
        scores@.len() == cands@.len(),
    ensures
        r is None <==> cands@.len() == 0,
        r matches Some(v) ==> exists|i: int| #[trigger] is_best(scores@, i) && cands@[i] == v,
{
    if cands.len() == 0 {
        return None;
    }
    let mut best: usize = 0;
    let mut k: usize = 1;
    while k < cands.len()
        invariant
            scores@.len() == cands@.len(),
            1 <= k <= cands@.len(),
            best < k,
            forall|j: int| 0 <= j < k ==> scores@[j] <= scores@[best as int],
        decreases cands@.len() - k,
    {
        if scores[k] >= scores[best] {
            best = k;
        }
        k = k + 1;
    }
    let r = Some(cands[best]);
    proof {
        assert(is_best(scores@, best as int));
    }
    r
}

/// How many elements of `s` lie in `set`.
pub open spec fn count_in(s: Seq<u32>, set: Seq<u32>) -> nat
    decreases s.len(),
{
    if s.len() == 0 {
        0
    } else {
        count_in(s.drop_last(), set) + if set.contains(s.last()) { 1nat } else { 0nat }
    }
}

/// How many neighbours of planet `p` are among `explored`.
pub open spec fn explored_neighbours(g: GalaxyKnowledge, p: u32, explored: Seq<u32>) -> int {
    if g.connections@.contains_key(p) { count_in(g.connections@[p]@, explored) as int } else { 0 }
}

/// The charged cells of planet `p`, zero when unknown.
pub open spec fn cells_of(g: GalaxyKnowledge, p: u32) -> int {
    if g.planets_knowledge@.contains_key(p) { g.planets_knowledge@[p].n_charged_cells as int } else { 0 }
}

/// `r` is one of the sought planets nearest to `start` with the largest
/// `score`, and `None` when no sought planet can be reached.
pub open spec fn best_nearest(
    gr: Seq<(u32, Seq<u32>)>,
    start: u32,
    ids: Seq<u32>,
    complement: bool,
    score: spec_fn(u32) -> int,
    r: Option<u32>,
) -> bool {
    exists|cands: Seq<u32>| #[trigger] is_nearest(gr, start, ids, complement, cands) && {
        &&& r is None <==> cands.len() == 0
        &&& r matches Some(v) ==> cands.contains(v) && forall|j: int| 0 <= j < cands.len() ==> score(#[trigger] cands[j]) <= score(v)
    }
}

/// Planet `p` is known to generate `res` and has a charged cell.
pub open spec fn can_generate(g: GalaxyKnowledge, p: u32, res: BasicResourceType) -> bool {
    &&& g.planets_knowledge@.contains_key(p)
    &&& g.planets_knowledge@[p].basic_resources@.contains(res)
    &&& g.planets_knowledge@[p].n_charged_cells > 0
}

/// Planet `p` is known to combine `res` and has a charged cell.
pub open spec fn can_combine(g: GalaxyKnowledge, p: u32, res: ComplexResourceType) -> bool {
    &&& g.planets_knowledge@.contains_key(p)
    &&& g.planets_knowledge@[p].complex_resources@.contains(res)
    &&& g.planets_knowledge@[p].n_charged_cells > 0
}

proof fn lemma_count_in_bound(s: Seq<u32>, set: Seq<u32>)
    ensures
        count_in(s, set) <= s.len(),
    decreases s.len(),
{
    if s.len() > 0 {
        lemma_count_in_bound(s.drop_last(), set);
    }
}

fn count_explored(s: &Vec<u32>, explored: &Vec<u32>) -> (n: u64)
    ensures
        n == count_in(s@, explored@),
{
    let mut n: u64 = 0;
    let mut i: usize = 0;
    while i < s.len()
        invariant
            i <= s@.len(),
            n == count_in(s@.subrange(0, i as int), explored@),
        decreases s@.len() - i,
    {
        proof {
            assert(s@.subrange(0, i + 1).drop_last() =~= s@.subrange(0, i as int));
            lemma_count_in_bound(s@.subrange(0, i as int), explored@);
        }
        if vec_contains(explored, s[i]) {
            n = n + 1;
        }
        i = i + 1;
    }
    proof {
        assert(s@.subrange(0, i as int) =~= s@);
    }
    n
}

/// The best of `cands` by `scores` meets `best_nearest`.
proof fn lemma_pick(
    gr: Seq<(u32, Seq<u32>)>,
    start: u32,
    ids: Seq<u32>,
    complement: bool,
    score: spec_fn(u32) -> int,
    cands: Seq<u32>,
    scores: Seq<u64>,
    r: Option<u32>,
)
    requires
        is_nearest(gr, start, ids, complement, cands),
        scores.len() == cands.len(),
        forall|j: int| 0 <= j < cands.len() ==> #[trigger] scores[j] == score(cands[j]),
        r is None <==> cands.len() == 0,
        r matches Some(v) ==> exists|i: int| #[trigger] is_best(scores, i) && cands[i] == v,
    ensures
        best_nearest(gr, start, ids, complement, score, r),
{
    if r is Some {
        let v = r->0;
        let i = choose|i: int| #[trigger] is_best(scores, i) && cands[i] == v;
        assert(cands.contains(v));
        assert forall|j: int| 0 <= j < cands.len() implies score(#[trigger] cands[j]) <= score(v) by {
            assert(scores[j] <= scores[i]);
        }
    }
}

/// Among the unexplored planets nearest to `current`, the one with most
/// explored neighbours (so as to explore clusters first); `None` when every
/// reachable planet is explored.
pub fn get_best_nearest_unexplored_planet(galaxy: &GalaxyKnowledge, current: u32, explored: &Vec<u32>) -> (r: Option<u32>)
    requires
        galaxy.wf(),
    ensures
        best_nearest(galaxy_graph(*galaxy), current, explored@, true, |p: u32| explored_neighbours(*galaxy, p, explored@), r),
{
    let map = galaxy_map(galaxy);
    let cands = nearest_accepted(&map, current, explored, true);
    let ghost score = |p: u32| explored_neighbours(*galaxy, p, explored@);
    let mut scores: Vec<u64> = Vec::new();
    let mut i: usize = 0;
    while i < cands.len()
        invariant
            galaxy.wf(),
            i <= cands@.len(),
            scores@.len() == i,
            score == (|p: u32| explored_neighbours(*galaxy, p, explored@)),
            forall|j: int| 0 <= j < i ==> #[trigger] scores@[j] == score(cands@[j]),
        decreases cands@.len() - i,
    {
        let s = match galaxy.get_planet_neighbours(cands[i]) {
            Some(nbrs) => count_explored(nbrs, explored),
            None => 0,
        };
        scores.push(s);
        i = i + 1;
    }
    let r = pick_best(&cands, &scores);
    proof {
        lemma_pick(galaxy_graph(*galaxy), current, explored@, true, score, cands@, scores@, r);
    }
    r
}

/// `ids` lists the planets that can generate `res` now.
pub open spec fn lists_generators(g: GalaxyKnowledge, res: BasicResourceType, ids: Seq<u32>) -> bool {
    forall|v: u32| #[trigger] ids.contains(v) <==> can_generate(g, v, res)
}

/// `ids` lists the planets that can combine `res` now.
pub open spec fn lists_combiners(g: GalaxyKnowledge, res: ComplexResourceType, ids: Seq<u32>) -> bool {
    forall|v: u32| #[trigger] ids.contains(v) <==> can_combine(g, v, res)
}

/// The charged cells of each candidate.
fn cell_scores(galaxy: &GalaxyKnowledge, cands: &Vec<u32>) -> (scores: Vec<u64>)
    requires
        galaxy.wf(),
    ensures
        scores@.len() == cands@.len(),
        forall|j: int| 0 <= j < cands@.len() ==> #[trigger] scores@[j] == cells_of(*galaxy, cands@[j]),
{
    let mut scores: Vec<u64> = Vec::new();
    let mut i: usize = 0;
    while i < cands.len()
        invariant
            galaxy.wf(),
            i <= cands@.len(),
            scores@.len() == i,
            forall|j: int| 0 <= j < i ==> #[trigger] scores@[j] == cells_of(*galaxy, cands@[j]),
        decreases cands@.len() - i,
    {
        let c = galaxy.get_n_charged_cells(cands[i]);
        scores.push(c as u64);
        i = i + 1;
    }
    scores
}

/// Among the planets nearest to `current` that generate `resource` and
/// have a charged cell, the one with most charged cells; `None` when none
/// can be reached.
pub fn nearest_generator(galaxy: &GalaxyKnowledge, current: u32, resource: BasicResourceType) -> (r: Option<u32>)
    requires
        galaxy.wf(),
    ensures
        exists|ids: Seq<u32>| #[trigger] lists_generators(*galaxy, resource, ids)
            && best_nearest(galaxy_graph(*galaxy), current, ids, false, |p: u32| cells_of(*galaxy, p), r),
{
    let known = galaxy.planets_knowledge.keys();
    let mut ids: Vec<u32> = Vec::new();
    let mut i: usize = 0;
    while i < known.len()
        invariant
            galaxy.wf(),
            i <= known@.len(),
            forall|k: u32| #[trigger] galaxy.planets_knowledge@.contains_key(k) <==> known@.contains(k),
            forall|v: u32| #[trigger] ids@.contains(v) <==> (known@.subrange(0, i as int).contains(v) && can_generate(*galaxy, v, resource)),
        decreases known@.len() - i,
    {
        let p = known[i];
        let keep = galaxy.produces_basic_resource(p, resource) && galaxy.get_n_charged_cells(p) > 0;
        proof {
            assert(known@.contains(p)) by {
                assert(known@[i as int] == p);
            }
        }
        let ghost before = ids@;
        if keep {
            ids.push(p);
        }
        i = i + 1;
        proof {
            assert(keep == can_generate(*galaxy, p, resource));
            let old_pre = known@.subrange(0, i - 1);
            let new_pre = known@.subrange(0, i as int);
            assert(new_pre =~= old_pre.push(p));
            assert forall|v: u32| #[trigger] ids@.contains(v) <==> (new_pre.contains(v) && can_generate(*galaxy, v, resource)) by {
                if new_pre.contains(v) {
                    let k = choose|k: int| 0 <= k < new_pre.len() && new_pre[k] == v;
                    if k < old_pre.len() {
                        assert(old_pre[k] == v);
                    }
                }
                if old_pre.contains(v) {
                    let k = choose|k: int| 0 <= k < old_pre.len() && old_pre[k] == v;
                    assert(new_pre[k] == v);
                }
                if v == p {
                    assert(new_pre[new_pre.len() - 1] == v);
                }
                if ids@.contains(v) && !before.contains(v) {
                    let k = choose|k: int| 0 <= k < ids@.len() && ids@[k] == v;
                    if k < before.len() {
                        assert(before[k] == v);
                    }
                }
                if before.contains(v) {
                    let j = choose|j: int| 0 <= j < before.len() && before[j] == v;
                    assert(ids@[j] == v);
                }
                if keep && v == p {
                    assert(ids@[ids@.len() - 1] == v);
                }
            }
        }
    }
    proof {
        assert(known@.subrange(0, i as int) =~= known@);
        assert(lists_generators(*galaxy, resource, ids@));
    }
    let map = galaxy_map(galaxy);
    let cands = nearest_accepted(&map, current, &ids, false);
    let scores = cell_scores(galaxy, &cands);
    let r = pick_best(&cands, &scores);
    proof {
        lemma_pick(galaxy_graph(*galaxy), current, ids@, false, |p: u32| cells_of(*galaxy, p), cands@, scores@, r);
    }
    r
}

/// Among the planets nearest to `current` that combine `resource` and have
/// a charged cell, the one with most charged cells; `None` when none can be
/// reached.
pub fn nearest_combiner(galaxy: &GalaxyKnowledge, current: u32, resource: ComplexResourceType) -> (r: Option<u32>)
    requires
        galaxy.wf(),
    ensures
        exists|ids: Seq<u32>| #[trigger] lists_combiners(*galaxy, resource, ids)
            && best_nearest(galaxy_graph(*galaxy), current, ids, false, |p: u32| cells_of(*galaxy, p), r),
{
    let known = galaxy.planets_knowledge.keys();
    let mut ids: Vec<u32> = Vec::new();
    let mut i: usize = 0;
    while i < known.len()
        invariant
            galaxy.wf(),
            i <= known@.len(),
            forall|k: u32| #[trigger] galaxy.planets_knowledge@.contains_key(k) <==> known@.contains(k),
            forall|v: u32| #[trigger] ids@.contains(v) <==> (known@.subrange(0, i as int).contains(v) && can_combine(*galaxy, v, resource)),
        decreases known@.len() - i,
    {
        let p = known[i];
        let keep = galaxy.supports_combination_rule(p, resource) && galaxy.get_n_charged_cells(p) > 0;
        proof {
            assert(known@.contains(p)) by {
                assert(known@[i as int] == p);
            }
        }
        let ghost before = ids@;
        if keep {
            ids.push(p);
        }
        i = i + 1;
        proof {
            assert(keep == can_combine(*galaxy, p, resource));
            let old_pre = known@.subrange(0, i - 1);
            let new_pre = known@.subrange(0, i as int);
            assert(new_pre =~= old_pre.push(p));
            assert forall|v: u32| #[trigger] ids@.contains(v) <==> (new_pre.contains(v) && can_combine(*galaxy, v, resource)) by {
                if new_pre.contains(v) {
                    let k = choose|k: int| 0 <= k < new_pre.len() && new_pre[k] == v;
                    if k < old_pre.len() {
                        assert(old_pre[k] == v);
                    }
                }
                if old_pre.contains(v) {
                    let k = choose|k: int| 0 <= k < old_pre.len() && old_pre[k] == v;
                    assert(new_pre[k] == v);
                }
                if v == p {
                    assert(new_pre[new_pre.len() - 1] == v);
                }
                if ids@.contains(v) && !before.contains(v) {
                    let k = choose|k: int| 0 <= k < ids@.len() && ids@[k] == v;
                    if k < before.len() {
                        assert(before[k] == v);
                    }
                }
                if before.contains(v) {
                    let j = choose|j: int| 0 <= j < before.len() && before[j] == v;
                    assert(ids@[j] == v);
                }
                if keep && v == p {
                    assert(ids@[ids@.len() - 1] == v);
                }
            }
        }
    }
    proof {
        assert(known@.subrange(0, i as int) =~= known@);
        assert(lists_combiners(*galaxy, resource, ids@));
    }
    let map = galaxy_map(galaxy);
    let cands = nearest_accepted(&map, current, &ids, false);
    let scores = cell_scores(galaxy, &cands);
    let r = pick_best(&cands, &scores);
    proof {
        lemma_pick(galaxy_graph(*galaxy), current, ids@, false, |p: u32| cells_of(*galaxy, p), cands@, scores@, r);
    }
    r
}

/// The planet a best-nearest choice picks can be reached.
proof fn lemma_chosen_reachable(gr: Seq<(u32, Seq<u32>)>, start: u32, ids: Seq<u32>, complement: bool, score: spec_fn(u32) -> int, v: u32)
    requires
        best_nearest(gr, start, ids, complement, score, Some(v)),
    ensures
        exists|n: int| #[trigger] reach_le(gr, start, v, n),
{
    let cands = choose|cands: Seq<u32>| #[trigger] is_nearest(gr, start, ids, complement, cands) && {
        &&& (Some(v) is None <==> cands.len() == 0)
        &&& (Some(v) matches Some(w) ==> cands.contains(w) && forall|j: int| 0 <= j < cands.len() ==> score(#[trigger] cands[j]) <= score(w))
    };
    assert(cands.contains(v));
    let d = choose|d: int| #[trigger] nearest_at(gr, start, ids, complement, cands, d);
    assert(reach_le(gr, start, v, d));
}

/// The chosen planet and a shortest path to it from `current`.
fn with_path(galaxy: &GalaxyKnowledge, current: u32, choice: Option<u32>) -> (r: Option<(u32, Vec<u32>)>)
    requires
        galaxy.wf(),
        choice matches Some(v) ==> exists|n: int| #[trigger] reach_le(galaxy_graph(*galaxy), current, v, n),
    ensures
        r is None <==> choice is None,
        r matches Some((p, path)) ==> choice == Some(p) && is_shortest_path(galaxy_graph(*galaxy), current, p, path@),
{
    match choice {
        None => None,
        Some(v) => match get_path_to_planet(galaxy, current, v) {
            Ok(path) => Some((v, path)),
            Err(_) => {
                proof {
                    let n = choose|n: int| #[trigger] reach_le(galaxy_graph(*galaxy), current, v, n);
                    assert(!reach_le(galaxy_graph(*galaxy), current, v, n));
                }
                None
            },
        },
    }
}

/// The next planet to explore (see `get_best_nearest_unexplored_planet`)
/// and a shortest path to it, or `None` when every reachable planet is
/// explored.
pub fn next_exploration(galaxy: &GalaxyKnowledge, current: u32, explored: &Vec<u32>) -> (r: Option<(u32, Vec<u32>)>)
    requires
        galaxy.wf(),
    ensures
        best_nearest(
            galaxy_graph(*galaxy),
            current,
            explored@,
            true,
            |p: u32| explored_neighbours(*galaxy, p, explored@),
            match r {
                Some((p, _)) => Some(p),
                None => None,
            },
        ),
        r matches Some((p, path)) ==> is_shortest_path(galaxy_graph(*galaxy), current, p, path@),
{
    let choice = get_best_nearest_unexplored_planet(galaxy, current, explored);
    proof {
        if choice is Some {
            lemma_chosen_reachable(galaxy_graph(*galaxy), current, explored@, true, |p: u32| explored_neighbours(*galaxy, p, explored@), choice->0);
        }
    }
    with_path(galaxy, current, choice)
}

/// The planet to generate `resource` on (see `nearest_generator`) and a
/// shortest path to it, or `None` when none can be reached.
pub fn generation_target(galaxy: &GalaxyKnowledge, current: u32, resource: BasicResourceType) -> (r: Option<(u32, Vec<u32>)>)
    requires
        galaxy.wf(),
    ensures
        exists|ids: Seq<u32>| #[trigger] lists_generators(*galaxy, resource, ids)
            && best_nearest(galaxy_graph(*galaxy), current, ids, false, |p: u32| cells_of(*galaxy, p), match r {
                Some((p, _)) => Some(p),
                None => None,
            }),
        r matches Some((p, path)) ==> is_shortest_path(galaxy_graph(*galaxy), current, p, path@),
{
    let choice = nearest_generator(galaxy, current, resource);
    proof {
        if choice is Some {
            let ids = choose|ids: Seq<u32>| #[trigger] lists_generators(*galaxy, resource, ids)
                && best_nearest(galaxy_graph(*galaxy), current, ids, false, |p: u32| cells_of(*galaxy, p), choice);
            lemma_chosen_reachable(galaxy_graph(*galaxy), current, ids, false, |p: u32| cells_of(*galaxy, p), choice->0);
        }
    }
    with_path(galaxy, current, choice)
}

/// The planet to combine `resource` on (see `nearest_combiner`) and a
/// shortest path to it, or `None` when none can be reached.
pub fn combination_target(galaxy: &GalaxyKnowledge, current: u32, resource: ComplexResourceType) -> (r: Option<(u32, Vec<u32>)>)
    requires
        galaxy.wf(),
    ensures
        exists|ids: Seq<u32>| #[trigger] lists_combiners(*galaxy, resource, ids)
            && best_nearest(galaxy_graph(*galaxy), current, ids, false, |p: u32| cells_of(*galaxy, p), match r {
                Some((p, _)) => Some(p),
                None => None,
            }),
        r matches Some((p, path)) ==> is_shortest_path(galaxy_graph(*galaxy), current, p, path@),
{
    let choice = nearest_combiner(galaxy, current, resource);
    proof {
        if choice is Some {
            let ids = choose|ids: Seq<u32>| #[trigger] lists_combiners(*galaxy, resource, ids)
                && best_nearest(galaxy_graph(*galaxy), current, ids, false, |p: u32| cells_of(*galaxy, p), choice);
            lemma_chosen_reachable(galaxy_graph(*galaxy), current, ids, false, |p: u32| cells_of(*galaxy, p), choice->0);
        }
    }
    with_path(galaxy, current, choice)
}

proof fn lemma_push_contains<A>(s: Seq<A>, y: A, x: A)
    ensures
        s.push(y).contains(x) <==> s.contains(x) || y == x,
        s.push(y).to_set() == s.to_set().insert(y),
{
    if s.push(y).contains(x) {
        let j = choose|j: int| 0 <= j < s.push(y).len() && s.push(y)[j] == x;
        if j < s.len() {
            assert(s[j] == x);
        }
    }
    if s.contains(x) {
        let j = choose|j: int| 0 <= j < s.len() && s[j] == x;
        assert(s.push(y)[j] == x);
    }
    if y == x {
        assert(s.push(y)[s.len() as int] == x);
    }
    assert forall|z: A| s.push(y).to_set().contains(z) <==> s.to_set().insert(y).contains(z) by {
        if s.push(y).contains(z) {
            let j = choose|j: int| 0 <= j < s.push(y).len() && s.push(y)[j] == z;
            if j < s.len() {
                assert(s[j] == z);
            }
        }
        if s.contains(z) {
            let j = choose|j: int| 0 <= j < s.len() && s[j] == z;
            assert(s.push(y)[j] == z);
        }
        if z == y {
            assert(s.push(y)[s.len() as int] == z);
        }
    }
    assert(s.push(y).to_set() =~= s.to_set().insert(y));
}

/// Each kind of `v` once, in the order of first appearance.
fn distinct_basic(v: &Vec<BasicResourceType>) -> (r: Vec<BasicResourceType>)
    ensures
        r@.no_duplicates(),
        r@.to_set() == v@.to_set(),
{
    let mut r: Vec<BasicResourceType> = Vec::new();
    let mut i: usize = 0;
    while i < v.len()
        invariant
            i <= v@.len(),
            r@.no_duplicates(),
            r@.to_set() == v@.subrange(0, i as int).to_set(),
        decreases v@.len() - i,
    {
        let x = v[i];
        let mut found = false;
        let mut j: usize = 0;
        while j < r.len()
            invariant
                j <= r@.len(),
                found == r@.subrange(0, j as int).contains(x),
            decreases r@.len() - j,
        {
            if r[j] == x {
                found = true;
            }
            proof {
                assert(r@.subrange(0, j + 1) =~= r@.subrange(0, j as int).push(r@[j as int]));
                lemma_push_contains(r@.subrange(0, j as int), r@[j as int], x);
            }
            j = j + 1;
        }
        proof {
            assert(r@.subrange(0, j as int) =~= r@);
            assert(v@.subrange(0, i + 1) =~= v@.subrange(0, i as int).push(x));
            lemma_push_contains(v@.subrange(0, i as int), x, x);
        }
        if !found {
            let ghost r0 = r@;
            r.push(x);
            proof {
                assert(r@ =~= r0.push(x));
                lemma_push_contains(r0, x, x);
                assert forall|a: int, b: int| 0 <= a < b < r@.len() implies r@[a] != r@[b] by {
                    if b == r0.len() {
                        assert(r0.contains(r@[a]));
                    }
                }
            }
        } else {
            proof {
                assert(r@.contains(x));
                assert(r@.to_set() =~= r@.to_set().insert(x));
            }
        }
        i = i + 1;
    }
    proof {
        assert(v@.subrange(0, i as int) =~= v@);
    }
    r
}

/// Each kind of `v` once, in the order of first appearance.
fn distinct_complex(v: &Vec<ComplexResourceType>) -> (r: Vec<ComplexResourceType>)
    ensures
        r@.no_duplicates(),
        r@.to_set() == v@.to_set(),
{
    let mut r: Vec<ComplexResourceType> = Vec::new();
    let mut i: usize = 0;
    while i < v.len()
        invariant
            i <= v@.len(),
            r@.no_duplicates(),
            r@.to_set() == v@.subrange(0, i as int).to_set(),
        decreases v@.len() - i,
    {
        let x = v[i];
        let mut found = false;
        let mut j: usize = 0;
        while j < r.len()
            invariant
                j <= r@.len(),
                found == r@.subrange(0, j as int).contains(x),
            decreases r@.len() - j,
        {
            if r[j] == x {
                found = true;
            }
            proof {
                assert(r@.subrange(0, j + 1) =~= r@.subrange(0, j as int).push(r@[j as int]));
                lemma_push_contains(r@.subrange(0, j as int), r@[j as int], x);
            }
            j = j + 1;
        }
        proof {
            assert(r@.subrange(0, j as int) =~= r@);
            assert(v@.subrange(0, i + 1) =~= v@.subrange(0, i as int).push(x));
            lemma_push_contains(v@.subrange(0, i as int), x, x);
        }
        if !found {
            let ghost r0 = r@;
            r.push(x);
            proof {
                assert(r@ =~= r0.push(x));
                lemma_push_contains(r0, x, x);
                assert forall|a: int, b: int| 0 <= a < b < r@.len() implies r@[a] != r@[b] by {
                    if b == r0.len() {
                        assert(r0.contains(r@[a]));
                    }
                }
            }
        } else {
            proof {
                assert(r@.contains(x));
                assert(r@.to_set() =~= r@.to_set().insert(x));
            }
        }
        i = i + 1;
    }
    proof {
        assert(v@.subrange(0, i as int) =~= v@);
    }
    r
}

/// Records what the planet `id` told on inspection: the basic resources it
/// generates, the complex resources it combines and its charged cells (an
/// unknown planet is left out).
pub fn record_inspection(galaxy: &mut GalaxyKnowledge, id: u32, basic: Vec<BasicResourceType>, complex: Vec<ComplexResourceType>, cells: u32)
    requires
        old(galaxy).wf(),
    ensures
        final(galaxy).wf(),
        final(galaxy).connections == old(galaxy).connections,
        !old(galaxy).planets_knowledge@.contains_key(id) ==> final(galaxy).planets_knowledge@ == old(galaxy).planets_knowledge@,
        old(galaxy).planets_knowledge@.contains_key(id) ==> {
            &&& final(galaxy).planets_knowledge@.dom() == old(galaxy).planets_knowledge@.dom()
            &&& forall|k: u32| k != id && #[trigger] old(galaxy).planets_knowledge@.contains_key(k)
                ==> final(galaxy).planets_knowledge@[k] == old(galaxy).planets_knowledge@[k]
            &&& final(galaxy).planets_knowledge@[id].basic_resources@.to_set() == basic@.to_set()
            &&& final(galaxy).planets_knowledge@[id].complex_resources@.to_set() == complex@.to_set()
            &&& final(galaxy).planets_knowledge@[id].n_charged_cells == cells
        },
{
    let b = distinct_basic(&basic);
    let c = distinct_complex(&complex);
    galaxy.set_planet_basic_resources(id, b);
    galaxy.set_planet_combination_rules(id, c);
    galaxy.set_n_charged_cells(id, cells);
}

/// Records the neighbours the orchestrator gave for planet `cur`: each is
/// connected with `cur` both ways, on the planets the picture knows.
pub fn record_neighbors(galaxy: &mut GalaxyKnowledge, cur: u32, neighbors: &Vec<u32>)
    requires
        old(galaxy).wf(),
    ensures
        final(galaxy).wf(),
        final(galaxy).planets_knowledge == old(galaxy).planets_knowledge,
        final(galaxy).connections@.dom() == old(galaxy).connections@.dom(),
        forall|k: u32| #[trigger] final(galaxy).connections@.contains_key(k) ==> final(galaxy).connections@[k]@.to_set()
            == old(galaxy).connections@[k]@.to_set()
                .union(if k == cur { neighbors@.to_set() } else { Set::empty() })
                .union(if neighbors@.contains(k) { set![cur] } else { Set::empty() }),
{
    let mut i: usize = 0;
    while i < neighbors.len()
        invariant
            galaxy.wf(),
            i <= neighbors@.len(),
            galaxy.planets_knowledge == old(galaxy).planets_knowledge,
            galaxy.connections@.dom() == old(galaxy).connections@.dom(),
            forall|k: u32| #[trigger] galaxy.connections@.contains_key(k) ==> galaxy.connections@[k]@.to_set()
                == old(galaxy).connections@[k]@.to_set()
                    .union(if k == cur { neighbors@.subrange(0, i as int).to_set() } else { Set::empty() })
                    .union(if neighbors@.subrange(0, i as int).contains(k) { set![cur] } else { Set::empty() }),
        decreases neighbors@.len() - i,
    {
        let n = neighbors[i];
        let ghost before = galaxy.connections@;
        galaxy.add_planets_connection(cur, n);
        proof {
            let pre = neighbors@.subrange(0, i as int);
            let post = neighbors@.subrange(0, i + 1);
            assert(post =~= pre.push(n));
            assert forall|x: u32| post.contains(x) <==> pre.contains(x) || x == n by {
                if post.contains(x) {
                    let j = choose|j: int| 0 <= j < post.len() && post[j] == x;
                    if j < pre.len() {
                        assert(pre[j] == x);
                    }
                }
                if pre.contains(x) {
                    let j = choose|j: int| 0 <= j < pre.len() && pre[j] == x;
                    assert(post[j] == x);
                }
                if x == n {
                    assert(post[i as int] == n);
                }
            }
            assert(post.to_set() =~= pre.to_set().insert(n));
            assert forall|k: u32| #[trigger] galaxy.connections@.contains_key(k) implies galaxy.connections@[k]@.to_set()
                == old(galaxy).connections@[k]@.to_set()
                    .union(if k == cur { post.to_set() } else { Set::empty() })
                    .union(if post.contains(k) { set![cur] } else { Set::empty() }) by {
                assert(before.contains_key(k));
                assert(galaxy.connections@[k]@.to_set() =~= old(galaxy).connections@[k]@.to_set()
                    .union(if k == cur { post.to_set() } else { Set::empty() })
                    .union(if post.contains(k) { set![cur] } else { Set::empty() }));
            }
        }
        i = i + 1;
    }
    proof {
        assert(neighbors@.subrange(0, i as int) =~= neighbors@);
    }
}

/// The text of the error when no path leads to a planet.
pub open spec fn no_path_text(planet_id: u32) -> Seq<char> {
    "No path found to planet "@ + decimal(planet_id as nat)
}

/// A shortest path from `current` to `planet_id`, without `current`; the
/// error names the planet when no path leads there.
pub fn get_path_to_planet(galaxy: &GalaxyKnowledge, current: u32, planet_id: u32) -> (r: Result<Vec<u32>, String>)
    requires
        galaxy.wf(),
    ensures
        r is Err <==> forall|n: int| !#[trigger] reach_le(galaxy_graph(*galaxy), current, planet_id, n),
        r matches Ok(p) ==> is_shortest_path(galaxy_graph(*galaxy), current, planet_id, p@),
        r matches Err(e) ==> e@ == no_path_text(planet_id),
{
    let map = galaxy_map(galaxy);
    match shortest_path(&map, current, planet_id) {
        Some(p) => Ok(p),
        None => {
            let n = number_text(planet_id);
            let e = concat("No path found to planet ", n.as_str());
            Err(e)
        },
    }
}

} // verus!
