//! The graph of `needs` between the jobs of a workflow, by job index, and
//! the two searches over it: a depth-first search for a cycle and the
//! grouping of jobs into stages.
//!
//! `g[i]` lists, in order and with repeats, the indices of the jobs that job
//! `i` needs; an edge `i -> j` reads "job `i` needs job `j`".
use vstd::prelude::*;

verus! {

/// Every need names a job of the graph.
pub open spec fn valid_graph(g: Seq<Seq<usize>>) -> bool {
    forall|i: int, k: int| 0 <= i < g.len() && 0 <= k < g[i].len() ==> #[trigger] g[i][k] < g.len()
}

/// Job `i` needs job `j`.
pub open spec fn edge(g: Seq<Seq<usize>>, i: int, j: int) -> bool {
    0 <= i < g.len() && exists|k: int| 0 <= k < g[i].len() && #[trigger] g[i][k] == j
}

/// `p` follows needs from each job to the next.
pub open spec fn is_walk(g: Seq<Seq<usize>>, p: Seq<int>) -> bool {
    &&& p.len() >= 1
    &&& forall|k: int| 0 <= k < p.len() - 1 ==> edge(g, #[trigger] p[k], p[k + 1])
}

/// Following needs leads from job `a` to job `b` (in zero or more steps).
pub open spec fn reaches(g: Seq<Seq<usize>>, a: int, b: int) -> bool {
    exists|p: Seq<int>| is_walk(g, p) && p[0] == a && #[trigger] p.last() == b
}

/// Some job needs, directly or through others, a job that needs it.
pub open spec fn has_cycle(g: Seq<Seq<usize>>) -> bool {
    exists|i: int, j: int| edge(g, i, j) && #[trigger] reaches(g, j, i)
}

/// `rank` numbers the jobs so that every job's needs have smaller numbers.
pub open spec fn ranks(g: Seq<Seq<usize>>, rank: Seq<nat>) -> bool {
    &&& rank.len() == g.len()
    &&& forall|i: int, k: int| 0 <= i < g.len() && 0 <= k < g[i].len() ==> #[trigger] rank[g[i][k] as int] < rank[i]
}

/// Along a walk, numbers of a ranking strictly decrease.
pub proof fn lemma_walk_descends(g: Seq<Seq<usize>>, rank: Seq<nat>, p: Seq<int>)
    requires
        ranks(g, rank),
        is_walk(g, p),
    ensures
        rank[p.last()] <= rank[p[0]],
        p.len() >= 2 ==> rank[p.last()] < rank[p[0]],
    decreases p.len(),
{
    if p.len() >= 2 {
        let q = p.drop_last();
        assert forall|k: int| 0 <= k < q.len() - 1 implies edge(g, #[trigger] q[k], q[k + 1]) by {
            assert(q[k] == p[k] && q[k + 1] == p[k + 1]);
        }
        lemma_walk_descends(g, rank, q);
        assert(edge(g, p[p.len() - 2], p[p.len() - 1]));
        let k = choose|k: int| 0 <= k < g[p[p.len() - 2]].len() && #[trigger] g[p[p.len() - 2]][k] == p[p.len() - 1];
        assert(rank[g[p[p.len() - 2]][k] as int] < rank[p[p.len() - 2]]);
    }
}

/// A graph that can be ranked has no cycle.
pub proof fn lemma_ranked_acyclic(g: Seq<Seq<usize>>, rank: Seq<nat>)
    requires
        ranks(g, rank),
    ensures
        !has_cycle(g),
{
    if has_cycle(g) {
        let (i, j) = choose|i: int, j: int| edge(g, i, j) && #[trigger] reaches(g, j, i);
        let p = choose|p: Seq<int>| is_walk(g, p) && p[0] == j && #[trigger] p.last() == i;
        lemma_walk_descends(g, rank, p);
        let k = choose|k: int| 0 <= k < g[i].len() && #[trigger] g[i][k] == j;
        assert(rank[g[i][k] as int] < rank[i]);
    }
}

// ---------------------------------------------------------------------------
// Depth-first search for a cycle.
// ---------------------------------------------------------------------------

/// Number of jobs not yet visited.
pub open spec fn count_unvisited(v: Seq<bool>) -> nat
    decreases v.len(),
{
    if v.len() == 0 {
        0
    } else {
        count_unvisited(v.drop_last()) + if v.last() { 0nat } else { 1nat }
    }
}

/// Every job visited in `a` is visited in `b`.
pub open spec fn grows(a: Seq<bool>, b: Seq<bool>) -> bool {
    a.len() == b.len() && forall|i: int| 0 <= i < a.len() && #[trigger] a[i] ==> b[i]
}

proof fn lemma_count_unvisited_grows(a: Seq<bool>, b: Seq<bool>)
    requires
        grows(a, b),
    ensures
        count_unvisited(b) <= count_unvisited(a),
        (exists|x: int| 0 <= x < a.len() && !a[x] && #[trigger] b[x]) ==> count_unvisited(b) < count_unvisited(a),
    decreases a.len(),
{
    if a.len() > 0 {
        let a2 = a.drop_last();
        let b2 = b.drop_last();
        assert forall|i: int| 0 <= i < a2.len() && #[trigger] a2[i] implies b2[i] by {
            assert(a2[i] == a[i] && b2[i] == b[i]);
        }
        lemma_count_unvisited_grows(a2, b2);
        if exists|x: int| 0 <= x < a.len() && !a[x] && #[trigger] b[x] {
            let x = choose|x: int| 0 <= x < a.len() && !a[x] && #[trigger] b[x];
            if x < a.len() - 1 {
                assert(!a2[x] && b2[x]);
            }
        }
    }
}

/// Job `x` is on the stack.
pub open spec fn on_path(path: Seq<usize>, x: int) -> bool {
    exists|k: int| 0 <= k < path.len() && #[trigger] path[k] as int == x
}

/// The stack of jobs being searched is a path of needs, and every finished
/// job comes after all the jobs it needs.
pub open spec fn search_state(
    g: Seq<Seq<usize>>,
    visited: Seq<bool>,
    in_stack: Seq<bool>,
    path: Seq<usize>,
    finish: Seq<Option<usize>>,
    clock: usize,
) -> bool {
    let n = g.len();
    &&& valid_graph(g)
    &&& visited.len() == n && in_stack.len() == n && finish.len() == n
    &&& forall|k: int| 0 <= k < path.len() ==> #[trigger] path[k] < n
    &&& forall|a: int, b: int| 0 <= a < b < path.len() ==> #[trigger] path[a] != #[trigger] path[b]
    &&& forall|x: int| 0 <= x < n ==> (#[trigger] in_stack[x] <==> on_path(path, x))
    &&& forall|k: int| 0 <= k < path.len() - 1 ==> edge(g, #[trigger] path[k] as int, path[k + 1] as int)
    &&& forall|x: int| 0 <= x < n && #[trigger] in_stack[x] ==> visited[x]
    &&& forall|x: int| 0 <= x < n ==> ((visited[x] && !in_stack[x]) <==> #[trigger] finish[x] is Some)
    &&& forall|x: int| 0 <= x < n && #[trigger] finish[x] is Some ==> finish[x].unwrap() < clock
    &&& forall|x: int, k: int| 0 <= x < n && 0 <= k < g[x].len() && #[trigger] finish[x] is Some ==> {
            let y = #[trigger] g[x][k] as int;
            finish[y] is Some && finish[y].unwrap() < finish[x].unwrap()
        }
    &&& clock + path.len() <= n - count_unvisited(visited)
}

/// Finished jobs keep their finishing numbers.
pub open spec fn finish_kept(a: Seq<Option<usize>>, b: Seq<Option<usize>>) -> bool {
    a.len() == b.len() && forall|x: int| 0 <= x < a.len() && #[trigger] a[x] is Some ==> b[x] == a[x]
}

proof fn lemma_count_le_len(v: Seq<bool>)
    ensures
        count_unvisited(v) <= v.len(),
    decreases v.len(),
{
    if v.len() > 0 {
        lemma_count_unvisited_grows(v, v);
        lemma_count_le_len(v.drop_last());
    }
}

/// Marking one unvisited job lowers the count by one.
proof fn lemma_count_visit(v: Seq<bool>, x: int)
    requires
        0 <= x < v.len(),
        !v[x],
    ensures
        count_unvisited(v.update(x, true)) + 1 == count_unvisited(v),
    decreases v.len(),
{
    let w = v.update(x, true);
    if x < v.len() - 1 {
        assert(w.drop_last() =~= v.drop_last().update(x, true));
        lemma_count_visit(v.drop_last(), x);
    } else {
        assert(w.drop_last() =~= v.drop_last());
    }
}

/// Searches depth-first from the unvisited job `node`; fails with a need
/// `(job, dependency)` whose dependency leads back to the job.
fn detect_cycle_depth_first(
    g: &Vec<Vec<usize>>,
    node: usize,
    visited: &mut Vec<bool>,
    in_stack: &mut Vec<bool>,
    path: &mut Vec<usize>,
    finish: &mut Vec<Option<usize>>,
    clock: &mut usize,
) -> (r: Result<(), (usize, usize)>)
    requires
        search_state(graph_view(g), old(visited)@, old(in_stack)@, old(path)@, old(finish)@, *old(clock)),
        node < g@.len(),
        !old(visited)@[node as int],
        old(path)@.len() > 0 ==> edge(graph_view(g), old(path)@.last() as int, node as int),
    ensures
        match r {
            Ok(()) => {
                &&& search_state(graph_view(g), final(visited)@, final(in_stack)@, final(path)@, final(finish)@, *final(clock))
                &&& final(path)@ == old(path)@
                &&& final(in_stack)@ == old(in_stack)@
                &&& grows(old(visited)@, final(visited)@)
                &&& final(visited)@[node as int]
                &&& finish_kept(old(finish)@, final(finish)@)
            },
            Err((a, b)) => edge(graph_view(g), a as int, b as int) && reaches(graph_view(g), b as int, a as int),
        },
    decreases count_unvisited(old(visited)@),
{
    let ghost gv = graph_view(g);
    let ghost n = gv.len();
    let ghost v0 = visited@;
    let ghost f0 = finish@;
    let ghost s0 = in_stack@;
    let ghost p0 = path@;
    proof {
        lemma_count_visit(v0, node as int);
    }
    visited.set(node, true);
    in_stack.set(node, true);
    path.push(node);
    proof {
        assert forall|x: int| 0 <= x < n implies (#[trigger] in_stack@[x] <==> on_path(path@, x)) by {
            if x == node {
                assert(path@[path@.len() - 1] as int == node);
            } else {
                if on_path(p0, x) {
                    let k = choose|k: int| 0 <= k < p0.len() && #[trigger] p0[k] as int == x;
                    assert(path@[k] as int == x);
                }
                if on_path(path@, x) {
                    let k = choose|k: int| 0 <= k < path@.len() && #[trigger] path@[k] as int == x;
                    if k < p0.len() {
                        assert(p0[k] as int == x);
                    }
                }
            }
        }
        assert forall|a: int, b: int| 0 <= a < b < path@.len() implies #[trigger] path@[a] != #[trigger] path@[b] by {
            if b == path@.len() - 1 {
                assert(path@[a] == p0[a]);
                assert(!s0[node as int]);
                if path@[a] == node {
                    assert(on_path(p0, node as int));
                }
            }
        }
    }
    let mut k: usize = 0;
    while k < g[node].len()
        invariant
            gv == graph_view(g),
            n == gv.len(),
            node < n,
            k <= gv[node as int].len(),
            search_state(gv, visited@, in_stack@, path@, finish@, *clock),
            path@ == p0.push(node),
            in_stack@ == s0.update(node as int, true),
            grows(v0, visited@),
            visited@[node as int],
            !v0[node as int],
            finish_kept(f0, finish@),
            v0 == old(visited)@,
            count_unvisited(visited@) < count_unvisited(old(visited)@),
            forall|j: int| 0 <= j < k ==> (#[trigger] finish@[gv[node as int][j] as int]) is Some,
        decreases gv[node as int].len() - k,
    {
        let next = g[node][k];
        let ghost f1 = finish@;
        proof {
            assert(gv[node as int][k as int] == next);
        }
        if !visited[next] {
            assert(edge(gv, node as int, next as int));
            match detect_cycle_depth_first(g, next, visited, in_stack, path, finish, clock) {
                Ok(()) => {},
                Err(e) => return Err(e),
            }
            proof {
                lemma_count_unvisited_grows(v0, visited@);
            }
        } else if in_stack[next] {
            proof {
                let p = path@;
                assert(on_path(p, next as int));
                let idx = choose|i: int| 0 <= i < p.len() && #[trigger] p[i] as int == next as int;
                let w = p.subrange(idx, p.len() as int).map_values(|x: usize| x as int);
                assert forall|j: int| 0 <= j < w.len() - 1 implies edge(gv, #[trigger] w[j], w[j + 1]) by {
                    assert(w[j] == p[idx + j] as int);
                    assert(w[j + 1] == p[idx + j + 1] as int);
                }
                assert(w.last() == node as int);
                assert(is_walk(gv, w));
                assert(edge(gv, node as int, next as int));
            }
            return Err((node, next));
        }
        proof {
            assert(finish@[next as int] is Some);
            assert forall|j: int| 0 <= j < k + 1 implies (#[trigger] finish@[gv[node as int][j] as int]) is Some by {
                if j < k {
                    assert(f1[gv[node as int][j] as int] is Some);
                }
            }
        }
        k = k + 1;
    }
    proof {
        lemma_count_unvisited_grows(v0, visited@);
        lemma_count_le_len(visited@);
    }
    let total = g.len();
    let ghost fb = finish@;
    let c = *clock;
    proof {
        assert(c + path@.len() <= n - count_unvisited(visited@));
        assert(fb[node as int] is None);
    }
    in_stack.set(node, false);
    path.pop();
    finish.set(node, Some(c));
    *clock = c + 1;
    proof {
        assert(path@ =~= p0);
        assert(in_stack@ =~= s0) by {
            assert forall|x: int| 0 <= x < n implies in_stack@[x] == s0[x] by {
                if x == node {
                    assert(!p0.contains(node));
                }
            }
        }
        let v = visited@;
        let f = finish@;
        assert forall|x: int, j: int| 0 <= x < n && 0 <= j < gv[x].len() && #[trigger] f[x] is Some implies {
            let y = #[trigger] gv[x][j] as int;
            f[y] is Some && f[y].unwrap() < f[x].unwrap()
        } by {
            let y = gv[x][j] as int;
            if x == node {
                assert(fb[gv[node as int][j] as int] is Some);
                assert(fb[y].unwrap() < c);
            } else {
                assert(fb[x] is Some);
                assert(fb[y] is Some && fb[y].unwrap() < fb[x].unwrap());
            }
        }
    }
    Ok(())
}

/// The needs of each job, as a sequence of sequences.
pub open spec fn graph_view(g: &Vec<Vec<usize>>) -> Seq<Seq<usize>> {
    g@.map_values(|v: Vec<usize>| v@)
}

/// Searches the whole graph for a cycle, starting from each job in order.
///
/// On success the jobs can be ranked; on failure the need `(job,
/// dependency)` returned leads back, through other needs, to the job.
pub fn find_cycle(g: &Vec<Vec<usize>>) -> (r: Result<(), (usize, usize)>)
    requires
        valid_graph(graph_view(g)),
    ensures
        match r {
            Ok(()) => exists|rank: Seq<nat>| ranks(graph_view(g), rank),
            Err((a, b)) => edge(graph_view(g), a as int, b as int) && reaches(graph_view(g), b as int, a as int),
        },
{
    let ghost gv = graph_view(g);
    let n = g.len();
    let mut visited: Vec<bool> = Vec::new();
    let mut in_stack: Vec<bool> = Vec::new();
    let mut finish: Vec<Option<usize>> = Vec::new();
    let mut i: usize = 0;
    while i < n
        invariant
            n == g@.len(),
            i <= n,
            visited@ == Seq::new(i as nat, |x: int| false),
            in_stack@ == Seq::new(i as nat, |x: int| false),
            finish@ == Seq::new(i as nat, |x: int| None::<usize>),
        decreases n - i,
    {
        visited.push(false);
        in_stack.push(false);
        finish.push(None);
        i = i + 1;
        proof {
            assert(visited@ =~= Seq::new(i as nat, |x: int| false));
            assert(in_stack@ =~= Seq::new(i as nat, |x: int| false));
            assert(finish@ =~= Seq::new(i as nat, |x: int| None::<usize>));
        }
    }
    let mut path: Vec<usize> = Vec::new();
    let mut clock: usize = 0;
    proof {
        lemma_count_le_len(visited@);
        assert(count_unvisited(visited@) == n) by {
            lemma_count_all_unvisited(n as nat);
        }
    }
    let mut node: usize = 0;
    while node < n
        invariant
            gv == graph_view(g),
            n == gv.len(),
            node <= n,
            search_state(gv, visited@, in_stack@, path@, finish@, clock),
            path@.len() == 0,
            forall|x: int| 0 <= x < node ==> #[trigger] visited@[x],
        decreases n - node,
    {
        let ghost v1 = visited@;
        if !visited[node] {
            match detect_cycle_depth_first(g, node, &mut visited, &mut in_stack, &mut path, &mut finish, &mut clock) {
                Ok(()) => {},
                Err(e) => return Err(e),
            }
        }
        proof {
            assert forall|x: int| 0 <= x < node + 1 implies #[trigger] visited@[x] by {
                if x < node {
                    assert(v1[x]);
                }
            }
        }
        node = node + 1;
    }
    proof {
        let rank = Seq::new(n as nat, |x: int| finish@[x].unwrap() as nat);
        assert forall|x: int| 0 <= x < n implies #[trigger] finish@[x] is Some by {
            if in_stack@[x] {
                assert(on_path(path@, x));
            }
        }
        assert forall|x: int, k: int| 0 <= x < gv.len() && 0 <= k < gv[x].len() implies #[trigger] rank[gv[x][k] as int] < rank[x] by {
            assert(finish@[x] is Some);
        }
        assert(ranks(gv, rank));
    }
    Ok(())
}

proof fn lemma_count_all_unvisited(n: nat)
    ensures
        count_unvisited(Seq::new(n, |x: int| false)) == n,
    decreases n,
{
    if n > 0 {
        assert(Seq::new(n, |x: int| false).drop_last() =~= Seq::new((n - 1) as nat, |x: int| false));
        lemma_count_all_unvisited((n - 1) as nat);
    }
}

// ---------------------------------------------------------------------------
// Grouping into stages.
// ---------------------------------------------------------------------------

/// Number of occurrences of job `x` in `s`.
pub open spec fn count_of(s: Seq<usize>, x: int) -> nat
    decreases s.len(),
{
    if s.len() == 0 {
        0
    } else {
        count_of(s.drop_last(), x) + if s.last() as int == x { 1nat } else { 0nat }
    }
}

/// Number of entries of `s` naming a job that is not placed yet.
pub open spec fn count_unplaced(s: Seq<usize>, placed: Seq<bool>) -> nat
    decreases s.len(),
{
    if s.len() == 0 {
        0
    } else {
        count_unplaced(s.drop_last(), placed) + if placed[s.last() as int] { 0nat } else { 1nat }
    }
}

/// Number of placed jobs.
pub open spec fn count_placed(placed: Seq<bool>) -> nat
    decreases placed.len(),
{
    if placed.len() == 0 {
        0
    } else {
        count_placed(placed.drop_last()) + if placed.last() { 1nat } else { 0nat }
    }
}

proof fn lemma_count_of_pos(s: Seq<usize>, x: int)
    requires
        count_of(s, x) > 0,
    ensures
        exists|k: int| 0 <= k < s.len() && #[trigger] s[k] as int == x,
    decreases s.len(),
{
    if s.last() as int != x {
        lemma_count_of_pos(s.drop_last(), x);
        let k = choose|k: int| 0 <= k < s.drop_last().len() && #[trigger] s.drop_last()[k] as int == x;
        assert(s[k] as int == x);
    } else {
        assert(s[s.len() - 1] as int == x);
    }
}

proof fn lemma_count_of_absent(s: Seq<usize>, x: int)
    requires
        forall|k: int| 0 <= k < s.len() ==> #[trigger] s[k] as int != x,
    ensures
        count_of(s, x) == 0,
    decreases s.len(),
{
    if s.len() > 0 {
        lemma_count_of_absent(s.drop_last(), x);
    }
}

proof fn lemma_count_of_take(s: Seq<usize>, t: int, x: int)
    requires
        0 <= t < s.len(),
    ensures
        count_of(s.take(t + 1), x) == count_of(s.take(t), x) + if s[t] as int == x { 1nat } else { 0nat },
        count_of(s.take(t + 1), x) <= count_of(s, x),
    decreases s.len() - t,
{
    assert(s.take(t + 1).drop_last() =~= s.take(t));
    if t + 1 < s.len() {
        lemma_count_of_take(s, t + 1, x);
    } else {
        assert(s.take(t + 1) =~= s);
    }
}

/// Placing job `j` removes its occurrences from the unplaced count.
proof fn lemma_count_unplaced_place(s: Seq<usize>, placed: Seq<bool>, j: int)
    requires
        0 <= j < placed.len(),
        !placed[j],
        forall|k: int| 0 <= k < s.len() ==> #[trigger] s[k] < placed.len(),
    ensures
        count_unplaced(s, placed.update(j, true)) + count_of(s, j) == count_unplaced(s, placed),
    decreases s.len(),
{
    if s.len() > 0 {
        lemma_count_unplaced_place(s.drop_last(), placed, j);
    }
}

/// No unplaced entry is left exactly when every entry is placed.
proof fn lemma_count_unplaced_zero(s: Seq<usize>, placed: Seq<bool>)
    requires
        forall|k: int| 0 <= k < s.len() ==> #[trigger] s[k] < placed.len(),
    ensures
        count_unplaced(s, placed) == 0 <==> (forall|k: int| 0 <= k < s.len() ==> #[trigger] placed[s[k] as int]),
    decreases s.len(),
{
    if s.len() > 0 {
        lemma_count_unplaced_zero(s.drop_last(), placed);
        if count_unplaced(s, placed) == 0 {
            assert forall|k: int| 0 <= k < s.len() implies #[trigger] placed[s[k] as int] by {
                if k < s.len() - 1 {
                    assert(s.drop_last()[k] == s[k]);
                }
            }
        }
        if forall|k: int| 0 <= k < s.len() ==> #[trigger] placed[s[k] as int] {
            assert forall|k: int| 0 <= k < s.drop_last().len() implies #[trigger] placed[s.drop_last()[k] as int] by {
                assert(s.drop_last()[k] == s[k]);
            }
            assert(placed[s[s.len() - 1] as int]);
        }
    }
}

proof fn lemma_count_placed_place(placed: Seq<bool>, j: int)
    requires
        0 <= j < placed.len(),
        !placed[j],
    ensures
        count_placed(placed.update(j, true)) == count_placed(placed) + 1,
    decreases placed.len(),
{
    let w = placed.update(j, true);
    if j < placed.len() - 1 {
        assert(w.drop_last() =~= placed.drop_last().update(j, true));
        lemma_count_placed_place(placed.drop_last(), j);
    } else {
        assert(w.drop_last() =~= placed.drop_last());
    }
}

proof fn lemma_count_placed_bounds(placed: Seq<bool>)
    ensures
        count_placed(placed) <= placed.len(),
        count_placed(placed) == placed.len() <==> forall|x: int| 0 <= x < placed.len() ==> #[trigger] placed[x],
    decreases placed.len(),
{
    if placed.len() > 0 {
        lemma_count_placed_bounds(placed.drop_last());
        if forall|x: int| 0 <= x < placed.len() ==> #[trigger] placed[x] {
            assert forall|x: int| 0 <= x < placed.drop_last().len() implies #[trigger] placed.drop_last()[x] by {
                assert(placed.drop_last()[x] == placed[x]);
            }
            assert(placed[placed.len() - 1]);
        }
        if count_placed(placed) == placed.len() {
            assert forall|x: int| 0 <= x < placed.len() implies #[trigger] placed[x] by {
                if x < placed.len() - 1 {
                    assert(placed.drop_last()[x] == placed[x]);
                }
            }
        }
    }
}

proof fn lemma_count_placed_none(n: nat)
    ensures
        count_placed(Seq::new(n, |x: int| false)) == 0,
    decreases n,
{
    if n > 0 {
        assert(Seq::new(n, |x: int| false).drop_last() =~= Seq::new((n - 1) as nat, |x: int| false));
        lemma_count_placed_none((n - 1) as nat);
    }
}

/// With a ranking, some unplaced job has all its needs placed, as long as
/// any job is unplaced.
proof fn lemma_some_ready(g: Seq<Seq<usize>>, placed: Seq<bool>, rank: Seq<nat>, x: int)
    requires
        valid_graph(g),
        ranks(g, rank),
        placed.len() == g.len(),
        0 <= x < g.len(),
        !placed[x],
    ensures
        exists|u: int| 0 <= u < g.len() && !placed[u] && (forall|k: int| 0 <= k < g[u].len() ==> #[trigger] placed[g[u][k] as int]),
    decreases rank[x],
{
    if forall|k: int| 0 <= k < g[x].len() ==> #[trigger] placed[g[x][k] as int] {
    } else {
        let k = choose|k: int| 0 <= k < g[x].len() && !placed[#[trigger] g[x][k] as int];
        assert(rank[g[x][k] as int] < rank[x]);
        lemma_some_ready(g, placed, rank, g[x][k] as int);
    }
}

/// `stages` groups every job once; each job's needs lie in earlier stages,
/// the first stage holds exactly the jobs without needs, and a job in a
/// later stage needs some job of the stage just before it. `level` gives
/// each job's stage.
pub open spec fn staged(g: Seq<Seq<usize>>, stages: Seq<Seq<usize>>, level: Seq<int>) -> bool {
    let n = g.len();
    &&& level.len() == n
    &&& forall|s: int| 0 <= s < stages.len() ==> #[trigger] stages[s].len() > 0
    &&& forall|s: int, t: int| 0 <= s < stages.len() && 0 <= t < stages[s].len() ==>
            #[trigger] stages[s][t] < n && level[stages[s][t] as int] == s
    &&& forall|s: int, a: int, b: int| 0 <= s < stages.len() && 0 <= a < b < stages[s].len() ==>
            #[trigger] stages[s][a] != #[trigger] stages[s][b]
    &&& forall|x: int| 0 <= x < n ==> 0 <= #[trigger] level[x] < stages.len() && on_path(stages[level[x]], x)
    &&& forall|x: int, k: int| 0 <= x < n && 0 <= k < g[x].len() ==> #[trigger] level[g[x][k] as int] < level[x]
    &&& forall|x: int| 0 <= x < n ==> (#[trigger] level[x] == 0 <==> g[x].len() == 0)
    &&& forall|x: int| 0 <= x < n && #[trigger] level[x] > 0 ==>
            exists|k: int| 0 <= k < g[x].len() && #[trigger] level[g[x][k] as int] == level[x] - 1
}

/// The stage index of each job ranks the graph.
pub proof fn lemma_staged_ranks(g: Seq<Seq<usize>>, stages: Seq<Seq<usize>>, level: Seq<int>)
    requires
        valid_graph(g),
        staged(g, stages, level),
    ensures
        ranks(g, Seq::new(g.len(), |x: int| level[x] as nat)),
{
    let rank = Seq::new(g.len(), |x: int| level[x] as nat);
    assert forall|i: int, k: int| 0 <= i < g.len() && 0 <= k < g[i].len() implies #[trigger] rank[g[i][k] as int] < rank[i] by {
        assert(level[g[i][k] as int] < level[i]);
        assert(0 <= level[g[i][k] as int]);
    }
}

/// The stages of one run of the grouping, by index.
pub open spec fn stages_view(stages: &Vec<Vec<usize>>) -> Seq<Seq<usize>> {
    stages@.map_values(|v: Vec<usize>| v@)
}

/// The jobs that need job `j`, once per need, by increasing index.
fn dependents_of(g: &Vec<Vec<usize>>, j: usize) -> (r: Vec<usize>)
    requires
        valid_graph(graph_view(g)),
    ensures
        forall|t: int| 0 <= t < r@.len() ==> #[trigger] r@[t] < g@.len(),
        forall|d: int| 0 <= d < g@.len() ==> #[trigger] count_of(r@, d) == count_of(graph_view(g)[d], j as int),
{
    let ghost gv = graph_view(g);
    let n = g.len();
    let mut r: Vec<usize> = Vec::new();
    let mut i: usize = 0;
    while i < n
        invariant
            gv == graph_view(g),
            n == gv.len(),
            i <= n,
            forall|t: int| 0 <= t < r@.len() ==> #[trigger] r@[t] < i,
            forall|d: int| 0 <= d < n ==> #[trigger] count_of(r@, d) == if d < i { count_of(gv[d], j as int) } else { 0 },
        decreases n - i,
    {
        let mut k: usize = 0;
        let ghost r0 = r@;
        while k < g[i].len()
            invariant
                gv == graph_view(g),
                n == gv.len(),
                i < n,
                k <= gv[i as int].len(),
                forall|t: int| 0 <= t < r@.len() ==> #[trigger] r@[t] < i + 1,
                forall|d: int| 0 <= d < n && d != i ==> #[trigger] count_of(r@, d) == count_of(r0, d),
                count_of(r@, i as int) == count_of(r0, i as int) + count_of(gv[i as int].take(k as int), j as int),
            decreases gv[i as int].len() - k,
        {
            proof {
                lemma_count_of_take(gv[i as int], k as int, j as int);
            }
            if g[i][k] == j {
                let ghost before = r@;
                r.push(i);
                proof {
                    assert(r@.drop_last() =~= before);
                    assert forall|d: int| 0 <= d < n && d != i implies #[trigger] count_of(r@, d) == count_of(r0, d) by {
                        assert(count_of(r@, d) == count_of(before, d));
                    }
                }
            }
            k = k + 1;
        }
        proof {
            assert(gv[i as int].take(gv[i as int].len() as int) =~= gv[i as int]);
        }
        i = i + 1;
    }
    r
}

/// Some need of job `x` has stage number `s`.
pub open spec fn needs_at(g: Seq<Seq<usize>>, level: Seq<int>, x: int, s: int) -> bool {
    exists|k: int| 0 <= k < g[x].len() && #[trigger] level[g[x][k] as int] == s
}

/// Between rounds, job `x` is queued exactly when it is not placed and
/// has no unplaced need.
pub open spec fn queued_between(queue: Seq<usize>, placed: Seq<bool>, in_degree: Seq<usize>, x: int) -> bool {
    on_path(queue, x) <==> (!placed[x] && in_degree[x] == 0)
}

/// During a round, job `x` is queued exactly when it is not placed, not in
/// the current stage, and has no unplaced need.
pub open spec fn queued_in_round(queue: Seq<usize>, stage: Seq<usize>, placed: Seq<bool>, in_degree: Seq<usize>, x: int) -> bool {
    on_path(queue, x) <==> (!placed[x] && !on_path(stage, x) && in_degree[x] == 0)
}

/// What holds between two rounds of the grouping.
#[verifier::opaque]
pub open spec fn grouping_state(
    g: Seq<Seq<usize>>,
    deps: Seq<Seq<usize>>,
    in_degree: Seq<usize>,
    queue: Seq<usize>,
    stages: Seq<Seq<usize>>,
    placed: Seq<bool>,
    level: Seq<int>,
) -> bool {
    let n = g.len();
    &&& valid_graph(g)
    &&& deps.len() == n && in_degree.len() == n && placed.len() == n && level.len() == n
    &&& forall|j: int, t: int| 0 <= j < n && 0 <= t < deps[j].len() ==> #[trigger] deps[j][t] < n
    &&& forall|j: int, d: int| 0 <= j < n && 0 <= d < n ==> #[trigger] count_of(deps[j], d) == count_of(g[d], j)
    &&& forall|x: int| 0 <= x < n ==> #[trigger] in_degree[x] == count_unplaced(g[x], placed)
    &&& forall|t: int| 0 <= t < queue.len() ==> #[trigger] queue[t] < n
    &&& forall|a: int, b: int| 0 <= a < b < queue.len() ==> #[trigger] queue[a] != #[trigger] queue[b]
    &&& forall|x: int| 0 <= x < n ==> #[trigger] queued_between(queue, placed, in_degree, x)
    &&& stages.len() == 0 ==> forall|x: int| 0 <= x < n && #[trigger] on_path(queue, x) ==> g[x].len() == 0
    &&& stages.len() > 0 ==> forall|x: int| 0 <= x < n && #[trigger] on_path(queue, x) ==> needs_at(g, level, x, stages.len() - 1)
    &&& forall|s: int| 0 <= s < stages.len() ==> #[trigger] stages[s].len() > 0
    &&& forall|s: int, t: int| 0 <= s < stages.len() && 0 <= t < stages[s].len() ==>
            #[trigger] stages[s][t] < n && placed[stages[s][t] as int] && level[stages[s][t] as int] == s
    &&& forall|s: int, a: int, b: int| 0 <= s < stages.len() && 0 <= a < b < stages[s].len() ==>
            #[trigger] stages[s][a] != #[trigger] stages[s][b]
    &&& forall|x: int| 0 <= x < n && #[trigger] placed[x] ==> 0 <= level[x] < stages.len() && on_path(stages[level[x]], x)
    &&& forall|x: int| 0 <= x < n && !#[trigger] placed[x] ==> level[x] == -1
    &&& forall|x: int, k: int| 0 <= x < n && placed[x] && 0 <= k < g[x].len() ==>
            #[trigger] placed[g[x][k] as int] && level[g[x][k] as int] < level[x]
    &&& forall|x: int| 0 <= x < n && #[trigger] placed[x] ==> (level[x] == 0 <==> g[x].len() == 0)
    &&& forall|x: int| 0 <= x < n && #[trigger] placed[x] && level[x] > 0 ==> needs_at(g, level, x, level[x] - 1)
}

/// What holds of the placement while the jobs of round `s_idx` are being
/// placed: the first `t` jobs of `stage` are placed.
#[verifier::opaque]
pub open spec fn round_fixed(
    g: Seq<Seq<usize>>,
    dv: Seq<Seq<usize>>,
    stage: Seq<usize>,
    placed: Seq<bool>,
    placed0: Seq<bool>,
    level: Seq<int>,
    level0: Seq<int>,
    s_idx: int,
    t: int,
) -> bool {
    let n = g.len();
    &&& valid_graph(g)
    &&& dv.len() == n
    &&& forall|j: int, w: int| 0 <= j < n && 0 <= w < dv[j].len() ==> #[trigger] dv[j][w] < n
    &&& forall|j: int, d: int| 0 <= j < n && 0 <= d < n ==> #[trigger] count_of(dv[j], d) == count_of(g[d], j)
    &&& placed.len() == n && level.len() == n && placed0.len() == n && level0.len() == n
    &&& 0 <= t <= stage.len()
    &&& s_idx >= 0
    &&& forall|a: int, b: int| 0 <= a < b < stage.len() ==> #[trigger] stage[a] != #[trigger] stage[b]
    &&& forall|u: int| 0 <= u < stage.len() ==> #[trigger] stage[u] < n
    &&& forall|u: int| 0 <= u < stage.len() ==> (#[trigger] placed[stage[u] as int] <==> u < t)
    &&& forall|u: int| 0 <= u < stage.len() ==> !#[trigger] placed0[stage[u] as int]
    &&& forall|u: int, k: int| 0 <= u < stage.len() && 0 <= k < g[stage[u] as int].len() ==>
            #[trigger] placed0[g[stage[u] as int][k] as int]
    &&& s_idx == 0 ==> forall|u: int| 0 <= u < stage.len() ==> #[trigger] g[stage[u] as int].len() == 0
    &&& s_idx > 0 ==> forall|u: int| 0 <= u < stage.len() ==> #[trigger] needs_at(g, level0, stage[u] as int, s_idx - 1)
    &&& forall|x: int, k: int| 0 <= x < n && placed0[x] && 0 <= k < g[x].len() ==>
            #[trigger] placed0[g[x][k] as int] && level0[g[x][k] as int] < level0[x]
    &&& forall|x: int| 0 <= x < n && #[trigger] placed0[x] ==> placed[x] && level[x] == level0[x] && 0 <= level0[x] < s_idx
    &&& forall|x: int| 0 <= x < n && #[trigger] placed[x] && !placed0[x] ==> on_path(stage, x) && level[x] == s_idx
    &&& forall|x: int| 0 <= x < n && !#[trigger] placed[x] ==> level[x] == -1
}

/// The jobs queued for the next round: those not placed, not in the
/// current stage, with no unplaced need counted; each needs a job of the
/// current stage.
#[verifier::opaque]
pub open spec fn round_queue(
    g: Seq<Seq<usize>>,
    in_degree: Seq<usize>,
    queue: Seq<usize>,
    stage: Seq<usize>,
    placed: Seq<bool>,
    level: Seq<int>,
    s_idx: int,
) -> bool {
    let n = g.len();
    &&& in_degree.len() == n
    &&& forall|x: int| 0 <= x < n ==> #[trigger] queued_in_round(queue, stage, placed, in_degree, x)
    &&& forall|x: int| 0 <= x < n && #[trigger] on_path(queue, x) ==> needs_at(g, level, x, s_idx)
    &&& forall|w: int| 0 <= w < queue.len() ==> #[trigger] queue[w] < n
    &&& forall|a: int, b: int| 0 <= a < b < queue.len() ==> #[trigger] queue[a] != #[trigger] queue[b]
}

/// Lowers the count of each job that needs the newly placed job `j`, and
/// queues those whose needs are now all placed.
fn release_dependents(
    g: &Vec<Vec<usize>>,
    dj: &Vec<usize>,
    j: usize,
    in_degree: &mut Vec<usize>,
    queue: &mut Vec<usize>,
    Ghost(dv): Ghost<Seq<Seq<usize>>>,
    Ghost(stage): Ghost<Seq<usize>>,
    Ghost(placed): Ghost<Seq<bool>>,
    Ghost(placed0): Ghost<Seq<bool>>,
    Ghost(level): Ghost<Seq<int>>,
    Ghost(level0): Ghost<Seq<int>>,
    Ghost(s_idx): Ghost<int>,
    Ghost(t): Ghost<int>,
)
    requires
        round_fixed(graph_view(g), dv, stage, placed, placed0, level, level0, s_idx, t + 1),
        round_queue(graph_view(g), old(in_degree)@, old(queue)@, stage, placed, level, s_idx),
        0 <= t < stage.len(),
        j == stage[t],
        dj@ == dv[j as int],
        forall|x: int| 0 <= x < g@.len() ==> #[trigger] old(in_degree)@[x] == count_unplaced(graph_view(g)[x], placed) + count_of(graph_view(g)[x], j as int),
    ensures
        round_queue(graph_view(g), final(in_degree)@, final(queue)@, stage, placed, level, s_idx),
        forall|x: int| 0 <= x < g@.len() ==> #[trigger] final(in_degree)@[x] == count_unplaced(graph_view(g)[x], placed),
{
    let ghost gv = graph_view(g);
    let ghost n = gv.len();
    proof {
        reveal(round_fixed);
        reveal(round_queue);
        assert(dj@.take(0) =~= Seq::<usize>::empty());
        assert(placed[stage[t] as int]);
        assert(on_path(stage, j as int)) by {
            assert(stage[t] as int == j as int);
        }
        assert forall|x: int, k: int| 0 <= x < n && placed0[x] && 0 <= k < gv[x].len() implies
            #[trigger] placed0[gv[x][k] as int] && level0[gv[x][k] as int] < level0[x] by {}
    }
    let mut w: usize = 0;
    while w < dj.len()
        invariant
            gv == graph_view(g),
            n == gv.len(),
            valid_graph(gv),
            in_degree@.len() == n,
            placed.len() == n && level.len() == n && placed0.len() == n,
            j < n,
            placed[j as int],
            !placed0[j as int],
            level[j as int] == s_idx,
            w <= dj@.len(),
            forall|q: int| 0 <= q < dj@.len() ==> #[trigger] dj@[q] < n,
            forall|d: int| 0 <= d < n ==> #[trigger] count_of(dj@, d) == count_of(gv[d], j as int),
            forall|u: int, k: int| 0 <= u < stage.len() && 0 <= k < gv[stage[u] as int].len() ==>
                #[trigger] placed0[gv[stage[u] as int][k] as int],
            forall|u: int| 0 <= u < stage.len() ==> #[trigger] stage[u] < n,
            forall|x: int, k: int| 0 <= x < n && placed0[x] && 0 <= k < gv[x].len() ==>
                #[trigger] placed0[gv[x][k] as int] && level0[gv[x][k] as int] < level0[x],
            forall|x: int| 0 <= x < n && #[trigger] placed[x] && !placed0[x] ==> on_path(stage, x),
            forall|x: int| 0 <= x < n ==> #[trigger] in_degree@[x] + count_of(dj@.take(w as int), x)
                == count_unplaced(gv[x], placed) + count_of(gv[x], j as int),
            forall|x: int| 0 <= x < n ==> #[trigger] queued_in_round(queue@, stage, placed, in_degree@, x),
            forall|x: int| 0 <= x < n && #[trigger] on_path(queue@, x) ==> needs_at(gv, level, x, s_idx),
            forall|q: int| 0 <= q < queue@.len() ==> #[trigger] queue@[q] < n,
            forall|a: int, b: int| 0 <= a < b < queue@.len() ==> #[trigger] queue@[a] != #[trigger] queue@[b],
        decreases dj@.len() - w,
    {
        let d = dj[w];
        let ghost q0 = queue@;
        let ghost deg0 = in_degree@;
        proof {
            lemma_count_of_take(dj@, w as int, d as int);
            assert(queued_in_round(q0, stage, placed, deg0, d as int));
        }
        let deg = in_degree[d];
        in_degree.set(d, deg - 1);
        proof {
            assert forall|x: int| 0 <= x < n implies #[trigger] in_degree@[x] + count_of(dj@.take(w + 1), x)
                == count_unplaced(gv[x], placed) + count_of(gv[x], j as int) by {
                lemma_count_of_take(dj@, w as int, x);
            }
        }
        if deg == 1 {
            queue.push(d);
            proof {
                assert(count_of(gv[d as int], j as int) > 0);
                lemma_count_of_pos(gv[d as int], j as int);
                let k = choose|k: int| 0 <= k < gv[d as int].len() && #[trigger] gv[d as int][k] as int == j as int;
                if placed0[d as int] {
                    assert(placed0[gv[d as int][k] as int]);
                }
                if on_path(stage, d as int) {
                    let u = choose|u: int| 0 <= u < stage.len() && #[trigger] stage[u] as int == d as int;
                    assert(placed0[gv[stage[u] as int][k] as int]);
                }
                assert(!on_path(stage, d as int));
                assert(!placed[d as int]);
                assert(!on_path(q0, d as int));
                assert forall|x: int| 0 <= x < n implies #[trigger] queued_in_round(queue@, stage, placed, in_degree@, x) by {
                    assert(queued_in_round(q0, stage, placed, deg0, x));
                    if x != d {
                        if on_path(q0, x) {
                            let v = choose|v: int| 0 <= v < q0.len() && #[trigger] q0[v] as int == x;
                            assert(queue@[v] as int == x);
                        }
                        if on_path(queue@, x) {
                            let v = choose|v: int| 0 <= v < queue@.len() && #[trigger] queue@[v] as int == x;
                            assert(q0[v] as int == x);
                        }
                        assert(in_degree@[x] == deg0[x]);
                    } else {
                        assert(queue@[q0.len() as int] as int == x);
                    }
                }
                assert forall|x: int| 0 <= x < n && #[trigger] on_path(queue@, x) implies needs_at(gv, level, x, s_idx) by {
                    if x == d {
                        assert(level[gv[d as int][k] as int] == s_idx);
                    } else {
                        let v = choose|v: int| 0 <= v < queue@.len() && #[trigger] queue@[v] as int == x;
                        assert(q0[v] as int == x);
                        assert(on_path(q0, x));
                    }
                }
                assert forall|a: int, b: int| 0 <= a < b < queue@.len() implies #[trigger] queue@[a] != #[trigger] queue@[b] by {
                    if b == queue@.len() - 1 {
                        if queue@[a] == d {
                            assert(q0[a] as int == d as int);
                            assert(on_path(q0, d as int));
                        }
                    }
                }
            }
        } else {
            proof {
                assert(queue@ == q0);
                assert forall|x: int| 0 <= x < n implies #[trigger] queued_in_round(queue@, stage, placed, in_degree@, x) by {
                    assert(queued_in_round(q0, stage, placed, deg0, x));
                    if x != d {
                        assert(in_degree@[x] == deg0[x]);
                    }
                }
            }
        }
        w = w + 1;
    }
    proof {
        reveal(round_queue);
        assert(dj@.take(dj@.len() as int) =~= dj@);
    }
}

/// Placing the next job of the stage keeps the round's facts.
proof fn lemma_place_one(
    g: Seq<Seq<usize>>,
    dv: Seq<Seq<usize>>,
    in_degree: Seq<usize>,
    queue: Seq<usize>,
    stage: Seq<usize>,
    placed: Seq<bool>,
    placed0: Seq<bool>,
    level: Seq<int>,
    level0: Seq<int>,
    s_idx: int,
    t: int,
)
    requires
        round_fixed(g, dv, stage, placed, placed0, level, level0, s_idx, t),
        round_queue(g, in_degree, queue, stage, placed, level, s_idx),
        0 <= t < stage.len(),
    ensures
        !placed[stage[t] as int],
        stage[t] < g.len(),
        placed.len() == g.len(),
        round_fixed(g, dv, stage, placed.update(stage[t] as int, true), placed0, level.update(stage[t] as int, s_idx), level0, s_idx, t + 1),
        round_queue(g, in_degree, queue, stage, placed.update(stage[t] as int, true), level.update(stage[t] as int, s_idx), s_idx),
{
    reveal(round_fixed);
    reveal(round_queue);
    let n = g.len();
    let j = stage[t] as int;
    let p2 = placed.update(j, true);
    let l2 = level.update(j, s_idx);
    assert(on_path(stage, j)) by {
        assert(stage[t] as int == j);
    }
    assert forall|u: int| 0 <= u < stage.len() implies (#[trigger] p2[stage[u] as int] <==> u < t + 1) by {
        if u != t {
            assert(stage[u] != stage[t]);
        }
    }
    assert forall|x: int| 0 <= x < n && #[trigger] on_path(queue, x) implies needs_at(g, l2, x, s_idx) by {
        let k = choose|k: int| 0 <= k < g[x].len() && #[trigger] level[g[x][k] as int] == s_idx;
        assert(g[x][k] < n);
        assert(l2[g[x][k] as int] == s_idx);
    }
    assert forall|x: int| 0 <= x < n implies #[trigger] queued_in_round(queue, stage, p2, in_degree, x) by {
        assert(queued_in_round(queue, stage, placed, in_degree, x));
        if x != j {
            assert(p2[x] == placed[x]);
        }
    }
    assert forall|x: int| 0 <= x < n && #[trigger] p2[x] && !placed0[x] implies on_path(stage, x) && l2[x] == s_idx by {
        if x != j {
            assert(placed[x]);
        }
    }
    assert forall|x: int| 0 <= x < n && !#[trigger] p2[x] implies l2[x] == -1 by {
        assert(!placed[x]);
    }
    assert forall|x: int| 0 <= x < n && #[trigger] placed0[x] implies p2[x] && l2[x] == level0[x] && 0 <= level0[x] < s_idx by {
        assert(placed[x]);
    }
    assert(round_fixed(g, dv, stage, p2, placed0, l2, level0, s_idx, t + 1));
}

/// Places the jobs of `stage` one after another, releasing the jobs that
/// need them; gives the placement and stage numbers that result.
fn place_stage(
    g: &Vec<Vec<usize>>,
    deps: &Vec<Vec<usize>>,
    stage: &Vec<usize>,
    in_degree: &mut Vec<usize>,
    queue: &mut Vec<usize>,
    processed: &mut usize,
    Ghost(placed0): Ghost<Seq<bool>>,
    Ghost(level0): Ghost<Seq<int>>,
    Ghost(s_idx): Ghost<int>,
) -> (r: (Ghost<Seq<bool>>, Ghost<Seq<int>>))
    requires
        round_fixed(graph_view(g), deps@.map_values(|v: Vec<usize>| v@), stage@, placed0, placed0, level0, level0, s_idx, 0),
        round_queue(graph_view(g), old(in_degree)@, old(queue)@, stage@, placed0, level0, s_idx),
        forall|x: int| 0 <= x < g@.len() ==> #[trigger] old(in_degree)@[x] == count_unplaced(graph_view(g)[x], placed0),
        *old(processed) == count_placed(placed0),
        placed0.len() == g@.len(),
    ensures
        round_fixed(graph_view(g), deps@.map_values(|v: Vec<usize>| v@), stage@, r.0@, placed0, r.1@, level0, s_idx, stage@.len() as int),
        round_queue(graph_view(g), final(in_degree)@, final(queue)@, stage@, r.0@, r.1@, s_idx),
        forall|x: int| 0 <= x < g@.len() ==> #[trigger] final(in_degree)@[x] == count_unplaced(graph_view(g)[x], r.0@),
        *final(processed) == count_placed(r.0@),
        *final(processed) == *old(processed) + stage@.len(),
        r.0@.len() == g@.len(),
{
    let ghost gv = graph_view(g);
    let ghost dv = deps@.map_values(|v: Vec<usize>| v@);
    let ghost n = gv.len();
    let ghost mut placed = placed0;
    let ghost mut level = level0;
    let ghost proc0 = *processed;
    let total = g.len();
    let mut t: usize = 0;
    while t < stage.len()
        invariant
            gv == graph_view(g),
            dv == deps@.map_values(|v: Vec<usize>| v@),
            n == gv.len(),
            total == n,
            deps@.len() == dv.len(),
            placed.len() == n,
            round_fixed(gv, dv, stage@, placed, placed0, level, level0, s_idx, t as int),
            round_queue(gv, in_degree@, queue@, stage@, placed, level, s_idx),
            forall|x: int| 0 <= x < n ==> #[trigger] in_degree@[x] == count_unplaced(gv[x], placed),
            *processed == count_placed(placed),
            *processed == proc0 + t,
            t <= stage@.len(),
        decreases stage@.len() - t,
    {
        let j = stage[t];
        proof {
            lemma_place_one(gv, dv, in_degree@, queue@, stage@, placed, placed0, level, level0, s_idx, t as int);
            lemma_count_placed_place(placed, j as int);
            lemma_count_placed_bounds(placed.update(j as int, true));
            let pl = placed;
            reveal(round_fixed);
            assert forall|x: int| 0 <= x < n implies #[trigger] in_degree@[x] == count_unplaced(gv[x], pl.update(j as int, true)) + count_of(gv[x], j as int) by {
                lemma_count_unplaced_place(gv[x], pl, j as int);
            }
            placed = placed.update(j as int, true);
            level = level.update(j as int, s_idx);
        }
        *processed = *processed + 1;
        proof {
            reveal(round_fixed);
            assert(dv[j as int] == deps@[j as int]@);
        }
        release_dependents(g, &deps[j], j, in_degree, queue, Ghost(dv), Ghost(stage@), Ghost(placed), Ghost(placed0),
            Ghost(level), Ghost(level0), Ghost(s_idx), Ghost(t as int));
        t = t + 1;
    }
    (Ghost(placed), Ghost(level))
}

/// Sets up a round from the state between rounds.
proof fn lemma_round_start(
    g: Seq<Seq<usize>>,
    dv: Seq<Seq<usize>>,
    in_degree: Seq<usize>,
    stage: Seq<usize>,
    sv0: Seq<Seq<usize>>,
    placed0: Seq<bool>,
    level0: Seq<int>,
)
    requires
        grouping_state(g, dv, in_degree, stage, sv0, placed0, level0),
    ensures
        round_fixed(g, dv, stage, placed0, placed0, level0, level0, sv0.len() as int, 0),
        round_queue(g, in_degree, Seq::empty(), stage, placed0, level0, sv0.len() as int),
        forall|x: int| 0 <= x < g.len() ==> #[trigger] in_degree[x] == count_unplaced(g[x], placed0),
        placed0.len() == g.len(),
        dv.len() == g.len(),
{
    reveal(grouping_state);
    reveal(round_fixed);
    reveal(round_queue);
    let n = g.len();
    let s_idx = sv0.len() as int;
    assert forall|u: int| 0 <= u < stage.len() implies !#[trigger] placed0[stage[u] as int] && in_degree[stage[u] as int] == 0
        && on_path(stage, stage[u] as int) by {
        assert(on_path(stage, stage[u] as int)) by {
            assert(stage[u] as int == stage[u] as int);
        }
        assert(queued_between(stage, placed0, in_degree, stage[u] as int));
    }
    assert forall|u: int| 0 <= u < stage.len() implies (#[trigger] placed0[stage[u] as int] <==> u < 0) by {
        assert(!placed0[stage[u] as int]);
    }
    assert forall|u: int, k: int| 0 <= u < stage.len() && 0 <= k < g[stage[u] as int].len() implies
        #[trigger] placed0[g[stage[u] as int][k] as int] by {
        assert(in_degree[stage[u] as int] == 0);
        lemma_count_unplaced_zero(g[stage[u] as int], placed0);
    }
    if s_idx == 0 {
        assert forall|u: int| 0 <= u < stage.len() implies #[trigger] g[stage[u] as int].len() == 0 by {
            assert(on_path(stage, stage[u] as int));
        }
    } else {
        assert forall|u: int| 0 <= u < stage.len() implies #[trigger] needs_at(g, level0, stage[u] as int, s_idx - 1) by {
            assert(on_path(stage, stage[u] as int));
        }
    }
    assert forall|x: int| 0 <= x < n implies #[trigger] queued_in_round(Seq::<usize>::empty(), stage, placed0, in_degree, x) by {
        assert(queued_between(stage, placed0, in_degree, x));
    }
}

/// After a round, the placed stage joins the stages and the released jobs
/// form the next queue.
proof fn lemma_round_done(
    g: Seq<Seq<usize>>,
    dv: Seq<Seq<usize>>,
    in_degree0: Seq<usize>,
    in_degree: Seq<usize>,
    queue: Seq<usize>,
    sv0: Seq<Seq<usize>>,
    stage: Seq<usize>,
    placed: Seq<bool>,
    placed0: Seq<bool>,
    level: Seq<int>,
    level0: Seq<int>,
)
    requires
        grouping_state(g, dv, in_degree0, stage, sv0, placed0, level0),
        stage.len() > 0,
        round_fixed(g, dv, stage, placed, placed0, level, level0, sv0.len() as int, stage.len() as int),
        round_queue(g, in_degree, queue, stage, placed, level, sv0.len() as int),
        forall|x: int| 0 <= x < g.len() ==> #[trigger] in_degree[x] == count_unplaced(g[x], placed),
    ensures
        grouping_state(g, dv, in_degree, queue, sv0.push(stage), placed, level),
{
    reveal(grouping_state);
    reveal(round_fixed);
    reveal(round_queue);
    let n = g.len();
    let sv = sv0.push(stage);
    let s_idx = sv0.len() as int;
    assert forall|x: int| 0 <= x < n implies #[trigger] queued_between(queue, placed, in_degree, x) by {
        assert(queued_in_round(queue, stage, placed, in_degree, x));
        if on_path(stage, x) {
            let u = choose|u: int| 0 <= u < stage.len() && #[trigger] stage[u] as int == x;
            assert(placed[stage[u] as int]);
        }
    }
    assert forall|s2: int, t2: int| 0 <= s2 < sv.len() && 0 <= t2 < sv[s2].len() implies
        #[trigger] sv[s2][t2] < n && placed[sv[s2][t2] as int] && level[sv[s2][t2] as int] == s2 by {
        if s2 == s_idx {
            assert(sv[s2][t2] == stage[t2]);
            assert(placed[stage[t2] as int]);
            assert(!placed0[stage[t2] as int]);
        } else {
            assert(sv[s2] == sv0[s2]);
            assert(placed0[sv0[s2][t2] as int]);
        }
    }
    assert forall|s2: int| 0 <= s2 < sv.len() implies #[trigger] sv[s2].len() > 0 by {
        if s2 < s_idx {
            assert(sv[s2] == sv0[s2]);
        }
    }
    assert forall|s2: int, a: int, b: int| 0 <= s2 < sv.len() && 0 <= a < b < sv[s2].len() implies
        #[trigger] sv[s2][a] != #[trigger] sv[s2][b] by {
        if s2 < s_idx {
            assert(sv[s2] == sv0[s2]);
        }
    }
    assert forall|x: int| 0 <= x < n && #[trigger] placed[x] implies 0 <= level[x] < sv.len() && on_path(sv[level[x]], x) by {
        if placed0[x] {
            assert(on_path(sv0[level0[x]], x));
            assert(sv[level[x]] == sv0[level0[x]]);
        } else {
            assert(sv[s_idx] == stage);
        }
    }
    assert forall|x: int, k: int| 0 <= x < n && placed[x] && 0 <= k < g[x].len() implies
        #[trigger] placed[g[x][k] as int] && level[g[x][k] as int] < level[x] by {
        if placed0[x] {
            assert(placed0[g[x][k] as int]);
        } else {
            let u = choose|u: int| 0 <= u < stage.len() && #[trigger] stage[u] as int == x;
            assert(placed0[g[stage[u] as int][k] as int]);
        }
    }
    assert forall|x: int| 0 <= x < n && #[trigger] placed[x] implies (level[x] == 0 <==> g[x].len() == 0) by {
        if !placed0[x] {
            let u = choose|u: int| 0 <= u < stage.len() && #[trigger] stage[u] as int == x;
            if s_idx != 0 {
                assert(needs_at(g, level0, stage[u] as int, s_idx - 1));
            } else {
                assert(g[stage[u] as int].len() == 0);
            }
        }
    }
    assert forall|x: int| 0 <= x < n && #[trigger] placed[x] && level[x] > 0 implies needs_at(g, level, x, level[x] - 1) by {
        if placed0[x] {
            assert(needs_at(g, level0, x, level0[x] - 1));
            let k = choose|k: int| 0 <= k < g[x].len() && #[trigger] level0[g[x][k] as int] == level0[x] - 1;
            assert(placed0[g[x][k] as int]);
            assert(level[g[x][k] as int] == level[x] - 1);
        } else {
            let u = choose|u: int| 0 <= u < stage.len() && #[trigger] stage[u] as int == x;
            assert(needs_at(g, level0, stage[u] as int, s_idx - 1));
            let k = choose|k: int| 0 <= k < g[x].len() && #[trigger] level0[g[x][k] as int] == s_idx - 1;
            assert(placed0[g[x][k] as int]);
            assert(level[g[x][k] as int] == level[x] - 1);
        }
    }
    assert forall|x: int| 0 <= x < n && #[trigger] on_path(queue, x) implies needs_at(g, level, x, sv.len() - 1) by {}
}

/// Groups the jobs into stages: first the jobs without needs, then, round
/// after round, the jobs whose needs the earlier rounds placed. Gives
/// nothing when some jobs can never be placed.
#[verifier::rlimit(40)]
pub fn order_stages(g: &Vec<Vec<usize>>) -> (r: Option<Vec<Vec<usize>>>)
    requires
        valid_graph(graph_view(g)),
    ensures
        match r {
            Some(stages) => exists|level: Seq<int>| staged(graph_view(g), stages_view(&stages), level),
            None => forall|rank: Seq<nat>| !ranks(graph_view(g), rank),
        },
{
    let ghost gv = graph_view(g);
    let n = g.len();
    let mut in_degree: Vec<usize> = Vec::new();
    let mut deps: Vec<Vec<usize>> = Vec::new();
    let mut queue: Vec<usize> = Vec::new();
    let ghost mut placed: Seq<bool> = Seq::new(n as nat, |x: int| false);
    let ghost mut level: Seq<int> = Seq::new(n as nat, |x: int| -1);
    let mut i: usize = 0;
    while i < n
        invariant
            gv == graph_view(g),
            valid_graph(gv),
            n == gv.len(),
            i <= n,
            in_degree@.len() == i,
            deps@.len() == i,
            forall|x: int| 0 <= x < i ==> #[trigger] in_degree@[x] == gv[x].len(),
            forall|j: int, t: int| 0 <= j < i && 0 <= t < deps@[j]@.len() ==> #[trigger] deps@[j]@[t] < n,
            forall|j: int, d: int| 0 <= j < i && 0 <= d < n ==> #[trigger] count_of(deps@[j]@, d) == count_of(gv[d], j),
            forall|t: int| 0 <= t < queue@.len() ==> #[trigger] queue@[t] < i,
            forall|a: int, b: int| 0 <= a < b < queue@.len() ==> #[trigger] queue@[a] < #[trigger] queue@[b],
            forall|x: int| 0 <= x < n ==> (on_path(queue@, x) <==> (x < i && #[trigger] gv[x].len() == 0)),
        decreases n - i,
    {
        in_degree.push(g[i].len());
        deps.push(dependents_of(g, i));
        if g[i].len() == 0 {
            let ghost q0 = queue@;
            queue.push(i);
            proof {
                assert forall|x: int| 0 <= x < n implies (on_path(queue@, x) <==> (x < i + 1 && #[trigger] gv[x].len() == 0)) by {
                    if on_path(q0, x) {
                        let t = choose|t: int| 0 <= t < q0.len() && #[trigger] q0[t] as int == x;
                        assert(queue@[t] as int == x);
                    }
                    if on_path(queue@, x) && x != i {
                        let t = choose|t: int| 0 <= t < queue@.len() && #[trigger] queue@[t] as int == x;
                        assert(q0[t] as int == x);
                    }
                    if x == i {
                        assert(queue@[q0.len() as int] as int == x);
                    }
                }
            }
        } else {
            proof {
                assert forall|x: int| 0 <= x < n implies (on_path(queue@, x) <==> (x < i + 1 && #[trigger] gv[x].len() == 0)) by {
                    if on_path(queue@, x) {
                        let t = choose|t: int| 0 <= t < queue@.len() && #[trigger] queue@[t] as int == x;
                        assert(queue@[t] < i);
                    }
                }
            }
        }
        i = i + 1;
    }
    let mut stages: Vec<Vec<usize>> = Vec::new();
    let mut processed: usize = 0;
    proof {
        reveal(grouping_state);
        assert forall|x: int| 0 <= x < n implies #[trigger] in_degree@[x] == count_unplaced(gv[x], placed) by {
            lemma_count_unplaced_all(gv[x], n as nat);
        }
        lemma_count_placed_none(n as nat);
        let dv = deps@.map_values(|v: Vec<usize>| v@);
        assert forall|x: int| 0 <= x < n && #[trigger] on_path(queue@, x) implies gv[x].len() == 0 by {}
        assert forall|x: int| 0 <= x < n implies #[trigger] queued_between(queue@, placed, in_degree@, x) by {
            if gv[x].len() == 0 {
                assert(count_unplaced(gv[x], placed) == 0);
            } else {
                assert(count_unplaced(gv[x], placed) > 0);
            }
        }
        assert forall|a: int, b: int| 0 <= a < b < queue@.len() implies #[trigger] queue@[a] != #[trigger] queue@[b] by {}
        assert(stages_view(&stages) =~= Seq::<Seq<usize>>::empty());
        assert(grouping_state(gv, dv, in_degree@, queue@, stages_view(&stages), placed, level));
    }
    while queue.len() > 0
        invariant
            gv == graph_view(g),
            n == gv.len(),
            grouping_state(gv, deps@.map_values(|v: Vec<usize>| v@), in_degree@, queue@, stages_view(&stages), placed, level),
            processed == count_placed(placed),
        decreases n - processed,
    {
        let ghost dv = deps@.map_values(|v: Vec<usize>| v@);
        let ghost sv0 = stages_view(&stages);
        let ghost s_idx = stages@.len() as int;
        let ghost in_degree0 = in_degree@;
        let stage = queue;
        queue = Vec::new();
        proof {
            lemma_round_start(gv, dv, in_degree@, stage@, sv0, placed, level);
        }
        let (Ghost(p2), Ghost(l2)) = place_stage(g, &deps, &stage, &mut in_degree, &mut queue, &mut processed,
            Ghost(placed), Ghost(level), Ghost(s_idx));
        proof {
            lemma_round_done(gv, dv, in_degree0, in_degree@, queue@, sv0, stage@, p2, placed, l2, level);
            placed = p2;
            level = l2;
            lemma_count_placed_bounds(placed);
        }
        stages.push(stage);
        proof {
            assert(stages_view(&stages) =~= sv0.push(stage@));
        }
    }
    proof {
        lemma_count_placed_bounds(placed);
    }
    if processed != n {
        proof {
            reveal(grouping_state);
            let x = choose|x: int| 0 <= x < n && !placed[x];
            assert forall|rank: Seq<nat>| !ranks(gv, rank) by {
                if ranks(gv, rank) {
                    lemma_some_ready(gv, placed, rank, x);
                    let u = choose|u: int| 0 <= u < gv.len() && !placed[u] && (forall|k: int| 0 <= k < gv[u].len() ==> #[trigger] placed[gv[u][k] as int]);
                    lemma_count_unplaced_zero(gv[u], placed);
                    assert(queued_between(queue@, placed, in_degree@, u));
                    assert(in_degree@[u] == 0);
                }
            }
        }
        return None;
    }
    proof {
        reveal(grouping_state);
        let sv = stages_view(&stages);
        assert forall|x: int| 0 <= x < n implies #[trigger] placed[x] by {}
        assert forall|x: int| 0 <= x < n implies 0 <= #[trigger] level[x] < sv.len() && on_path(sv[level[x]], x) by {
            assert(placed[x]);
        }
        assert forall|x: int, k: int| 0 <= x < n && 0 <= k < gv[x].len() implies #[trigger] level[gv[x][k] as int] < level[x] by {
            assert(placed[x]);
        }
        assert forall|x: int| 0 <= x < n implies (#[trigger] level[x] == 0 <==> gv[x].len() == 0) by {
            assert(placed[x]);
        }
        assert forall|x: int| 0 <= x < n && #[trigger] level[x] > 0 implies
            exists|k: int| 0 <= k < gv[x].len() && #[trigger] level[gv[x][k] as int] == level[x] - 1 by {
            assert(placed[x]);
            assert(needs_at(gv, level, x, level[x] - 1));
        }
        assert(staged(gv, sv, level));
        assert(staged(graph_view(g), stages_view(&stages), level));
        assert(exists|lv: Seq<int>| staged(graph_view(g), stages_view(&stages), lv));
    }
    let result = Some(stages);
    proof {
        assert(result matches Some(st) && staged(graph_view(g), stages_view(&st), level));
    }
    result
}

proof fn lemma_count_unplaced_all(s: Seq<usize>, n: nat)
    requires
        forall|k: int| 0 <= k < s.len() ==> #[trigger] s[k] < n,
    ensures
        count_unplaced(s, Seq::new(n, |x: int| false)) == s.len(),
    decreases s.len(),
{
    if s.len() > 0 {
        lemma_count_unplaced_all(s.drop_last(), n);
    }
}

} // verus!
