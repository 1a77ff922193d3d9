use vstd::prelude::*;

verus! {

/// Whether every edge of the graph points at one of its nodes. `adj[i]` holds
/// the nodes that node `i` depends on.
pub open spec fn closed_graph(adj: Seq<Vec<usize>>) -> bool {
    forall|i: int, k: int|
        0 <= i < adj.len() && 0 <= k < adj[i].len() ==> (#[trigger] adj[i][k]) < adj.len()
}

/// Whether node `a` depends on node `b`.
pub open spec fn edge(adj: Seq<Vec<usize>>, a: int, b: int) -> bool {
    0 <= a < adj.len() && exists|k: int| 0 <= k < adj[a].len() && #[trigger] adj[a][k] == b
}

/// Whether each node of the chain depends on the next one.
pub open spec fn chain(adj: Seq<Vec<usize>>, path: Seq<usize>) -> bool {
    forall|k: int| 0 <= k < path.len() - 1 ==> edge(adj, #[trigger] path[k] as int, path[k + 1] as int)
}

/// A cycle: a non-empty chain whose last node depends on its first.
pub open spec fn cycle(adj: Seq<Vec<usize>>, path: Seq<usize>) -> bool {
    path.len() > 0 && chain(adj, path) && edge(adj, path.last() as int, path[0] as int)
}

/// Whether node `v` stands in `out` before position `p`.
pub open spec fn placed_before(out: Seq<usize>, v: int, p: int) -> bool {
    exists|q: int| 0 <= q < p && q < out.len() && #[trigger] out[q] == v
}

/// The position at which `v` stands before `p`.
pub proof fn lemma_place(out: Seq<usize>, v: int, p: int) -> (q: int)
    requires
        placed_before(out, v, p),
    ensures
        0 <= q < p,
        q < out.len(),
        out[q] == v,
{
    choose|q: int| 0 <= q < p && q < out.len() && #[trigger] out[q] == v
}

/// Whether every node of `out` stands after all the nodes it depends on.
pub open spec fn dependencies_first(adj: Seq<Vec<usize>>, out: Seq<usize>) -> bool {
    forall|p: int, k: int|
        0 <= p < out.len() && 0 <= k < adj[out[p] as int].len() ==> placed_before(
            out,
            #[trigger] adj[out[p] as int][k] as int,
            p,
        )
}

/// Whether `out` holds exactly the nodes marked in `done`, each once.
pub open spec fn records(done: Seq<bool>, out: Seq<usize>) -> bool {
    &&& forall|p: int| 0 <= p < out.len() ==> (#[trigger] out[p]) < done.len() && done[out[p] as int]
    &&& forall|v: int| 0 <= v < done.len() && #[trigger] done[v] ==> placed_before(out, v, out.len() as int)
    &&& forall|p: int, q: int| 0 <= p < q < out.len() ==> out[p] != out[q]
}

/// How many entries are still unmarked.
pub open spec fn unmarked(marks: Seq<bool>) -> nat
    decreases marks.len(),
{
    if marks.len() == 0 {
        0
    } else {
        unmarked(marks.drop_last()) + if marks.last() {
            0nat
        } else {
            1nat
        }
    }
}

/// The lists of edges of a graph, as sequences.
pub open spec fn rows(adj: Seq<Vec<usize>>) -> Seq<Seq<usize>> {
    Seq::new(adj.len(), |i: int| adj[i]@)
}

/// The walk from `node`, depth first. `path` holds the nodes that led here,
/// `done` marks the nodes emitted so far and `out` holds them in order. A
/// node that is done is passed over. A node that lies on the path closes a
/// cycle: the walk fails at it. Any other node is emitted after the walks
/// from the nodes it depends on, taken in the order of its list.
pub open spec fn walk(
    g: Seq<Seq<usize>>,
    node: usize,
    path: Seq<usize>,
    done: Seq<bool>,
    out: Seq<usize>,
) -> Result<(Seq<bool>, Seq<usize>), usize>
    decreases g.len() - path.len(), 0int,
{
    if done[node as int] {
        Ok((done, out))
    } else if path.contains(node) || path.len() >= g.len() {
        Err(node)
    } else {
        match walk_each(g, g[node as int], 0, path.push(node), done, out) {
            Ok((d, o)) => Ok((d.update(node as int, true), o.push(node))),
            Err(c) => Err(c),
        }
    }
}

/// The walks from the nodes of `deps`, from position `k` on, one after the
/// other. The first that fails ends them.
pub open spec fn walk_each(
    g: Seq<Seq<usize>>,
    deps: Seq<usize>,
    k: nat,
    path: Seq<usize>,
    done: Seq<bool>,
    out: Seq<usize>,
) -> Result<(Seq<bool>, Seq<usize>), usize>
    decreases g.len() - path.len(), deps.len() - k + 1,
{
    if k >= deps.len() {
        Ok((done, out))
    } else {
        match walk(g, deps[k as int], path, done, out) {
            Ok((d, o)) => walk_each(g, deps, k + 1, path, d, o),
            Err(c) => Err(c),
        }
    }
}

/// The walks from the nodes of `starts`, from position `s` on, each with an
/// empty path.
pub open spec fn walk_from(
    g: Seq<Seq<usize>>,
    starts: Seq<usize>,
    s: nat,
    done: Seq<bool>,
    out: Seq<usize>,
) -> Result<Seq<usize>, usize>
    decreases starts.len() - s,
{
    if s >= starts.len() {
        Ok(out)
    } else {
        match walk(g, starts[s as int], Seq::empty(), done, out) {
            Ok((d, o)) => walk_from(g, starts, s + 1, d, o),
            Err(c) => Err(c),
        }
    }
}

/// The order that the walks from `starts` give, or the node at which a cycle
/// closed.
pub open spec fn order_of(g: Seq<Seq<usize>>, starts: Seq<usize>) -> Result<Seq<usize>, usize> {
    walk_from(g, starts, 0, Seq::new(g.len(), |i: int| false), Seq::empty())
}

proof fn lemma_unmarked_all(marks: Seq<bool>)
    requires
        forall|i: int| 0 <= i < marks.len() ==> !marks[i],
    ensures
        unmarked(marks) == marks.len(),
    decreases marks.len(),
{
    if marks.len() > 0 {
        lemma_unmarked_all(marks.drop_last());
    }
}

proof fn lemma_mark(marks: Seq<bool>, i: int)
    requires
        0 <= i < marks.len(),
        !marks[i],
    ensures
        unmarked(marks.update(i, true)) + 1 == unmarked(marks),
    decreases marks.len(),
{
    let after = marks.update(i, true);
    if i == marks.len() - 1 {
        assert(after.drop_last() =~= marks.drop_last());
    } else {
        lemma_mark(marks.drop_last(), i);
        assert(after.drop_last() =~= marks.drop_last().update(i, true));
    }
}

/// Visits `node` depth first: everything it depends on is emitted before it.
/// `visited` marks the nodes entered since the walk left its starting node;
/// one of them that is not done yet lies on the path that led here, so
/// meeting it again closes a cycle.
fn visit(
    node: usize,
    adj: &Vec<Vec<usize>>,
    done: &mut Vec<bool>,
    visited: &mut Vec<bool>,
    out: &mut Vec<usize>,
    Ghost(path): Ghost<Seq<usize>>,
) -> (r: Result<(), usize>)
    requires
        closed_graph(adj@),
        node < adj.len(),
        old(done).len() == adj.len(),
        old(visited).len() == adj.len(),
        records(old(done)@, old(out)@),
        dependencies_first(adj@, old(out)@),
        chain(adj@, path),
        path.len() > 0 ==> edge(adj@, path.last() as int, node as int),
        forall|v: int|
            0 <= v < adj.len() && #[trigger] old(visited)[v] && !old(done)[v] ==> path.contains(
                v as usize,
            ),
        forall|k: int|
            0 <= k < path.len() ==> (#[trigger] path[k]) < adj.len() && old(visited)[path[k] as int]
                && !old(done)[path[k] as int],
        path.len() + unmarked(old(visited)@) <= adj.len(),
    ensures
        match walk(rows(adj@), node, path, old(done)@, old(out)@) {
            Ok((d, o)) => r is Ok && final(done)@ == d && final(out)@ == o,
            Err(c) => r == Err::<(), usize>(c),
        },
        final(done).len() == adj.len(),
        final(visited).len() == adj.len(),
        unmarked(final(visited)@) <= unmarked(old(visited)@),
        forall|v: int| 0 <= v < adj.len() && old(visited)[v] ==> #[trigger] final(visited)[v],
        match r {
            Ok(()) => {
                &&& records(final(done)@, final(out)@)
                &&& dependencies_first(adj@, final(out)@)
                &&& final(done)[node as int]
                &&& final(out)@.len() >= old(out)@.len()
                &&& final(out)@.take(old(out)@.len() as int) == old(out)@
                &&& forall|v: int| 0 <= v < adj.len() && old(done)[v] ==> #[trigger] final(done)[v]
                &&& forall|v: int|
                    0 <= v < adj.len() && #[trigger] final(visited)[v] && !final(done)[v] ==> old(visited)[v] && !old(done)[v]
                &&& forall|v: int|
                    0 <= v < adj.len() && old(visited)[v] && !old(done)[v] ==> !#[trigger] final(done)[v]
            },
            Err(c) => exists|path: Seq<usize>| #[trigger] cycle(adj@, path) && path[0] == c,
        },
    decreases unmarked(old(visited)@),
{
    if done[node] {
        proof {
            assert(out@.take(out@.len() as int) =~= out@);
        }
        return Ok(());
    }
    if visited[node] {
        proof {
            let p = choose|p: int| 0 <= p < path.len() && path[p] == node;
            let tail = path.subrange(p, path.len() as int);
            assert forall|k: int| 0 <= k < tail.len() - 1 implies edge(
                adj@,
                #[trigger] tail[k] as int,
                tail[k + 1] as int,
            ) by {
                assert(tail[k] == path[p + k]);
                assert(tail[k + 1] == path[p + k + 1]);
            }
            assert(tail.last() == path.last());
            assert(tail[0] == node);
            assert(cycle(adj@, tail));
        }
        return Err(node);
    }
    proof {
        lemma_mark(visited@, node as int);
        if path.contains(node) {
            let p = choose|p: int| 0 <= p < path.len() && path[p] == node;
            assert(visited[path[p] as int]);
        }
        assert(rows(adj@)[node as int] == adj@[node as int]@);
    }
    visited.set(node, true);
    let ghost here = path.push(node);
    let ghost total = walk_each(rows(adj@), adj@[node as int]@, 0, here, done@, out@);
    let ghost visited_in = visited@;
    let ghost done_in = done@;
    let ghost out_in = out@;
    proof {
        assert forall|k: int| 0 <= k < here.len() - 1 implies edge(
            adj@,
            #[trigger] here[k] as int,
            here[k + 1] as int,
        ) by {
            if k < path.len() - 1 {
                assert(here[k] == path[k]);
                assert(here[k + 1] == path[k + 1]);
            }
        }
        assert forall|v: int|
            0 <= v < adj.len() && #[trigger] visited[v] && !done[v] implies here.contains(
            v as usize,
        ) by {
            if v == node {
                assert(here[path.len() as int] == node);
            } else {
                let p = choose|p: int| 0 <= p < path.len() && path[p] == v as usize;
                assert(here[p] == v as usize);
            }
        }
        assert forall|k: int| 0 <= k < here.len() implies (#[trigger] here[k]) < adj.len()
            && visited[here[k] as int] && !done[here[k] as int] by {
            if k < path.len() {
                assert(here[k] == path[k]);
            }
        }
        assert(out@.take(out@.len() as int) =~= out@);
    }
    let deps = &adj[node];
    let mut k: usize = 0;
    while k < deps.len()
        invariant
            closed_graph(adj@),
            node < adj.len(),
            deps == adj[node as int],
            k <= deps.len(),
            done.len() == adj.len(),
            visited.len() == adj.len(),
            records(done@, out@),
            dependencies_first(adj@, out@),
            chain(adj@, here),
            here.len() > 0,
            here.last() == node,
            forall|v: int|
                0 <= v < adj.len() && #[trigger] visited[v] && !done[v] ==> here.contains(
                    v as usize,
                ),
            old(visited).len() == adj.len(),
            !old(visited)[node as int],
            !old(done)[node as int],
            visited_in == old(visited)@.update(node as int, true),
            done_in == old(done)@,
            out_in == old(out)@,
            unmarked(visited_in) + 1 == unmarked(old(visited)@),
            unmarked(visited@) <= unmarked(visited_in),
            forall|v: int| 0 <= v < adj.len() && visited_in[v] ==> #[trigger] visited[v],
            forall|j: int| 0 <= j < k ==> done[#[trigger] deps[j] as int],
            forall|j: int|
                0 <= j < here.len() ==> (#[trigger] here[j]) < adj.len() && visited[here[j] as int]
                    && !done[here[j] as int],
            here.len() + unmarked(visited@) <= adj.len(),
            !path.contains(node),
            path.len() < adj.len(),
            here == path.push(node),
            total == walk_each(rows(adj@), deps@, 0, here, done_in, out_in),
            walk_each(rows(adj@), deps@, k as nat, here, done@, out@) == total,
            out@.len() >= out_in.len(),
            out@.take(out_in.len() as int) == out_in,
            forall|v: int| 0 <= v < adj.len() && done_in[v] ==> #[trigger] done[v],
            forall|v: int|
                0 <= v < adj.len() && #[trigger] visited[v] && !done[v] ==> visited_in[v]
                    && !done_in[v],
            forall|v: int| 0 <= v < adj.len() && visited_in[v] && !done_in[v] ==> !#[trigger] done[v],
        decreases deps.len() - k,
    {
        let dep = deps[k];
        let ghost out_mid = out@;
        proof {
            assert(adj@[node as int][k as int] == dep);
            assert(edge(adj@, node as int, dep as int));
        }
        let ghost done_mid = done@;
        let ghost visited_mid = visited@;
        match visit(dep, adj, done, visited, out, Ghost(here)) {
            Ok(()) => {},
            Err(c) => {
                proof {
                    assert(walk(rows(adj@), dep, here, done_mid, out_mid) == Err::<
                        (Seq<bool>, Seq<usize>),
                        usize,
                    >(c));
                    assert(rows(adj@)[node as int] == deps@);
                }
                return Err(c);
            },
        }
        proof {
            assert(out@.take(out_in.len() as int) =~= out_mid.take(out_in.len() as int));
            assert forall|j: int| 0 <= j < here.len() implies (#[trigger] here[j]) < adj.len()
                && visited[here[j] as int] && !done[here[j] as int] by {
                assert(visited_mid[here[j] as int] && !done_mid[here[j] as int]);
            }
        }
        k = k + 1;
    }
    proof {
        assert(rows(adj@)[node as int] == deps@);
    }
    let ghost out_mid = out@;
    let ghost done_mid = done@;
    done.set(node, true);
    out.push(node);
    proof {
        let p_new = out_mid.len() as int;
        assert(out@[p_new] == node);
        assert forall|p: int| 0 <= p < out@.len() implies (#[trigger] out@[p]) < done.len()
            && done[out@[p] as int] by {
            if p < p_new {
                assert(out@[p] == out_mid[p]);
            }
        }
        assert forall|v: int| 0 <= v < done.len() && #[trigger] done[v] implies placed_before(
            out@,
            v,
            out@.len() as int,
        ) by {
            if v == node {
                assert(out@[p_new] == v);
            } else {
                let q = choose|q: int| 0 <= q < out_mid.len() && #[trigger] out_mid[q] == v;
                assert(out@[q] == v);
            }
        }
        assert forall|p: int, q: int| 0 <= p < q < out@.len() implies out@[p] != out@[q] by {
            assert(out@[p] == out_mid[p]);
            if q < p_new {
                assert(out@[q] == out_mid[q]);
            }
        }
        assert forall|p: int, j: int|
            0 <= p < out@.len() && 0 <= j < adj@[out@[p] as int].len() implies placed_before(
            out@,
            #[trigger] adj@[out@[p] as int][j] as int,
            p,
        ) by {
            let d = adj@[out@[p] as int][j] as int;
            if p < p_new {
                assert(out@[p] == out_mid[p]);
                assert(placed_before(out_mid, d, p));
                let q = choose|q: int| 0 <= q < p && q < out_mid.len() && #[trigger] out_mid[q] == d;
                assert(out@[q] == d);
            } else {
                assert(done_mid[deps[j] as int]);
                assert(placed_before(out_mid, d, out_mid.len() as int));
                let q = choose|q: int|
                    0 <= q < out_mid.len() && q < out_mid.len() && #[trigger] out_mid[q] == d;
                assert(out@[q] == d);
            }
        }
        assert(out@.take(out_in.len() as int) =~= out_mid.take(out_in.len() as int));
    }
    Ok(())
}

/// Orders the nodes of a graph so that each comes after everything it depends
/// on. The walk starts from the nodes of `starts` in turn, and goes through
/// the dependencies of a node in the order in which `adj` lists them.
pub fn dependency_order(adj: &Vec<Vec<usize>>, starts: &Vec<usize>) -> (r: Result<
    Vec<usize>,
    usize,
>)
    requires
        closed_graph(adj@),
        forall|s: int| 0 <= s < starts.len() ==> (#[trigger] starts[s]) < adj.len(),
    ensures
        match order_of(rows(adj@), starts@) {
            Ok(o) => r matches Ok(out) && out@ == o,
            Err(c) => r == Err::<Vec<usize>, usize>(c),
        },
        match r {
            Ok(out) => {
                &&& dependencies_first(adj@, out@)
                &&& forall|p: int| 0 <= p < out.len() ==> (#[trigger] out[p]) < adj.len()
                &&& forall|p: int, q: int| 0 <= p < q < out.len() ==> out[p] != out[q]
                &&& forall|s: int|
                    0 <= s < starts.len() ==> placed_before(
                        out@,
                        #[trigger] starts[s] as int,
                        out.len() as int,
                    )
            },
            Err(c) => exists|path: Seq<usize>| #[trigger] cycle(adj@, path) && path[0] == c,
        },
{
    let n = adj.len();
    let mut done: Vec<bool> = Vec::new();
    let mut i: usize = 0;
    while i < n
        invariant
            i <= n,
            done.len() == i,
            forall|v: int| 0 <= v < i ==> !#[trigger] done[v],
        decreases n - i,
    {
        done.push(false);
        i = i + 1;
    }
    let mut out: Vec<usize> = Vec::new();
    let mut s: usize = 0;
    proof {
        assert(done@ =~= Seq::new(adj@.len(), |i: int| false));
        assert(rows(adj@).len() == adj@.len());
    }
    while s < starts.len()
        invariant
            n == adj.len(),
            closed_graph(adj@),
            forall|s: int| 0 <= s < starts.len() ==> (#[trigger] starts[s]) < adj.len(),
            s <= starts.len(),
            done.len() == n,
            records(done@, out@),
            dependencies_first(adj@, out@),
            forall|j: int| 0 <= j < s ==> done[#[trigger] starts[j] as int],
            walk_from(rows(adj@), starts@, s as nat, done@, out@) == order_of(
                rows(adj@),
                starts@,
            ),
        decreases starts.len() - s,
    {
        let mut visited: Vec<bool> = Vec::new();
        let mut i: usize = 0;
        while i < n
            invariant
                i <= n,
                visited.len() == i,
                forall|v: int| 0 <= v < i ==> !#[trigger] visited[v],
            decreases n - i,
        {
            visited.push(false);
            i = i + 1;
        }
        proof {
            lemma_unmarked_all(visited@);
        }
        match visit(starts[s], adj, &mut done, &mut visited, &mut out, Ghost(Seq::empty())) {
            Ok(()) => {},
            Err(c) => {
                return Err(c);
            },
        }
        s = s + 1;
    }
    Ok(out)
}

/// An order in which every node comes after what it depends on holds no
/// node that lies on a cycle.
pub proof fn lemma_order_excludes_cycle(adj: Seq<Vec<usize>>, out: Seq<usize>, path: Seq<usize>)
    requires
        dependencies_first(adj, out),
        forall|p: int, q: int| 0 <= p < q < out.len() ==> out[p] != out[q],
        cycle(adj, path),
    ensures
        !placed_before(out, path[0] as int, out.len() as int),
{
    if placed_before(out, path[0] as int, out.len() as int) {
        let first = choose|q: int| 0 <= q < out.len() && #[trigger] out[q] == path[0];
        lemma_chain_descends(adj, out, path, first, path.len() - 1);
        let pl = choose|q: int| 0 <= q <= first - (path.len() - 1) && #[trigger] out[q] == path.last();
        let k = choose|k: int|
            0 <= k < adj[path.last() as int].len() && #[trigger] adj[path.last() as int][k]
                == path[0];
        assert(placed_before(out, adj[out[pl] as int][k] as int, pl));
        let q0 = choose|q: int| 0 <= q < pl && q < out.len() && #[trigger] out[q] == path[0];
        assert(q0 < first);
    }
}

/// Along a chain that starts at position `first` of the order, the node `k`
/// steps on stands at least `k` positions earlier.
proof fn lemma_chain_descends(
    adj: Seq<Vec<usize>>,
    out: Seq<usize>,
    path: Seq<usize>,
    first: int,
    k: int,
)
    requires
        dependencies_first(adj, out),
        chain(adj, path),
        0 <= first < out.len(),
        out[first] == path[0],
        0 <= k < path.len(),
    ensures
        exists|q: int| 0 <= q <= first - k && #[trigger] out[q] == path[k],
    decreases k,
{
    if k > 0 {
        lemma_chain_descends(adj, out, path, first, k - 1);
        let q = choose|q: int| 0 <= q <= first - (k - 1) && #[trigger] out[q] == path[k - 1];
        assert(edge(adj, path[k - 1] as int, path[k] as int));
        let j = choose|j: int| 0 <= j < adj[path[k - 1] as int].len() && #[trigger] adj[path[k - 1] as int][j] == path[k];
        assert(placed_before(out, adj[out[q] as int][j] as int, q));
    }
}

} // verus!
