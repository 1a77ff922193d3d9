use vstd::prelude::*;
use crate::error::Error;
use crate::object_id::{get_object_type, id_type};
use crate::object_type::DatabaseObjectType;
use crate::order::{
    closed_graph, cycle, dependency_order, edge, lemma_order_excludes_cycle, lemma_place,
    order_of, placed_before, rows,
};
use crate::project::{
    contains_str, declares, distinct, find_object, holds, unique_ids, DatabaseObject,
    DatabaseProject,
};
use crate::sorted::{lemma_lex_lt_total, sort_strings};
use crate::text::lex_lt;

verus! {

/// Whether the declared object `a` depends on the declared object `b`.
pub open spec fn depends_on(objects: Seq<DatabaseObject>, a: Seq<char>, b: Seq<char>) -> bool {
    declares(objects, b) && exists|i: int|
        0 <= i < objects.len() && (#[trigger] objects[i]).id@ == a && holds(
            objects[i].depends_on@,
            b,
        )
}

/// A cycle of dependencies: each id depends on the next, the last on the
/// first.
pub open spec fn id_cycle(objects: Seq<DatabaseObject>, path: Seq<Seq<char>>) -> bool {
    &&& path.len() > 0
    &&& forall|k: int| 0 <= k < path.len() - 1 ==> depends_on(objects, #[trigger] path[k], path[k + 1])
    &&& depends_on(objects, path.last(), path[0])
}

/// Whether the dependencies among the declared objects hold no cycle.
pub open spec fn acyclic(objects: Seq<DatabaseObject>) -> bool {
    forall|path: Seq<Seq<char>>| !#[trigger] id_cycle(objects, path)
}

/// Whether `id` stands in `order` before position `p`.
pub open spec fn stands_before(order: Seq<String>, id: Seq<char>, p: int) -> bool {
    exists|q: int| 0 <= q < p && q < order.len() && (#[trigger] order[q])@ == id
}

/// Whether `order` is an order of creation for `objects`: it holds every
/// declared id exactly once, and each id after all the ids it depends on.
pub open spec fn creation_order(objects: Seq<DatabaseObject>, order: Seq<String>) -> bool {
    &&& distinct(order)
    &&& forall|id: Seq<char>| holds(order, id) <==> declares(objects, id)
    &&& forall|p: int, b: Seq<char>|
        0 <= p < order.len() && #[trigger] depends_on(objects, order[p]@, b) ==> stands_before(
            order,
            b,
            p,
        )
}

/// Whether every declared id names a known object type.
pub open spec fn typed(objects: Seq<DatabaseObject>) -> bool {
    forall|i: int| 0 <= i < objects.len() ==> id_type((#[trigger] objects[i]).id@) is Some
}

/// Whether the object at this position is a role.
pub open spec fn is_role(objects: Seq<DatabaseObject>, i: int) -> bool {
    id_type(objects[i].id@) == Some(DatabaseObjectType::Role)
}

/// Whether `list` holds every position of `objects`, and nothing else.
pub open spec fn covers(list: Seq<usize>, n: int) -> bool {
    &&& forall|k: int| 0 <= k < list.len() ==> (#[trigger] list[k]) < n
    &&& forall|i: int| 0 <= i < n ==> placed_before(list, i, list.len() as int)
}

/// Whether `idx` holds the positions of the objects in the ascending order
/// of their ids.
pub open spec fn by_id(objects: Seq<DatabaseObject>, idx: Seq<usize>) -> bool {
    &&& covers(idx, objects.len() as int)
    &&& forall|a: int, b: int|
        0 <= a < b < idx.len() ==> lex_lt(
            objects[(#[trigger] idx[a]) as int].id@,
            objects[(#[trigger] idx[b]) as int].id@,
        )
}

/// The positions of `idx` at which no role stands, in order.
pub open spec fn plain_positions(objects: Seq<DatabaseObject>, idx: Seq<usize>) -> Seq<usize>
    decreases idx.len(),
{
    if idx.len() == 0 {
        Seq::empty()
    } else if is_role(objects, idx.last() as int) {
        plain_positions(objects, idx.drop_last())
    } else {
        plain_positions(objects, idx.drop_last()).push(idx.last())
    }
}

/// The positions of `idx` at which a role stands, in order.
pub open spec fn role_positions(objects: Seq<DatabaseObject>, idx: Seq<usize>) -> Seq<usize>
    decreases idx.len(),
{
    if idx.len() == 0 {
        Seq::empty()
    } else if is_role(objects, idx.last() as int) {
        role_positions(objects, idx.drop_last()).push(idx.last())
    } else {
        role_positions(objects, idx.drop_last())
    }
}

/// The positions of `idx` whose objects the object at position `i` lists as
/// its dependencies, in order.
pub open spec fn dependency_positions(objects: Seq<DatabaseObject>, i: int, idx: Seq<usize>) -> Seq<
    usize,
>
    decreases idx.len(),
{
    if idx.len() == 0 {
        Seq::empty()
    } else if holds(objects[i].depends_on@, objects[idx.last() as int].id@) {
        dependency_positions(objects, i, idx.drop_last()).push(idx.last())
    } else {
        dependency_positions(objects, i, idx.drop_last())
    }
}

/// The walk over the objects, by positions: it starts from the objects that
/// are no roles, in the order of `idx`, then from the roles, and goes into
/// the dependencies of an object in the order of `idx`. It gives the order of
/// the positions, or the position at which a cycle closed.
pub open spec fn planned_order(objects: Seq<DatabaseObject>, idx: Seq<usize>) -> Result<
    Seq<usize>,
    usize,
> {
    order_of(
        Seq::new(objects.len(), |i: int| dependency_positions(objects, i, idx)),
        plain_positions(objects, idx) + role_positions(objects, idx),
    )
}

/// Whether `r` is what the walk over the objects gives: the ids in the
/// order of the walk, or the id at which a cycle closed.
pub open spec fn follows_plan(
    objects: Seq<DatabaseObject>,
    idx: Seq<usize>,
    r: Result<Vec<String>, Error>,
) -> bool {
    match planned_order(objects, idx) {
        Ok(o) => r matches Ok(order) && order.len() == o.len() && forall|p: int|
            0 <= p < o.len() ==> (#[trigger] order[p])@ == objects[o[p] as int].id@,
        Err(c) => r matches Err(Error::CycleDetected { id }) && id@ == objects[c as int].id@,
    }
}

/// The positions of the objects, in the ascending order of their ids.
fn positions_by_id(objects: &Vec<DatabaseObject>) -> (idx: Vec<usize>)
    requires
        unique_ids(objects@),
    ensures
        by_id(objects@, idx@),
{
    let mut ids: Vec<String> = Vec::new();
    let mut i: usize = 0;
    while i < objects.len()
        invariant
            i <= objects.len(),
            ids.len() == i,
            forall|j: int| 0 <= j < i ==> (#[trigger] ids[j])@ == objects[j].id@,
        decreases objects.len() - i,
    {
        ids.push(objects[i].id.clone());
        i = i + 1;
    }
    let sorted = sort_strings(&ids);
    proof {
        assert forall|a: int, b: int|
            0 <= a < ids.len() && 0 <= b < ids.len() && a != b implies ids[a]@ != ids[b]@ by {
            assert(objects[a].id@ != objects[b].id@);
        }
    }
    let mut idx: Vec<usize> = Vec::new();
    let mut k: usize = 0;
    while k < sorted.len()
        invariant
            k <= sorted.len(),
            idx.len() == k,
            forall|q: int|
                0 <= q < idx.len() ==> objects[(#[trigger] idx[q]) as int].id@ == sorted[q]@,
            unique_ids(objects@),
            ids.len() == objects.len(),
            forall|j: int| 0 <= j < ids.len() ==> (#[trigger] ids[j])@ == objects[j].id@,
            forall|s: Seq<char>| holds(sorted@, s) <==> holds(ids@, s),
            forall|q: int| 0 <= q < idx.len() ==> (#[trigger] idx[q]) < objects.len(),
            forall|j: int|
                0 <= j < k ==> placed_before(
                    idx@,
                    choose|i: int|
                        0 <= i < objects.len() && objects[i].id@ == (#[trigger] sorted[j])@,
                    idx.len() as int,
                ),
            forall|j: int|
                0 <= j < k ==> exists|i: int|
                    0 <= i < objects.len() && objects[i].id@ == (#[trigger] sorted[j])@,
        decreases sorted.len() - k,
    {
        let ghost before = idx@;
        match find_object(objects, sorted[k].as_str()) {
            Some(j) => {
                idx.push(j);
                proof {
                    assert forall|m: int| 0 <= m < k + 1 implies placed_before(
                        idx@,
                        choose|i: int|
                            0 <= i < objects.len() && objects[i].id@ == (#[trigger] sorted[m])@,
                        idx.len() as int,
                    ) by {
                        let c = choose|i: int|
                            0 <= i < objects.len() && objects[i].id@ == sorted[m]@;
                        if m < k {
                            let q = lemma_place(before, c as int, before.len() as int);
                            assert(idx@[q] == c);
                        } else {
                            assert(objects[j as int].id@ == sorted[m]@);
                            assert(c == j);
                            assert(idx@[before.len() as int] == c);
                        }
                    }
                }
            },
            None => {
                proof {
                    assert(holds(sorted@, sorted[k as int]@));
                    let w = choose|w: int| 0 <= w < ids.len() && (#[trigger] ids[w])@ == sorted[k as int]@;
                    assert(objects[w].id@ == sorted[k as int]@);
                    assert(false);
                }
            },
        }
        k = k + 1;
    }
    proof {
        assert forall|i: int| 0 <= i < objects.len() implies placed_before(
            idx@,
            i,
            idx.len() as int,
        ) by {
            assert(holds(ids@, ids[i]@));
            let j = choose|j: int| 0 <= j < sorted.len() && (#[trigger] sorted[j])@ == ids[i]@;
            let c = choose|c: int| 0 <= c < objects.len() && objects[c].id@ == sorted[j]@;
            assert(objects[i].id@ == sorted[j]@);
            assert(c == i);
        }
        assert forall|a: int, b: int| 0 <= a < b < idx.len() implies lex_lt(
            objects[(#[trigger] idx[a]) as int].id@,
            objects[(#[trigger] idx[b]) as int].id@,
        ) by {
            assert(sorted[a]@ != sorted[b]@);
            assert(!lex_lt(sorted[b]@, sorted[a]@));
            lemma_lex_lt_total(sorted[a]@, sorted[b]@);
        }
    }
    idx
}

/// The nodes from which the walk starts, in turn: the objects that are no
/// roles, then the roles.
fn start_nodes(objects: &Vec<DatabaseObject>, idx: &Vec<usize>) -> (r: Result<Vec<usize>, Error>)
    requires
        covers(idx@, objects.len() as int),
    ensures
        match r {
            Ok(starts) => {
                &&& typed(objects@)
                &&& covers(starts@, objects.len() as int)
                &&& starts@ == plain_positions(objects@, idx@) + role_positions(objects@, idx@)
            },
            Err(e) => !typed(objects@) && e is UnknownObjectType,
        },
{
    let mut roles: Vec<bool> = Vec::new();
    let mut i: usize = 0;
    while i < objects.len()
        invariant
            i <= objects.len(),
            roles.len() == i,
            forall|j: int| 0 <= j < i ==> id_type((#[trigger] objects[j]).id@) is Some,
            forall|j: int| 0 <= j < i ==> #[trigger] roles[j] == is_role(objects@, j),
        decreases objects.len() - i,
    {
        match get_object_type(objects[i].id.as_str()) {
            Ok(t) => {
                roles.push(t == DatabaseObjectType::Role);
            },
            Err(e) => {
                return Err(e);
            },
        }
        i = i + 1;
    }
    let mut starts: Vec<usize> = Vec::new();
    let mut k: usize = 0;
    while k < idx.len()
        invariant
            k <= idx.len(),
            roles.len() == objects.len(),
            covers(idx@, objects.len() as int),
            forall|j: int| 0 <= j < roles.len() ==> #[trigger] roles[j] == is_role(objects@, j),
            starts@ == plain_positions(objects@, idx@.take(k as int)),
            forall|q: int| 0 <= q < starts.len() ==> (#[trigger] starts[q]) < objects.len(),
            forall|j: int|
                0 <= j < k && !is_role(objects@, (#[trigger] idx[j]) as int) ==> placed_before(
                    starts@,
                    idx[j] as int,
                    starts.len() as int,
                ),
        decreases idx.len() - k,
    {
        let ghost before = starts@;
        proof {
            assert(idx@.take(k + 1).drop_last() =~= idx@.take(k as int));
            assert(idx@.take(k + 1).last() == idx@[k as int]);
        }
        if !roles[idx[k]] {
            starts.push(idx[k]);
            proof {
                assert(starts@[before.len() as int] == idx[k as int]);
                assert forall|j: int|
                    0 <= j < k + 1 && !is_role(
                        objects@,
                        (#[trigger] idx[j]) as int,
                    ) implies placed_before(starts@, idx[j] as int, starts.len() as int) by {
                    if j < k {
                        let q = lemma_place(before, idx[j] as int, before.len() as int);
                        assert(starts@[q] == idx[j]);
                    }
                }
            }
        }
        k = k + 1;
    }
    let ghost plain = starts@;
    proof {
        assert(idx@.take(idx.len() as int) =~= idx@);
        assert(plain + Seq::<usize>::empty() =~= plain);
    }
    let mut k: usize = 0;
    while k < idx.len()
        invariant
            k <= idx.len(),
            roles.len() == objects.len(),
            covers(idx@, objects.len() as int),
            forall|j: int| 0 <= j < roles.len() ==> #[trigger] roles[j] == is_role(objects@, j),
            plain == plain_positions(objects@, idx@),
            starts@ == plain + role_positions(objects@, idx@.take(k as int)),
            forall|q: int| 0 <= q < starts.len() ==> (#[trigger] starts[q]) < objects.len(),
            forall|j: int|
                0 <= j < idx.len() && !is_role(objects@, (#[trigger] idx[j]) as int)
                    ==> placed_before(starts@, idx[j] as int, starts.len() as int),
            forall|j: int|
                0 <= j < k && is_role(objects@, (#[trigger] idx[j]) as int) ==> placed_before(
                    starts@,
                    idx[j] as int,
                    starts.len() as int,
                ),
        decreases idx.len() - k,
    {
        let ghost before = starts@;
        proof {
            assert(idx@.take(k + 1).drop_last() =~= idx@.take(k as int));
            assert(idx@.take(k + 1).last() == idx@[k as int]);
        }
        if roles[idx[k]] {
            starts.push(idx[k]);
            proof {
                assert(starts@[before.len() as int] == idx[k as int]);
                assert(starts@ =~= plain + role_positions(objects@, idx@.take(k + 1)));
                assert forall|j: int|
                    0 <= j < idx.len() && !is_role(
                        objects@,
                        (#[trigger] idx[j]) as int,
                    ) implies placed_before(starts@, idx[j] as int, starts.len() as int) by {
                    let q = lemma_place(before, idx[j] as int, before.len() as int);
                    assert(starts@[q] == idx[j]);
                }
                assert forall|j: int|
                    0 <= j < k + 1 && is_role(
                        objects@,
                        (#[trigger] idx[j]) as int,
                    ) implies placed_before(starts@, idx[j] as int, starts.len() as int) by {
                    if j < k {
                        let q = lemma_place(before, idx[j] as int, before.len() as int);
                        assert(starts@[q] == idx[j]);
                    }
                }
            }
        }
        k = k + 1;
    }
    proof {
        assert(idx@.take(idx.len() as int) =~= idx@);
        assert forall|i: int| 0 <= i < objects.len() implies placed_before(
            starts@,
            i,
            starts.len() as int,
        ) by {
            let j = lemma_place(idx@, i as int, idx@.len() as int);
            assert(idx[j] == i);
        }
    }
    Ok(starts)
}

/// Whether `adj` is the graph of the dependencies among `objects`: node `i`
/// has an edge to node `j` exactly when object `i` lists the id of object `j`.
pub open spec fn graph_of(objects: Seq<DatabaseObject>, adj: Seq<Vec<usize>>) -> bool {
    &&& adj.len() == objects.len()
    &&& closed_graph(adj)
    &&& forall|i: int, j: int|
        0 <= i < objects.len() && 0 <= j < objects.len() ==> (#[trigger] edge(adj, i, j) <==> holds(
            objects[i].depends_on@,
            objects[j].id@,
        ))
}

/// The dependency graph over positions. The edges of a node are listed in
/// the order of `idx`.
fn dependency_graph(objects: &Vec<DatabaseObject>, idx: &Vec<usize>) -> (adj: Vec<Vec<usize>>)
    requires
        covers(idx@, objects.len() as int),
    ensures
        graph_of(objects@, adj@),
        forall|i: int|
            0 <= i < objects.len() ==> (#[trigger] adj[i])@ == dependency_positions(
                objects@,
                i,
                idx@,
            ),
{
    let mut adj: Vec<Vec<usize>> = Vec::new();
    let mut i: usize = 0;
    while i < objects.len()
        invariant
            i <= objects.len(),
            adj.len() == i,
            covers(idx@, objects.len() as int),
            forall|a: int|
                0 <= a < i ==> (#[trigger] adj[a])@ == dependency_positions(objects@, a, idx@),
            forall|a: int, k: int|
                0 <= a < i && 0 <= k < adj[a].len() ==> (#[trigger] adj[a][k]) < objects.len(),
            forall|a: int, j: int|
                0 <= a < i && 0 <= j < objects.len() ==> (#[trigger] edge(adj@, a, j) <==> holds(
                    objects[a].depends_on@,
                    objects[j].id@,
                )),
        decreases objects.len() - i,
    {
        let mut row: Vec<usize> = Vec::new();
        let mut k: usize = 0;
        while k < idx.len()
            invariant
                i < objects.len(),
                k <= idx.len(),
                covers(idx@, objects.len() as int),
                row@ == dependency_positions(objects@, i as int, idx@.take(k as int)),
                forall|q: int|
                    0 <= q < row.len() ==> (#[trigger] row[q]) < objects.len() && holds(
                        objects[i as int].depends_on@,
                        objects[row[q] as int].id@,
                    ),
                forall|m: int|
                    0 <= m < k && holds(
                        objects[i as int].depends_on@,
                        objects[(#[trigger] idx[m]) as int].id@,
                    ) ==> placed_before(row@, idx[m] as int, row.len() as int),
            decreases idx.len() - k,
        {
            let j = idx[k];
            let ghost before = row@;
            proof {
                assert(idx@.take(k + 1).drop_last() =~= idx@.take(k as int));
                assert(idx@.take(k + 1).last() == idx@[k as int]);
            }
            if contains_str(&objects[i].depends_on, objects[j].id.as_str()) {
                row.push(j);
                proof {
                    assert(row@[before.len() as int] == j);
                    assert forall|m: int|
                        0 <= m < k + 1 && holds(
                            objects[i as int].depends_on@,
                            objects[(#[trigger] idx[m]) as int].id@,
                        ) implies placed_before(row@, idx[m] as int, row.len() as int) by {
                        if m < k {
                            let q = lemma_place(before, idx[m] as int, before.len() as int);
                            assert(row@[q] == idx[m]);
                        }
                    }
                }
            }
            k = k + 1;
        }
        let ghost old_adj = adj@;
        proof {
            assert(idx@.take(idx.len() as int) =~= idx@);
        }
        adj.push(row);
        proof {
            assert forall|a: int| 0 <= a < i + 1 implies (#[trigger] adj[a])@
                == dependency_positions(objects@, a, idx@) by {
                if a < i {
                    assert(adj@[a] == old_adj[a]);
                } else {
                    assert(adj@[a] == row);
                }
            }
            assert forall|a: int, j: int| 0 <= a < i + 1 && 0 <= j < objects.len() implies (
            #[trigger] edge(adj@, a, j) <==> holds(objects[a].depends_on@, objects[j].id@)) by {
                if a < i {
                    assert(adj@[a] == old_adj[a]);
                    assert(edge(old_adj, a, j) <==> edge(adj@, a, j));
                } else {
                    assert(adj@[a] == row);
                    if holds(objects[a].depends_on@, objects[j].id@) {
                        let m = lemma_place(idx@, j as int, idx@.len() as int);
                        assert(placed_before(row@, idx[m] as int, row.len() as int));
                        let q = lemma_place(row@, j as int, row@.len() as int);
                        assert(adj@[a][q] == j);
                    }
                    if edge(adj@, a, j) {
                        let q = choose|q: int| 0 <= q < adj@[a].len() && #[trigger] adj@[a][q] == j;
                        assert(row[q] == j);
                    }
                }
            }
            assert forall|a: int, k: int| 0 <= a < i + 1 && 0 <= k < adj[a].len() implies (
            #[trigger] adj[a][k]) < objects.len() by {
                if a < i {
                    assert(adj@[a] == old_adj[a]);
                } else {
                    assert(adj@[a] == row);
                }
            }
        }
        i = i + 1;
    }
    adj
}

/// A cycle among the nodes of the graph is a cycle among the ids.
proof fn lemma_cycle_of_ids(objects: Seq<DatabaseObject>, adj: Seq<Vec<usize>>, path: Seq<usize>)
    requires
        graph_of(objects, adj),
        cycle(adj, path),
    ensures
        id_cycle(objects, Seq::new(path.len(), |k: int| objects[path[k] as int].id@)),
{
    let ids = Seq::new(path.len(), |k: int| objects[path[k] as int].id@);
    assert forall|k: int| 0 <= k < path.len() implies 0 <= (#[trigger] path[k]) < objects.len() by {
        if k < path.len() - 1 {
            assert(edge(adj, path[k] as int, path[k + 1] as int));
        } else {
            assert(edge(adj, path.last() as int, path[0] as int));
        }
    }
    assert forall|a: int, b: int|
        0 <= a < objects.len() && 0 <= b < objects.len() && edge(adj, a, b) implies depends_on(
        objects,
        objects[a].id@,
        objects[b].id@,
    ) by {
        assert(declares(objects, objects[b].id@));
    }
    assert forall|k: int| 0 <= k < ids.len() - 1 implies depends_on(
        objects,
        #[trigger] ids[k],
        ids[k + 1],
    ) by {
        assert(edge(adj, path[k] as int, path[k + 1] as int));
    }
    assert(edge(adj, path.last() as int, path[0] as int));
}

/// A cycle among the ids is a cycle among the nodes of the graph.
proof fn lemma_cycle_of_nodes(
    objects: Seq<DatabaseObject>,
    adj: Seq<Vec<usize>>,
    ids: Seq<Seq<char>>,
) -> (path: Seq<usize>)
    requires
        objects.len() <= usize::MAX,
        unique_ids(objects),
        graph_of(objects, adj),
        id_cycle(objects, ids),
    ensures
        cycle(adj, path),
        path.len() == ids.len(),
        0 <= path[0] < objects.len(),
{
    assert forall|k: int| 0 <= k < ids.len() implies declares(objects, #[trigger] ids[k]) by {
        if k < ids.len() - 1 {
            assert(depends_on(objects, ids[k], ids[k + 1]));
        } else {
            assert(depends_on(objects, ids.last(), ids[0]));
        }
    }
    let path = Seq::new(
        ids.len(),
        |k: int| (choose|i: int| 0 <= i < objects.len() && (#[trigger] objects[i]).id@ == ids[k]) as usize,
    );
    assert forall|k: int| 0 <= k < ids.len() implies 0 <= (#[trigger] path[k]) < objects.len()
        && objects[path[k] as int].id@ == ids[k] by {
        assert(declares(objects, ids[k]));
    }
    assert forall|a: int, b: int|
        0 <= a < ids.len() && 0 <= b < ids.len() && depends_on(objects, ids[a], ids[b]) implies edge(
        adj,
        path[a] as int,
        path[b] as int,
    ) by {
        let i = choose|i: int|
            0 <= i < objects.len() && (#[trigger] objects[i]).id@ == ids[a] && holds(
                objects[i].depends_on@,
                ids[b],
            );
        assert(path[a] < objects.len() && objects[path[a] as int].id@ == ids[a]);
        assert(path[b] < objects.len() && objects[path[b] as int].id@ == ids[b]);
        assert(i == path[a]);
    }
    assert forall|k: int| 0 <= k < path.len() - 1 implies edge(
        adj,
        #[trigger] path[k] as int,
        path[k + 1] as int,
    ) by {
        assert(depends_on(objects, ids[k], ids[k + 1]));
    }
    assert(depends_on(objects, ids.last(), ids[0]));
    assert(path.last() == path[ids.len() - 1]);
    path
}

/// The order in which the declared objects are created: every id once, each
/// after all the ids it depends on. The walk takes the objects that are no
/// roles in the ascending order of their ids, then the roles, and goes into
/// the dependencies of an object in ascending order before it emits the
/// object itself. A cycle among the dependencies is an error, and so is an id
/// that names no object type.
pub fn calc_create_order(objects: &Vec<DatabaseObject>) -> (r: Result<Vec<String>, Error>)
    requires
        unique_ids(objects@),
    ensures
        r is Ok <==> typed(objects@) && acyclic(objects@),
        match r {
            Ok(order) => creation_order(objects@, order@),
            Err(Error::CycleDetected { id }) => typed(objects@) && exists|path: Seq<Seq<char>>|
                #[trigger] id_cycle(objects@, path) && path[0] == id@,
            Err(e) => !typed(objects@) && e is UnknownObjectType,
        },
        typed(objects@) ==> exists|idx: Seq<usize>|
            by_id(objects@, idx) && #[trigger] follows_plan(objects@, idx, r),
{
    let idx = positions_by_id(objects);
    let starts = start_nodes(objects, &idx)?;
    let adj = dependency_graph(objects, &idx);
    proof {
        assert(rows(adj@) =~= Seq::new(
            objects@.len(),
            |i: int| dependency_positions(objects@, i, idx@),
        ));
        assert(order_of(rows(adj@), starts@) == planned_order(objects@, idx@));
    }
    match dependency_order(&adj, &starts) {
        Err(c) => {
            proof {
                let path = choose|path: Seq<usize>| #[trigger] cycle(adj@, path) && path[0] == c;
                lemma_cycle_of_ids(objects@, adj@, path);
                let ids = Seq::new(path.len(), |k: int| objects[path[k] as int].id@);
                assert(edge(adj@, path.last() as int, path[0] as int));
                assert(ids[0] == objects[c as int].id@);
            }
            assert(c < objects.len()) by {
                let path = choose|path: Seq<usize>| #[trigger] cycle(adj@, path) && path[0] == c;
                assert(edge(adj@, path.last() as int, path[0] as int));
            }
            let r = Err(Error::CycleDetected { id: objects[c].id.clone() });
            proof {
                assert(follows_plan(objects@, idx@, r));
            }
            r
        },
        Ok(out) => {
            let mut order: Vec<String> = Vec::new();
            let mut p: usize = 0;
            while p < out.len()
                invariant
                    p <= out.len(),
                    order.len() == p,
                    planned_order(objects@, idx@) == Ok::<Seq<usize>, usize>(out@),
                    forall|q: int| 0 <= q < out.len() ==> (#[trigger] out[q]) < objects.len(),
                    forall|q: int|
                        0 <= q < p ==> (#[trigger] order[q])@ == objects[out[q] as int].id@,
                decreases out.len() - p,
            {
                order.push(objects[out[p]].id.clone());
                p = p + 1;
            }
            proof {
                let objs = objects@;
                assert forall|a: int, b: int|
                    0 <= a < order.len() && 0 <= b < order.len() && a != b implies order[a]@
                    != order[b]@ by {
                    if a < b {
                        assert(out[a] != out[b]);
                    } else {
                        assert(out[b] != out[a]);
                    }
                }
                assert forall|id: Seq<char>| holds(order@, id) <==> declares(objs, id) by {
                    if holds(order@, id) {
                        let q = choose|q: int| 0 <= q < order.len() && (#[trigger] order[q])@ == id;
                        assert(objs[out[q] as int].id@ == id);
                    }
                    if declares(objs, id) {
                        let i = choose|i: int| 0 <= i < objs.len() && (#[trigger] objs[i]).id@ == id;
                        assert(placed_before(starts@, i, starts.len() as int));
                        let s = lemma_place(starts@, i as int, starts@.len() as int);
                        assert(placed_before(out@, starts[s] as int, out.len() as int));
                        let q = lemma_place(out@, i as int, out@.len() as int);
                        assert(order[q]@ == id);
                    }
                }
                assert forall|p: int, b: Seq<char>|
                    0 <= p < order.len() && #[trigger] depends_on(
                        objs,
                        order[p]@,
                        b,
                    ) implies stands_before(order@, b, p) by {
                    let i = choose|i: int|
                        0 <= i < objs.len() && (#[trigger] objs[i]).id@ == order[p]@ && holds(
                            objs[i].depends_on@,
                            b,
                        );
                    assert(objs[out[p] as int].id@ == order[p]@);
                    assert(i == out[p]);
                    let j = choose|j: int| 0 <= j < objs.len() && (#[trigger] objs[j]).id@ == b;
                    assert(edge(adj@, i, j));
                    let k = choose|k: int| 0 <= k < adj@[i].len() && #[trigger] adj@[i][k] == j;
                    assert(placed_before(out@, adj@[out[p] as int][k] as int, p as int));
                    let q = lemma_place(out@, j, p);
                    assert(order[q]@ == b);
                }
                assert forall|ids: Seq<Seq<char>>| !#[trigger] id_cycle(objs, ids) by {
                    if id_cycle(objs, ids) {
                        let path = lemma_cycle_of_nodes(objs, adj@, ids);
                        lemma_order_excludes_cycle(adj@, out@, path);
                        let i = path[0] as int;
                        assert(placed_before(starts@, i, starts.len() as int));
                        let s = lemma_place(starts@, i as int, starts@.len() as int);
                        assert(placed_before(out@, starts[s] as int, out.len() as int));
                    }
                }
            }
            let r = Ok(order);
            proof {
                assert(follows_plan(objects@, idx@, r));
            }
            r
        },
    }
}

impl DatabaseProject {
    /// The order in which the project's objects are created.
    pub fn get_create_order(&self) -> (r: Result<Vec<String>, Error>)
        requires
            unique_ids(self.objects@),
        ensures
            typed(self.objects@) ==> exists|idx: Seq<usize>|
                by_id(self.objects@, idx) && #[trigger] follows_plan(self.objects@, idx, r),
            r is Ok <==> typed(self.objects@) && acyclic(self.objects@),
            match r {
                Ok(order) => creation_order(self.objects@, order@),
                Err(Error::CycleDetected { id }) => typed(self.objects@) && exists|
                    path: Seq<Seq<char>>,
                |
                    #[trigger] id_cycle(self.objects@, path) && path[0] == id@,
                Err(e) => !typed(self.objects@) && e is UnknownObjectType,
            },
    {
        calc_create_order(&self.objects)
    }
}

} // verus!
