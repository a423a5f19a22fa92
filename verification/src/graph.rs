use vstd::prelude::*;

use crate::GenError;

verus! {

/// Handle of one vertex: its insertion index.
#[derive(Clone, Copy, Debug, PartialEq, Eq, Structural)]
pub struct VertexId(pub usize);

/// A vertex as handed out by lookup: its handle and a reference to its value.
pub struct Vertex<'a, T> {
    pub id: VertexId,
    pub value: &'a T,
}

/// Directed graph: vertices in insertion order, each carrying a value, and
/// one adjacency list of successor indices per vertex.
pub struct Graph<T> {
    vertices: Vec<T>,
    adj_list: Vec<Vec<usize>>,
}

impl<T> Graph<T> {
    /// The vertex values, in insertion order.
    pub closed spec fn values(&self) -> Seq<T> {
        self.vertices@
    }

    /// The adjacency lists, in insertion order.
    pub closed spec fn adjacency(&self) -> Seq<Seq<usize>> {
        Seq::new(self.adj_list@.len(), |i: int| self.adj_list@[i]@)
    }

    /// Every vertex has an adjacency list, and every edge target is a vertex.
    pub open spec fn wf(&self) -> bool {
        &&& self.values().len() <= usize::MAX as nat
        &&& self.adjacency().len() == self.values().len()
        &&& forall|u: int, j: int|
            0 <= u < self.adjacency().len() && 0 <= j < self.adjacency()[u].len()
                ==> #[trigger] self.adjacency()[u][j] < self.values().len()
    }

    pub fn new() -> (g: Self)
        ensures
            g.values() == Seq::<T>::empty(),
            g.adjacency() == Seq::<Seq<usize>>::empty(),
            g.wf(),
    {
        let g = Graph { vertices: Vec::new(), adj_list: Vec::new() };
        proof {
            assert(g.adjacency() =~= Seq::<Seq<usize>>::empty());
        }
        g
    }

    /// Appends a vertex and returns its handle.
    pub fn add_vertex(&mut self, t: T) -> (id: VertexId)
        requires
            old(self).wf(),
        ensures
            final(self).wf(),
            id.0 == old(self).values().len(),
            final(self).values() == old(self).values().push(t),
            final(self).adjacency() == old(self).adjacency().push(Seq::<usize>::empty()),
    {
        let id = VertexId(self.vertices.len());
        self.vertices.push(t);
        self.adj_list.push(Vec::new());
        proof {
            assert(self.adjacency() =~= old(self).adjacency().push(Seq::<usize>::empty()));
            vstd::std_specs::vec::axiom_spec_len(&self.vertices);
            assert(self.vertices@.len() <= usize::MAX as nat);
        }
        id
    }

    /// Adds an edge from `u` to `v`.
    pub fn add_edge(&mut self, u: VertexId, v: VertexId)
        requires
            old(self).wf(),
            u.0 < old(self).values().len(),
            v.0 < old(self).values().len(),
        ensures
            final(self).wf(),
            final(self).values() == old(self).values(),
            final(self).adjacency() == old(self).adjacency().update(
                u.0 as int,
                old(self).adjacency()[u.0 as int].push(v.0),
            ),
    {
        let inner = &mut self.adj_list[u.0];
        inner.push(v.0);
        proof {
            assert(self.adjacency() =~= old(self).adjacency().update(
                u.0 as int,
                old(self).adjacency()[u.0 as int].push(v.0),
            ));
        }
    }

    /// The vertex behind a handle.
    pub fn get_vertex(&self, id: VertexId) -> (v: Vertex<'_, T>)
        requires
            id.0 < self.values().len(),
        ensures
            v.id == id,
            *v.value == self.values()[id.0 as int],
    {
        Vertex { id, value: &self.vertices[id.0] }
    }

    /// The successors of a vertex, in edge insertion order.
    pub fn get_out_edges(&self, id: VertexId) -> (r: Vec<VertexId>)
        requires
            self.wf(),
            id.0 < self.values().len(),
        ensures
            r@.len() == self.adjacency()[id.0 as int].len(),
            forall|j: int|
                0 <= j < r@.len() ==> (#[trigger] r@[j]).0 == self.adjacency()[id.0 as int][j],
    {
        let edges = &self.adj_list[id.0];
        let mut r: Vec<VertexId> = Vec::new();
        let mut j: usize = 0;
        while j < edges.len()
            invariant
                j <= edges@.len(),
                r@.len() == j,
                edges@ == self.adj_list@[id.0 as int]@,
                id.0 < self.adjacency().len(),
                edges@.len() == self.adjacency()[id.0 as int].len(),
                forall|k: int|
                    0 <= k < j ==> (#[trigger] r@[k]).0 == self.adjacency()[id.0 as int][k],
            decreases edges@.len() - j,
        {
            r.push(VertexId(edges[j]));
            j = j + 1;
        }
        r
    }

    /// The number of vertices.
    pub fn vertex_count(&self) -> (n: usize)
        ensures
            n == self.values().len(),
    {
        self.vertices.len()
    }

    /// An iterator over the vertices, in insertion order.
    pub fn vertices(&self) -> (it: VertexIterator<'_, T>)
        ensures
            it.graph() == *self,
            it.index() == 0,
    {
        VertexIterator { graph: self, curr_idx: 0 }
    }
}

/// The indices behind a list of vertex handles, in order.
pub open spec fn ids_view(s: Seq<VertexId>) -> Seq<usize> {
    Seq::new(s.len(), |i: int| s[i].0)
}

/// `order` is a topological emission order for the adjacency structure
/// `adj`: every vertex exactly once, and for every edge u -> v the target v
/// stands strictly before u, so dependencies are emitted first.
pub open spec fn is_topo_order(adj: Seq<Seq<usize>>, order: Seq<usize>) -> bool {
    &&& order.len() == adj.len()
    &&& forall|i: int| 0 <= i < order.len() ==> (#[trigger] order[i]) < adj.len()
    &&& forall|i: int, j: int| 0 <= i < j < order.len() ==> order[i] != order[j]
    &&& forall|i: int, j: int|
        0 <= i < order.len() && 0 <= j < order.len() && #[trigger] adj[order[i] as int].contains(
            order[j],
        ) ==> j < i
}

/// Vertex `u` is ready to be emitted: not yet emitted, and every edge target
/// of `u` already is.
pub open spec fn ready(adj: Seq<Seq<usize>>, done: Seq<usize>, u: usize) -> bool {
    &&& u < adj.len()
    &&& !done.contains(u)
    &&& forall|j: int| 0 <= j < adj[u as int].len() ==> done.contains(#[trigger] adj[u as int][j])
}

/// The lowest-index ready vertex at or above `u`, if any.
pub open spec fn spec_first_ready(adj: Seq<Seq<usize>>, done: Seq<usize>, u: int) -> Option<usize>
    decreases adj.len() - u,
    when 0 <= u <= adj.len() && adj.len() <= usize::MAX as nat
{
    if u >= adj.len() {
        Option::None
    } else if ready(adj, done, u as usize) {
        Option::Some(u as usize)
    } else {
        spec_first_ready(adj, done, u + 1)
    }
}

/// The emission order the sort computes, continuing from the already
/// emitted prefix `done`: each round emits the lowest-index ready vertex;
/// `None` when the remainder can never become ready.
pub open spec fn spec_topo_from(adj: Seq<Seq<usize>>, done: Seq<usize>) -> Option<Seq<usize>>
    decreases adj.len() - done.len(),
    when done.len() <= adj.len() && adj.len() <= usize::MAX as nat
{
    if done.len() == adj.len() {
        Option::Some(done)
    } else {
        match spec_first_ready(adj, done, 0) {
            Option::Some(u) => spec_topo_from(adj, done.push(u)),
            Option::None => Option::None,
        }
    }
}

/// The emission order of the whole graph, as a function of the adjacency
/// structure alone.
pub open spec fn spec_topo(adj: Seq<Seq<usize>>) -> Option<Seq<usize>> {
    spec_topo_from(adj, Seq::<usize>::empty())
}

/// When no vertex at or above `u` is ready, the scan finds none.
proof fn lemma_first_ready_none(adj: Seq<Seq<usize>>, done: Seq<usize>, u: int)
    requires
        0 <= u <= adj.len(),
        adj.len() <= usize::MAX as nat,
        forall|w: usize| u <= (w as int) < adj.len() ==> !ready(adj, done, w),
    ensures
        spec_first_ready(adj, done, u) is None,
    decreases adj.len() - u,
{
    if u < adj.len() {
        lemma_first_ready_none(adj, done, u + 1);
    }
}

/// When `u` is ready and nothing below it is, the scan finds `u`.
proof fn lemma_first_ready_some(adj: Seq<Seq<usize>>, done: Seq<usize>, u: usize, from: int)
    requires
        0 <= from <= u as int,
        (u as int) < adj.len(),
        adj.len() <= usize::MAX as nat,
        ready(adj, done, u),
        forall|w: usize| from <= (w as int) < (u as int) ==> !ready(adj, done, w),
    ensures
        spec_first_ready(adj, done, from) == Option::Some(u),
    decreases u as int - from,
{
    if from < u as int {
        lemma_first_ready_some(adj, done, u, from + 1);
    }
}

/// A sequence of `n` distinct indices below `n` covers every index below `n`.
pub proof fn lemma_distinct_seq_covers(s: Seq<usize>, n: int)
    requires
        s.len() == n,
        n <= usize::MAX as int,
        forall|i: int| 0 <= i < s.len() ==> (#[trigger] s[i]) < n,
        forall|i: int, j: int| 0 <= i < j < s.len() ==> s[i] != s[j],
    ensures
        forall|v: usize| (v as int) < n ==> s.contains(v),
{
    let si = Seq::new(s.len(), |i: int| s[i] as int);
    assert(si.no_duplicates()) by {
        assert forall|i: int, j: int| 0 <= i < si.len() && 0 <= j < si.len() && i != j implies si[i]
            != si[j] by {
            if i < j {
                assert(s[i] != s[j]);
            } else {
                assert(s[j] != s[i]);
            }
        }
    }
    si.unique_seq_to_set();
    vstd::seq_lib::seq_to_set_is_finite(si);
    let rng = vstd::set_lib::set_int_range(0, n);
    vstd::set_lib::lemma_int_range(0, n);
    assert(si.to_set().subset_of(rng));
    assert forall|v: int| 0 <= v < n implies si.to_set().contains(v) by {
        if !si.to_set().contains(v) {
            assert(si.to_set().subset_of(rng.remove(v)));
            assert(rng.remove(v).len() == n - 1);
            vstd::set_lib::lemma_len_subset(si.to_set(), rng.remove(v));
        }
    }
    assert forall|v: usize| (v as int) < n implies s.contains(v) by {
        assert(si.to_set().contains(v as int));
        let k = choose|k: int| 0 <= k < si.len() && si[k] == v as int;
        assert(s[k] == v);
    }
}

/// A sequence of distinct indices below `n` that is shorter than `n` misses
/// some index below `n`.
proof fn lemma_short_seq_misses(s: Seq<usize>, n: int)
    requires
        s.len() < n,
        n <= usize::MAX as int,
    ensures
        exists|v: usize| (v as int) < n && !s.contains(v),
{
    if forall|v: usize| (v as int) < n ==> s.contains(v) {
        let si = Seq::new(s.len(), |i: int| s[i] as int);
        si.lemma_cardinality_of_set();
        vstd::seq_lib::seq_to_set_is_finite(si);
        let rng = vstd::set_lib::set_int_range(0, n);
        vstd::set_lib::lemma_int_range(0, n);
        assert(rng.subset_of(si.to_set())) by {
            assert forall|v: int| rng.contains(v) implies si.to_set().contains(v) by {
                assert(s.contains(v as usize));
                let k = choose|k: int| 0 <= k < s.len() && s[k] == v as usize;
                assert(si[k] == v);
            }
        }
        vstd::set_lib::lemma_len_subset(rng, si.to_set());
        assert(false);
    }
}

/// The least position in `sigma` whose element is outside `done`.
proof fn first_index_not_in(sigma: Seq<usize>, done: Seq<usize>) -> (i: int)
    requires
        exists|k: int| 0 <= k < sigma.len() && !done.contains(#[trigger] sigma[k]),
    ensures
        0 <= i < sigma.len(),
        !done.contains(sigma[i]),
        forall|k: int| 0 <= k < i ==> done.contains(#[trigger] sigma[k]),
    decreases sigma.len(),
{
    if !done.contains(sigma[0]) {
        0
    } else {
        let rest = sigma.drop_first();
        assert(exists|k: int| 0 <= k < rest.len() && !done.contains(#[trigger] rest[k])) by {
            let k0 = choose|k: int| 0 <= k < sigma.len() && !done.contains(#[trigger] sigma[k]);
            assert(k0 >= 1);
            assert(rest[k0 - 1] == sigma[k0]);
        }
        let j = first_index_not_in(rest, done);
        assert(rest[j] == sigma[j + 1]);
        assert forall|k: int| 0 <= k < j + 1 implies done.contains(#[trigger] sigma[k]) by {
            if k >= 1 {
                assert(rest[k - 1] == sigma[k]);
            }
        }
        j + 1
    }
}

/// If no vertex is ready although some are unemitted, no topological order
/// exists: the unemitted remainder can never be linearized.
proof fn lemma_stuck_means_cyclic(adj: Seq<Seq<usize>>, done: Seq<usize>)
    requires
        done.len() < adj.len(),
        adj.len() <= usize::MAX as nat,
        forall|u: int, j: int|
            0 <= u < adj.len() && 0 <= j < adj[u].len() ==> #[trigger] adj[u][j] < adj.len(),
        forall|u: usize| (u as int) < adj.len() ==> !ready(adj, done, u),
    ensures
        !exists|order: Seq<usize>| is_topo_order(adj, order),
{
    let n = adj.len() as int;
    if exists|order: Seq<usize>| is_topo_order(adj, order) {
        let sigma = choose|order: Seq<usize>| is_topo_order(adj, order);
        lemma_distinct_seq_covers(sigma, n);
        lemma_short_seq_misses(done, n);
        let missing = choose|v: usize| (v as int) < n && !done.contains(v);
        assert(sigma.contains(missing));
        assert(exists|k: int| 0 <= k < sigma.len() && !done.contains(#[trigger] sigma[k])) by {
            let k0 = choose|k: int| 0 <= k < sigma.len() && sigma[k] == missing;
            assert(!done.contains(sigma[k0]));
        }
        let i = first_index_not_in(sigma, done);
        let u = sigma[i];
        assert(!ready(adj, done, u));
        assert(u < adj.len());
        // u is unemitted but not ready: some target of u is unemitted too.
        let j = choose|j: int|
            0 <= j < adj[u as int].len() && !done.contains(#[trigger] adj[u as int][j]);
        let t = adj[u as int][j];
        assert(adj[u as int].contains(t));
        assert(t < adj.len());
        assert(sigma.contains(t));
        let k = choose|k: int| 0 <= k < sigma.len() && sigma[k] == t;
        assert(adj[sigma[i] as int].contains(sigma[k]));
        assert(k < i);
        assert(done.contains(sigma[k]));
        assert(false);
    }
}

/// True iff every edge target of vertex `u` is already emitted.
fn targets_done<T>(g: &Graph<T>, u: usize, flags: &Vec<bool>, Ghost(done): Ghost<Seq<usize>>) -> (r:
    bool)
    requires
        g.wf(),
        u < g.values().len(),
        flags@.len() == g.values().len(),
        forall|w: usize| (w as int) < flags@.len() ==> (flags@[w as int] <==> done.contains(w)),
    ensures
        r <==> (forall|j: int|
            0 <= j < g.adjacency()[u as int].len() ==> done.contains(
                #[trigger] g.adjacency()[u as int][j],
            )),
{
    let edges = &g.adj_list[u];
    let ghost adj_u = g.adjacency()[u as int];
    let mut j: usize = 0;
    while j < edges.len()
        invariant
            g.wf(),
            u < g.values().len(),
            flags@.len() == g.values().len(),
            forall|w: usize| (w as int) < flags@.len() ==> (flags@[w as int] <==> done.contains(w)),
            adj_u == g.adjacency()[u as int],
            edges@ == g.adj_list@[u as int]@,
            edges@ =~= adj_u,
            j <= adj_u.len(),
            forall|k: int| 0 <= k < j ==> done.contains(#[trigger] adj_u[k]),
        decreases edges@.len() - j,
    {
        let t = edges[j];
        if !flags[t] {
            return false;
        }
        j = j + 1;
    }
    true
}

/// The lowest-index vertex that is ready to be emitted, if any.
fn find_ready<T>(g: &Graph<T>, flags: &Vec<bool>, Ghost(done): Ghost<Seq<usize>>) -> (res: Option<
    usize,
>)
    requires
        g.wf(),
        flags@.len() == g.values().len(),
        forall|w: usize| (w as int) < flags@.len() ==> (flags@[w as int] <==> done.contains(w)),
    ensures
        match res {
            Some(u) => {
                &&& (u as int) < g.values().len()
                &&& ready(g.adjacency(), done, u)
                &&& forall|w: usize| w < u ==> !ready(g.adjacency(), done, w)
            },
            None => forall|w: usize|
                (w as int) < g.values().len() ==> !ready(g.adjacency(), done, w),
        },
{
    let n = g.vertex_count();
    let mut u: usize = 0;
    while u < n
        invariant
            g.wf(),
            n == g.values().len(),
            flags@.len() == g.values().len(),
            forall|w: usize| (w as int) < flags@.len() ==> (flags@[w as int] <==> done.contains(w)),
            u <= n,
            forall|w: usize| w < u ==> !ready(g.adjacency(), done, w),
        decreases n - u,
    {
        if !flags[u] {
            if targets_done(g, u, flags, Ghost(done)) {
                return Some(u);
            }
        }
        u = u + 1;
    }
    None
}

/// Computes an emission order for the graph: repeatedly emits the
/// lowest-index vertex whose edge targets have all been emitted, so every
/// dependency stands before its dependents and ties go to the vertex
/// inserted earliest. Fails with `CyclicDependency` when a cycle makes such
/// an order impossible; it never silently drops a vertex.
pub fn topo_sort<T>(g: &Graph<T>) -> (r: Result<Vec<VertexId>, GenError>)
    requires
        g.wf(),
    ensures
        match r {
            Ok(order) => {
                &&& is_topo_order(g.adjacency(), ids_view(order@))
                &&& spec_topo(g.adjacency()) == Option::Some(ids_view(order@))
            },
            Err(e) => {
                &&& e is CyclicDependency
                &&& spec_topo(g.adjacency()) is None
                &&& !exists|order: Seq<usize>| is_topo_order(g.adjacency(), order)
            },
        },
{
    let n = g.vertex_count();
    let ghost adj = g.adjacency();
    let mut flags: Vec<bool> = Vec::new();
    let mut k: usize = 0;
    while k < n
        invariant
            k <= n,
            flags@.len() == k,
            forall|w: int| 0 <= w < k ==> !(#[trigger] flags@[w]),
        decreases n - k,
    {
        flags.push(false);
        k = k + 1;
    }
    let mut order: Vec<VertexId> = Vec::new();
    let mut rounds: usize = 0;
    proof {
        assert(ids_view(order@) =~= Seq::<usize>::empty());
    }
    while rounds < n
        invariant
            g.wf(),
            n == g.values().len(),
            adj == g.adjacency(),
            rounds <= n,
            order@.len() == rounds,
            flags@.len() == n,
            forall|w: usize| (w as int) < n ==> (flags@[w as int] <==> ids_view(order@).contains(
                w,
            )),
            forall|i: int| 0 <= i < order@.len() ==> (#[trigger] ids_view(order@)[i]) < n,
            forall|i: int, j: int|
                0 <= i < j < order@.len() ==> ids_view(order@)[i] != ids_view(order@)[j],
            forall|i: int, j: int|
                0 <= i < order@.len() && 0 <= j < adj[ids_view(order@)[i] as int].len()
                    ==> ids_view(order@).take(i).contains(
                    #[trigger] adj[ids_view(order@)[i] as int][j],
                ),
            spec_topo_from(adj, ids_view(order@)) == spec_topo(adj),
        decreases n - rounds,
    {
        let ghost done = ids_view(order@);
        let next = find_ready(g, &flags, Ghost(done));
        match next {
            Some(u) => {
                order.push(VertexId(u));
                flags[u] = true;
                proof {
                    lemma_first_ready_some(adj, done, u, 0);
                    let done2 = ids_view(order@);
                    assert(done2 =~= done.push(u));
                    assert(spec_topo_from(adj, done) == spec_topo_from(adj, done.push(u)));
                    assert(done2.take(done.len() as int) =~= done);
                    assert forall|w: usize| (w as int) < n implies (flags@[w as int]
                        <==> done2.contains(w)) by {
                        if w == u {
                            assert(done2[done.len() as int] == u);
                        } else {
                            assert(done2.contains(w) ==> done.contains(w)) by {
                                if done2.contains(w) {
                                    let idx = choose|idx: int|
                                        0 <= idx < done2.len() && done2[idx] == w;
                                    assert(idx < done.len());
                                    assert(done[idx] == w);
                                }
                            }
                        }
                    }
                    assert forall|i: int, j: int|
                        0 <= i < done2.len() && 0 <= j < adj[done2[i] as int].len() implies done2
                        .take(i).contains(#[trigger] adj[done2[i] as int][j]) by {
                        if i < done.len() {
                            assert(done2[i] == done[i]);
                            assert(done.take(i).contains(adj[done[i] as int][j]));
                            assert(done2.take(i) =~= done.take(i));
                        } else {
                            assert(done2[i] == u);
                            assert(ready(adj, done, u));
                            assert(done.contains(adj[u as int][j]));
                            assert(done2.take(i) =~= done);
                        }
                    }
                }
            },
            None => {
                proof {
                    assert(done.len() < adj.len());
                    lemma_first_ready_none(adj, done, 0);
                    assert(spec_topo_from(adj, done) is None);
                    lemma_stuck_means_cyclic(adj, done);
                }
                return Err(GenError::CyclicDependency);
            },
        }
        rounds = rounds + 1;
    }
    proof {
        let done = ids_view(order@);
        assert(done.len() == adj.len());
        assert(spec_topo(adj) == Option::Some(done));
        assert forall|i: int, j: int|
            0 <= i < done.len() && 0 <= j < done.len() && #[trigger] adj[done[i] as int].contains(
                done[j],
            ) implies j < i by {
            let jj = choose|jj: int|
                0 <= jj < adj[done[i] as int].len() && adj[done[i] as int][jj] == done[j];
            assert(done.take(i).contains(adj[done[i] as int][jj]));
            let k0 = choose|k0: int| 0 <= k0 < i && done[k0] == done[j];
            if k0 != j {
                if k0 < j {
                    assert(done[k0] != done[j]);
                } else {
                    assert(done[j] != done[k0]);
                }
            }
        }
    }
    Ok(order)
}

/// Walks the vertices of a graph in insertion order.
pub struct VertexIterator<'a, T> {
    graph: &'a Graph<T>,
    curr_idx: usize,
}

impl<'a, T> VertexIterator<'a, T> {
    /// The graph being walked.
    pub closed spec fn graph(&self) -> Graph<T> {
        *self.graph
    }

    /// The index of the next vertex to hand out.
    pub closed spec fn index(&self) -> nat {
        self.curr_idx as nat
    }

    /// The next vertex, if one is left.
    pub fn next(&mut self) -> (v: Option<Vertex<'a, T>>)
        ensures
            final(self).graph() == old(self).graph(),
            match v {
                Some(vertex) => {
                    &&& old(self).index() < old(self).graph().values().len()
                    &&& vertex.id.0 == old(self).index()
                    &&& *vertex.value == old(self).graph().values()[old(self).index() as int]
                    &&& final(self).index() == old(self).index() + 1
                },
                None => {
                    &&& old(self).index() >= old(self).graph().values().len()
                    &&& final(self).index() == old(self).index()
                },
            },
    {
        if self.curr_idx >= self.graph.vertex_count() {
            return None;
        }
        let v = self.graph.get_vertex(VertexId(self.curr_idx));
        self.curr_idx = self.curr_idx + 1;
        Some(v)
    }
}

} // verus!
