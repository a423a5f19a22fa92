use vstd::prelude::*;

use crate::ast_types::{spec_repr_of, types_view, AstType};
use crate::grammar::{
    body_view, hoist_top, hoisted_form, lemma_hoist_top_flat, lemma_hoist_top_size,
    lemma_pairs_size_add, pairs_size, pairs_view, spec_nonterminals, strings_view, BodyView, Rule,
    RuleBody,
};
use crate::graph::{ids_view, is_topo_order, spec_topo, topo_sort, Graph, VertexId};
use crate::name_gen::NameGen;
use crate::GenError;

verus! {

/// A rule name is registered in a rule store.
pub open spec fn has_rule(rules: Seq<(Seq<char>, BodyView)>, name: Seq<char>) -> bool {
    exists|i: int| 0 <= i < rules.len() && (#[trigger] rules[i]).0 == name
}

/// The stored body of a registered rule name.
pub open spec fn body_of(rules: Seq<(Seq<char>, BodyView)>, name: Seq<char>) -> BodyView {
    rules[choose|i: int| 0 <= i < rules.len() && (#[trigger] rules[i]).0 == name].1
}

/// The generated output matches the generator state along the emission order
/// `order`: first one type per ordered vertex, synthesized from that rule
/// name's stored body, then one type per extra rule, in original relative
/// order.
pub open spec fn gen_matches(
    vertices: Seq<Seq<char>>,
    rules: Seq<(Seq<char>, BodyView)>,
    extras: Seq<(Seq<char>, BodyView)>,
    order: Seq<usize>,
    tys: Seq<crate::ast_types::AstTypeView>,
) -> bool {
    &&& tys.len() == order.len() + extras.len()
    &&& forall|i: int|
        0 <= i < order.len() ==> {
            &&& (#[trigger] tys[i]).name == vertices[order[i] as int]
            &&& has_rule(rules, vertices[order[i] as int])
            &&& tys[i].repr == spec_repr_of(
                vertices[order[i] as int],
                body_of(rules, vertices[order[i] as int]),
            )
        }
    &&& forall|k: int|
        0 <= k < extras.len() ==> {
            &&& (#[trigger] tys[order.len() + k]).name == extras[k].0
            &&& tys[order.len() + k].repr == spec_repr_of(extras[k].0, extras[k].1)
        }
}

/// Ghost state of one generation run: the graph's vertex names and
/// adjacency lists, the rule store, the extras list, and the allocator
/// counter.
pub struct GenState {
    pub vertices: Seq<Seq<char>>,
    pub adjacency: Seq<Seq<usize>>,
    pub rules: Seq<(Seq<char>, BodyView)>,
    pub extras: Seq<(Seq<char>, BodyView)>,
    pub counter: nat,
}

/// The state of a freshly created generator.
pub open spec fn initial_state() -> GenState {
    GenState {
        vertices: Seq::<Seq<char>>::empty(),
        adjacency: Seq::<Seq<usize>>::empty(),
        rules: Seq::<(Seq<char>, BodyView)>::empty(),
        extras: Seq::<(Seq<char>, BodyView)>::empty(),
        counter: 0,
    }
}

/// The vertex index of `name`, registering a fresh vertex when absent.
pub open spec fn spec_get_or_insert(st: GenState, name: Seq<char>) -> (GenState, int) {
    if st.vertices.contains(name) {
        (st, choose|i: int| 0 <= i < st.vertices.len() && st.vertices[i] == name)
    } else {
        (
            GenState {
                vertices: st.vertices.push(name),
                adjacency: st.adjacency.push(Seq::<usize>::empty()),
                ..st
            },
            st.vertices.len() as int,
        )
    }
}

/// One edge added from vertex `u` to vertex `v`.
pub open spec fn spec_add_edge(st: GenState, u: int, v: int) -> GenState {
    GenState { adjacency: st.adjacency.update(u, st.adjacency[u].push(v as usize)), ..st }
}

/// One edge per referenced nonterminal, front to back, the owning rule's
/// own name excluded.
pub open spec fn spec_add_edges(
    st: GenState,
    rule_name: Seq<char>,
    uid: int,
    nts: Seq<Seq<char>>,
) -> GenState
    decreases nts.len(),
{
    if nts.len() == 0 {
        st
    } else {
        let st1 = if nts[0] == rule_name {
            st
        } else {
            let (st_v, vid) = spec_get_or_insert(st, nts[0]);
            spec_add_edge(st_v, uid, vid)
        };
        spec_add_edges(st1, rule_name, uid, nts.drop_first())
    }
}

/// A vertex for `name` plus one edge per referenced nonterminal.
pub open spec fn spec_add_to_dag(
    st: GenState,
    rule_name: Seq<char>,
    name: Seq<char>,
    nts: Seq<Seq<char>>,
) -> GenState {
    let (st0, uid) = spec_get_or_insert(st, name);
    spec_add_edges(st0, rule_name, uid, nts)
}

/// Registration of one rule's flattened work queue, front to back: hoist
/// the head pair's body, enqueue the extracted pairs at the back, store the
/// pair, and repeat until the queue drains. The error value is the first
/// rule name that collides with a stored one.
pub open spec fn spec_process_queue(
    st: GenState,
    queue: Seq<(Seq<char>, BodyView)>,
    rule_name: Seq<char>,
    is_extra: bool,
) -> Result<GenState, Seq<char>>
    decreases pairs_size(queue),
    via spec_process_queue_decreases
{
    if queue.len() == 0 {
        Ok(st)
    } else {
        let nm = queue[0].0;
        let h = hoist_top(queue[0].1, rule_name, st.counter);
        let queue2 = queue.drop_first() + h.pairs;
        if has_rule(st.rules, nm) {
            Err(nm)
        } else {
            let st1 = GenState { counter: h.counter, ..st };
            let st2 = if is_extra {
                GenState {
                    extras: st1.extras.push((nm, h.body)),
                    rules: st1.rules.push((nm, h.body)),
                    ..st1
                }
            } else {
                let st_d = spec_add_to_dag(st1, rule_name, nm, spec_nonterminals(h.body));
                GenState { rules: st_d.rules.push((nm, h.body)), ..st_d }
            };
            spec_process_queue(st2, queue2, rule_name, is_extra)
        }
    }
}

#[via_fn]
proof fn spec_process_queue_decreases(
    st: GenState,
    queue: Seq<(Seq<char>, BodyView)>,
    rule_name: Seq<char>,
    is_extra: bool,
) {
    if queue.len() > 0 {
        let h = hoist_top(queue[0].1, rule_name, st.counter);
        crate::grammar::lemma_hoist_top_size(queue[0].1, rule_name, st.counter);
        crate::grammar::lemma_pairs_size_add(queue.drop_first(), h.pairs);
    }
}

/// The full effect of adding one rule: its hoisting queue, seeded with the
/// rule itself, processed to exhaustion.
pub open spec fn spec_add_rule(st: GenState, rule: crate::grammar::RuleView) -> Result<
    GenState,
    Seq<char>,
> {
    spec_process_queue(st, seq![(rule.name, rule.body)], rule.name, rule.is_extra)
}

/// The state a run of rule additions reaches, folded front to back.
pub open spec fn spec_run(st: GenState, rules: Seq<crate::grammar::RuleView>) -> Result<
    GenState,
    Seq<char>,
>
    decreases rules.len(),
{
    if rules.len() == 0 {
        Ok(st)
    } else {
        match spec_add_rule(st, rules[0]) {
            Ok(st2) => spec_run(st2, rules.drop_first()),
            Err(e) => Err(e),
        }
    }
}

/// The output of a successful generation, as a function of the state and
/// the emission order: the ordered rules' types first, the extras after.
pub open spec fn spec_gen_output(
    vertices: Seq<Seq<char>>,
    rules: Seq<(Seq<char>, BodyView)>,
    extras: Seq<(Seq<char>, BodyView)>,
    ord: Seq<usize>,
) -> Seq<crate::ast_types::AstTypeView> {
    Seq::new(
        ord.len() + extras.len(),
        |i: int|
            if i < ord.len() {
                crate::ast_types::AstTypeView {
                    name: vertices[ord[i] as int],
                    repr: spec_repr_of(
                        vertices[ord[i] as int],
                        body_of(rules, vertices[ord[i] as int]),
                    ),
                }
            } else {
                crate::ast_types::AstTypeView {
                    name: extras[i - ord.len()].0,
                    repr: spec_repr_of(extras[i - ord.len()].0, extras[i - ord.len()].1),
                }
            },
    )
}

/// Drives one generation run: hoists every added rule to a flat work list,
/// grows the dependency graph in lock-step, and finally emits one algebraic
/// type per rule in dependency order, extras last. Owns a fresh allocator,
/// graph and rule store; one generator is created per run.
pub struct TypeGenerator {
    graph: Graph<String>,
    rules: Vec<(String, RuleBody)>,
    extras: Vec<(String, RuleBody)>,
    name_gen: NameGen,
}

impl TypeGenerator {
    /// The vertex names of the dependency graph, in insertion order.
    pub closed spec fn vertices(&self) -> Seq<Seq<char>> {
        strings_view(self.graph.values())
    }

    /// The adjacency lists of the dependency graph.
    pub closed spec fn adjacency(&self) -> Seq<Seq<usize>> {
        self.graph.adjacency()
    }

    /// The registered rules: flattened name-body pairs, in storage order.
    pub closed spec fn spec_rules(&self) -> Seq<(Seq<char>, BodyView)> {
        pairs_view(self.rules@)
    }

    /// The extra rules, in encounter order.
    pub closed spec fn spec_extras(&self) -> Seq<(Seq<char>, BodyView)> {
        pairs_view(self.extras@)
    }

    /// The fresh-name allocator's counter.
    pub closed spec fn counter(&self) -> nat {
        self.name_gen.counter()
    }

    /// The generator's ghost state, all components together.
    pub open spec fn state(&self) -> GenState {
        GenState {
            vertices: self.vertices(),
            adjacency: self.adjacency(),
            rules: self.spec_rules(),
            extras: self.spec_extras(),
            counter: self.counter(),
        }
    }

    /// The generator's invariant: the graph is well formed, vertex names and
    /// rule names are unique, and every stored body is in hoisted form.
    pub closed spec fn wf(&self) -> bool {
        &&& self.graph.wf()
        &&& self.adjacency().len() == self.vertices().len()
        &&& forall|i: int, j: int|
            0 <= i < j < self.vertices().len() ==> self.vertices()[i] != self.vertices()[j]
        &&& forall|i: int, j: int|
            0 <= i < j < self.spec_rules().len() ==> (#[trigger] self.spec_rules()[i]).0 != (
            #[trigger] self.spec_rules()[j]).0
        &&& forall|i: int|
            0 <= i < self.spec_rules().len() ==> hoisted_form(
                (#[trigger] self.spec_rules()[i]).1,
            )
        &&& forall|k: int|
            0 <= k < self.spec_extras().len() ==> hoisted_form(
                (#[trigger] self.spec_extras()[k]).1,
            )
    }

    pub fn new() -> (r: Self)
        ensures
            r.wf(),
            r.vertices() == Seq::<Seq<char>>::empty(),
            r.adjacency() == Seq::<Seq<usize>>::empty(),
            r.spec_rules() == Seq::<(Seq<char>, BodyView)>::empty(),
            r.spec_extras() == Seq::<(Seq<char>, BodyView)>::empty(),
            r.counter() == 0,
            r.state() == initial_state(),
    {
        let r = TypeGenerator {
            graph: Graph::new(),
            rules: Vec::new(),
            extras: Vec::new(),
            name_gen: NameGen::new(),
        };
        proof {
            assert(r.vertices() =~= Seq::<Seq<char>>::empty());
            assert(r.spec_rules() =~= Seq::<(Seq<char>, BodyView)>::empty());
            assert(r.spec_extras() =~= Seq::<(Seq<char>, BodyView)>::empty());
        }
        r
    }

    /// The handle of the vertex named `name`, inserting it if absent.
    fn get_or_insert_vertex(&mut self, name: &String) -> (id: VertexId)
        requires
            old(self).wf(),
        ensures
            final(self).wf(),
            final(self).spec_rules() == old(self).spec_rules(),
            final(self).spec_extras() == old(self).spec_extras(),
            final(self).counter() == old(self).counter(),
            (id.0 as int) < final(self).vertices().len(),
            final(self).vertices()[id.0 as int] == name@,
            old(self).vertices().contains(name@) ==> final(self).vertices() == old(self).vertices() && final(self).adjacency() == old(self).adjacency(),
            !old(self).vertices().contains(name@) ==> final(self).vertices() == old(self).vertices().push(name@) && final(self).adjacency() == old(self).adjacency().push(
                Seq::<usize>::empty(),
            ),
            ({
                let (st2, uid) = spec_get_or_insert(old(self).state(), name@);
                &&& final(self).state() == st2
                &&& id.0 as int == uid
            }),
    {
        let n = self.graph.vertex_count();
        let mut i: usize = 0;
        while i < n
            invariant
                self == old(self),
                self.wf(),
                n == self.graph.values().len(),
                i <= n,
                forall|j: int| 0 <= j < i ==> self.vertices()[j] != name@,
            decreases n - i,
        {
            let v = self.graph.get_vertex(VertexId(i));
            if v.value.eq(name) {
                proof {
                    assert(self.vertices()[i as int] == name@);
                    assert(self.vertices().contains(name@));
                    let c = choose|c: int|
                        0 <= c < self.vertices().len() && self.vertices()[c] == name@;
                    if c != i as int {
                        if c < i as int {
                            assert(self.vertices()[c] != self.vertices()[i as int]);
                        } else {
                            assert(self.vertices()[i as int] != self.vertices()[c]);
                        }
                    }
                }
                return VertexId(i);
            }
            i = i + 1;
        }
        proof {
            assert forall|j: int| 0 <= j < self.vertices().len() implies self.vertices()[j]
                != name@ by {}
            assert(!self.vertices().contains(name@));
        }
        let id = self.graph.add_vertex(name.clone());
        proof {
            assert(self.vertices() =~= old(self).vertices().push(name@));
            assert(self.spec_rules() == old(self).spec_rules());
            assert forall|a: int, b: int|
                0 <= a < b < self.vertices().len() implies self.vertices()[a]
                != self.vertices()[b] by {
                if b == self.vertices().len() - 1 {
                    assert(self.vertices()[a] == old(self).vertices()[a]);
                    assert(old(self).vertices()[a] != name@);
                } else {
                    assert(old(self).vertices()[a] != old(self).vertices()[b]);
                }
            }
            assert(self.graph.wf());
            assert(self.adjacency().len() == self.vertices().len());
            assert(self.spec_extras() == old(self).spec_extras());
            assert(self.state() == spec_get_or_insert(old(self).state(), name@).0);
            assert(forall|i: int|
                0 <= i < self.spec_rules().len() ==> hoisted_form(
                    (#[trigger] self.spec_rules()[i]).1,
                ));
            assert(forall|k: int|
                0 <= k < self.spec_extras().len() ==> hoisted_form(
                    (#[trigger] self.spec_extras()[k]).1,
                ));
            assert(self.wf());
        }
        id
    }

    /// Registers a vertex for `name` and adds one edge to the vertex of each
    /// referenced nonterminal, skipping references to the owning rule's own
    /// name so that self-recursive rules introduce no spurious cycle.
    fn add_to_dag(&mut self, rule_name: &String, name: &String, nonterminals: &Vec<String>)
        requires
            old(self).wf(),
        ensures
            final(self).wf(),
            final(self).spec_rules() == old(self).spec_rules(),
            final(self).spec_extras() == old(self).spec_extras(),
            final(self).counter() == old(self).counter(),
            final(self).state() == spec_add_to_dag(
                old(self).state(),
                rule_name@,
                name@,
                strings_view(nonterminals@),
            ),
    {
        let ghost ntv = strings_view(nonterminals@);
        let ghost goal = spec_add_to_dag(old(self).state(), rule_name@, name@, ntv);
        let uid = self.get_or_insert_vertex(name);
        proof {
            assert(ntv.skip(0) =~= ntv);
            assert(spec_add_edges(self.state(), rule_name@, uid.0 as int, ntv) == goal);
        }
        let mut k: usize = 0;
        while k < nonterminals.len()
            invariant
                self.wf(),
                self.spec_rules() == old(self).spec_rules(),
                self.spec_extras() == old(self).spec_extras(),
                self.counter() == old(self).counter(),
                ntv == strings_view(nonterminals@),
                (uid.0 as int) < self.vertices().len(),
                k <= nonterminals@.len(),
                spec_add_edges(self.state(), rule_name@, uid.0 as int, ntv.skip(k as int)) == goal,
            decreases nonterminals@.len() - k,
        {
            proof {
                assert(ntv.skip(k as int)[0] == ntv[k as int]);
                assert(ntv.skip(k as int).drop_first() =~= ntv.skip(k + 1 as int));
            }
            let sym = &nonterminals[k];
            if !sym.eq(rule_name) {
                let vid = self.get_or_insert_vertex(sym);
                let ghost st_v = self.state();
                self.graph.add_edge(uid, vid);
                proof {
                    assert(self.vertices() =~= strings_view(self.graph.values()));
                    assert(self.state() == spec_add_edge(st_v, uid.0 as int, vid.0 as int));
                }
            }
            k = k + 1;
        }
        proof {
            assert(ntv.skip(nonterminals@.len() as int) =~= Seq::<Seq<char>>::empty());
        }
    }

    /// Hoists the rule's body, enqueuing extracted sub-rules for their own
    /// hoisting pass, and registers every resulting flattened name-body pair:
    /// extra rules go to the side list and touch no graph state; all other
    /// pairs get a vertex and one edge per referenced nonterminal (self
    /// references excluded). Storing a name that is already registered —
    /// a synthetic name colliding with a user-supplied one, or a repeated
    /// user name — fails with `NameCollision` and aborts the run.
    pub fn add_rule(&mut self, rule: &Rule) -> (r: Result<(), GenError>)
        requires
            old(self).wf(),
        ensures
            final(self).wf(),
            rule@.is_extra ==> final(self).vertices() == old(self).vertices() && final(self).adjacency() == old(self).adjacency(),
            !rule@.is_extra ==> final(self).spec_extras() == old(self).spec_extras(),
            old(self).spec_rules().is_prefix_of(final(self).spec_rules()),
            old(self).spec_extras().is_prefix_of(final(self).spec_extras()),
            match r {
                Ok(()) => spec_add_rule(old(self).state(), rule@) == Ok::<GenState, Seq<char>>(
                    final(self).state(),
                ),
                Err(e) => {
                    &&& e is NameCollision
                    &&& spec_add_rule(old(self).state(), rule@) == Err::<GenState, Seq<char>>(
                        e->NameCollision_0@,
                    )
                },
            },
    {
        let mut queue: Vec<(String, RuleBody)> = Vec::new();
        queue.push((rule.name.clone(), rule.body.deep_copy()));
        let mut head: usize = 0;
        proof {
            assert(pairs_view(queue@) =~= seq![(rule@.name, rule@.body)]);
            assert(pairs_view(queue@).skip(0) =~= pairs_view(queue@));
        }
        while head < queue.len()
            invariant
                self.wf(),
                head <= queue@.len(),
                rule@.is_extra ==> self.vertices() == old(self).vertices() && self.adjacency()
                    == old(self).adjacency(),
                !rule@.is_extra ==> self.spec_extras() == old(self).spec_extras(),
                old(self).spec_rules().is_prefix_of(self.spec_rules()),
                old(self).spec_extras().is_prefix_of(self.spec_extras()),
                spec_process_queue(
                    self.state(),
                    pairs_view(queue@).skip(head as int),
                    rule@.name,
                    rule@.is_extra,
                ) == spec_add_rule(old(self).state(), rule@),
            decreases pairs_size(pairs_view(queue@).skip(head as int)),
        {
            let ghost st_entry = self.state();
            let ghost qv0 = pairs_view(queue@);
            let next_name = queue[head].0.clone();
            let next_body = queue[head].1.deep_copy();
            head = head + 1;
            let ghost c0 = self.name_gen.counter();
            let ghost h = hoist_top(next_body@, rule.name@, c0);
            let (new_body, mut subs) = next_body.hoist_subexps(rule.name.as_str(),
                &mut self.name_gen);
            let ghost subsv = pairs_view(subs@);
            proof {
                lemma_hoist_top_flat(next_body@, rule.name@, c0);
                lemma_hoist_top_size(next_body@, rule.name@, c0);
            }
            queue.append(&mut subs);
            proof {
                assert(pairs_view(queue@) =~= qv0 + subsv);
                assert((qv0 + subsv).skip(head as int) =~= qv0.skip(head as int) + subsv);
                lemma_pairs_size_add(qv0.skip(head as int), subsv);
                assert(qv0.skip(head as int - 1)[0] == qv0[head as int - 1]);
                assert(qv0.skip(head as int - 1).drop_first() =~= qv0.skip(head as int));
                assert(qv0[head as int - 1].1 == next_body@);
                assert(qv0[head as int - 1].0 == next_name@);
                assert(pairs_size(subsv) < crate::grammar::body_size(next_body@));
                assert(subsv == h.pairs);
            }
            match find_rule_index(&self.rules, &next_name) {
                Option::Some(_) => {
                    proof {
                        assert(has_rule(self.spec_rules(), next_name@));
                        assert(spec_process_queue(
                            st_entry,
                            qv0.skip(head as int - 1),
                            rule@.name,
                            rule@.is_extra,
                        ) == Err::<GenState, Seq<char>>(next_name@));
                    }
                    return Err(GenError::NameCollision(next_name));
                },
                Option::None => {},
            }
            proof {
                assert(!has_rule(self.spec_rules(), next_name@));
            }
            let ghost rules0 = self.spec_rules();
            let ghost extras0 = self.spec_extras();
            let ghost st1 = GenState { counter: h.counter, ..st_entry };
            if rule.is_extra {
                self.extras.push((next_name.clone(), new_body.deep_copy()));
                self.rules.push((next_name, new_body));
                proof {
                    assert(self.spec_extras() =~= extras0.push((next_name@, h.body)));
                    assert(self.spec_rules() =~= rules0.push((next_name@, h.body)));
                    assert(extras0.is_prefix_of(self.spec_extras()));
                    assert(rules0.is_prefix_of(self.spec_rules()));
                    assert(self.state() == GenState {
                        extras: st1.extras.push((next_name@, h.body)),
                        rules: st1.rules.push((next_name@, h.body)),
                        ..st1
                    });
                }
            } else {
                let nonterminals = new_body.get_nonterminals();
                proof {
                    assert(strings_view(nonterminals@) == spec_nonterminals(h.body));
                    assert(self.state() == st1);
                }
                self.add_to_dag(&rule.name, &next_name, &nonterminals);
                let ghost st_d = self.state();
                self.rules.push((next_name, new_body));
                proof {
                    assert(st_d == spec_add_to_dag(st1, rule@.name, next_name@,
                        spec_nonterminals(h.body)));
                    assert(self.spec_rules() =~= st_d.rules.push((next_name@, h.body)));
                    assert(rules0.is_prefix_of(self.spec_rules()));
                    assert(self.state() == GenState { rules: st_d.rules.push((next_name@, h.body)), ..st_d });
                }
            }
            proof {
                assert(spec_process_queue(
                    st_entry,
                    qv0.skip(head as int - 1),
                    rule@.name,
                    rule@.is_extra,
                ) == spec_process_queue(
                    self.state(),
                    pairs_view(queue@).skip(head as int),
                    rule@.name,
                    rule@.is_extra,
                ));
            }
        }
        proof {
            assert(pairs_view(queue@).skip(queue@.len() as int) =~= Seq::<(
                Seq<char>,
                BodyView,
            )>::empty());
        }
        Ok(())
    }

    /// Emits the final ordered type list: a topological pass over the
    /// dependency graph (failing with `CyclicDependency` on a cycle), each
    /// ordered name resolved to its stored body (failing with
    /// `DanglingReference` for a referenced name that was never registered),
    /// then the extra rules in their original relative order, every pair
    /// mapped through type synthesis.
    pub fn gen(&self) -> (r: Result<Vec<AstType>, GenError>)
        requires
            self.wf(),
        ensures
            match r {
                Ok(tys) => exists|order: Seq<usize>|
                    is_topo_order(self.adjacency(), order) && gen_matches(
                        self.vertices(),
                        self.spec_rules(),
                        self.spec_extras(),
                        order,
                        types_view(tys@),
                    ),
                Err(e) => match e {
                    GenError::CyclicDependency => !exists|order: Seq<usize>|
                        is_topo_order(self.adjacency(), order),
                    GenError::DanglingReference(nm) => (exists|order: Seq<usize>|
                        is_topo_order(self.adjacency(), order)) && self.vertices().contains(nm@)
                        && !has_rule(self.spec_rules(), nm@),
                    GenError::NameCollision(_) => false,
                },
            },
    {
        let order = match topo_sort(&self.graph) {
            Ok(o) => o,
            Err(e) => {
                return Err(e);
            },
        };
        let ghost ord = ids_view(order@);
        let mut tys: Vec<AstType> = Vec::new();
        let mut i: usize = 0;
        while i < order.len()
            invariant
                self.wf(),
                ord == ids_view(order@),
                is_topo_order(self.adjacency(), ord),
                spec_topo(self.adjacency()) == Option::Some(ord),
                i <= order@.len(),
                tys@.len() == i,
                forall|j: int|
                    0 <= j < i ==> {
                        &&& (#[trigger] tys@[j])@.name == self.vertices()[ord[j] as int]
                        &&& has_rule(self.spec_rules(), self.vertices()[ord[j] as int])
                        &&& tys@[j]@.repr == spec_repr_of(
                            self.vertices()[ord[j] as int],
                            body_of(self.spec_rules(), self.vertices()[ord[j] as int]),
                        )
                    },
            decreases order@.len() - i,
        {
            let vid = order[i];
            proof {
                assert(ord[i as int] == vid.0);
                assert((vid.0 as int) < self.adjacency().len());
            }
            let vert = self.graph.get_vertex(vid);
            let name: &String = vert.value;
            proof {
                assert(self.vertices()[vid.0 as int] == name@);
            }
            match find_rule_index(&self.rules, name) {
                Option::None => {
                    proof {
                        assert(!has_rule(self.spec_rules(), name@));
                        assert(self.vertices().contains(name@));
                        assert(spec_topo(self.adjacency())->Some_0 == ord);
                        assert(name@ == self.vertices()[ord[i as int] as int]);
                        assert forall|j: int| 0 <= j < i as int implies has_rule(
                            self.spec_rules(),
                            self.vertices()[#[trigger] ord[j] as int],
                        ) by {
                            assert(tys@[j]@.name == self.vertices()[ord[j] as int]);
                        }
                    }
                    return Err(GenError::DanglingReference(name.clone()));
                },
                Option::Some(j) => {
                    let ty = AstType::from_rule(name.as_str(), &self.rules[j].1);
                    proof {
                        let c = choose|c: int|
                            0 <= c < self.spec_rules().len() && (#[trigger] self.spec_rules()[c]).0
                                == name@;
                        if c != j {
                            if c < j {
                                assert(self.spec_rules()[c].0 != self.spec_rules()[j as int].0);
                            } else {
                                assert(self.spec_rules()[j as int].0 != self.spec_rules()[c].0);
                            }
                        }
                        assert(body_of(self.spec_rules(), name@) == self.spec_rules()[j as int].1);
                        assert(self.spec_rules()[j as int].1 == body_view(self.rules@[j as int].1));
                    }
                    tys.push(ty);
                },
            }
            i = i + 1;
        }
        let mut k: usize = 0;
        while k < self.extras.len()
            invariant
                self.wf(),
                ord == ids_view(order@),
                is_topo_order(self.adjacency(), ord),
                spec_topo(self.adjacency()) == Option::Some(ord),
                order@.len() == ord.len(),
                k <= self.extras@.len(),
                tys@.len() == ord.len() + k,
                forall|j: int|
                    0 <= j < ord.len() ==> {
                        &&& (#[trigger] tys@[j])@.name == self.vertices()[ord[j] as int]
                        &&& has_rule(self.spec_rules(), self.vertices()[ord[j] as int])
                        &&& tys@[j]@.repr == spec_repr_of(
                            self.vertices()[ord[j] as int],
                            body_of(self.spec_rules(), self.vertices()[ord[j] as int]),
                        )
                    },
                forall|j: int|
                    0 <= j < k ==> {
                        &&& (#[trigger] tys@[ord.len() + j])@.name == self.spec_extras()[j].0
                        &&& tys@[ord.len() + j]@.repr == spec_repr_of(
                            self.spec_extras()[j].0,
                            self.spec_extras()[j].1,
                        )
                    },
            decreases self.extras@.len() - k,
        {
            let ty = AstType::from_rule(self.extras[k].0.as_str(), &self.extras[k].1);
            proof {
                assert(self.spec_extras()[k as int].0 == self.extras@[k as int].0@);
                assert(self.spec_extras()[k as int].1 == body_view(self.extras@[k as int].1));
            }
            tys.push(ty);
            k = k + 1;
        }
        proof {
            assert(gen_matches(
                self.vertices(),
                self.spec_rules(),
                self.spec_extras(),
                ord,
                types_view(tys@),
            ));
            assert(spec_topo(self.adjacency())->Some_0 == ord);
            let out = spec_gen_output(self.vertices(), self.spec_rules(), self.spec_extras(), ord);
            assert forall|i2: int|
                0 <= i2 < ord.len() + self.spec_extras().len() implies types_view(tys@)[i2]
                == out[i2] by {
                if i2 < ord.len() {
                    assert(tys@[i2]@.name == self.vertices()[ord[i2] as int]);
                    assert(tys@[i2]@.repr == spec_repr_of(
                        self.vertices()[ord[i2] as int],
                        body_of(self.spec_rules(), self.vertices()[ord[i2] as int]),
                    ));
                } else {
                    let k2 = i2 - ord.len();
                    assert(tys@[ord.len() + k2]@.name == self.spec_extras()[k2].0);
                    assert(tys@[ord.len() + k2]@.repr == spec_repr_of(
                        self.spec_extras()[k2].0,
                        self.spec_extras()[k2].1,
                    ));
                }
            }
            assert(types_view(tys@) =~= out);
        }
        Ok(tys)
    }
}

/// Topological validity: in a generated output, for every edge u -> v of
/// the dependency graph, the type of the referenced rule v stands strictly
/// before the type of the referencing rule u.
pub proof fn law_topological_validity(
    g: &TypeGenerator,
    order: Seq<usize>,
    tys: Seq<crate::ast_types::AstTypeView>,
    u: usize,
    v: usize,
)
    requires
        g.wf(),
        is_topo_order(g.adjacency(), order),
        gen_matches(g.vertices(), g.spec_rules(), g.spec_extras(), order, tys),
        (u as int) < g.adjacency().len(),
        g.adjacency()[u as int].contains(v),
    ensures
        exists|iu: int, iv: int|
            {
                &&& 0 <= iv < iu < order.len()
                &&& tys[iu].name == g.vertices()[u as int]
                &&& tys[iv].name == g.vertices()[v as int]
            },
{
    crate::graph::lemma_distinct_seq_covers(order, g.adjacency().len() as int);
    assert(order.contains(u));
    assert(order.contains(v));
    let iu = choose|k: int| 0 <= k < order.len() && order[k] == u;
    let iv = choose|k: int| 0 <= k < order.len() && order[k] == v;
    assert(g.adjacency()[order[iu] as int].contains(order[iv]));
    assert(iv < iu);
    assert(tys[iu].name == g.vertices()[u as int]);
    assert(tys[iv].name == g.vertices()[v as int]);
}

/// Flattening: every rule body the generator has stored — and so every body
/// that type synthesis is applied to — is in hoisted form: no `Choice` is
/// reachable except as the entire top-level body of its rule.
pub proof fn law_flattening(g: &TypeGenerator, i: int)
    requires
        g.wf(),
        0 <= i < g.spec_rules().len(),
    ensures
        hoisted_form(g.spec_rules()[i].1),
{
}

/// Coverage: in a generated output, every rule name — ordered or extra —
/// appears exactly once, provided no extra rule shares a name with a graph
/// vertex and extra names are distinct (both hold when no rule references an
/// extra rule by symbol, since extras get no vertex of their own).
pub proof fn law_coverage(
    g: &TypeGenerator,
    order: Seq<usize>,
    tys: Seq<crate::ast_types::AstTypeView>,
    nm: Seq<char>,
)
    requires
        g.wf(),
        is_topo_order(g.adjacency(), order),
        gen_matches(g.vertices(), g.spec_rules(), g.spec_extras(), order, tys),
        forall|k: int|
            0 <= k < g.spec_extras().len() ==> !g.vertices().contains(
                (#[trigger] g.spec_extras()[k]).0,
            ),
        forall|k: int, l: int|
            0 <= k < l < g.spec_extras().len() ==> (#[trigger] g.spec_extras()[k]).0 != (
            #[trigger] g.spec_extras()[l]).0,
        g.vertices().contains(nm) || (exists|k: int|
            0 <= k < g.spec_extras().len() && (#[trigger] g.spec_extras()[k]).0 == nm),
    ensures
        exists|i: int| 0 <= i < tys.len() && (#[trigger] tys[i]).name == nm,
        forall|i: int, j: int|
            0 <= i < j < tys.len() && (#[trigger] tys[i]).name == nm && (#[trigger] tys[j]).name
                == nm ==> false,
{
    let n = g.adjacency().len() as int;
    crate::graph::lemma_distinct_seq_covers(order, n);
    if g.vertices().contains(nm) {
        let u = choose|k: int| 0 <= k < g.vertices().len() && g.vertices()[k] == nm;
        assert(order.contains(u as usize));
        let iu = choose|k: int| 0 <= k < order.len() && order[k] == u as usize;
        assert(tys[iu].name == nm);
    } else {
        let k0 = choose|k: int|
            0 <= k < g.spec_extras().len() && (#[trigger] g.spec_extras()[k]).0 == nm;
        assert(tys[order.len() + k0].name == nm);
    }
    assert forall|i: int, j: int|
        0 <= i < j < tys.len() && (#[trigger] tys[i]).name == nm && (#[trigger] tys[j]).name
            == nm implies false by {
        if j < order.len() {
            // two ordered positions with one name: their vertices coincide,
            // contradicting the distinctness of the emission order
            assert(g.vertices()[order[i] as int] == g.vertices()[order[j] as int]);
            assert((order[i] as int) < g.vertices().len());
            assert((order[j] as int) < g.vertices().len());
            if order[i] != order[j] {
                if (order[i] as int) < (order[j] as int) {
                    assert(g.vertices()[order[i] as int] != g.vertices()[order[j] as int]);
                } else {
                    assert(g.vertices()[order[j] as int] != g.vertices()[order[i] as int]);
                }
            }
            assert(order[i] == order[j]);
        } else if i < order.len() {
            // an ordered name equal to an extra name: excluded by the
            // disjointness premise
            let k = j - order.len();
            assert(tys[order.len() + k].name == g.spec_extras()[k].0);
            assert(g.spec_extras()[k].0 == nm);
            assert(g.vertices().contains(nm)) by {
                assert(g.vertices()[order[i] as int] == nm);
                assert((order[i] as int) < g.vertices().len());
            }
        } else {
            // two extra positions with one name: excluded by extra-name
            // distinctness
            let k = i - order.len();
            let l = j - order.len();
            assert(tys[order.len() + k].name == g.spec_extras()[k].0);
            assert(tys[order.len() + l].name == g.spec_extras()[l].0);
            assert(g.spec_extras()[k].0 != g.spec_extras()[l].0);
        }
    }
}

/// Extras ordering: in a generated output, every extra rule stands after
/// all ordered rules, in its original relative order; and adding an extra
/// rule contributes no vertex and no edge to the dependency graph (see the
/// contract of [`TypeGenerator::add_rule`]).
pub proof fn law_extras_ordering(
    g: &TypeGenerator,
    order: Seq<usize>,
    tys: Seq<crate::ast_types::AstTypeView>,
    k: int,
)
    requires
        g.wf(),
        is_topo_order(g.adjacency(), order),
        gen_matches(g.vertices(), g.spec_rules(), g.spec_extras(), order, tys),
        0 <= k < g.spec_extras().len(),
    ensures
        order.len() == g.vertices().len(),
        tys[order.len() + k].name == g.spec_extras()[k].0,
        tys[order.len() + k].repr == spec_repr_of(g.spec_extras()[k].0, g.spec_extras()[k].1),
{
}

/// Determinism: a generation run is a function of the added rule sequence
/// alone. `TypeGenerator::new` starts in the initial state, each successful
/// `add_rule` moves the state to `spec_add_rule` of it (so a full run of
/// additions lands on `spec_run`), and `gen`'s result is pinned by
/// `spec_topo` and `spec_gen_output` over that state — so two generators
/// built by identical rule additions hold equal states and generate
/// identical ordered output.
pub proof fn law_determinism(
    rules: Seq<crate::grammar::RuleView>,
    a: &TypeGenerator,
    b: &TypeGenerator,
)
    requires
        spec_run(initial_state(), rules) == Ok::<GenState, Seq<char>>(a.state()),
        spec_run(initial_state(), rules) == Ok::<GenState, Seq<char>>(b.state()),
    ensures
        a.state() == b.state(),
        spec_topo(a.adjacency()) == spec_topo(b.adjacency()),
        spec_topo(a.adjacency()) is Some ==> spec_gen_output(
            a.vertices(),
            a.spec_rules(),
            a.spec_extras(),
            spec_topo(a.adjacency())->Some_0,
        ) == spec_gen_output(
            b.vertices(),
            b.spec_rules(),
            b.spec_extras(),
            spec_topo(b.adjacency())->Some_0,
        ),
{
    assert(a.state() == b.state());
    assert(a.adjacency() == b.adjacency());
    assert(a.vertices() == b.vertices());
    assert(a.spec_rules() == b.spec_rules());
    assert(a.spec_extras() == b.spec_extras());
}

/// The index of the rule stored under `name`, if any.
fn find_rule_index(rules: &Vec<(String, RuleBody)>, name: &String) -> (r: Option<usize>)
    ensures
        match r {
            Option::Some(i) => (i as int) < rules@.len() && pairs_view(rules@)[i as int].0 == name@,
            Option::None => forall|i: int|
                0 <= i < rules@.len() ==> (#[trigger] pairs_view(rules@)[i]).0 != name@,
        },
{
    let mut i: usize = 0;
    while i < rules.len()
        invariant
            i <= rules@.len(),
            forall|j: int| 0 <= j < i ==> (#[trigger] pairs_view(rules@)[j]).0 != name@,
        decreases rules@.len() - i,
    {
        if rules[i].0.eq(name) {
            proof {
                assert(pairs_view(rules@)[i as int].0 == name@);
            }
            return Some(i);
        }
        i = i + 1;
    }
    None
}

} // verus!
