use ast_typegen::graph::{topo_sort, Graph, VertexId};
use ast_typegen::GenError;

#[test]
fn vertices_keep_insertion_order() {
    let mut g: Graph<String> = Graph::new();
    assert_eq!(g.vertex_count(), 0);
    let a = g.add_vertex("a".to_string());
    let b = g.add_vertex("b".to_string());
    assert_eq!(g.vertex_count(), 2);
    assert_eq!(g.get_vertex(a).value.as_str(), "a");
    assert_eq!(g.get_vertex(b).value.as_str(), "b");
    let mut it = g.vertices();
    let first = it.next().expect("two vertices");
    assert_eq!(first.id, a);
    assert_eq!(first.value.as_str(), "a");
    let second = it.next().expect("two vertices");
    assert_eq!(second.value.as_str(), "b");
    assert!(it.next().is_none());
}

#[test]
fn out_edges_keep_edge_order() {
    let mut g: Graph<u64> = Graph::new();
    let a = g.add_vertex(10);
    let b = g.add_vertex(20);
    let c = g.add_vertex(30);
    g.add_edge(a, c);
    g.add_edge(a, b);
    let es = g.get_out_edges(a);
    assert_eq!(es, vec![c, b]);
    assert_eq!(g.get_out_edges(b), Vec::<VertexId>::new());
}

#[test]
fn topo_sort_emits_dependencies_first() {
    // diamond: a -> b, a -> c, b -> d, c -> d
    let mut g: Graph<&str> = Graph::new();
    let a = g.add_vertex("a");
    let b = g.add_vertex("b");
    let c = g.add_vertex("c");
    let d = g.add_vertex("d");
    g.add_edge(a, b);
    g.add_edge(a, c);
    g.add_edge(b, d);
    g.add_edge(c, d);
    let order = topo_sort(&g).expect("a diamond is acyclic");
    // the earliest-inserted ready vertex is emitted first
    assert_eq!(order, vec![d, b, c, a]);
}

#[test]
fn topo_sort_rejects_a_cycle() {
    let mut g: Graph<&str> = Graph::new();
    let a = g.add_vertex("a");
    let b = g.add_vertex("b");
    g.add_edge(a, b);
    g.add_edge(b, a);
    assert!(matches!(topo_sort(&g), Err(GenError::CyclicDependency)));
}

#[test]
fn topo_sort_rejects_a_self_loop() {
    let mut g: Graph<&str> = Graph::new();
    let a = g.add_vertex("a");
    g.add_edge(a, a);
    assert!(matches!(topo_sort(&g), Err(GenError::CyclicDependency)));
}

#[test]
fn topo_sort_of_empty_graph_is_empty() {
    let g: Graph<u8> = Graph::new();
    let order = topo_sort(&g).expect("nothing to order");
    assert!(order.is_empty());
}
