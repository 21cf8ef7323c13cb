use data_structures::graph::{Edge, EdgeRef, Graph, NodeRef};

#[test]
fn find_returns_none_if_no_node_with_the_given_value_exists() {
    let graph = Graph::<i32>::new();
    assert!(graph.find(&42).is_none());
}

#[test]
fn add_node_and_find_it() {
    let mut graph = Graph::new();
    let elem = 42;
    graph.add_node(42);
    assert!(graph.find(&elem).is_some());
}

#[test]
fn add_edge_and_find_related() {
    let mut graph = Graph::new();
    let first_elem = 42;
    let second_elem = 100;
    graph.add_node(first_elem);
    graph.add_node(second_elem);

    let first_node = graph.find(&first_elem).unwrap();
    let second_node = graph.find(&second_elem).unwrap();

    graph.add_edge(&first_elem, &second_elem);

    assert_eq!(graph.node(first_node),
               graph.node(graph.edge(graph.node(first_node).edges()[0]).from().upgrade(&graph).unwrap()),
               "The `from` part of the edge must be a weak reference to the node it was added to");

    assert_eq!(graph.node(second_node),
               graph.node(graph.edge(graph.node(first_node).edges()[0]).to()),
               "The `to` part of the edge must be a strong reference to the other node");

    assert_eq!(graph.node(first_node).edges()[0],
               graph.node(second_node).edges()[0],
               "The second node must have the same edge that was added to the first one");
}

#[test]
fn find_returns_none_for_a_value_that_was_not_added() {
    let mut graph = Graph::new();
    graph.add_node(1);
    graph.add_node(2);
    graph.add_edge(&1, &2);
    assert!(graph.find(&3).is_none());
    assert!(graph.find(&0).is_none());
}

#[test]
fn find_returns_a_node_with_the_value_that_was_added() {
    let mut graph = Graph::new();
    graph.add_node(7);
    graph.add_node(42);
    let found = graph.find(&42).unwrap();
    assert_eq!(*graph.node(found).value(), 42);
    assert!(graph.node(found).edges().is_empty());
}

#[test]
fn find_returns_the_first_of_two_nodes_with_equal_values() {
    let mut graph = Graph::new();
    graph.add_node(5);
    graph.add_node(9);
    graph.add_node(5);
    graph.add_edge(&5, &9);
    let five = graph.find(&5).unwrap();
    let nine = graph.find(&9).unwrap();
    // The edge went to the node inserted first: it is the one that `find`
    // returns, and it lists the edge.
    assert_eq!(graph.node(five).edges().len(), 1);
    let edge = graph.edge(graph.node(five).edges()[0]);
    assert_eq!(edge.from().upgrade(&graph), Some(five));
    assert_eq!(edge.to(), nine);
    assert_ne!(five, nine);
}

#[test]
fn one_edge_is_attached_to_both_endpoints() {
    let mut graph = Graph::new();
    graph.add_node(42);
    graph.add_node(100);
    graph.add_edge(&42, &100);
    let first = graph.find(&42).unwrap();
    let second = graph.find(&100).unwrap();
    assert_eq!(graph.node(first).edges().len(), 1);
    assert_eq!(graph.node(second).edges().len(), 1);
    assert_eq!(graph.node(first).edges()[0], graph.node(second).edges()[0]);
    let edge = graph.edge(graph.node(second).edges()[0]);
    assert_eq!(edge.from().upgrade(&graph), Some(first));
    assert_eq!(edge.to(), second);
}

#[test]
fn two_edges_between_the_same_nodes_are_not_the_same_edge() {
    let mut graph = Graph::new();
    graph.add_node(1);
    graph.add_node(2);
    graph.add_edge(&1, &2);
    graph.add_edge(&1, &2);
    let one = graph.find(&1).unwrap();
    let two = graph.find(&2).unwrap();
    let edges: Vec<EdgeRef> = graph.node(one).edges().clone();
    assert_eq!(edges.len(), 2);
    assert_eq!(&edges, graph.node(two).edges());
    // Same endpoints ...
    assert_eq!(graph.edge(edges[0]).from(), graph.edge(edges[1]).from());
    assert_eq!(graph.edge(edges[0]).to(), graph.edge(edges[1]).to());
    // ... and still two edges.
    assert_ne!(edges[0], edges[1]);
    assert_eq!(edges[0], edges[0]);
}

#[test]
fn an_edge_from_a_node_to_itself_is_listed_twice_on_it() {
    let mut graph = Graph::new();
    graph.add_node(3);
    graph.add_edge(&3, &3);
    let node = graph.find(&3).unwrap();
    let edges = graph.node(node).edges();
    assert_eq!(edges.len(), 2);
    assert_eq!(edges[0], edges[1]);
    assert_eq!(graph.edge(edges[0]).to(), node);
    assert_eq!(graph.edge(edges[0]).from(), node.downgrade());
}

#[test]
fn edges_are_listed_in_the_order_in_which_they_were_attached() {
    let mut graph = Graph::new();
    graph.add_node('a');
    graph.add_node('b');
    graph.add_node('c');
    graph.add_edge(&'a', &'b');
    graph.add_edge(&'c', &'a');
    let a = graph.find(&'a').unwrap();
    let b = graph.find(&'b').unwrap();
    let c = graph.find(&'c').unwrap();
    let on_a = graph.node(a).edges();
    assert_eq!(on_a.len(), 2);
    assert_eq!(graph.edge(on_a[0]).to(), b);
    assert_eq!(graph.edge(on_a[1]).to(), a);
    assert_eq!(graph.edge(on_a[1]).from().upgrade(&graph), Some(c));
    assert_eq!(graph.node(b).edges().len(), 1);
    assert_eq!(graph.node(c).edges().len(), 1);
    assert_eq!(graph.node(c).edges()[0], on_a[1]);
}

#[test]
fn nodes_compare_by_value_and_not_by_their_edges() {
    let mut graph = Graph::new();
    graph.add_node(8);
    graph.add_node(8);
    graph.add_node(9);
    graph.add_edge(&8, &9);
    let first = graph.find(&8).unwrap();
    let nine = graph.find(&9).unwrap();
    let other = graph.edge(graph.node(nine).edges()[0]).to();
    assert_eq!(other, nine);
    // Walk to the second node that holds 8: it has no edges, the first has one.
    let mut graph2 = Graph::new();
    graph2.add_node(8);
    let plain = graph2.find(&8).unwrap();
    assert_eq!(graph.node(first).edges().len(), 1);
    assert_eq!(graph2.node(plain).edges().len(), 0);
    assert_eq!(graph.node(first), graph2.node(plain));
    assert_ne!(graph.node(first), graph.node(nine));
}

#[test]
fn a_weak_reference_resolves_only_against_a_graph_that_holds_the_node() {
    let mut graph = Graph::new();
    graph.add_node(1);
    graph.add_node(2);
    let second: NodeRef = graph.find(&2).unwrap();
    let weak = second.downgrade();
    assert_eq!(weak.upgrade(&graph), Some(second));

    let mut small = Graph::new();
    small.add_node(1);
    assert_eq!(weak.upgrade(&small), None);
    assert_eq!(weak.upgrade(&Graph::<i32>::new()), None);
}

#[test]
fn a_new_edge_holds_what_it_was_given() {
    let mut graph = Graph::new();
    graph.add_node(10);
    graph.add_node(20);
    let from = graph.find(&10).unwrap();
    let to = graph.find(&20).unwrap();
    let edge = Edge::new(from.downgrade(), to);
    assert_eq!(edge.from(), from.downgrade());
    assert_eq!(edge.to(), to);
    // Making an edge does not attach it.
    assert!(graph.node(from).edges().is_empty());
    assert!(graph.node(to).edges().is_empty());
}
