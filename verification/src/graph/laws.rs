//! Laws of the graph model: what holds of `find`, `with_node` and `with_edge`
//! for every graph and every value.

use crate::graph::model::{GraphView, Step};
use vstd::prelude::*;
use vstd::std_specs::cmp::PartialEqSpec;

verus! {

/// Among the nodes that match a value there is an earliest one.
proof fn lemma_first_match_exists<T: PartialEq>(g: GraphView<T>, n: int, value: T)
    requires
        g.matches_at(n, value),
    ensures
        exists|m: int| 0 <= m <= n && g.is_first_match(m, value),
    decreases n,
{
    if exists|m: int| 0 <= m < n && g.matches_at(m, value) {
        let m = choose|m: int| 0 <= m < n && g.matches_at(m, value);
        lemma_first_match_exists(g, m, value);
    } else {
        assert(g.is_first_match(n, value));
    }
}

/// `find` returns the earliest node that matches the value: it matches, no
/// node inserted before it does, and without any match `find` returns nothing.
pub proof fn lemma_find_is_first_match<T: PartialEq>(g: GraphView<T>, value: T)
    ensures
        match g.find(value) {
            Some(n) => g.is_first_match(n, value),
            None => forall|m: int| !g.matches_at(m, value),
        },
{
    if g.contains_value(value) {
        let n = choose|n: int| g.matches_at(n, value);
        lemma_first_match_exists(g, n, value);
    }
}

/// A node that matches the value with no match before it is the one that
/// `find` returns.
pub proof fn lemma_first_match_is_find<T: PartialEq>(g: GraphView<T>, n: int, value: T)
    requires
        g.is_first_match(n, value),
    ensures
        g.find(value) == Some(n),
{
    lemma_find_is_first_match(g, value);
}

/// In a graph without nodes `find` returns nothing, whatever the value.
pub proof fn lemma_find_in_empty<T: PartialEq>(value: T)
    ensures
        GraphView::<T>::empty().find(value) is None,
        GraphView::<T>::empty().wf(),
{
}

/// A value that no node matches is not found.
pub proof fn lemma_find_absent<T: PartialEq>(g: GraphView<T>, value: T)
    requires
        forall|n: int| g.has_node(n) ==> !(#[trigger] g.nodes[n]).value.eq_spec(&value),
    ensures
        g.find(value) is None,
{
    assert forall|n: int| !g.matches_at(n, value) by {}
}

/// Inserting a node leaves the answer of `find` as it was for every value
/// that was found before, and for every value that the new node's value does
/// not compare equal to.
pub proof fn lemma_find_after_other_node<T: PartialEq>(g: GraphView<T>, added: T, value: T)
    requires
        g.find(value) is Some || !added.eq_spec(&value),
    ensures
        g.with_node(added).find(value) == g.find(value),
{
    let h = g.with_node(added);
    lemma_find_is_first_match(g, value);
    match g.find(value) {
        Some(n) => {
            assert forall|m: int| 0 <= m < n implies !h.matches_at(m, value) by {
                assert(!g.matches_at(m, value));
            }
            lemma_first_match_is_find(h, n, value);
        },
        None => {
            assert forall|m: int| !h.matches_at(m, value) by {
                if 0 <= m < g.nodes.len() {
                    assert(!g.matches_at(m, value));
                }
            }
        },
    }
}

/// After a node with `value` was inserted, `find` returns a node for `value`,
/// and that node's value compares equal to `value`: the earliest match that
/// was there before, or else the new node.
pub proof fn lemma_find_after_add_node<T: PartialEq>(g: GraphView<T>, value: T)
    requires
        value.eq_spec(&value),
    ensures
        g.with_node(value).find(value) is Some,
        g.with_node(value).matches_at(g.with_node(value).find(value).unwrap(), value),
        g.with_node(value).find(value) == if g.find(value) is Some {
            g.find(value)
        } else {
            Some(g.nodes.len() as int)
        },
{
    let h = g.with_node(value);
    let last = g.nodes.len() as int;
    if g.find(value) is Some {
        lemma_find_after_other_node(g, value, value);
        lemma_find_is_first_match(h, value);
    } else {
        lemma_find_is_first_match(g, value);
        assert forall|m: int| 0 <= m < last implies !h.matches_at(m, value) by {
            assert(!g.matches_at(m, value));
        }
        lemma_first_match_is_find(h, last, value);
    }
}

/// Inserting a node keeps a well-formed graph well-formed.
pub proof fn lemma_with_node_wf<T: PartialEq>(g: GraphView<T>, value: T)
    requires
        g.wf(),
    ensures
        g.with_node(value).wf(),
{
    let h = g.with_node(value);
    assert forall|e: int| #[trigger] h.has_edge(e) implies h.has_node(h.edges[e].from)
        && h.has_node(h.edges[e].to) && h.lists(h.edges[e].from, e) && h.lists(h.edges[e].to, e) by {
        assert(g.has_edge(e));
    }
    assert forall|n: int, k: int| h.has_node(n) && 0 <= k < h.nodes[n].edges.len() implies h.has_edge(
        #[trigger] h.nodes[n].edges[k],
    ) && h.touches(h.nodes[n].edges[k], n) by {}
}

/// What connecting `from` to `to` does to each node: the values stay, the new
/// edge is appended to the lists of `from` and of `to` (twice where they are
/// the same node), and every other list stays as it was.
pub proof fn lemma_with_edge_lists<T: PartialEq>(g: GraphView<T>, from: int, to: int, n: int)
    requires
        g.has_node(from),
        g.has_node(to),
        g.has_node(n),
    ensures
        g.with_edge(from, to).nodes.len() == g.nodes.len(),
        g.with_edge(from, to).nodes[n].value == g.nodes[n].value,
        g.with_edge(from, to).nodes[n].edges == if n == from && n == to {
            g.nodes[n].edges.push(g.edges.len() as int).push(g.edges.len() as int)
        } else if n == from || n == to {
            g.nodes[n].edges.push(g.edges.len() as int)
        } else {
            g.nodes[n].edges
        },
{
}

/// Connecting two nodes changes no value and adds no node, so `find` answers
/// as before.
pub proof fn lemma_find_after_add_edge<T: PartialEq>(g: GraphView<T>, from: int, to: int, value: T)
    requires
        g.has_node(from),
        g.has_node(to),
    ensures
        g.with_edge(from, to).find(value) == g.find(value),
{
    let h = g.with_edge(from, to);
    assert forall|n: int| h.matches_at(n, value) == g.matches_at(n, value) by {
        if g.has_node(n) {
            lemma_with_edge_lists(g, from, to, n);
        }
    }
    lemma_find_is_first_match(g, value);
    match g.find(value) {
        Some(n) => {
            assert forall|m: int| 0 <= m < n implies !h.matches_at(m, value) by {}
            lemma_first_match_is_find(h, n, value);
        },
        None => {
            assert forall|m: int| !h.matches_at(m, value) by {}
        },
    }
}

/// Connecting two nodes of a well-formed graph keeps it well-formed.
pub proof fn lemma_with_edge_wf<T: PartialEq>(g: GraphView<T>, from: int, to: int)
    requires
        g.wf(),
        g.has_node(from),
        g.has_node(to),
    ensures
        g.with_edge(from, to).wf(),
{
    let h = g.with_edge(from, to);
    let new = g.edges.len() as int;
    assert forall|n: int, k: int| h.has_node(n) && 0 <= k < h.nodes[n].edges.len() implies h.has_edge(
        #[trigger] h.nodes[n].edges[k],
    ) && h.touches(h.nodes[n].edges[k], n) by {
        lemma_with_edge_lists(g, from, to, n);
    }
    assert forall|e: int| #[trigger] h.has_edge(e) implies h.has_node(h.edges[e].from)
        && h.has_node(h.edges[e].to) && h.lists(h.edges[e].from, e) && h.lists(h.edges[e].to, e) by {
        if e == new {
            lemma_with_edge_lists(g, from, to, from);
            lemma_with_edge_lists(g, from, to, to);
            assert(h.nodes[from].edges[h.nodes[from].edges.len() - 1] == new);
            assert(h.nodes[to].edges[h.nodes[to].edges.len() - 1] == new);
        } else {
            assert(g.has_edge(e));
            let a = g.edges[e].from;
            let b = g.edges[e].to;
            lemma_with_edge_lists(g, from, to, a);
            lemma_with_edge_lists(g, from, to, b);
            let ka = choose|k: int| 0 <= k < g.nodes[a].edges.len() && g.nodes[a].edges[k] == e;
            let kb = choose|k: int| 0 <= k < g.nodes[b].edges.len() && g.nodes[b].edges[k] == e;
            assert(h.nodes[a].edges[ka] == e);
            assert(h.nodes[b].edges[kb] == e);
        }
    }
}

/// After two nodes were inserted and connected by their values, the edge
/// attached last to the first node and the edge attached last to the second
/// node are one and the same edge. Its back-reference resolves to the first
/// node and it leads to the second; the values of both compare equal to the
/// values that were given.
pub proof fn lemma_connect_new_nodes<T: PartialEq>(g: GraphView<T>, first: T, second: T)
    requires
        first.eq_spec(&first),
        second.eq_spec(&second),
    ensures
        ({
            let nodes = g.with_node(first).with_node(second);
            let a = nodes.find(first).unwrap();
            let b = nodes.find(second).unwrap();
            let h = nodes.connect(first, second);
            let edge = h.nodes[a].edges.last();
            &&& nodes.find(first) is Some
            &&& nodes.find(second) is Some
            &&& h.find(first) == Some(a)
            &&& h.find(second) == Some(b)
            &&& h.has_edge(edge)
            &&& edge == h.nodes[b].edges.last()
            &&& h.resolve(h.edges[edge].from) == Some(a)
            &&& h.edges[edge].to == b
            &&& h.nodes[a].value.eq_spec(&first)
            &&& h.nodes[b].value.eq_spec(&second)
            &&& h.nodes[a].edges.len() == nodes.nodes[a].edges.len() + if a == b {
                2int
            } else {
                1int
            }
            &&& h.nodes[b].edges.len() == nodes.nodes[b].edges.len() + if a == b {
                2int
            } else {
                1int
            }
        }),
{
    let one = g.with_node(first);
    let nodes = one.with_node(second);
    lemma_find_after_add_node(g, first);
    lemma_find_after_other_node(one, second, first);
    lemma_find_after_add_node(one, second);
    lemma_find_is_first_match(nodes, first);
    lemma_find_is_first_match(nodes, second);
    let a = nodes.find(first).unwrap();
    let b = nodes.find(second).unwrap();
    lemma_with_edge_lists(nodes, a, b, a);
    lemma_with_edge_lists(nodes, a, b, b);
    lemma_find_after_add_edge(nodes, a, b, first);
    lemma_find_after_add_edge(nodes, a, b, second);
}

/// Two edges made one after the other between the same two nodes hold the
/// same endpoints and are still two edges: each has an identity of its own.
pub proof fn lemma_parallel_edges_differ<T: PartialEq>(g: GraphView<T>, from: int, to: int)
    requires
        g.has_node(from),
        g.has_node(to),
    ensures
        ({
            let one = g.with_edge(from, to);
            let two = one.with_edge(from, to);
            let first = one.nodes[from].edges.last();
            let second = two.nodes[from].edges.last();
            &&& two.has_edge(first)
            &&& two.has_edge(second)
            &&& two.edges[first] == two.edges[second]
            &&& first != second
            &&& two.lists(from, first) && two.lists(to, first)
            &&& two.lists(from, second) && two.lists(to, second)
        }),
{
    let one = g.with_edge(from, to);
    let two = one.with_edge(from, to);
    lemma_with_edge_lists(g, from, to, from);
    lemma_with_edge_lists(g, from, to, to);
    lemma_with_edge_lists(one, from, to, from);
    lemma_with_edge_lists(one, from, to, to);
    let first = g.edges.len() as int;
    let second = first + 1;
    let fl = two.nodes[from].edges.len();
    let tl = two.nodes[to].edges.len();
    assert(two.nodes[to].edges[tl - 1] == second);
    if from == to {
        assert(two.nodes[from].edges[fl - 3] == first);
    } else {
        assert(two.nodes[from].edges[fl - 2] == first);
        assert(two.nodes[to].edges[tl - 2] == first);
    }
}

/// An edge that a node of a well-formed graph lists is an edge of the graph
/// that touches the node; the node it leads to is in the graph, and its
/// back-reference resolves to the node it starts from.
pub proof fn lemma_listed_edge_endpoints<T: PartialEq>(g: GraphView<T>, n: int, k: int)
    requires
        g.wf(),
        g.has_node(n),
        0 <= k < g.nodes[n].edges.len(),
    ensures
        ({
            let edge = g.nodes[n].edges[k];
            &&& g.has_edge(edge)
            &&& g.touches(edge, n)
            &&& g.has_node(g.edges[edge].to)
            &&& g.resolve(g.edges[edge].from) == Some(g.edges[edge].from)
            &&& g.lists(g.edges[edge].from, edge)
            &&& g.lists(g.edges[edge].to, edge)
        }),
{
}

/// Every graph that can be made is well-formed, and `find` returns a node
/// for exactly the values that were inserted: a value that no inserted value
/// compares equal to is not found, whatever else was inserted or connected.
pub proof fn lemma_found_iff_inserted<T: PartialEq>(steps: Seq<Step<T>>, value: T)
    requires
        GraphView::buildable(steps),
    ensures
        GraphView::built(steps).wf(),
        GraphView::built(steps).find(value) is Some <==> GraphView::inserted(steps, value),
    decreases steps.len(),
{
    let g = GraphView::built(steps);
    if steps.len() == 0 {
        lemma_find_in_empty(value);
        assert forall|i: int| !GraphView::inserts_at(steps, i, value) by {}
    } else {
        let init = steps.drop_last();
        let before = GraphView::built(init);
        lemma_found_iff_inserted(init, value);
        assert forall|i: int| 0 <= i < init.len() implies GraphView::inserts_at(init, i, value)
            == GraphView::inserts_at(steps, i, value) by {}
        let last = steps.len() - 1;
        match steps.last() {
            Step::AddNode { value: added } => {
                lemma_with_node_wf(before, added);
                if before.find(value) is Some || !added.eq_spec(&value) {
                    lemma_find_after_other_node(before, added, value);
                } else {
                    assert(g.matches_at(before.nodes.len() as int, value));
                }
                if added.eq_spec(&value) {
                    assert(GraphView::inserts_at(steps, last, value));
                }
            },
            Step::AddEdge { from, to } => {
                lemma_find_is_first_match(before, from);
                lemma_find_is_first_match(before, to);
                let a = before.find(from).unwrap();
                let b = before.find(to).unwrap();
                lemma_with_edge_wf(before, a, b);
                lemma_find_after_add_edge(before, a, b, value);
            },
        }
    }
}

} // verus!
