//! A directed graph whose nodes and edges live in an arena owned by the graph.
//!
//! Nodes and edges are reached through small copyable handles. A [`NodeRef`]
//! is a strong reference to a node, a [`WeakNodeRef`] a back-reference that
//! has to be resolved against the graph before use, and an [`EdgeRef`] the
//! identity of one edge: both endpoints of an edge hold the same `EdgeRef`.
//!
//! Nodes compare by value; edges compare by identity.

pub mod laws;
pub mod model;

use crate::graph::laws::{lemma_first_match_is_find, lemma_with_edge_wf, lemma_with_node_wf};
use crate::graph::model::{EdgeView, GraphView, NodeView};
use vstd::prelude::*;
use vstd::std_specs::cmp::PartialEqSpec;

verus! {

/// A strong reference to a node of a graph.
#[derive(Clone, Copy, Debug, PartialEq, Eq, Structural)]
pub struct NodeRef {
    index: usize,
}

/// A back-reference to a node that does not by itself vouch for the node:
/// [`WeakNodeRef::upgrade`] resolves it against a graph.
#[derive(Clone, Copy, Debug, PartialEq, Eq, Structural)]
pub struct WeakNodeRef {
    index: usize,
}

/// The identity of an edge. Two `EdgeRef`s are equal exactly when they name
/// the same edge; the endpoints of the edge play no part in the comparison.
#[derive(Clone, Copy, Debug, PartialEq, Eq, Structural)]
pub struct EdgeRef {
    index: usize,
}

impl View for NodeRef {
    type V = int;

    /// The number of the node in its graph.
    closed spec fn view(&self) -> int {
        self.index as int
    }
}

impl View for WeakNodeRef {
    type V = int;

    /// The number of the node that the reference was made from.
    closed spec fn view(&self) -> int {
        self.index as int
    }
}

impl View for EdgeRef {
    type V = int;

    /// The number of the edge in its graph.
    closed spec fn view(&self) -> int {
        self.index as int
    }
}

impl NodeRef {
    /// Two strong references are equal exactly when they name the same node.
    pub proof fn lemma_same_node(self, other: NodeRef)
        ensures
            self == other <==> self@ == other@,
    {
    }

    /// A weak reference to the same node.
    pub fn downgrade(&self) -> (weak: WeakNodeRef)
        ensures
            weak@ == self@,
    {
        WeakNodeRef { index: self.index }
    }
}

impl WeakNodeRef {
    /// Two weak references are equal exactly when they were made from the
    /// same node.
    pub proof fn lemma_same_node(self, other: WeakNodeRef)
        ensures
            self == other <==> self@ == other@,
    {
    }

    /// Resolves the reference against `graph`: the node while the graph holds
    /// it, `None` otherwise.
    pub fn upgrade<T: PartialEq>(&self, graph: &Graph<T>) -> (node: Option<NodeRef>)
        ensures
            match node {
                Some(node) => graph@.resolve(self@) == Some(node@),
                None => graph@.resolve(self@) is None,
            },
    {
        if self.index < graph.nodes.len() {
            Some(NodeRef { index: self.index })
        } else {
            None
        }
    }
}

impl EdgeRef {
    /// Two edge references are equal exactly when they name the same edge.
    pub proof fn lemma_same_edge(self, other: EdgeRef)
        ensures
            self == other <==> self@ == other@,
    {
    }
}

/// A node: a value and the edges attached to it, outgoing and incoming alike,
/// in the order in which they were attached.
#[derive(Debug)]
pub struct Node<T> {
    value: T,
    edges: Vec<EdgeRef>,
}

impl<T> View for Node<T> {
    type V = NodeView<T>;

    closed spec fn view(&self) -> NodeView<T> {
        NodeView { value: self.value, edges: self.edges@.map_values(|edge: EdgeRef| edge@) }
    }
}

impl<T> Node<T> {
    /// The value held by the node.
    pub fn value(&self) -> (value: &T)
        ensures
            *value == self@.value,
    {
        &self.value
    }

    /// The edges attached to the node, in the order in which they were
    /// attached.
    pub fn edges(&self) -> (edges: &Vec<EdgeRef>)
        ensures
            edges@.len() == self@.edges.len(),
            forall|k: int| 0 <= k < edges@.len() ==> (#[trigger] edges@[k])@ == self@.edges[k],
    {
        &self.edges
    }
}

/// Nodes are equal when their values are; the attached edges and the place
/// of the node in its graph play no part.
impl<T: PartialEq> PartialEq for Node<T> {
    fn eq(&self, other: &Node<T>) -> (equal: bool) {
        self.value == other.value
    }
}

impl<T: PartialEq> vstd::std_specs::cmp::PartialEqSpecImpl for Node<T> {
    open spec fn obeys_eq_spec() -> bool {
        T::obeys_eq_spec()
    }

    open spec fn eq_spec(&self, other: &Node<T>) -> bool {
        self@.value.eq_spec(&other@.value)
    }
}

/// Equality of nodes is an equivalence wherever equality of their values is
/// one: reflexive, symmetric and transitive.
pub proof fn lemma_node_eq_is_equivalence<T: PartialEq>(a: Node<T>, b: Node<T>, c: Node<T>)
    requires
        forall|x: T| #[trigger] x.eq_spec(&x),
        forall|x: T, y: T| #[trigger] x.eq_spec(&y) ==> y.eq_spec(&x),
        forall|x: T, y: T, z: T| #[trigger] x.eq_spec(&y) && #[trigger] y.eq_spec(&z) ==> x.eq_spec(&z),
    ensures
        a.eq_spec(&a),
        a.eq_spec(&b) ==> b.eq_spec(&a),
        a.eq_spec(&b) && b.eq_spec(&c) ==> a.eq_spec(&c),
{
}

/// An edge: a weak back-reference to the node it starts from and a strong
/// reference to the node it leads to. An edge is never changed once made,
/// and it has no equality of its own: which edge it is, is told by the
/// [`EdgeRef`] that names it.
#[derive(Debug)]
pub struct Edge {
    from: WeakNodeRef,
    to: NodeRef,
}

impl View for Edge {
    type V = EdgeView;

    closed spec fn view(&self) -> EdgeView {
        EdgeView { from: self.from@, to: self.to@ }
    }
}

impl Edge {
    /// An edge that holds `from` and `to` as given.
    pub fn new(from: WeakNodeRef, to: NodeRef) -> (edge: Edge)
        ensures
            edge@ == (EdgeView { from: from@, to: to@ }),
    {
        Edge { from, to }
    }

    /// The back-reference to the node the edge starts from.
    pub fn from(&self) -> (from: WeakNodeRef)
        ensures
            from@ == self@.from,
    {
        self.from
    }

    /// The node the edge leads to.
    pub fn to(&self) -> (to: NodeRef)
        ensures
            to@ == self@.to,
    {
        self.to
    }
}

/// A directed graph. It owns its nodes and its edges; neither is ever
/// removed, so a reference handed out by the graph stays good for it.
pub struct Graph<T> {
    nodes: Vec<Node<T>>,
    edges: Vec<Edge>,
}

impl<T> View for Graph<T> {
    type V = GraphView<T>;

    closed spec fn view(&self) -> GraphView<T> {
        GraphView {
            nodes: self.nodes@.map_values(|node: Node<T>| node@),
            edges: self.edges@.map_values(|edge: Edge| edge@),
        }
    }
}

impl<T: PartialEq> Graph<T> {
    /// A graph without nodes or edges.
    pub fn new() -> (graph: Graph<T>)
        ensures
            graph@ == GraphView::<T>::empty(),
            graph@.wf(),
    {
        let graph = Graph { nodes: Vec::new(), edges: Vec::new() };
        assert(graph@.nodes =~= Seq::empty());
        assert(graph@.edges =~= Seq::empty());
        graph
    }

    /// Appends a node that holds `value` and has no edges. Values need not be
    /// distinct.
    pub fn add_node(&mut self, value: T)
        ensures
            final(self)@ == old(self)@.with_node(value),
            old(self)@.wf() ==> final(self)@.wf(),
    {
        self.nodes.push(Node { value, edges: Vec::new() });
        proof {
            let node = self.nodes@.last();
            assert(node@.edges =~= Seq::empty());
            assert(self@.nodes =~= old(self)@.with_node(value).nodes);
            if old(self)@.wf() {
                lemma_with_node_wf(old(self)@, value);
            }
        }
    }

    /// The first node, in insertion order, whose value compares equal to
    /// `value`; `None` when there is no such node.
    pub fn find(&self, value: &T) -> (found: Option<NodeRef>)
        ensures
            found matches Some(node) ==> self@.has_node(node@),
            T::obeys_eq_spec() ==> match found {
                Some(node) => self@.find(*value) == Some(node@),
                None => self@.find(*value) is None,
            },
    {
        let mut i: usize = 0;
        while i < self.nodes.len()
            invariant
                i <= self.nodes.len(),
                T::obeys_eq_spec() ==> forall|m: int| 0 <= m < i ==> !self@.matches_at(m, *value),
            decreases self.nodes.len() - i,
        {
            if self.nodes[i].value == *value {
                proof {
                    if T::obeys_eq_spec() {
                        lemma_first_match_is_find(self@, i as int, *value);
                    }
                }
                return Some(NodeRef { index: i });
            }
            i += 1;
        }
        None
    }

    /// Connects the first node that matches `from` to the first node that
    /// matches `to`. One new edge is made, and that same edge is attached to
    /// both nodes: first to the node it starts from, then to the node it
    /// leads to.
    ///
    /// Both values must already be in the graph.
    pub fn add_edge(&mut self, from: &T, to: &T)
        requires
            T::obeys_eq_spec(),
            old(self)@.contains_value(*from),
            old(self)@.contains_value(*to),
        ensures
            final(self)@ == old(self)@.connect(*from, *to),
            old(self)@.wf() ==> final(self)@.wf(),
    {
        let from_node = self.find(from).expect("Can't find node");
        let to_node = self.find(to).expect("Can't find node");
        let edge = Edge::new(from_node.downgrade(), to_node);
        let shared = EdgeRef { index: self.edges.len() };
        self.edges.push(edge);
        self.nodes[from_node.index].edges.push(shared);
        self.nodes[to_node.index].edges.push(shared);
        proof {
            let before = old(self)@;
            let after = before.with_edge(from_node@, to_node@);
            assert(self@.edges =~= after.edges);
            assert forall|n: int| 0 <= n < after.nodes.len() implies self@.nodes[n]
                == after.nodes[n] by {
                assert(self@.nodes[n].edges =~= after.nodes[n].edges);
            }
            assert(self@.nodes =~= after.nodes);
            if before.wf() {
                lemma_with_edge_wf(before, from_node@, to_node@);
            }
        }
    }

    /// The node that `node` refers to.
    pub fn node(&self, node: NodeRef) -> (found: &Node<T>)
        requires
            self@.has_node(node@),
        ensures
            found@ == self@.nodes[node@],
    {
        &self.nodes[node.index]
    }

    /// The edge that `edge` names.
    pub fn edge(&self, edge: EdgeRef) -> (found: &Edge)
        requires
            self@.has_edge(edge@),
        ensures
            found@ == self@.edges[edge@],
    {
        &self.edges[edge.index]
    }
}

} // verus!
