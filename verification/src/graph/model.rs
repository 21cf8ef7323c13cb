//! The mathematical model of a graph: what a graph *is*, independent of how
//! it is stored. Nodes and edges are numbered by their position in the order
//! of creation; an edge's number is its identity.

use vstd::prelude::*;
use vstd::std_specs::cmp::PartialEqSpec;

verus! {

/// A node: its value and the numbers of the edges attached to it, in the
/// order in which they were attached.
pub struct NodeView<T> {
    pub value: T,
    pub edges: Seq<int>,
}

/// An edge: the number of the node it starts from and of the node it leads to.
pub struct EdgeView {
    pub from: int,
    pub to: int,
}

/// A graph: its nodes in insertion order and its edges in creation order.
pub struct GraphView<T> {
    pub nodes: Seq<NodeView<T>>,
    pub edges: Seq<EdgeView>,
}

/// One step in the making of a graph: a node is inserted, or two values that
/// are in the graph are connected.
pub enum Step<T> {
    AddNode { value: T },
    AddEdge { from: T, to: T },
}

impl<T: PartialEq> GraphView<T> {
    /// The graph without nodes or edges.
    pub open spec fn empty() -> Self {
        GraphView { nodes: Seq::empty(), edges: Seq::empty() }
    }

    /// `n` numbers a node of this graph.
    pub open spec fn has_node(self, n: int) -> bool {
        0 <= n < self.nodes.len()
    }

    /// `e` numbers an edge of this graph.
    pub open spec fn has_edge(self, e: int) -> bool {
        0 <= e < self.edges.len()
    }

    /// Edge `e` starts from or leads to node `n`.
    pub open spec fn touches(self, e: int, n: int) -> bool {
        self.edges[e].from == n || self.edges[e].to == n
    }

    /// Node `n` lists edge `e` among its attached edges.
    pub open spec fn lists(self, n: int, e: int) -> bool {
        self.nodes[n].edges.contains(e)
    }

    /// Both endpoints of every edge are nodes of the graph, a node lists only
    /// edges of the graph that touch it, and every edge is listed by both of
    /// its endpoints.
    pub open spec fn wf(self) -> bool {
        &&& forall|e: int| #[trigger]
            self.has_edge(e) ==> self.has_node(self.edges[e].from) && self.has_node(
                self.edges[e].to,
            )
        &&& forall|n: int, k: int|
            self.has_node(n) && 0 <= k < self.nodes[n].edges.len() ==> self.has_edge(
                #[trigger] self.nodes[n].edges[k],
            ) && self.touches(self.nodes[n].edges[k], n)
        &&& forall|e: int| #[trigger]
            self.has_edge(e) ==> self.lists(self.edges[e].from, e) && self.lists(
                self.edges[e].to,
                e,
            )
    }

    /// Node `n` exists and its value compares equal to `value`.
    pub open spec fn matches_at(self, n: int, value: T) -> bool {
        self.has_node(n) && self.nodes[n].value.eq_spec(&value)
    }

    /// Some node's value compares equal to `value`.
    pub open spec fn contains_value(self, value: T) -> bool {
        exists|n: int| self.matches_at(n, value)
    }

    /// Node `n` matches `value` and no node inserted before it does.
    pub open spec fn is_first_match(self, n: int, value: T) -> bool {
        &&& self.matches_at(n, value)
        &&& forall|m: int| 0 <= m < n ==> !self.matches_at(m, value)
    }

    /// The earliest inserted node whose value compares equal to `value`, if
    /// there is one.
    pub open spec fn find(self, value: T) -> Option<int> {
        if self.contains_value(value) {
            Some(choose|n: int| self.is_first_match(n, value))
        } else {
            None
        }
    }

    /// What a weak reference to node `n` resolves to: the node itself while
    /// the graph holds it, nothing otherwise.
    pub open spec fn resolve(self, n: int) -> Option<int> {
        if self.has_node(n) {
            Some(n)
        } else {
            None
        }
    }

    /// The graph with one more node, holding `value` and no edges, after all
    /// the others.
    pub open spec fn with_node(self, value: T) -> Self {
        GraphView {
            nodes: self.nodes.push(NodeView { value, edges: Seq::empty() }),
            edges: self.edges,
        }
    }

    /// The nodes after `edge` was attached to node `n`.
    pub open spec fn attach(nodes: Seq<NodeView<T>>, n: int, edge: int) -> Seq<NodeView<T>> {
        nodes.update(n, NodeView { value: nodes[n].value, edges: nodes[n].edges.push(edge) })
    }

    /// The graph with one more edge between the first node that matches
    /// `from` and the first node that matches `to`.
    pub open spec fn connect(self, from: T, to: T) -> Self {
        self.with_edge(self.find(from).unwrap(), self.find(to).unwrap())
    }

    /// The step can be taken on this graph: a node can always be inserted,
    /// and two values can be connected once both are in the graph.
    pub open spec fn admits(self, step: Step<T>) -> bool {
        match step {
            Step::AddNode { value } => true,
            Step::AddEdge { from, to } => self.contains_value(from) && self.contains_value(to),
        }
    }

    /// The graph after the step.
    pub open spec fn after(self, step: Step<T>) -> Self {
        match step {
            Step::AddNode { value } => self.with_node(value),
            Step::AddEdge { from, to } => self.connect(from, to),
        }
    }

    /// The graph made from the empty graph by `steps`, taken in order.
    pub open spec fn built(steps: Seq<Step<T>>) -> Self
        decreases steps.len(),
    {
        if steps.len() == 0 {
            Self::empty()
        } else {
            Self::built(steps.drop_last()).after(steps.last())
        }
    }

    /// Each of `steps` could be taken when its turn came.
    pub open spec fn buildable(steps: Seq<Step<T>>) -> bool
        decreases steps.len(),
    {
        steps.len() == 0 || (Self::buildable(steps.drop_last()) && Self::built(
            steps.drop_last(),
        ).admits(steps.last()))
    }

    /// One of `steps` inserted a node whose value compares equal to `value`.
    pub open spec fn inserted(steps: Seq<Step<T>>, value: T) -> bool {
        exists|i: int| Self::inserts_at(steps, i, value)
    }

    /// Step `i` of `steps` inserted a node whose value compares equal to
    /// `value`.
    pub open spec fn inserts_at(steps: Seq<Step<T>>, i: int, value: T) -> bool {
        &&& 0 <= i < steps.len()
        &&& steps[i] matches Step::AddNode { value: added }
        &&& added.eq_spec(&value)
    }

    /// The graph with one more edge from node `from` to node `to`. The one
    /// new edge is attached to `from` first and then to `to`; where both are
    /// the same node, that node lists it twice.
    pub open spec fn with_edge(self, from: int, to: int) -> Self {
        let edge = self.edges.len() as int;
        GraphView {
            nodes: Self::attach(Self::attach(self.nodes, from, edge), to, edge),
            edges: self.edges.push(EdgeView { from, to }),
        }
    }
}

} // verus!
