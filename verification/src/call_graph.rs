//! The call graph that a build produces: nodes keyed by identifier, directed
//! edges between them, both kept in a fixed order.

use crate::order::{
    lemma_text_before_asymmetric, lemma_text_before_irreflexive, lemma_text_before_total,
    lemma_text_before_transitive, str_before, str_eq, text_before,
};
use vstd::prelude::*;

verus! {

/// A function of the graph: its identifier, what is displayed for it, and the
/// cluster it is drawn in.
#[derive(Debug)]
pub struct CallGraphNode {
    pub id: String,
    pub label: String,
    pub group: String,
}

/// A call from one function to another, by their identifiers.
#[derive(Debug)]
pub struct CallGraphEdge {
    pub from: String,
    pub to: String,
}

/// Nodes and edges. See [`CallGraph::well_formed`] for what a graph built by
/// this crate guarantees.
#[derive(Debug)]
pub struct CallGraph {
    pub nodes: Vec<CallGraphNode>,
    pub edges: Vec<CallGraphEdge>,
}

/// A node, as mathematics.
pub struct NodeView {
    pub id: Seq<char>,
    pub label: Seq<char>,
    pub group: Seq<char>,
}

/// An edge, as mathematics.
pub struct EdgeView {
    pub from: Seq<char>,
    pub to: Seq<char>,
}

/// A graph, as mathematics: its two lists in their order.
pub struct GraphView {
    pub nodes: Seq<NodeView>,
    pub edges: Seq<EdgeView>,
}

impl View for CallGraphNode {
    type V = NodeView;

    open spec fn view(&self) -> NodeView {
        NodeView { id: self.id@, label: self.label@, group: self.group@ }
    }
}

impl View for CallGraphEdge {
    type V = EdgeView;

    open spec fn view(&self) -> EdgeView {
        EdgeView { from: self.from@, to: self.to@ }
    }
}

impl View for CallGraph {
    type V = GraphView;

    open spec fn view(&self) -> GraphView {
        GraphView {
            nodes: Seq::new(self.nodes@.len(), |i: int| self.nodes@[i]@),
            edges: Seq::new(self.edges@.len(), |i: int| self.edges@[i]@),
        }
    }
}

impl Clone for CallGraphNode {
    fn clone(&self) -> (r: Self)
        ensures
            r@ == self@,
    {
        CallGraphNode { id: self.id.clone(), label: self.label.clone(), group: self.group.clone() }
    }
}

impl Clone for CallGraphEdge {
    fn clone(&self) -> (r: Self)
        ensures
            r@ == self@,
    {
        CallGraphEdge { from: self.from.clone(), to: self.to.clone() }
    }
}

impl Clone for CallGraph {
    fn clone(&self) -> (r: Self)
        ensures
            r@ == self@,
    {
        let mut nodes: Vec<CallGraphNode> = Vec::new();
        let mut i: usize = 0;
        while i < self.nodes.len()
            invariant
                i <= self.nodes.len(),
                nodes@.len() == i,
                forall|k: int| 0 <= k < i ==> nodes@[k]@ == self.nodes@[k]@,
            decreases self.nodes.len() - i,
        {
            nodes.push(self.nodes[i].clone());
            i = i + 1;
        }
        let mut edges: Vec<CallGraphEdge> = Vec::new();
        let mut j: usize = 0;
        while j < self.edges.len()
            invariant
                j <= self.edges.len(),
                edges@.len() == j,
                forall|k: int| 0 <= k < j ==> edges@[k]@ == self.edges@[k]@,
            decreases self.edges.len() - j,
        {
            edges.push(self.edges[j].clone());
            j = j + 1;
        }
        let r = CallGraph { nodes, edges };
        assert(r@.nodes =~= self@.nodes);
        assert(r@.edges =~= self@.edges);
        r
    }
}

/// The order of the edge list: by caller, then by callee.
pub open spec fn edge_before(a: EdgeView, b: EdgeView) -> bool {
    text_before(a.from, b.from) || (a.from == b.from && text_before(a.to, b.to))
}

/// Nodes in strictly ascending order of their identifiers; so no identifier
/// occurs twice.
pub open spec fn nodes_sorted(nodes: Seq<NodeView>) -> bool {
    forall|i: int, j: int|
        #![trigger nodes[i], nodes[j]]
        0 <= i < j < nodes.len() ==> text_before(nodes[i].id, nodes[j].id)
}

/// Edges in strictly ascending order; so no edge occurs twice.
pub open spec fn edges_sorted(edges: Seq<EdgeView>) -> bool {
    forall|i: int, j: int|
        #![trigger edges[i], edges[j]]
        0 <= i < j < edges.len() ==> edge_before(edges[i], edges[j])
}

/// Whether a node with this identifier is among `nodes`.
pub open spec fn has_node(nodes: Seq<NodeView>, id: Seq<char>) -> bool {
    exists|i: int| 0 <= i < nodes.len() && (#[trigger] nodes[i]).id == id
}

/// Whether both ends of every edge are among `nodes`.
pub open spec fn edges_closed(nodes: Seq<NodeView>, edges: Seq<EdgeView>) -> bool {
    forall|k: int|
        0 <= k < edges.len() ==> has_node(nodes, (#[trigger] edges[k]).from) && has_node(
            nodes,
            edges[k].to,
        )
}

/// What a finished graph guarantees: one node per identifier, one edge per
/// pair, every edge between two nodes of the graph, and both lists in order.
pub open spec fn graph_well_formed(g: GraphView) -> bool {
    &&& nodes_sorted(g.nodes)
    &&& edges_sorted(g.edges)
    &&& edges_closed(g.nodes, g.edges)
}

/// The place of the node with this identifier in `nodes`.
pub open spec fn node_index(nodes: Seq<NodeView>, id: Seq<char>) -> int {
    choose|i: int| 0 <= i < nodes.len() && (#[trigger] nodes[i]).id == id
}

/// The nodes of a graph by their identifiers.
pub open spec fn node_map(g: GraphView) -> Map<Seq<char>, NodeView> {
    Map::new(
        |id: Seq<char>| has_node(g.nodes, id),
        |id: Seq<char>| g.nodes[node_index(g.nodes, id)],
    )
}

/// The edges of a graph as a set.
pub open spec fn edge_set(g: GraphView) -> Set<EdgeView> {
    Set::new(|e: EdgeView| g.edges.contains(e))
}

/// In a sorted node list every node is the entry of its own identifier.
pub proof fn lemma_node_map_entry(g: GraphView, i: int)
    requires
        nodes_sorted(g.nodes),
        0 <= i < g.nodes.len(),
    ensures
        node_map(g).dom().contains(g.nodes[i].id),
        node_map(g)[g.nodes[i].id] == g.nodes[i],
{
    let id = g.nodes[i].id;
    assert(has_node(g.nodes, id));
    let j = node_index(g.nodes, id);
    if j < i {
        assert(text_before(g.nodes[j].id, g.nodes[i].id));
        lemma_text_before_irreflexive(id);
    } else if i < j {
        assert(text_before(g.nodes[i].id, g.nodes[j].id));
        lemma_text_before_irreflexive(id);
    }
}

/// What replacing or adding one node does to the nodes by identifier.
proof fn lemma_upsert_node_map(before: GraphView, after: GraphView, nv: NodeView)
    requires
        nodes_sorted(before.nodes),
        nodes_sorted(after.nodes),
        forall|n: NodeView|
            after.nodes.contains(n) <==> (n == nv || (before.nodes.contains(n) && n.id != nv.id)),
    ensures
        node_map(after) == node_map(before).insert(nv.id, nv),
{
    let want = node_map(before).insert(nv.id, nv);
    assert forall|id: Seq<char>| node_map(after).dom().contains(id) <==> want.dom().contains(
        id,
    ) by {
        if has_node(after.nodes, id) {
            let k = choose|k: int| 0 <= k < after.nodes.len() && (#[trigger] after.nodes[k]).id
                == id;
            let n = after.nodes[k];
            assert(after.nodes.contains(n));
            if n != nv {
                let j = choose|j: int| 0 <= j < before.nodes.len() && before.nodes[j] == n;
                assert(before.nodes[j].id == id);
            }
        }
        if id == nv.id {
            assert(after.nodes.contains(nv));
            let k = choose|k: int| 0 <= k < after.nodes.len() && after.nodes[k] == nv;
            assert(after.nodes[k].id == id);
        } else if has_node(before.nodes, id) {
            let j = choose|j: int| 0 <= j < before.nodes.len() && (#[trigger] before.nodes[j]).id
                == id;
            let n = before.nodes[j];
            assert(before.nodes.contains(n));
            assert(after.nodes.contains(n));
            let k = choose|k: int| 0 <= k < after.nodes.len() && after.nodes[k] == n;
            assert(after.nodes[k].id == id);
        }
    }
    assert forall|id: Seq<char>| #[trigger] node_map(after).dom().contains(id) implies node_map(
        after,
    )[id] == want[id] by {
        if id == nv.id {
            assert(after.nodes.contains(nv));
            let k = choose|k: int| 0 <= k < after.nodes.len() && after.nodes[k] == nv;
            lemma_node_map_entry(after, k);
        } else {
            assert(want.dom().contains(id));
            assert(node_map(before).dom().contains(id));
            assert(has_node(before.nodes, id));
            let j = choose|j: int| 0 <= j < before.nodes.len() && (#[trigger] before.nodes[j]).id
                == id;
            let n = before.nodes[j];
            assert(before.nodes.contains(n));
            assert(after.nodes.contains(n));
            let k = choose|k: int| 0 <= k < after.nodes.len() && after.nodes[k] == n;
            lemma_node_map_entry(after, k);
            lemma_node_map_entry(before, j);
        }
    }
    assert(node_map(after) =~= want);
}

/// If one edge comes before another, the other does not come before it.
pub proof fn lemma_edge_before_asymmetric(a: EdgeView, b: EdgeView)
    requires
        edge_before(a, b),
    ensures
        !edge_before(b, a),
        a != b,
{
    if text_before(a.from, b.from) {
        lemma_text_before_asymmetric(a.from, b.from);
    } else {
        lemma_text_before_asymmetric(a.to, b.to);
        lemma_text_before_irreflexive(a.from);
    }
}

/// The order of edges is transitive.
pub proof fn lemma_edge_before_transitive(a: EdgeView, b: EdgeView, c: EdgeView)
    requires
        edge_before(a, b),
        edge_before(b, c),
    ensures
        edge_before(a, c),
{
    if text_before(a.from, b.from) && text_before(b.from, c.from) {
        lemma_text_before_transitive(a.from, b.from, c.from);
    } else if a.from == b.from && b.from == c.from {
        lemma_text_before_transitive(a.to, b.to, c.to);
    }
}

/// Of two different edges one comes before the other.
pub proof fn lemma_edge_before_total(a: EdgeView, b: EdgeView)
    ensures
        edge_before(a, b) || edge_before(b, a) || a == b,
{
    lemma_text_before_total(a.from, b.from);
    lemma_text_before_total(a.to, b.to);
}

/// Two lists in strictly ascending order that hold the same elements are the
/// same list.
pub proof fn lemma_sorted_same_elements<T>(a: Seq<T>, b: Seq<T>, before: spec_fn(T, T) -> bool)
    requires
        forall|x: T, y: T| #[trigger] before(x, y) ==> !before(y, x),
        forall|i: int, j: int| 0 <= i < j < a.len() ==> #[trigger] before(a[i], a[j]),
        forall|i: int, j: int| 0 <= i < j < b.len() ==> #[trigger] before(b[i], b[j]),
        forall|x: T| a.contains(x) <==> b.contains(x),
    ensures
        a == b,
    decreases a.len(),
{
    if a.len() == 0 {
        if b.len() > 0 {
            assert(b.contains(b[0]));
        }
        assert(a =~= b);
    } else {
        assert(a.contains(a[0]));
        assert(b.contains(a[0]));
        let j = choose|j: int| 0 <= j < b.len() && b[j] == a[0];
        assert(b.contains(b[0]));
        let i = choose|i: int| 0 <= i < a.len() && a[i] == b[0];
        if i > 0 && j > 0 {
            assert(before(a[0], a[i]));
            assert(before(b[0], b[j]));
        }
        assert(a[0] == b[0]);
        let a1 = a.skip(1);
        let b1 = b.skip(1);
        assert forall|x: T| a1.contains(x) <==> b1.contains(x) by {
            if a1.contains(x) {
                let k = choose|k: int| 0 <= k < a1.len() && a1[k] == x;
                assert(a[k + 1] == x);
                assert(a.contains(x));
                let m = choose|m: int| 0 <= m < b.len() && b[m] == x;
                if m == 0 {
                    assert(before(a[0], a[k + 1]));
                }
                assert(b1[m - 1] == x);
            }
            if b1.contains(x) {
                let k = choose|k: int| 0 <= k < b1.len() && b1[k] == x;
                assert(b[k + 1] == x);
                assert(b.contains(x));
                let m = choose|m: int| 0 <= m < a.len() && a[m] == x;
                if m == 0 {
                    assert(before(b[0], b[k + 1]));
                }
                assert(a1[m - 1] == x);
            }
        }
        assert forall|p: int, q: int| 0 <= p < q < a1.len() implies #[trigger] before(
            a1[p],
            a1[q],
        ) by {
            assert(before(a[p + 1], a[q + 1]));
        }
        assert forall|p: int, q: int| 0 <= p < q < b1.len() implies #[trigger] before(
            b1[p],
            b1[q],
        ) by {
            assert(before(b[p + 1], b[q + 1]));
        }
        lemma_sorted_same_elements(a1, b1, before);
        assert(a =~= seq![a[0]] + a1);
        assert(b =~= seq![b[0]] + b1);
    }
}

/// The lists of a well-formed graph are determined by what they hold: two
/// well-formed graphs with the same nodes and the same edges list them in the
/// same order, however each was built.
pub proof fn lemma_graph_order_is_canonical(g: GraphView, h: GraphView)
    requires
        graph_well_formed(g),
        graph_well_formed(h),
        forall|n: NodeView| g.nodes.contains(n) <==> h.nodes.contains(n),
        forall|e: EdgeView| g.edges.contains(e) <==> h.edges.contains(e),
    ensures
        g == h,
{
    let node_before = |x: NodeView, y: NodeView| text_before(x.id, y.id);
    assert forall|x: NodeView, y: NodeView| #[trigger] node_before(x, y) implies !node_before(
        y,
        x,
    ) by {
        lemma_text_before_asymmetric(x.id, y.id);
    }
    assert forall|i: int, j: int| 0 <= i < j < g.nodes.len() implies #[trigger] node_before(
        g.nodes[i],
        g.nodes[j],
    ) by {}
    assert forall|i: int, j: int| 0 <= i < j < h.nodes.len() implies #[trigger] node_before(
        h.nodes[i],
        h.nodes[j],
    ) by {}
    lemma_sorted_same_elements(g.nodes, h.nodes, node_before);
    let pair_before = |x: EdgeView, y: EdgeView| edge_before(x, y);
    assert forall|x: EdgeView, y: EdgeView| #[trigger] pair_before(x, y) implies !pair_before(
        y,
        x,
    ) by {
        lemma_edge_before_asymmetric(x, y);
    }
    assert forall|i: int, j: int| 0 <= i < j < g.edges.len() implies #[trigger] pair_before(
        g.edges[i],
        g.edges[j],
    ) by {}
    assert forall|i: int, j: int| 0 <= i < j < h.edges.len() implies #[trigger] pair_before(
        h.edges[i],
        h.edges[j],
    ) by {}
    lemma_sorted_same_elements(g.edges, h.edges, pair_before);
}

/// A well-formed graph is determined by its nodes and its edges: two builds
/// that end with the same nodes by identifier and the same set of edges give
/// the same node list and the same edge list, entry for entry.
pub proof fn lemma_graph_determined(g: GraphView, h: GraphView)
    requires
        graph_well_formed(g),
        graph_well_formed(h),
        node_map(g) == node_map(h),
        edge_set(g) == edge_set(h),
    ensures
        g == h,
{
    assert forall|n: NodeView| g.nodes.contains(n) <==> h.nodes.contains(n) by {
        if g.nodes.contains(n) {
            let i = choose|i: int| 0 <= i < g.nodes.len() && g.nodes[i] == n;
            lemma_node_map_entry(g, i);
            assert(has_node(h.nodes, n.id));
            let j = choose|j: int| 0 <= j < h.nodes.len() && (#[trigger] h.nodes[j]).id == n.id;
            lemma_node_map_entry(h, j);
            assert(h.nodes[j] == n);
        }
        if h.nodes.contains(n) {
            let i = choose|i: int| 0 <= i < h.nodes.len() && h.nodes[i] == n;
            lemma_node_map_entry(h, i);
            assert(has_node(g.nodes, n.id));
            let j = choose|j: int| 0 <= j < g.nodes.len() && (#[trigger] g.nodes[j]).id == n.id;
            lemma_node_map_entry(g, j);
            assert(g.nodes[j] == n);
        }
    }
    assert forall|e: EdgeView| g.edges.contains(e) <==> h.edges.contains(e) by {
        if g.edges.contains(e) {
            assert(edge_set(g).contains(e));
            assert(edge_set(h).contains(e));
        }
        if h.edges.contains(e) {
            assert(edge_set(h).contains(e));
            assert(edge_set(g).contains(e));
        }
    }
    lemma_graph_order_is_canonical(g, h);
}

impl CallGraph {
    /// See [`graph_well_formed`].
    pub open spec fn well_formed(&self) -> bool {
        graph_well_formed(self@)
    }

    /// The graph without nodes or edges.
    pub fn new() -> (g: Self)
        ensures
            g@.nodes.len() == 0,
            g@.edges.len() == 0,
            g.well_formed(),
    {
        CallGraph { nodes: Vec::new(), edges: Vec::new() }
    }

    /// The place of the node with this identifier, if the graph has one.
    pub fn find_node(&self, id: &str) -> (r: Option<usize>)
        ensures
            match r {
                Some(i) => i < self@.nodes.len() && self@.nodes[i as int].id == id@,
                None => !has_node(self@.nodes, id@),
            },
    {
        let mut i: usize = 0;
        while i < self.nodes.len()
            invariant
                i <= self.nodes.len(),
                forall|k: int| 0 <= k < i ==> (#[trigger] self@.nodes[k]).id != id@,
            decreases self.nodes.len() - i,
        {
            if str_eq(self.nodes[i].id.as_str(), id) {
                return Some(i);
            }
            i = i + 1;
        }
        None
    }

    /// Whether the graph has a node with this identifier.
    pub fn contains_node(&self, id: &str) -> (r: bool)
        ensures
            r == has_node(self@.nodes, id@),
    {
        self.find_node(id).is_some()
    }

    /// Records a node. A node that is already there under the same identifier
    /// is replaced; every other node and every edge stays.
    pub fn upsert_node(&mut self, node: CallGraphNode)
        requires
            old(self).well_formed(),
        ensures
            final(self).well_formed(),
            final(self)@.edges == old(self)@.edges,
            forall|n: NodeView|
                final(self)@.nodes.contains(n) <==> (n == node@ || (old(self)@.nodes.contains(n)
                    && n.id != node@.id)),
            node_map(final(self)@) == node_map(old(self)@).insert(node@.id, node@),
    {
        let ghost before = self@;
        let mut p: usize = 0;
        while p < self.nodes.len() && str_before(self.nodes[p].id.as_str(), node.id.as_str())
            invariant
                p <= self.nodes.len(),
                self@ == before,
                forall|k: int| 0 <= k < p ==> text_before((#[trigger] before.nodes[k]).id, node@.id),
            decreases self.nodes.len() - p,
        {
            p = p + 1;
        }
        let ghost nv = node@;
        if p < self.nodes.len() && str_eq(self.nodes[p].id.as_str(), node.id.as_str()) {
            self.nodes.set(p, node);
            proof {
                let after = self@;
                assert(after.nodes =~= before.nodes.update(p as int, nv));
                assert forall|i: int, j: int|
                    #![trigger after.nodes[i], after.nodes[j]]
                    0 <= i < j < after.nodes.len() implies text_before(
                    after.nodes[i].id,
                    after.nodes[j].id,
                ) by {
                    assert(after.nodes[i].id == before.nodes[i].id);
                    assert(after.nodes[j].id == before.nodes[j].id);
                }
                assert forall|id: Seq<char>| has_node(before.nodes, id) implies has_node(
                    after.nodes,
                    id,
                ) by {
                    let k = choose|k: int| 0 <= k < before.nodes.len() && (
                    #[trigger] before.nodes[k]).id == id;
                    assert(after.nodes[k].id == id);
                }
                assert forall|n: NodeView|
                    after.nodes.contains(n) <==> (n == nv || (before.nodes.contains(n) && n.id
                        != nv.id)) by {
                    if after.nodes.contains(n) {
                        let k = choose|k: int| 0 <= k < after.nodes.len() && after.nodes[k] == n;
                        if k != p {
                            assert(before.nodes[k] == n);
                            if k < p {
                                assert(text_before(before.nodes[k].id, before.nodes[p as int].id));
                                lemma_text_before_asymmetric(n.id, nv.id);
                            } else {
                                assert(text_before(before.nodes[p as int].id, before.nodes[k].id));
                                lemma_text_before_asymmetric(nv.id, n.id);
                            }
                        }
                    }
                    if n == nv {
                        assert(after.nodes[p as int] == n);
                    }
                    if before.nodes.contains(n) && n.id != nv.id {
                        let k = choose|k: int| 0 <= k < before.nodes.len() && before.nodes[k] == n;
                        assert(after.nodes[k] == n);
                    }
                }
                assert(after.edges =~= before.edges);
                lemma_upsert_node_map(before, after, nv);
            }
        } else {
            self.nodes.insert(p, node);
            proof {
                let after = self@;
                assert(after.nodes =~= before.nodes.insert(p as int, nv));
                assert forall|k: int| p <= k < before.nodes.len() implies text_before(
                    nv.id,
                    (#[trigger] before.nodes[k]).id,
                ) by {
                    let at = before.nodes[p as int];
                    lemma_text_before_total(nv.id, at.id);
                    if k > p {
                        assert(text_before(before.nodes[p as int].id, before.nodes[k].id));
                        lemma_text_before_transitive(nv.id, at.id, before.nodes[k].id);
                    }
                }
                assert forall|i: int, j: int|
                    #![trigger after.nodes[i], after.nodes[j]]
                    0 <= i < j < after.nodes.len() implies text_before(
                    after.nodes[i].id,
                    after.nodes[j].id,
                ) by {
                    if j < p {
                        assert(after.nodes[i] == before.nodes[i]);
                        assert(after.nodes[j] == before.nodes[j]);
                    } else if j == p {
                        assert(after.nodes[i] == before.nodes[i]);
                    } else if i < p {
                        assert(after.nodes[i] == before.nodes[i]);
                        assert(after.nodes[j] == before.nodes[j - 1]);
                        assert(text_before(before.nodes[i].id, before.nodes[j - 1].id));
                    } else if i == p {
                        assert(after.nodes[j] == before.nodes[j - 1]);
                    } else {
                        assert(after.nodes[i] == before.nodes[i - 1]);
                        assert(after.nodes[j] == before.nodes[j - 1]);
                        assert(text_before(before.nodes[i - 1].id, before.nodes[j - 1].id));
                    }
                }
                assert forall|id: Seq<char>| has_node(before.nodes, id) implies has_node(
                    after.nodes,
                    id,
                ) by {
                    let k = choose|k: int| 0 <= k < before.nodes.len() && (
                    #[trigger] before.nodes[k]).id == id;
                    if k < p {
                        assert(after.nodes[k].id == id);
                    } else {
                        assert(after.nodes[k + 1].id == id);
                    }
                }
                assert forall|n: NodeView|
                    after.nodes.contains(n) <==> (n == nv || (before.nodes.contains(n) && n.id
                        != nv.id)) by {
                    if after.nodes.contains(n) {
                        let k = choose|k: int| 0 <= k < after.nodes.len() && after.nodes[k] == n;
                        if k < p {
                            assert(before.nodes[k] == n);
                            lemma_text_before_asymmetric(n.id, nv.id);
                        } else if k > p {
                            assert(before.nodes[k - 1] == n);
                            lemma_text_before_asymmetric(nv.id, n.id);
                        }
                    }
                    if n == nv {
                        assert(after.nodes[p as int] == n);
                    }
                    if before.nodes.contains(n) && n.id != nv.id {
                        let k = choose|k: int| 0 <= k < before.nodes.len() && before.nodes[k] == n;
                        if k < p {
                            assert(after.nodes[k] == n);
                        } else {
                            assert(after.nodes[k + 1] == n);
                        }
                    }
                }
                assert(after.edges =~= before.edges);
                lemma_upsert_node_map(before, after, nv);
            }
        }
    }

    /// Whether the graph has the edge from `from` to `to`.
    pub fn contains_edge(&self, from: &str, to: &str) -> (r: bool)
        ensures
            r == self@.edges.contains(EdgeView { from: from@, to: to@ }),
    {
        let ghost e = EdgeView { from: from@, to: to@ };
        let mut i: usize = 0;
        while i < self.edges.len()
            invariant
                i <= self.edges.len(),
                e == (EdgeView { from: from@, to: to@ }),
                forall|k: int| 0 <= k < i ==> self@.edges[k] != e,
            decreases self.edges.len() - i,
        {
            if str_eq(self.edges[i].from.as_str(), from) && str_eq(self.edges[i].to.as_str(), to) {
                assert(self@.edges[i as int] == e);
                return true;
            }
            i = i + 1;
        }
        false
    }

    /// Records the edge from `from` to `to`, once: an edge that is already
    /// there is not added again. Says whether the edge is new.
    pub fn add_edge(&mut self, from: &str, to: &str) -> (added: bool)
        requires
            old(self).well_formed(),
            has_node(old(self)@.nodes, from@),
            has_node(old(self)@.nodes, to@),
        ensures
            final(self).well_formed(),
            final(self)@.nodes == old(self)@.nodes,
            added == !old(self)@.edges.contains(EdgeView { from: from@, to: to@ }),
            forall|e: EdgeView|
                final(self)@.edges.contains(e) <==> (e == (EdgeView { from: from@, to: to@ })
                    || old(self)@.edges.contains(e)),
            edge_set(final(self)@) == edge_set(old(self)@).insert(
                EdgeView { from: from@, to: to@ },
            ),
    {
        let ghost before = self@;
        let ghost ev = EdgeView { from: from@, to: to@ };
        let mut p: usize = 0;
        while p < self.edges.len() && (str_before(self.edges[p].from.as_str(), from) || (str_eq(
            self.edges[p].from.as_str(),
            from,
        ) && str_before(self.edges[p].to.as_str(), to)))
            invariant
                p <= self.edges.len(),
                self@ == before,
                ev == (EdgeView { from: from@, to: to@ }),
                forall|k: int| 0 <= k < p ==> edge_before(#[trigger] before.edges[k], ev),
            decreases self.edges.len() - p,
        {
            p = p + 1;
        }
        if p < self.edges.len() && str_eq(self.edges[p].from.as_str(), from) && str_eq(
            self.edges[p].to.as_str(),
            to,
        ) {
            assert(before.edges[p as int] == ev);
            assert(before.edges.contains(ev));
            assert(edge_set(before) =~= edge_set(before).insert(ev));
            return false;
        }
        proof {
            assert forall|k: int| p <= k < before.edges.len() implies edge_before(
                ev,
                #[trigger] before.edges[k],
            ) by {
                let at = before.edges[p as int];
                lemma_edge_before_total(ev, at);
                if k > p {
                    assert(edge_before(before.edges[p as int], before.edges[k]));
                    lemma_edge_before_transitive(ev, at, before.edges[k]);
                }
            }
            if before.edges.contains(ev) {
                let k = choose|k: int| 0 <= k < before.edges.len() && before.edges[k] == ev;
                if k < p {
                    lemma_edge_before_asymmetric(before.edges[k], ev);
                } else {
                    lemma_edge_before_asymmetric(ev, before.edges[k]);
                }
            }
        }
        let edge = CallGraphEdge { from: from.to_owned(), to: to.to_owned() };
        self.edges.insert(p, edge);
        proof {
            let after = self@;
            assert(after.edges =~= before.edges.insert(p as int, ev));
            assert(after.nodes =~= before.nodes);
            assert forall|i: int, j: int|
                #![trigger after.edges[i], after.edges[j]]
                0 <= i < j < after.edges.len() implies edge_before(
                after.edges[i],
                after.edges[j],
            ) by {
                if j < p {
                    assert(after.edges[i] == before.edges[i]);
                    assert(after.edges[j] == before.edges[j]);
                } else if j == p {
                    assert(after.edges[i] == before.edges[i]);
                } else if i < p {
                    assert(after.edges[i] == before.edges[i]);
                    assert(after.edges[j] == before.edges[j - 1]);
                    assert(edge_before(before.edges[i], before.edges[j - 1]));
                } else if i == p {
                    assert(after.edges[j] == before.edges[j - 1]);
                } else {
                    assert(after.edges[i] == before.edges[i - 1]);
                    assert(after.edges[j] == before.edges[j - 1]);
                    assert(edge_before(before.edges[i - 1], before.edges[j - 1]));
                }
            }
            assert forall|k: int| 0 <= k < after.edges.len() implies has_node(
                after.nodes,
                (#[trigger] after.edges[k]).from,
            ) && has_node(after.nodes, after.edges[k].to) by {
                if k < p {
                    assert(after.edges[k] == before.edges[k]);
                } else if k > p {
                    assert(after.edges[k] == before.edges[k - 1]);
                }
            }
            assert forall|e: EdgeView|
                after.edges.contains(e) <==> (e == ev || before.edges.contains(e)) by {
                if after.edges.contains(e) {
                    let k = choose|k: int| 0 <= k < after.edges.len() && after.edges[k] == e;
                    if k < p {
                        assert(before.edges[k] == e);
                    } else if k > p {
                        assert(before.edges[k - 1] == e);
                    }
                }
                if e == ev {
                    assert(after.edges[p as int] == e);
                }
                if before.edges.contains(e) {
                    let k = choose|k: int| 0 <= k < before.edges.len() && before.edges[k] == e;
                    if k < p {
                        assert(after.edges[k] == e);
                    } else {
                        assert(after.edges[k + 1] == e);
                    }
                }
            }
            assert(edge_set(after) =~= edge_set(before).insert(ev));
        }
        true
    }
}

} // verus!
