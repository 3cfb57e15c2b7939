//! The traversal of the call hierarchy: an explicit stack of nodes still to
//! look at, the identifiers already expanded, and the graph found so far.
//!
//! The traversal itself asks the server nothing. It says which node has to be
//! expanded next, and takes in the callees that the server reported for it.

use crate::attribution::{attribute, attribution, source_views, SourceFile, SourceView};
use crate::call_graph::{edge_set, node_map, CallGraph, CallGraphNode, EdgeView, NodeView};
use crate::order::str_eq;
use crate::symbols::{
    in_workspace, is_in_workspace, node_views, symbol_views, CallHierarchyNode, HierarchyNodeView,
    SymbolRef, SymbolView,
};
use crate::text::chars_of;
use vstd::prelude::*;

verus! {

/// The state of a traversal, as mathematics.
#[verifier::ext_equal]
pub struct Traversal {
    /// The nodes still to look at; the last one is looked at next.
    pub stack: Seq<HierarchyNodeView>,
    /// The identifiers whose expansion has been asked for.
    pub visited: Set<Seq<char>>,
    /// The nodes recorded, by identifier.
    pub nodes: Map<Seq<char>, NodeView>,
    /// The edges recorded.
    pub edges: Set<EdgeView>,
}

/// What the attribution of a node draws on.
pub struct Scope {
    pub snapshot: Seq<SymbolView>,
    pub sources: Seq<SourceView>,
    pub root: Seq<char>,
}

/// The graph node that stands for a call-hierarchy node.
pub open spec fn node_entry(scope: Scope, n: HierarchyNodeView) -> NodeView {
    let a = attribution(scope.snapshot, scope.sources, scope.root, n);
    NodeView { id: CallHierarchyNode::id_of(n), label: a.qualified_label, group: a.group }
}

/// The traversal at its start: the roots on the stack, nothing else.
pub open spec fn initial(roots: Seq<HierarchyNodeView>) -> Traversal {
    Traversal { stack: roots, visited: Set::empty(), nodes: Map::empty(), edges: Set::empty() }
}

/// Takes nodes off the stack until one has to be expanded. A node outside the
/// workspace is dropped. A node inside it is recorded in the graph; if its
/// identifier was expanded before, that is all, else it is marked as expanded
/// and handed out. `None` is handed out when the stack is empty.
pub open spec fn drain(t: Traversal, scope: Scope) -> (Traversal, Option<HierarchyNodeView>)
    decreases t.stack.len(),
{
    if t.stack.len() == 0 {
        (t, None)
    } else {
        let n = t.stack.last();
        let id = CallHierarchyNode::id_of(n);
        if !in_workspace(scope.root, n.uri) {
            drain(
                Traversal {
                    stack: t.stack.drop_last(),
                    visited: t.visited,
                    nodes: t.nodes,
                    edges: t.edges,
                },
                scope,
            )
        } else if t.visited.contains(id) {
            drain(
                Traversal {
                    stack: t.stack.drop_last(),
                    visited: t.visited,
                    nodes: t.nodes.insert(id, node_entry(scope, n)),
                    edges: t.edges,
                },
                scope,
            )
        } else {
            (
                Traversal {
                    stack: t.stack.drop_last(),
                    visited: t.visited.insert(id),
                    nodes: t.nodes.insert(id, node_entry(scope, n)),
                    edges: t.edges,
                },
                Some(n),
            )
        }
    }
}

/// Takes in the callees of `caller`, from the `i`-th on and in their order. A
/// callee outside the workspace is dropped. A callee inside it is recorded in
/// the graph, with the edge from the caller to it, and goes on the stack
/// unless its identifier was expanded before.
pub open spec fn absorb(
    t: Traversal,
    scope: Scope,
    caller: Seq<char>,
    callees: Seq<HierarchyNodeView>,
    i: int,
) -> Traversal
    decreases callees.len() - i,
{
    if i < 0 || i >= callees.len() {
        t
    } else {
        let n = callees[i];
        let id = CallHierarchyNode::id_of(n);
        if !in_workspace(scope.root, n.uri) {
            absorb(t, scope, caller, callees, i + 1)
        } else {
            absorb(
                Traversal {
                    stack: if t.visited.contains(id) {
                        t.stack
                    } else {
                        t.stack.push(n)
                    },
                    visited: t.visited,
                    nodes: t.nodes.insert(id, node_entry(scope, n)),
                    edges: t.edges.insert(EdgeView { from: caller, to: id }),
                },
                scope,
                caller,
                callees,
                i + 1,
            )
        }
    }
}

/// A node is handed out for expansion at most once, and only from inside the
/// workspace: the node that `drain` hands out lies in the workspace, its
/// identifier was not expanded before, and is marked as expanded from then
/// on together with all that were. Where no node is handed out, the stack is
/// used up and nothing new is marked.
pub proof fn lemma_drain_expands_once(t: Traversal, scope: Scope)
    ensures
        match drain(t, scope).1 {
            Some(n) => {
                &&& in_workspace(scope.root, n.uri)
                &&& !t.visited.contains(CallHierarchyNode::id_of(n))
                &&& drain(t, scope).0.visited == t.visited.insert(CallHierarchyNode::id_of(n))
                &&& drain(t, scope).0.nodes.dom().contains(CallHierarchyNode::id_of(n))
            },
            None => drain(t, scope).0.visited == t.visited && drain(t, scope).0.stack.len() == 0,
        },
        drain(t, scope).0.edges == t.edges,
        t.nodes.dom().subset_of(drain(t, scope).0.nodes.dom()),
    decreases t.stack.len(),
{
    if t.stack.len() > 0 {
        let n = t.stack.last();
        let id = CallHierarchyNode::id_of(n);
        if !in_workspace(scope.root, n.uri) {
            lemma_drain_expands_once(
                Traversal {
                    stack: t.stack.drop_last(),
                    visited: t.visited,
                    nodes: t.nodes,
                    edges: t.edges,
                },
                scope,
            );
        } else if t.visited.contains(id) {
            lemma_drain_expands_once(
                Traversal {
                    stack: t.stack.drop_last(),
                    visited: t.visited,
                    nodes: t.nodes.insert(id, node_entry(scope, n)),
                    edges: t.edges,
                },
                scope,
            );
        }
    }
}

/// Taking in callees asks for no expansion, and records only what lies in
/// the workspace: the expanded identifiers stay as they are, every new edge
/// leaves the caller, and every node that goes on the stack lies inside the
/// workspace or was on the stack before.
pub proof fn lemma_absorb_keeps_boundary(
    t: Traversal,
    scope: Scope,
    caller: Seq<char>,
    callees: Seq<HierarchyNodeView>,
    i: int,
)
    requires
        0 <= i,
    ensures
        absorb(t, scope, caller, callees, i).visited == t.visited,
        t.nodes.dom().subset_of(absorb(t, scope, caller, callees, i).nodes.dom()),
        t.edges.subset_of(absorb(t, scope, caller, callees, i).edges),
        forall|e: EdgeView| #[trigger]
            absorb(t, scope, caller, callees, i).edges.contains(e) ==> t.edges.contains(e) || (
            e.from == caller && exists|k: int|
                i <= k < callees.len() && in_workspace(scope.root, (#[trigger] callees[k]).uri)
                    && e.to == CallHierarchyNode::id_of(callees[k])),
        forall|k: int|
            i <= k < callees.len() && in_workspace(scope.root, (#[trigger] callees[k]).uri)
                ==> absorb(t, scope, caller, callees, i).edges.contains(
                EdgeView { from: caller, to: CallHierarchyNode::id_of(callees[k]) },
            ),
    decreases callees.len() - i,
{
    if i < callees.len() {
        let n = callees[i];
        let id = CallHierarchyNode::id_of(n);
        if !in_workspace(scope.root, n.uri) {
            lemma_absorb_keeps_boundary(t, scope, caller, callees, i + 1);
        } else {
            let t2 = Traversal {
                stack: if t.visited.contains(id) {
                    t.stack
                } else {
                    t.stack.push(n)
                },
                visited: t.visited,
                nodes: t.nodes.insert(id, node_entry(scope, n)),
                edges: t.edges.insert(EdgeView { from: caller, to: id }),
            };
            lemma_absorb_keeps_boundary(t2, scope, caller, callees, i + 1);
            let r = absorb(t, scope, caller, callees, i);
            assert forall|e: EdgeView| #[trigger] r.edges.contains(e) implies t.edges.contains(e)
                || (e.from == caller && exists|k: int|
                i <= k < callees.len() && in_workspace(scope.root, (#[trigger] callees[k]).uri)
                    && e.to == CallHierarchyNode::id_of(callees[k])) by {
                if !t.edges.contains(e) {
                    if t2.edges.contains(e) {
                        assert(in_workspace(scope.root, callees[i].uri) && e.to
                            == CallHierarchyNode::id_of(callees[i]));
                    } else {
                        let k = choose|k: int|
                            i + 1 <= k < callees.len() && in_workspace(
                                scope.root,
                                (#[trigger] callees[k]).uri,
                            ) && e.to == CallHierarchyNode::id_of(callees[k]);
                        assert(in_workspace(scope.root, callees[k].uri));
                    }
                }
            }
        }
    }
}

/// Every node of the list that lies in the workspace has its identifier in
/// `ids`.
pub open spec fn within(list: Seq<HierarchyNodeView>, root: Seq<char>, ids: Set<Seq<char>>) -> bool {
    forall|j: int|
        0 <= j < list.len() && in_workspace(root, (#[trigger] list[j]).uri) ==> ids.contains(
            CallHierarchyNode::id_of(list[j]),
        )
}

/// The traversal run to its end against the answers of a server: the node
/// that is handed out as the `k`-th is answered with `answers[k]`, and so on.
/// The result is the traversal at its end with the number of answers that
/// were used up to then, or `None` where the answers run out first.
pub open spec fn explore(
    t: Traversal,
    scope: Scope,
    answers: Seq<Seq<HierarchyNodeView>>,
    k: int,
) -> Option<(Traversal, int)>
    decreases answers.len() - k,
{
    let (after, next) = drain(t, scope);
    match next {
        None => Some((after, k)),
        Some(n) => if k < 0 || k >= answers.len() {
            None
        } else {
            explore(
                absorb(after, scope, CallHierarchyNode::id_of(n), answers[k], 0),
                scope,
                answers,
                k + 1,
            )
        },
    }
}

proof fn lemma_drain_stays_within(t: Traversal, scope: Scope, ids: Set<Seq<char>>)
    requires
        within(t.stack, scope.root, ids),
    ensures
        within(drain(t, scope).0.stack, scope.root, ids),
        match drain(t, scope).1 {
            Some(n) => ids.contains(CallHierarchyNode::id_of(n)),
            None => true,
        },
    decreases t.stack.len(),
{
    if t.stack.len() > 0 {
        let n = t.stack.last();
        let id = CallHierarchyNode::id_of(n);
        let rest = t.stack.drop_last();
        assert forall|j: int| 0 <= j < rest.len() && in_workspace(scope.root, (#[trigger] rest[j]).uri)
            implies ids.contains(CallHierarchyNode::id_of(rest[j])) by {
            assert(rest[j] == t.stack[j]);
        }
        if !in_workspace(scope.root, n.uri) {
            lemma_drain_stays_within(
                Traversal { stack: rest, visited: t.visited, nodes: t.nodes, edges: t.edges },
                scope,
                ids,
            );
        } else if t.visited.contains(id) {
            lemma_drain_stays_within(
                Traversal {
                    stack: rest,
                    visited: t.visited,
                    nodes: t.nodes.insert(id, node_entry(scope, n)),
                    edges: t.edges,
                },
                scope,
                ids,
            );
        } else {
            assert(n == t.stack[t.stack.len() - 1]);
        }
    }
}

proof fn lemma_absorb_stays_within(
    t: Traversal,
    scope: Scope,
    caller: Seq<char>,
    callees: Seq<HierarchyNodeView>,
    i: int,
    ids: Set<Seq<char>>,
)
    requires
        0 <= i,
        within(t.stack, scope.root, ids),
        within(callees, scope.root, ids),
    ensures
        within(absorb(t, scope, caller, callees, i).stack, scope.root, ids),
    decreases callees.len() - i,
{
    if i < callees.len() {
        let n = callees[i];
        let id = CallHierarchyNode::id_of(n);
        if !in_workspace(scope.root, n.uri) {
            lemma_absorb_stays_within(t, scope, caller, callees, i + 1, ids);
        } else {
            let stack = if t.visited.contains(id) {
                t.stack
            } else {
                t.stack.push(n)
            };
            assert forall|j: int|
                0 <= j < stack.len() && in_workspace(scope.root, (#[trigger] stack[j]).uri)
                implies ids.contains(CallHierarchyNode::id_of(stack[j])) by {
                if j < t.stack.len() {
                    assert(stack[j] == t.stack[j]);
                } else {
                    assert(stack[j] == callees[i]);
                }
            }
            lemma_absorb_stays_within(
                Traversal {
                    stack,
                    visited: t.visited,
                    nodes: t.nodes.insert(id, node_entry(scope, n)),
                    edges: t.edges.insert(EdgeView { from: caller, to: id }),
                },
                scope,
                caller,
                callees,
                i + 1,
                ids,
            );
        }
    }
}

/// The traversal comes to an end, cycles or not. Let `ids` be a finite set
/// that holds the identifier of every node of the workspace that is on the
/// stack or that the server names as a callee. Then no more nodes are
/// expanded than `ids` holds identifiers not expanded yet: with that many
/// answers at hand the traversal ends with an empty stack, and every
/// identifier expanded lies in `ids`.
pub proof fn lemma_traversal_ends(
    t: Traversal,
    scope: Scope,
    answers: Seq<Seq<HierarchyNodeView>>,
    k: int,
    ids: Set<Seq<char>>,
)
    requires
        ids.finite(),
        t.visited.subset_of(ids),
        within(t.stack, scope.root, ids),
        forall|a: int| 0 <= a < answers.len() ==> within(#[trigger] answers[a], scope.root, ids),
        0 <= k,
        answers.len() - k >= ids.len() - t.visited.len(),
    ensures
        match explore(t, scope, answers, k) {
            Some((end, used)) => {
                &&& end.stack.len() == 0
                &&& end.visited.subset_of(ids)
                &&& k <= used <= k + ids.len() - t.visited.len()
                &&& used - k == end.visited.len() - t.visited.len()
            },
            None => false,
        },
    decreases answers.len() - k,
{
    lemma_drain_expands_once(t, scope);
    lemma_drain_stays_within(t, scope, ids);
    vstd::set_lib::lemma_len_subset(t.visited, ids);
    let (after, next) = drain(t, scope);
    match next {
        None => {},
        Some(n) => {
            let id = CallHierarchyNode::id_of(n);
            assert(after.visited == t.visited.insert(id));
            assert(after.visited.subset_of(ids));
            vstd::set_lib::lemma_len_subset(after.visited, ids);
            assert(after.visited.len() == t.visited.len() + 1);
            assert(k < answers.len());
            let then = absorb(after, scope, id, answers[k], 0);
            lemma_absorb_keeps_boundary(after, scope, id, answers[k], 0);
            lemma_absorb_stays_within(after, scope, id, answers[k], 0, ids);
            lemma_traversal_ends(then, scope, answers, k + 1, ids);
        },
    }
}

/// The identifiers held by a list of texts.
pub open spec fn id_set(ids: Seq<String>) -> Set<Seq<char>> {
    Set::new(|id: Seq<char>| exists|i: int| 0 <= i < ids.len() && (#[trigger] ids[i])@ == id)
}

/// The working set of a traversal.
pub struct Walk {
    stack: Vec<CallHierarchyNode>,
    visited: Vec<String>,
    graph: CallGraph,
}

impl View for Walk {
    type V = Traversal;

    closed spec fn view(&self) -> Traversal {
        Traversal {
            stack: node_views(self.stack@),
            visited: id_set(self.visited@),
            nodes: node_map(self.graph@),
            edges: edge_set(self.graph@),
        }
    }
}

/// The scope that a snapshot, source texts and a root make up.
pub open spec fn scope_of(snapshot: Seq<SymbolRef>, sources: Seq<SourceFile>, root: Seq<char>) -> Scope {
    Scope { snapshot: symbol_views(snapshot), sources: source_views(sources), root }
}

impl Walk {
    /// The graph found so far is well formed.
    pub closed spec fn well_formed(&self) -> bool {
        self.graph.well_formed()
    }

    /// A traversal that starts from `roots`.
    pub fn new(roots: Vec<CallHierarchyNode>) -> (w: Self)
        ensures
            w@ == initial(node_views(roots@)),
            w.well_formed(),
    {
        let w = Walk { stack: roots, visited: Vec::new(), graph: CallGraph::new() };
        proof {
            assert(w@.visited =~= Set::<Seq<char>>::empty());
            assert(w@.nodes =~= Map::<Seq<char>, NodeView>::empty());
            assert(w@.edges =~= Set::<EdgeView>::empty());
        }
        w
    }

    fn is_visited(&self, id: &str) -> (b: bool)
        ensures
            b == self@.visited.contains(id@),
    {
        let mut i: usize = 0;
        while i < self.visited.len()
            invariant
                i <= self.visited.len(),
                forall|k: int| 0 <= k < i ==> (#[trigger] self.visited@[k])@ != id@,
            decreases self.visited.len() - i,
        {
            if str_eq(self.visited[i].as_str(), id) {
                return true;
            }
            i = i + 1;
        }
        false
    }

    fn record(
        &mut self,
        node: &CallHierarchyNode,
        id: &String,
        snapshot: &Vec<SymbolRef>,
        sources: &Vec<SourceFile>,
        root: &str,
    )
        requires
            old(self).well_formed(),
            id@ == CallHierarchyNode::id_of(node@),
        ensures
            final(self).well_formed(),
            final(self)@.stack == old(self)@.stack,
            final(self)@.visited == old(self)@.visited,
            final(self)@.edges == old(self)@.edges,
            final(self)@.nodes == old(self)@.nodes.insert(
                id@,
                node_entry(scope_of(snapshot@, sources@, root@), node@),
            ),
    {
        let a = attribute(node, snapshot, sources, root);
        let entry = CallGraphNode { id: id.clone(), label: a.qualified_label, group: a.group };
        self.graph.upsert_node(entry);
    }

    /// Says which node has to be expanded next: takes nodes off the stack until
    /// one of the workspace comes up that was not expanded before. `None` when
    /// the stack is used up; the traversal is then complete.
    pub fn advance(
        &mut self,
        snapshot: &Vec<SymbolRef>,
        sources: &Vec<SourceFile>,
        root: &str,
    ) -> (next: Option<CallHierarchyNode>)
        requires
            old(self).well_formed(),
        ensures
            final(self).well_formed(),
            final(self)@ == drain(old(self)@, scope_of(snapshot@, sources@, root@)).0,
            match next {
                Some(n) => drain(old(self)@, scope_of(snapshot@, sources@, root@)).1 == Some(n@),
                None => drain(old(self)@, scope_of(snapshot@, sources@, root@)).1 is None,
            },
    {
        let ghost scope = scope_of(snapshot@, sources@, root@);
        let ghost start = self@;
        let root_chars = chars_of(root);
        loop
            invariant
                self.well_formed(),
                scope == scope_of(snapshot@, sources@, root@),
                root_chars@ == root@,
                start == old(self)@,
                drain(start, scope) == drain(self@, scope),
            decreases self.stack.len(),
        {
            let ghost t = self@;
            let node = match self.stack.pop() {
                Some(n) => n,
                None => {
                    assert(self@ =~= t);
                    assert(t.stack.len() == 0);
                    return None;
                },
            };
            proof {
                assert(t.stack.len() > 0);
                assert(t.stack.last() == node@);
                assert(self@.stack =~= t.stack.drop_last());
            }
            let uri = chars_of(node.uri.as_str());
            if is_in_workspace(&root_chars, &uri) {
                let id = node.id();
                let seen = self.is_visited(id.as_str());
                self.record(&node, &id, snapshot, sources, root);
                if !seen {
                    let ghost before = self@.visited;
                    let ghost old_ids = self.visited@;
                    self.visited.push(id);
                    proof {
                        let idv = CallHierarchyNode::id_of(node@);
                        assert(self@.visited =~= before.insert(idv)) by {
                            let ids = self.visited@;
                            assert forall|x: Seq<char>| self@.visited.contains(x)
                                <==> before.insert(idv).contains(x) by {
                                if before.contains(x) {
                                    let k = choose|k: int|
                                        0 <= k < old_ids.len() && (#[trigger] old_ids[k])@ == x;
                                    assert(ids[k]@ == x);
                                }
                                if x == idv {
                                    assert(ids[ids.len() - 1]@ == x);
                                }
                                if self@.visited.contains(x) {
                                    let k = choose|k: int|
                                        0 <= k < ids.len() && (#[trigger] ids[k])@ == x;
                                    if k < ids.len() - 1 {
                                        assert(old_ids[k]@ == x);
                                    }
                                }
                            }
                        }
                    }
                    return Some(node);
                }
            }
        }
    }

    /// Takes in the callees that the server reported for the node `caller`.
    pub fn take_callees(
        &mut self,
        caller: &str,
        callees: &Vec<CallHierarchyNode>,
        snapshot: &Vec<SymbolRef>,
        sources: &Vec<SourceFile>,
        root: &str,
    )
        requires
            old(self).well_formed(),
            old(self)@.nodes.dom().contains(caller@),
        ensures
            final(self).well_formed(),
            final(self)@ == absorb(
                old(self)@,
                scope_of(snapshot@, sources@, root@),
                caller@,
                node_views(callees@),
                0,
            ),
    {
        let ghost scope = scope_of(snapshot@, sources@, root@);
        let ghost start = self@;
        let ghost list = node_views(callees@);
        let root_chars = chars_of(root);
        let mut i: usize = 0;
        while i < callees.len()
            invariant
                i <= callees.len(),
                self.well_formed(),
                self@.nodes.dom().contains(caller@),
                scope == scope_of(snapshot@, sources@, root@),
                list == node_views(callees@),
                root_chars@ == root@,
                start == old(self)@,
                absorb(start, scope, caller@, list, 0) == absorb(self@, scope, caller@, list, i as int),
            decreases callees.len() - i,
        {
            let node = &callees[i];
            assert(list[i as int] == node@);
            let uri = chars_of(node.uri.as_str());
            if is_in_workspace(&root_chars, &uri) {
                let id = node.id();
                let seen = self.is_visited(id.as_str());
                self.record(node, &id, snapshot, sources, root);
                assert(node_map(self.graph@).dom().contains(caller@));
                assert(node_map(self.graph@).dom().contains(id@));
                self.graph.add_edge(caller, id.as_str());
                if !seen {
                    let ghost before = self@.stack;
                    self.stack.push(node.clone());
                    assert(self@.stack =~= before.push(node@));
                }
            }
            i = i + 1;
        }
    }

    /// The graph found.
    pub fn into_graph(self) -> (g: CallGraph)
        requires
            self.well_formed(),
        ensures
            g.well_formed(),
            node_map(g@) == self@.nodes,
            edge_set(g@) == self@.edges,
    {
        self.graph
    }
}

} // verus!
