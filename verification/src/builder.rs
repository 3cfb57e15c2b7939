//! Building the call graph of an entry function, step by step.
//!
//! The builder decides; its caller talks to the server. Every step takes what
//! the server answered and says what to ask next:
//! first the search for the entry function, repeated while the server's index
//! is still filling; then one search for every symbol of the workspace; then
//! the roots of the entry's call hierarchy; then the callees of one node after
//! another, until no node is left.

use crate::attribution::{source_views, SourceFile, SourceView};
use crate::call_graph::{edge_set, node_map, CallGraph};
use crate::entry::{callable_symbols, entry_choice, keep_callable, select_entry};
use crate::symbols::{
    in_workspace, node_views, symbol_views, CallHierarchyNode, HierarchyNodeView, SymbolRef,
    SymbolView,
};
use crate::walk::{
    absorb, drain, initial, lemma_absorb_keeps_boundary, lemma_drain_expands_once, scope_of, Scope,
    Traversal, Walk,
};
use vstd::prelude::*;

verus! {

/// Why a build ended without a graph.
#[derive(Clone, Copy, Debug, PartialEq, Eq, Structural)]
pub enum BuildError {
    /// No search returned a function or method of the workspace.
    EntryNotFound,
    /// The server knows no call hierarchy for the entry.
    NoCallHierarchyRoot,
}

/// Where a build stands.
#[derive(Clone, Copy, Debug, PartialEq, Eq, Structural)]
pub enum Phase {
    /// Searching for the entry function.
    Resolving,
    /// Waiting for the symbols of the whole workspace.
    Snapshot,
    /// Waiting for the roots of the entry's call hierarchy.
    Preparing,
    /// Waiting for the callees of the current node.
    Expanding,
    /// The graph is complete.
    Finished,
    /// The build has failed.
    Failed,
}

/// How often and how patiently the entry is searched for.
#[derive(Clone, Copy, Debug)]
pub struct BuildConfig {
    /// The number of searches after which the build gives up.
    pub max_attempts: u32,
    /// The pause before every search but the first, in milliseconds.
    pub retry_delay_ms: u64,
}

/// The attempts that are recommended.
pub const DEFAULT_MAX_ATTEMPTS: u32 = 20;

/// The pause that is recommended, in milliseconds.
pub const DEFAULT_RETRY_DELAY_MS: u64 = 500;

impl BuildConfig {
    /// The recommended configuration: twenty attempts, half a second apart.
    pub fn recommended() -> (c: Self)
        ensures
            c.max_attempts == DEFAULT_MAX_ATTEMPTS,
            c.retry_delay_ms == DEFAULT_RETRY_DELAY_MS,
    {
        BuildConfig { max_attempts: DEFAULT_MAX_ATTEMPTS, retry_delay_ms: DEFAULT_RETRY_DELAY_MS }
    }
}

/// What the caller has to do next.
#[derive(Debug)]
pub enum BuildAction {
    /// Wait `delay_ms` milliseconds, search the workspace symbols for `query`,
    /// and hand the result to [`GraphBuilder::on_symbols`].
    Search { query: String, delay_ms: u64 },
    /// Ask for the call hierarchy at `symbol` and hand the roots to
    /// [`GraphBuilder::on_roots`].
    Prepare { symbol: SymbolRef },
    /// Ask for the outgoing calls of `node` and hand the callees to
    /// [`GraphBuilder::on_callees`].
    Expand { node: CallHierarchyNode },
    /// Take the graph with [`GraphBuilder::into_graph`].
    Finished,
    /// Give up.
    Failed { error: BuildError },
}

/// A wish of the builder, as mathematics.
pub enum ActionView {
    Search { query: Seq<char>, delay_ms: u64 },
    Prepare { symbol: SymbolView },
    Expand { node: HierarchyNodeView },
    Finished,
    Failed { error: BuildError },
}

impl View for BuildAction {
    type V = ActionView;

    open spec fn view(&self) -> ActionView {
        match self {
            BuildAction::Search { query, delay_ms } => ActionView::Search {
                query: query@,
                delay_ms: *delay_ms,
            },
            BuildAction::Prepare { symbol } => ActionView::Prepare { symbol: symbol@ },
            BuildAction::Expand { node } => ActionView::Expand { node: node@ },
            BuildAction::Finished => ActionView::Finished,
            BuildAction::Failed { error } => ActionView::Failed { error: *error },
        }
    }
}

/// The state of a build, as mathematics.
#[verifier::ext_equal]
pub struct BuildView {
    pub root: Seq<char>,
    pub entry: Seq<char>,
    pub max_attempts: u32,
    pub retry_delay_ms: u64,
    /// The searches for the entry asked for so far.
    pub attempts: u32,
    pub phase: Phase,
    /// The entry, once it is found.
    pub entry_symbol: Option<SymbolView>,
    /// The callable symbols of the workspace, once they are known.
    pub snapshot: Seq<SymbolView>,
    /// The identifier of the node whose callees are awaited.
    pub current: Seq<char>,
    pub traversal: Traversal,
}

/// The traversal goes on: the next node to expand becomes the current one, or
/// the build is finished.
pub open spec fn continued(
    b: BuildView,
    t: Traversal,
    sources: Seq<SourceView>,
) -> (BuildView, ActionView) {
    let scope = Scope { snapshot: b.snapshot, sources, root: b.root };
    let (after, next) = drain(t, scope);
    match next {
        Some(n) => (
            BuildView {
                phase: Phase::Expanding,
                current: CallHierarchyNode::id_of(n),
                traversal: after,
                ..b
            },
            ActionView::Expand { node: n },
        ),
        None => (BuildView { phase: Phase::Finished, traversal: after, ..b }, ActionView::Finished),
    }
}

/// The first step: search for the entry, or fail at once where not one
/// attempt is allowed.
pub open spec fn after_start(b: BuildView) -> (BuildView, ActionView) {
    if b.max_attempts == 0 {
        (
            BuildView { phase: Phase::Failed, ..b },
            ActionView::Failed { error: BuildError::EntryNotFound },
        )
    } else {
        (BuildView { attempts: 1, ..b }, ActionView::Search { query: b.entry, delay_ms: 0 })
    }
}

/// The step that a search result causes.
///
/// While the entry is searched for: a result with an entry in it ends the
/// search, and every symbol of the workspace is asked for (the empty query).
/// A result without one is answered by another search after the pause, as
/// long as attempts are left; after the last attempt the build fails.
///
/// While the workspace symbols are awaited: their functions and methods are
/// kept, and the call hierarchy of the entry is asked for.
pub open spec fn after_symbols(b: BuildView, symbols: Seq<SymbolView>) -> (BuildView, ActionView) {
    if b.phase == Phase::Resolving {
        match entry_choice(symbols, b.entry, b.root) {
            Some(i) => (
                BuildView { phase: Phase::Snapshot, entry_symbol: Some(symbols[i]), ..b },
                ActionView::Search { query: Seq::empty(), delay_ms: 0 },
            ),
            None => if b.attempts < b.max_attempts {
                (
                    BuildView { attempts: (b.attempts + 1) as u32, ..b },
                    ActionView::Search { query: b.entry, delay_ms: b.retry_delay_ms },
                )
            } else {
                (
                    BuildView { phase: Phase::Failed, ..b },
                    ActionView::Failed { error: BuildError::EntryNotFound },
                )
            },
        }
    } else {
        (
            BuildView {
                phase: Phase::Preparing,
                snapshot: keep_callable(symbols, symbols.len() as int),
                ..b
            },
            ActionView::Prepare { symbol: b.entry_symbol->0 },
        )
    }
}

/// The step that the roots of the call hierarchy cause: without roots the
/// build fails; with roots the traversal starts from them.
pub open spec fn after_roots(
    b: BuildView,
    roots: Seq<HierarchyNodeView>,
    sources: Seq<SourceView>,
) -> (BuildView, ActionView) {
    if roots.len() == 0 {
        (
            BuildView { phase: Phase::Failed, ..b },
            ActionView::Failed { error: BuildError::NoCallHierarchyRoot },
        )
    } else {
        continued(b, initial(roots), sources)
    }
}

/// The step that the callees of the current node cause: they are taken in,
/// and the traversal goes on.
pub open spec fn after_callees(
    b: BuildView,
    callees: Seq<HierarchyNodeView>,
    sources: Seq<SourceView>,
) -> (BuildView, ActionView) {
    let scope = Scope { snapshot: b.snapshot, sources, root: b.root };
    continued(b, absorb(b.traversal, scope, b.current, callees, 0), sources)
}

/// Builds the call graph of one entry function.
pub struct GraphBuilder {
    root: String,
    entry: String,
    config: BuildConfig,
    attempts: u32,
    phase: Phase,
    entry_symbol: Option<SymbolRef>,
    snapshot: Vec<SymbolRef>,
    current: String,
    walk: Walk,
}

impl View for GraphBuilder {
    type V = BuildView;

    closed spec fn view(&self) -> BuildView {
        BuildView {
            root: self.root@,
            entry: self.entry@,
            max_attempts: self.config.max_attempts,
            retry_delay_ms: self.config.retry_delay_ms,
            attempts: self.attempts,
            phase: self.phase,
            entry_symbol: match self.entry_symbol {
                Some(s) => Some(s@),
                None => None,
            },
            snapshot: symbol_views(self.snapshot@),
            current: self.current@,
            traversal: self.walk@,
        }
    }
}

/// What holds of a build at every step: no more attempts are made than are
/// allowed; the entry is known from the moment the search ends; and while
/// callees are awaited, the node they belong to is in the graph.
pub open spec fn build_consistent(b: BuildView) -> bool {
    &&& b.attempts <= b.max_attempts
    &&& (b.phase == Phase::Snapshot || b.phase == Phase::Preparing) ==> b.entry_symbol is Some
    &&& b.phase == Phase::Expanding ==> b.traversal.nodes.dom().contains(b.current)
}

impl GraphBuilder {
    /// The state is consistent and the graph found so far is well formed.
    pub closed spec fn well_formed(&self) -> bool {
        build_consistent(self@) && self.walk.well_formed()
    }

    /// A build of the call graph of `entry_name` in the workspace at `root`,
    /// a URI. Nothing has been asked yet.
    pub fn new(root: &str, entry_name: &str, config: BuildConfig) -> (b: Self)
        ensures
            b.well_formed(),
            b@ == (BuildView {
                root: root@,
                entry: entry_name@,
                max_attempts: config.max_attempts,
                retry_delay_ms: config.retry_delay_ms,
                attempts: 0,
                phase: Phase::Resolving,
                entry_symbol: None,
                snapshot: Seq::empty(),
                current: Seq::empty(),
                traversal: initial(Seq::empty()),
            }),
    {
        let walk = Walk::new(Vec::new());
        let ghost none: Seq<CallHierarchyNode> = Seq::empty();
        assert(node_views(none) =~= Seq::<HierarchyNodeView>::empty());
        let b = GraphBuilder {
            root: String::from_str(root),
            entry: String::from_str(entry_name),
            config,
            attempts: 0,
            phase: Phase::Resolving,
            entry_symbol: None,
            snapshot: Vec::new(),
            current: String::new(),
            walk,
        };
        assert(b@.snapshot =~= Seq::<SymbolView>::empty());
        b
    }

    /// Where the build stands.
    pub fn phase(&self) -> (p: Phase)
        ensures
            p == self@.phase,
    {
        self.phase
    }

    /// How many searches for the entry have been asked for.
    pub fn attempts(&self) -> (n: u32)
        ensures
            n == self@.attempts,
    {
        self.attempts
    }

    /// Begins the build: asks for the first search.
    pub fn start(&mut self) -> (action: BuildAction)
        requires
            old(self).well_formed(),
            old(self)@.phase == Phase::Resolving,
            old(self)@.attempts == 0,
        ensures
            final(self).well_formed(),
            final(self)@ == after_start(old(self)@).0,
            action@ == after_start(old(self)@).1,
    {
        if self.config.max_attempts == 0 {
            self.phase = Phase::Failed;
            BuildAction::Failed { error: BuildError::EntryNotFound }
        } else {
            self.attempts = 1;
            BuildAction::Search { query: self.entry.clone(), delay_ms: 0 }
        }
    }

    /// Takes the result of the search that was asked for.
    pub fn on_symbols(&mut self, symbols: Vec<SymbolRef>) -> (action: BuildAction)
        requires
            old(self).well_formed(),
            old(self)@.phase == Phase::Resolving || old(self)@.phase == Phase::Snapshot,
        ensures
            final(self).well_formed(),
            final(self)@ == after_symbols(old(self)@, symbol_views(symbols@)).0,
            action@ == after_symbols(old(self)@, symbol_views(symbols@)).1,
    {
        let ghost views = symbol_views(symbols@);
        match self.phase {
            Phase::Resolving => {
                match select_entry(&symbols, self.entry.as_str(), self.root.as_str()) {
                    Some(i) => {
                        assert(views[i as int] == symbols@[i as int]@);
                        self.entry_symbol = Some(symbols[i].clone());
                        self.phase = Phase::Snapshot;
                        BuildAction::Search { query: String::new(), delay_ms: 0 }
                    },
                    None => {
                        if self.attempts < self.config.max_attempts {
                            self.attempts = self.attempts + 1;
                            BuildAction::Search {
                                query: self.entry.clone(),
                                delay_ms: self.config.retry_delay_ms,
                            }
                        } else {
                            self.phase = Phase::Failed;
                            BuildAction::Failed { error: BuildError::EntryNotFound }
                        }
                    },
                }
            },
            _ => {
                self.snapshot = callable_symbols(&symbols);
                self.phase = Phase::Preparing;
                let symbol = match &self.entry_symbol {
                    Some(s) => s.clone(),
                    None => unreached(),
                };
                BuildAction::Prepare { symbol }
            },
        }
    }

    fn proceed(&mut self, sources: &Vec<SourceFile>) -> (action: BuildAction)
        requires
            old(self).walk.well_formed(),
            old(self)@.attempts <= old(self)@.max_attempts,
        ensures
            final(self).well_formed(),
            final(self)@ == continued(old(self)@, old(self)@.traversal, source_views(sources@)).0,
            action@ == continued(old(self)@, old(self)@.traversal, source_views(sources@)).1,
    {
        proof {
            lemma_drain_expands_once(
                self@.traversal,
                scope_of(self.snapshot@, sources@, self.root@),
            );
        }
        match self.walk.advance(&self.snapshot, sources, self.root.as_str()) {
            Some(node) => {
                self.current = node.id();
                self.phase = Phase::Expanding;
                BuildAction::Expand { node }
            },
            None => {
                self.phase = Phase::Finished;
                BuildAction::Finished
            },
        }
    }

    /// Takes the roots of the entry's call hierarchy. `sources` holds the
    /// text of the source files that are at hand, for attributing the nodes.
    pub fn on_roots(&mut self, roots: Vec<CallHierarchyNode>, sources: &Vec<SourceFile>) -> (action:
        BuildAction)
        requires
            old(self).well_formed(),
            old(self)@.phase == Phase::Preparing,
        ensures
            final(self).well_formed(),
            final(self)@ == after_roots(old(self)@, node_views(roots@), source_views(sources@)).0,
            action@ == after_roots(old(self)@, node_views(roots@), source_views(sources@)).1,
    {
        if roots.len() == 0 {
            self.phase = Phase::Failed;
            return BuildAction::Failed { error: BuildError::NoCallHierarchyRoot };
        }
        self.walk = Walk::new(roots);
        self.proceed(sources)
    }

    /// Takes the callees of the node that was to be expanded.
    pub fn on_callees(
        &mut self,
        callees: Vec<CallHierarchyNode>,
        sources: &Vec<SourceFile>,
    ) -> (action: BuildAction)
        requires
            old(self).well_formed(),
            old(self)@.phase == Phase::Expanding,
        ensures
            final(self).well_formed(),
            final(self)@ == after_callees(old(self)@, node_views(callees@), source_views(sources@)).0,
            action@ == after_callees(old(self)@, node_views(callees@), source_views(sources@)).1,
    {
        self.walk.take_callees(
            self.current.as_str(),
            &callees,
            &self.snapshot,
            sources,
            self.root.as_str(),
        );
        self.proceed(sources)
    }

    /// The finished graph: well formed, with the nodes and the edges that the
    /// traversal recorded.
    pub fn into_graph(self) -> (g: CallGraph)
        requires
            self.well_formed(),
        ensures
            g.well_formed(),
            node_map(g@) == self@.traversal.nodes,
            edge_set(g@) == self@.traversal.edges,
    {
        self.walk.into_graph()
    }
}

/// The build after its start and `k` search results.
pub open spec fn after_searches(b: BuildView, results: Seq<Seq<SymbolView>>, k: int) -> (
    BuildView,
    ActionView,
)
    decreases k,
{
    if k <= 0 {
        after_start(b)
    } else {
        after_symbols(after_searches(b, results, k - 1).0, results[k - 1])
    }
}

/// The search for the entry is repeated as often as the configuration allows
/// and no more: as long as every result so far held no entry and attempts are
/// left, the build asks for another search, the first at once and every later
/// one after the configured pause; once the last attempt has come back without
/// an entry, the build fails with `EntryNotFound`.
pub proof fn lemma_search_is_repeated_until_exhausted(
    b: BuildView,
    results: Seq<Seq<SymbolView>>,
    k: int,
)
    requires
        b.phase == Phase::Resolving,
        b.attempts == 0,
        0 <= k <= results.len(),
        k <= b.max_attempts,
        forall|i: int| 0 <= i < k ==> entry_choice(#[trigger] results[i], b.entry, b.root) is None,
    ensures
        ({
            let r = after_searches(b, results, k);
            &&& r.0.entry == b.entry
            &&& r.0.root == b.root
            &&& r.0.max_attempts == b.max_attempts
            &&& r.0.retry_delay_ms == b.retry_delay_ms
            &&& if k < b.max_attempts {
                &&& r.0.phase == Phase::Resolving
                &&& r.0.attempts == k + 1
                &&& r.1 == (ActionView::Search {
                    query: b.entry,
                    delay_ms: if k == 0 {
                        0
                    } else {
                        b.retry_delay_ms
                    },
                })
            } else {
                &&& r.0.phase == Phase::Failed
                &&& r.1 == (ActionView::Failed { error: BuildError::EntryNotFound })
            }
        }),
    decreases k,
{
    if k > 0 {
        lemma_search_is_repeated_until_exhausted(b, results, k - 1);
        assert(entry_choice(results[k - 1], b.entry, b.root) is None);
    }
}

/// The search fails with `EntryNotFound` only when a result holds no entry
/// and no attempt is left; a result with an entry ends the search at once.
pub proof fn lemma_entry_not_found_only_when_exhausted(b: BuildView, symbols: Seq<SymbolView>)
    requires
        b.phase == Phase::Resolving,
    ensures
        after_symbols(b, symbols).1 == (ActionView::Failed { error: BuildError::EntryNotFound })
            <==> (entry_choice(symbols, b.entry, b.root) is None && b.attempts >= b.max_attempts),
        entry_choice(symbols, b.entry, b.root) is Some ==> after_symbols(b, symbols).0.phase
            == Phase::Snapshot && after_symbols(b, symbols).0.attempts == b.attempts,
{
}

/// The traversal asks for the callees of a node only where the node lies
/// inside the workspace and its identifier was not expanded before; the
/// identifier is marked as expanded from then on. Where it asks for nothing
/// more, the build is finished and nothing new is marked.
pub proof fn lemma_expansion_is_inside_and_new(
    b: BuildView,
    t: Traversal,
    sources: Seq<SourceView>,
)
    ensures
        match continued(b, t, sources).1 {
            ActionView::Expand { node } => {
                &&& in_workspace(b.root, node.uri)
                &&& !t.visited.contains(CallHierarchyNode::id_of(node))
                &&& continued(b, t, sources).0.traversal.visited == t.visited.insert(
                    CallHierarchyNode::id_of(node),
                )
                &&& continued(b, t, sources).0.current == CallHierarchyNode::id_of(node)
                &&& continued(b, t, sources).0.phase == Phase::Expanding
            },
            ActionView::Finished => continued(b, t, sources).0.phase == Phase::Finished
                && continued(b, t, sources).0.traversal.visited == t.visited,
            _ => false,
        },
{
    lemma_drain_expands_once(t, Scope { snapshot: b.snapshot, sources, root: b.root });
}

/// Every step of the traversal expands at most one node more, a node of the
/// workspace that was not expanded before: taking in callees expands nothing
/// by itself, whatever the callees are and wherever they lie.
pub proof fn lemma_callees_expand_one_more(
    b: BuildView,
    callees: Seq<HierarchyNodeView>,
    sources: Seq<SourceView>,
)
    ensures
        match after_callees(b, callees, sources).1 {
            ActionView::Expand { node } => {
                &&& in_workspace(b.root, node.uri)
                &&& !b.traversal.visited.contains(CallHierarchyNode::id_of(node))
                &&& after_callees(b, callees, sources).0.traversal.visited
                    == b.traversal.visited.insert(CallHierarchyNode::id_of(node))
            },
            ActionView::Finished => after_callees(b, callees, sources).0.traversal.visited
                == b.traversal.visited,
            _ => false,
        },
{
    let scope = Scope { snapshot: b.snapshot, sources, root: b.root };
    lemma_absorb_keeps_boundary(b.traversal, scope, b.current, callees, 0);
    lemma_expansion_is_inside_and_new(
        b,
        absorb(b.traversal, scope, b.current, callees, 0),
        sources,
    );
}

} // verus!
