//! Running a build over a session: every question of the builder becomes a
//! request of the session, and the answer to that request becomes the
//! builder's next event. One request is under way at a time.
//!
//! The analyzer writes and reads nothing. Its caller writes the frame of a
//! [`Step::Send`], reads frames, and hands each body to
//! [`CodeAnalyzer::on_frame`], or calls [`CodeAnalyzer::on_timeout`] when no
//! answer arrives in time.

use crate::attribution::{source_views, SourceFile, SourceView};
use crate::builder::{
    after_callees, after_roots, after_start, after_symbols, ActionView, BuildAction, BuildConfig,
    BuildError, BuildView, GraphBuilder, Phase,
};
use crate::call_graph::{edge_set, node_map, CallGraph};
use crate::framed::{routed, Delivery, DeliveryView};
use crate::lsp::{
    callees_answer, callees_of, item_params, position_params, query_params, requested,
    roots_answer, roots_of, symbols_answer, symbols_of, Handshake, LspClient, SessionView,
};
use crate::message::{body_message, Message, MessageView};
use crate::symbols::{symbol_views, SymbolRef, SymbolView};
use crate::walk::initial;
use vstd::prelude::*;

verus! {

/// Why an analysis ended without a graph.
#[derive(Clone, Copy, Debug, PartialEq, Eq, Structural)]
pub enum AnalysisError {
    /// No search returned a function or method of the workspace.
    EntryNotFound,
    /// The server knows no call hierarchy for the entry.
    NoCallHierarchyRoot,
    /// The server did not answer in time.
    Timeout,
    /// The session has no number left for another request.
    OutOfNumbers,
}

/// What the caller has to do next.
#[derive(Debug)]
pub enum Step {
    /// Wait `delay_ms` milliseconds, write `frame`, then read frames.
    Send { frame: Vec<u8>, delay_ms: u64 },
    /// Read on: the awaited answer has not arrived.
    Wait,
    /// The graph is complete.
    Finished,
    /// Give up.
    Failed { error: AnalysisError },
}

/// A step, as mathematics.
pub enum StepView {
    Send { frame: Seq<u8>, delay_ms: u64 },
    Wait,
    Finished,
    Failed { error: AnalysisError },
}

impl View for Step {
    type V = StepView;

    open spec fn view(&self) -> StepView {
        match self {
            Step::Send { frame, delay_ms } => StepView::Send { frame: frame@, delay_ms: *delay_ms },
            Step::Wait => StepView::Wait,
            Step::Finished => StepView::Finished,
            Step::Failed { error } => StepView::Failed { error: *error },
        }
    }
}

/// The state of an analysis, as mathematics.
#[verifier::ext_equal]
pub struct AnalysisView {
    pub session: SessionView,
    pub build: BuildView,
    /// The number of the request whose answer the build waits for.
    pub awaited: Option<i32>,
    /// The source texts at hand.
    pub sources: Seq<SourceView>,
}

/// The failure of an analysis that a failure of the build is.
pub open spec fn build_failure(e: BuildError) -> AnalysisError {
    match e {
        BuildError::EntryNotFound => AnalysisError::EntryNotFound,
        BuildError::NoCallHierarchyRoot => AnalysisError::NoCallHierarchyRoot,
    }
}

/// The method and the parameters of the request that asks what the builder
/// wants to know; `None` where the builder asks nothing.
pub open spec fn question(a: ActionView) -> Option<(Seq<char>, Seq<char>, u64)> {
    match a {
        ActionView::Search { query, delay_ms } => Some(
            ("workspace/symbol"@, query_params(query), delay_ms),
        ),
        ActionView::Prepare { symbol } => Some(
            (
                "textDocument/prepareCallHierarchy"@,
                position_params(symbol.uri, symbol.line, symbol.column),
                0,
            ),
        ),
        ActionView::Expand { node } => Some(
            ("callHierarchy/outgoingCalls"@, item_params(node.payload), 0),
        ),
        _ => None,
    }
}

/// What becomes of the session when the builder's wish is carried out, which
/// request is then awaited, and what the caller has to do. A question is
/// sent as the session's next request, unless the session has run out of
/// numbers.
pub open spec fn performed(s: SessionView, a: ActionView) -> (SessionView, Option<i32>, StepView) {
    match question(a) {
        Some((method, params, delay_ms)) => if s.last_id < i32::MAX {
            let r = requested(s, method, params);
            (r.0, Some(r.1), StepView::Send { frame: r.2, delay_ms })
        } else {
            (s, None, StepView::Failed { error: AnalysisError::OutOfNumbers })
        },
        None => match a {
            ActionView::Failed { error } => (
                s,
                None,
                StepView::Failed { error: build_failure(error) },
            ),
            _ => (s, None, StepView::Finished),
        },
    }
}

/// The analysis after the builder took a step to `build` and wished `action`.
pub open spec fn carried_on(
    v: AnalysisView,
    session: SessionView,
    step: (BuildView, ActionView),
) -> (AnalysisView, StepView) {
    let p = performed(session, step.1);
    (AnalysisView { session: p.0, build: step.0, awaited: p.1, ..v }, p.2)
}

/// The builder's step on the answer `m`, by the phase it is in.
pub open spec fn answered(v: AnalysisView, m: MessageView) -> (BuildView, ActionView) {
    if v.build.phase == Phase::Resolving || v.build.phase == Phase::Snapshot {
        after_symbols(v.build, symbols_answer(m))
    } else if v.build.phase == Phase::Preparing {
        after_roots(v.build, roots_answer(m), v.sources)
    } else {
        after_callees(v.build, callees_answer(m), v.sources)
    }
}

/// The analysis after a frame with this body came in. A body that is no
/// message is dropped. A message is routed; where it is the awaited answer,
/// the builder takes its step on it and its next wish is carried out; else
/// the caller reads on.
pub open spec fn after_frame(v: AnalysisView, body: Seq<u8>) -> (AnalysisView, StepView) {
    match body_message(body) {
        Err(_) => (v, StepView::Wait),
        Ok(m) => {
            let r = routed(v.session.pending, m);
            let session = SessionView { pending: r.0, ..v.session };
            match r.1 {
                DeliveryView::Completed { id, message } => if v.awaited == Some(id) {
                    carried_on(v, session, answered(v, m))
                } else {
                    (AnalysisView { session, ..v }, StepView::Wait)
                },
                _ => (AnalysisView { session, ..v }, StepView::Wait),
            }
        },
    }
}

/// The analysis after the awaited answer failed to arrive in time. The
/// request is given up. While the entry is searched for this counts as a
/// search without result; later it fails the analysis.
pub open spec fn after_timeout(v: AnalysisView) -> (AnalysisView, StepView) {
    match v.awaited {
        None => (v, StepView::Wait),
        Some(id) => {
            let session = SessionView { pending: v.session.pending.remove(id), ..v.session };
            if v.build.phase == Phase::Resolving {
                carried_on(v, session, after_symbols(v.build, Seq::empty()))
            } else {
                (
                    AnalysisView { session, awaited: None, ..v },
                    StepView::Failed { error: AnalysisError::Timeout },
                )
            }
        },
    }
}

/// Builds the call graph of an entry function over a session.
pub struct CodeAnalyzer {
    client: LspClient,
    builder: GraphBuilder,
    awaited: Option<i32>,
    sources: Vec<SourceFile>,
}

impl View for CodeAnalyzer {
    type V = AnalysisView;

    closed spec fn view(&self) -> AnalysisView {
        AnalysisView {
            session: self.client@,
            build: self.builder@,
            awaited: self.awaited,
            sources: source_views(self.sources@),
        }
    }
}

/// The phases in which the build waits for an answer.
pub open spec fn waits(p: Phase) -> bool {
    p == Phase::Resolving || p == Phase::Snapshot || p == Phase::Preparing || p == Phase::Expanding
}

/// The session has completed its handshake and works in the workspace of the
/// build, and while an answer is awaited the build is in a phase that waits
/// for one.
pub open spec fn awaiting_consistent(v: AnalysisView) -> bool {
    &&& v.session.handshake == Handshake::Done
    &&& v.session.workspace == v.build.root
    &&& v.awaited is Some ==> waits(v.build.phase)
}

impl CodeAnalyzer {
    /// Session and build are in order, and fit together.
    pub closed spec fn well_formed(&self) -> bool {
        &&& self.client.well_formed()
        &&& self.builder.well_formed()
        &&& awaiting_consistent(self@)
    }

    /// An analysis of the call graph of `entry_name` over `client`, a session
    /// whose handshake is complete and whose workspace is the root of the
    /// build.
    pub fn new(client: LspClient, entry_name: &str, config: BuildConfig) -> (a: Self)
        requires
            client.well_formed(),
            client@.handshake == Handshake::Done,
        ensures
            a.well_formed(),
            a@.session == client@,
            a@.awaited is None,
            a@.sources == Seq::<SourceView>::empty(),
            a@.build == (BuildView {
                root: client@.workspace,
                entry: entry_name@,
                max_attempts: config.max_attempts,
                retry_delay_ms: config.retry_delay_ms,
                attempts: 0,
                phase: Phase::Resolving,
                entry_symbol: None,
                snapshot: Seq::empty(),
                current: Seq::empty(),
                traversal: initial(Seq::empty()),
            }),
    {
        let builder = GraphBuilder::new(client.workspace(), entry_name, config);
        let a = CodeAnalyzer { client, builder, awaited: None, sources: Vec::new() };
        assert(a@.sources =~= Seq::<SourceView>::empty());
        a
    }

    /// Puts the text of a source file at hand, for attributing the nodes
    /// declared in it. A file that is at hand already keeps its first text.
    pub fn add_source(&mut self, file: SourceFile)
        requires
            old(self).well_formed(),
        ensures
            final(self).well_formed(),
            final(self)@ == (AnalysisView {
                sources: old(self)@.sources.push(file@),
                ..old(self)@
            }),
    {
        let ghost before = source_views(self.sources@);
        self.sources.push(file);
        assert(source_views(self.sources@) =~= before.push(file@));
    }

    /// The number of the request whose answer is awaited.
    pub fn awaited(&self) -> (r: Option<i32>)
        ensures
            r == self@.awaited,
    {
        self.awaited
    }

    fn perform(&mut self, action: BuildAction) -> (step: Step)
        requires
            old(self).client.well_formed(),
            old(self).builder.well_formed(),
            old(self)@.session.handshake == Handshake::Done,
            old(self)@.session.workspace == old(self)@.build.root,
            question(action@) is Some ==> waits(old(self)@.build.phase),
        ensures
            final(self).well_formed(),
            final(self)@.build == old(self)@.build,
            final(self)@.sources == old(self)@.sources,
            final(self)@.session == performed(old(self)@.session, action@).0,
            final(self)@.awaited == performed(old(self)@.session, action@).1,
            step@ == performed(old(self)@.session, action@).2,
    {
        match action {
            BuildAction::Search { query, delay_ms } => {
                if !self.client.has_ids_left() {
                    self.awaited = None;
                    return Step::Failed { error: AnalysisError::OutOfNumbers };
                }
                let (id, frame) = self.client.search_symbols(query.as_str());
                self.awaited = Some(id);
                Step::Send { frame, delay_ms }
            },
            BuildAction::Prepare { symbol } => {
                if !self.client.has_ids_left() {
                    self.awaited = None;
                    return Step::Failed { error: AnalysisError::OutOfNumbers };
                }
                let (id, frame) = self.client.prepare_call_hierarchy(&symbol);
                self.awaited = Some(id);
                Step::Send { frame, delay_ms: 0 }
            },
            BuildAction::Expand { node } => {
                if !self.client.has_ids_left() {
                    self.awaited = None;
                    return Step::Failed { error: AnalysisError::OutOfNumbers };
                }
                let (id, frame) = self.client.outgoing_calls(&node);
                self.awaited = Some(id);
                Step::Send { frame, delay_ms: 0 }
            },
            BuildAction::Finished => {
                self.awaited = None;
                Step::Finished
            },
            BuildAction::Failed { error } => {
                self.awaited = None;
                Step::Failed {
                    error: match error {
                        BuildError::EntryNotFound => AnalysisError::EntryNotFound,
                        BuildError::NoCallHierarchyRoot => AnalysisError::NoCallHierarchyRoot,
                    },
                }
            },
        }
    }

    /// Begins the build: the first search for the entry.
    pub fn generate_call_graph(&mut self) -> (step: Step)
        requires
            old(self).well_formed(),
            old(self)@.build.phase == Phase::Resolving,
            old(self)@.build.attempts == 0,
        ensures
            final(self).well_formed(),
            final(self)@ == carried_on(
                old(self)@,
                old(self)@.session,
                after_start(old(self)@.build),
            ).0,
            step@ == carried_on(old(self)@, old(self)@.session, after_start(old(self)@.build)).1,
    {
        let action = self.builder.start();
        self.perform(action)
    }

    fn feed(&mut self, message: &Message) -> (action: BuildAction)
        requires
            old(self).well_formed(),
            old(self)@.awaited is Some,
        ensures
            final(self).client.well_formed(),
            final(self).builder.well_formed(),
            final(self)@.session == old(self)@.session,
            final(self)@.sources == old(self)@.sources,
            final(self)@.build == answered(old(self)@, message@).0,
            action@ == answered(old(self)@, message@).1,
            question(action@) is Some ==> waits(final(self)@.build.phase),
    {
        proof {
            lemma_question_phase(self@, message@);
        }
        match self.builder.phase() {
            Phase::Resolving => self.builder.on_symbols(symbols_of(message)),
            Phase::Snapshot => self.builder.on_symbols(symbols_of(message)),
            Phase::Preparing => self.builder.on_roots(roots_of(message), &self.sources),
            _ => self.builder.on_callees(callees_of(message), &self.sources),
        }
    }

    /// Takes the body of an incoming frame.
    pub fn on_frame(&mut self, body: &[u8]) -> (step: Step)
        requires
            old(self).well_formed(),
        ensures
            final(self).well_formed(),
            final(self)@ == after_frame(old(self)@, body@).0,
            step@ == after_frame(old(self)@, body@).1,
    {
        match self.client.receive(body) {
            Err(_) => Step::Wait,
            Ok(delivery) => match delivery {
                Delivery::Completed { id, message } => {
                    let awaited = match self.awaited {
                        Some(a) => a == id,
                        None => false,
                    };
                    if awaited {
                        let action = self.feed(&message);
                        self.perform(action)
                    } else {
                        Step::Wait
                    }
                },
                _ => Step::Wait,
            },
        }
    }

    /// Gives up the awaited answer.
    pub fn on_timeout(&mut self) -> (step: Step)
        requires
            old(self).well_formed(),
        ensures
            final(self).well_formed(),
            final(self)@ == after_timeout(old(self)@).0,
            step@ == after_timeout(old(self)@).1,
    {
        let id = match self.awaited {
            Some(id) => id,
            None => {
                return Step::Wait;
            },
        };
        self.client.expire(id);
        match self.builder.phase() {
            Phase::Resolving => {
                let nothing: Vec<SymbolRef> = Vec::new();
                assert(symbol_views(nothing@) =~= Seq::<SymbolView>::empty());
                proof {
                    lemma_symbols_question_phase(self@.build, Seq::empty());
                }
                let action = self.builder.on_symbols(nothing);
                self.perform(action)
            },
            _ => {
                self.awaited = None;
                Step::Failed { error: AnalysisError::Timeout }
            },
        }
    }

    /// Ends the analysis: the session as it stands, and the graph found.
    pub fn into_parts(self) -> (r: (LspClient, CallGraph))
        requires
            self.well_formed(),
        ensures
            r.0.well_formed(),
            r.0@ == self@.session,
            r.1.well_formed(),
            node_map(r.1@) == self@.build.traversal.nodes,
            edge_set(r.1@) == self@.build.traversal.edges,
    {
        (self.client, self.builder.into_graph())
    }
}

/// A step on symbols ends in a phase that fits its wish.
proof fn lemma_symbols_question_phase(b: BuildView, symbols: Seq<SymbolView>)
    requires
        b.phase == Phase::Resolving || b.phase == Phase::Snapshot,
    ensures
        question(after_symbols(b, symbols).1) is Some ==> waits(after_symbols(b, symbols).0.phase),
{
}

/// Whatever the answer, the builder ends in a phase that fits its wish: it
/// asks a question only in a phase that waits for the answer.
proof fn lemma_question_phase(v: AnalysisView, m: MessageView)
    requires
        awaiting_consistent(v),
        v.awaited is Some,
    ensures
        question(answered(v, m).1) is Some ==> waits(answered(v, m).0.phase),
{
}

} // verus!
