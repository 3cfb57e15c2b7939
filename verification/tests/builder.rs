use gen_callgraph::attribution::SourceFile;
use gen_callgraph::builder::{
    BuildAction, BuildConfig, BuildError, GraphBuilder, Phase, DEFAULT_MAX_ATTEMPTS,
    DEFAULT_RETRY_DELAY_MS,
};
use gen_callgraph::call_graph::CallGraph;
use gen_callgraph::dot::to_dot;
use gen_callgraph::symbols::{CallHierarchyNode, SymbolKind, SymbolRef};

const ROOT: &str = "file:///w";
const LIB: &str = "file:///w/src/lib.rs";

fn function(name: &str, line: u32) -> SymbolRef {
    SymbolRef {
        uri: LIB.to_string(),
        line,
        column: 3,
        name: name.to_string(),
        kind: Some(SymbolKind::Function),
        container: None,
        detail: None,
    }
}

fn call(uri: &str, name: &str, line: u32) -> CallHierarchyNode {
    CallHierarchyNode {
        uri: uri.to_string(),
        line,
        column: 3,
        name: name.to_string(),
        detail: None,
        payload: format!("{{\"name\":\"{}\"}}", name),
    }
}

fn a() -> CallHierarchyNode {
    call(LIB, "a", 0)
}

fn b() -> CallHierarchyNode {
    call(LIB, "b", 5)
}

fn expect_search(action: &BuildAction, query: &str, delay_ms: u64) {
    match action {
        BuildAction::Search { query: q, delay_ms: d } => {
            assert_eq!(q, query);
            assert_eq!(*d, delay_ms);
        }
        other => panic!("no search: {:?}", other),
    }
}

fn expect_expand(action: &BuildAction, name: &str) {
    match action {
        BuildAction::Expand { node } => assert_eq!(node.name, name),
        other => panic!("no expansion: {:?}", other),
    }
}

fn prepared(entry: &str) -> GraphBuilder {
    let mut builder = GraphBuilder::new(ROOT, entry, BuildConfig::recommended());
    expect_search(&builder.start(), entry, 0);
    expect_search(&builder.on_symbols(vec![function(entry, 0)]), "", 0);
    match builder.on_symbols(vec![function("a", 0), function("b", 5)]) {
        BuildAction::Prepare { symbol } => assert_eq!(symbol.name, entry),
        other => panic!("no preparation: {:?}", other),
    }
    assert_eq!(builder.phase(), Phase::Preparing);
    builder
}

fn ids(graph: &CallGraph) -> Vec<String> {
    graph.nodes.iter().map(|n| n.id.clone()).collect()
}

fn pairs(graph: &CallGraph) -> Vec<(String, String)> {
    graph.edges.iter().map(|e| (e.from.clone(), e.to.clone())).collect()
}

fn build_cycle() -> CallGraph {
    let mut builder = prepared("a");
    let none: Vec<SourceFile> = Vec::new();
    expect_expand(&builder.on_roots(vec![a()], &none), "a");
    assert_eq!(builder.phase(), Phase::Expanding);
    expect_expand(&builder.on_callees(vec![b()], &none), "b");
    assert!(matches!(builder.on_callees(vec![a()], &none), BuildAction::Finished));
    assert_eq!(builder.phase(), Phase::Finished);
    builder.into_graph()
}

#[test]
fn recommended_configuration() {
    let config = BuildConfig::recommended();
    assert_eq!(config.max_attempts, 20);
    assert_eq!(config.retry_delay_ms, 500);
    assert_eq!(DEFAULT_MAX_ATTEMPTS, 20);
    assert_eq!(DEFAULT_RETRY_DELAY_MS, 500);
}

#[test]
fn a_call_cycle_ends_with_both_edges_once() {
    let graph = build_cycle();
    let id_a = String::from("file:///w/src/lib.rs:0:3:a");
    let id_b = String::from("file:///w/src/lib.rs:5:3:b");
    assert_eq!(ids(&graph), vec![id_a.clone(), id_b.clone()]);
    assert_eq!(pairs(&graph), vec![(id_a.clone(), id_b.clone()), (id_b, id_a)]);
    assert_eq!(graph.nodes[0].label, "w::a");
    assert_eq!(graph.nodes[0].group, "w");
    assert_eq!(graph.nodes[1].label, "w::b");
}

#[test]
fn a_function_that_calls_itself() {
    let mut builder = prepared("a");
    let none: Vec<SourceFile> = Vec::new();
    expect_expand(&builder.on_roots(vec![a()], &none), "a");
    assert!(matches!(builder.on_callees(vec![a(), a()], &none), BuildAction::Finished));
    let graph = builder.into_graph();
    assert_eq!(ids(&graph).len(), 1);
    let id_a = String::from("file:///w/src/lib.rs:0:3:a");
    assert_eq!(pairs(&graph), vec![(id_a.clone(), id_a)]);
}

#[test]
fn two_builds_give_the_same_lists() {
    let one = build_cycle();
    let two = build_cycle();
    assert_eq!(ids(&one), ids(&two));
    assert_eq!(pairs(&one), pairs(&two));
    assert_eq!(to_dot(&one), to_dot(&two));
}

#[test]
fn each_node_is_expanded_once() {
    let mut builder = prepared("a");
    let none: Vec<SourceFile> = Vec::new();
    let c = || call(LIB, "c", 9);
    let d = || call(LIB, "d", 12);
    let mut expanded: Vec<String> = Vec::new();
    let mut action = builder.on_roots(vec![a()], &none);
    loop {
        let name = match &action {
            BuildAction::Expand { node } => node.name.clone(),
            BuildAction::Finished => break,
            other => panic!("unexpected: {:?}", other),
        };
        expanded.push(name.clone());
        let callees = match name.as_str() {
            "a" => vec![b(), c(), b()],
            "b" => vec![c(), d(), a()],
            "c" => vec![d(), d()],
            "d" => vec![a(), b(), c(), d()],
            _ => Vec::new(),
        };
        action = builder.on_callees(callees, &none);
    }
    let mut sorted = expanded.clone();
    sorted.sort();
    assert_eq!(sorted, vec!["a", "b", "c", "d"]);
    assert_eq!(expanded, vec!["a", "b", "d", "c"]);
    let graph = builder.into_graph();
    assert_eq!(graph.nodes.len(), 4);
    assert_eq!(graph.edges.len(), 2 + 3 + 1 + 4);
}

#[test]
fn a_callee_outside_the_workspace_is_not_expanded() {
    let mut builder = prepared("a");
    let none: Vec<SourceFile> = Vec::new();
    let outside = call("file:///home/me/.cargo/registry/src/dep/lib.rs", "dep_fn", 1);
    let near = call("file:///wide/src/lib.rs", "near", 1);
    expect_expand(&builder.on_roots(vec![a()], &none), "a");
    expect_expand(&builder.on_callees(vec![outside, b(), near], &none), "b");
    assert!(matches!(builder.on_callees(Vec::new(), &none), BuildAction::Finished));
    let graph = builder.into_graph();
    assert_eq!(
        ids(&graph),
        vec![String::from("file:///w/src/lib.rs:0:3:a"), String::from("file:///w/src/lib.rs:5:3:b")]
    );
    assert_eq!(pairs(&graph).len(), 1);
    assert!(graph.nodes.iter().all(|n| n.id.starts_with("file:///w/")));
}

#[test]
fn roots_outside_the_workspace_are_dropped() {
    let mut builder = prepared("a");
    let none: Vec<SourceFile> = Vec::new();
    let action = builder.on_roots(vec![call("file:///elsewhere/x.rs", "x", 1)], &none);
    assert!(matches!(action, BuildAction::Finished));
    let graph = builder.into_graph();
    assert!(graph.nodes.is_empty() && graph.edges.is_empty());
}

#[test]
fn no_roots_fail_the_build() {
    let mut builder = prepared("a");
    let none: Vec<SourceFile> = Vec::new();
    match builder.on_roots(Vec::new(), &none) {
        BuildAction::Failed { error } => assert_eq!(error, BuildError::NoCallHierarchyRoot),
        other => panic!("no failure: {:?}", other),
    }
    assert_eq!(builder.phase(), Phase::Failed);
}

#[test]
fn entry_search_is_repeated_until_the_attempts_are_used_up() {
    let config = BuildConfig { max_attempts: 3, retry_delay_ms: 250 };
    let mut builder = GraphBuilder::new(ROOT, "main", config);
    assert_eq!(builder.attempts(), 0);
    expect_search(&builder.start(), "main", 0);
    assert_eq!(builder.attempts(), 1);
    expect_search(&builder.on_symbols(Vec::new()), "main", 250);
    assert_eq!(builder.attempts(), 2);
    let elsewhere = SymbolRef { uri: String::from("file:///other/src/main.rs"), ..function("main", 0) };
    expect_search(&builder.on_symbols(vec![elsewhere]), "main", 250);
    assert_eq!(builder.attempts(), 3);
    assert_eq!(builder.phase(), Phase::Resolving);
    match builder.on_symbols(Vec::new()) {
        BuildAction::Failed { error } => assert_eq!(error, BuildError::EntryNotFound),
        other => panic!("no failure: {:?}", other),
    }
    assert_eq!(builder.attempts(), 3);
    assert_eq!(builder.phase(), Phase::Failed);
}

#[test]
fn entry_found_on_a_later_attempt() {
    let mut builder = GraphBuilder::new(ROOT, "main", BuildConfig::recommended());
    expect_search(&builder.start(), "main", 0);
    for attempt in 1..DEFAULT_MAX_ATTEMPTS {
        assert_eq!(builder.attempts(), attempt);
        expect_search(&builder.on_symbols(Vec::new()), "main", 500);
    }
    assert_eq!(builder.attempts(), 20);
    expect_search(&builder.on_symbols(vec![function("other", 7)]), "", 0);
    assert_eq!(builder.phase(), Phase::Snapshot);
    match builder.on_symbols(Vec::new()) {
        BuildAction::Prepare { symbol } => {
            assert_eq!(symbol.name, "other");
            assert_eq!(symbol.line, 7);
        }
        other => panic!("no preparation: {:?}", other),
    }
}

#[test]
fn no_attempt_allowed_fails_at_once() {
    let mut builder = GraphBuilder::new(ROOT, "main", BuildConfig { max_attempts: 0, retry_delay_ms: 1 });
    match builder.start() {
        BuildAction::Failed { error } => assert_eq!(error, BuildError::EntryNotFound),
        other => panic!("no failure: {:?}", other),
    }
    assert_eq!(builder.phase(), Phase::Failed);
}

#[test]
fn attribution_uses_snapshot_and_sources_during_the_build() {
    let mut builder = GraphBuilder::new(ROOT, "run", BuildConfig::recommended());
    builder.start();
    builder.on_symbols(vec![function("run", 2)]);
    let mut method = function("step", 7);
    method.kind = Some(SymbolKind::Method);
    method.container = Some(String::from("Engine"));
    builder.on_symbols(vec![function("run", 2), method]);
    let sources = vec![SourceFile {
        uri: String::from("file:///w/src/tool.rs"),
        text: String::from("impl Tool {\n    fn turn(&self) {}\n}\n"),
    }];
    let run = call(LIB, "run", 2);
    let step = call(LIB, "step", 8);
    let turn = call("file:///w/src/tool.rs", "turn", 1);
    builder.on_roots(vec![run], &sources);
    builder.on_callees(vec![step, turn], &sources);
    builder.on_callees(Vec::new(), &sources);
    assert!(matches!(builder.on_callees(Vec::new(), &sources), BuildAction::Finished));
    let graph = builder.into_graph();
    let groups: Vec<(&str, &str)> = graph.nodes.iter().map(|n| (n.label.as_str(), n.group.as_str())).collect();
    assert_eq!(groups, vec![("w::run", "w"), ("Engine::step", "Engine"), ("Tool::turn", "Tool")]);
}
