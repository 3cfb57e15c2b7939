use gen_callgraph::call_graph::{CallGraph, CallGraphEdge, CallGraphNode};
use gen_callgraph::dot::{escape_dot, to_dot};
use gen_callgraph::order::{str_before, str_eq};
use gen_callgraph::symbols::{make_node_id, CallHierarchyNode};
use std::collections::BTreeMap;

fn node(id: &str, label: &str, group: &str) -> CallGraphNode {
    CallGraphNode { id: id.to_string(), label: label.to_string(), group: group.to_string() }
}

fn ids(graph: &CallGraph) -> Vec<String> {
    graph.nodes.iter().map(|n| n.id.clone()).collect()
}

fn pairs(graph: &CallGraph) -> Vec<(String, String)> {
    graph.edges.iter().map(|e| (e.from.clone(), e.to.clone())).collect()
}

fn expected_dot(graph: &CallGraph) -> String {
    let escape = |v: &str| v.replace('\\', "\\\\").replace('"', "\\\"").replace('\n', "\\n");
    let mut out = String::from("digraph callgraph {\n  rankdir=LR;\n  compound=true;\n");
    let mut grouped: BTreeMap<String, Vec<&CallGraphNode>> = BTreeMap::new();
    for n in &graph.nodes {
        grouped.entry(n.group.clone()).or_default().push(n);
    }
    for (idx, (group, nodes)) in grouped.iter().enumerate() {
        out.push_str(&format!("  subgraph \"cluster_{}\" {{\n", idx));
        out.push_str(&format!("    label=\"{}\";\n", escape(group)));
        out.push_str("    color=lightgray;\n");
        for n in nodes {
            out.push_str(&format!("    \"{}\" [label=\"{}\"];\n", escape(&n.id), escape(&n.label)));
        }
        out.push_str("  }\n");
    }
    for e in &graph.edges {
        out.push_str(&format!("  \"{}\" -> \"{}\";\n", escape(&e.from), escape(&e.to)));
    }
    out.push_str("}\n");
    out
}

#[test]
fn texts_compare_as_their_bytes() {
    let samples = ["", "a", "ab", "b", "B", "a/b", "a:b", "é", "z", "日本", "aé", "a\u{10000}", "a\u{ffff}"];
    for x in samples {
        for y in samples {
            assert_eq!(str_before(x, y), x < y, "{:?} {:?}", x, y);
            assert_eq!(str_eq(x, y), x == y, "{:?} {:?}", x, y);
        }
    }
}

#[test]
fn node_id_is_built_from_place_and_name() {
    assert_eq!(make_node_id("file:///w/src/main.rs", 3, 4, "main"), "file:///w/src/main.rs:3:4:main");
    assert_eq!(make_node_id("u", 0, 0, ""), "u:0:0:");
    assert_eq!(make_node_id("u", 4294967295, 10, "f"), "u:4294967295:10:f");
    let n = CallHierarchyNode {
        uri: String::from("file:///a.rs"),
        line: 12,
        column: 7,
        name: String::from("run"),
        detail: None,
        payload: String::from("{}"),
    };
    assert_eq!(n.id(), "file:///a.rs:12:7:run");
}

#[test]
fn same_name_at_different_places_gets_different_ids() {
    let a = make_node_id("file:///a.rs", 1, 2, "new");
    let b = make_node_id("file:///a.rs", 12, 0, "new");
    let c = make_node_id("file:///a.rs:1", 2, 0, "new");
    let d = make_node_id("file:///b.rs", 1, 2, "new");
    assert_ne!(a, b);
    assert_ne!(a, c);
    assert_ne!(a, d);
    assert_eq!(a, make_node_id("file:///a.rs", 1, 2, "new"));
}

#[test]
fn nodes_are_kept_in_order_of_their_ids() {
    let mut graph = CallGraph::new();
    assert!(graph.nodes.is_empty() && graph.edges.is_empty());
    for id in ["m", "c", "x", "a", "k"] {
        graph.upsert_node(node(id, id, "g"));
    }
    assert_eq!(ids(&graph), vec!["a", "c", "k", "m", "x"]);
    assert!(graph.contains_node("k"));
    assert!(!graph.contains_node("b"));
    assert_eq!(graph.find_node("m"), Some(3));
    assert_eq!(graph.find_node("zz"), None);
}

#[test]
fn recording_a_node_again_replaces_it() {
    let mut graph = CallGraph::new();
    graph.upsert_node(node("a", "old", "g1"));
    graph.upsert_node(node("b", "b", "g"));
    graph.upsert_node(node("a", "new", "g2"));
    assert_eq!(ids(&graph), vec!["a", "b"]);
    assert_eq!(graph.nodes[0].label, "new");
    assert_eq!(graph.nodes[0].group, "g2");
}

#[test]
fn edges_are_kept_once_and_in_order() {
    let mut graph = CallGraph::new();
    for id in ["a", "b", "c"] {
        graph.upsert_node(node(id, id, "g"));
    }
    assert!(graph.add_edge("b", "a"));
    assert!(graph.add_edge("a", "c"));
    assert!(graph.add_edge("a", "b"));
    assert!(!graph.add_edge("a", "c"));
    assert!(graph.add_edge("a", "a"));
    assert_eq!(
        pairs(&graph),
        vec![
            (String::from("a"), String::from("a")),
            (String::from("a"), String::from("b")),
            (String::from("a"), String::from("c")),
            (String::from("b"), String::from("a")),
        ]
    );
    assert!(graph.contains_edge("b", "a"));
    assert!(!graph.contains_edge("c", "a"));
}

#[test]
fn order_does_not_depend_on_the_order_of_recording() {
    let names = ["d", "a", "c", "b"];
    let mut one = CallGraph::new();
    for id in names {
        one.upsert_node(node(id, id, "g"));
    }
    let mut two = CallGraph::new();
    for id in names.iter().rev() {
        two.upsert_node(node(id, id, "g"));
    }
    one.add_edge("a", "b");
    one.add_edge("c", "d");
    two.add_edge("c", "d");
    two.add_edge("a", "b");
    assert_eq!(ids(&one), ids(&two));
    assert_eq!(pairs(&one), pairs(&two));
    assert_eq!(to_dot(&one), to_dot(&two));
    let copy = one.clone();
    assert_eq!(ids(&copy), ids(&one));
    assert_eq!(pairs(&copy), pairs(&one));
}

#[test]
fn escape_dot_escapes_backslash_quote_and_newline() {
    assert_eq!(escape_dot("plain"), "plain");
    assert_eq!(escape_dot("a\\b"), "a\\\\b");
    assert_eq!(escape_dot("say \"hi\""), "say \\\"hi\\\"");
    assert_eq!(escape_dot("one\ntwo"), "one\\ntwo");
    assert_eq!(escape_dot("\\\"\n"), "\\\\\\\"\\n");
    assert_eq!(escape_dot(""), "");
    assert_eq!(escape_dot("tab\tünï"), "tab\tünï");
}

#[test]
fn to_dot_of_an_empty_graph() {
    let graph = CallGraph::new();
    assert_eq!(to_dot(&graph), "digraph callgraph {\n  rankdir=LR;\n  compound=true;\n}\n");
}

#[test]
fn to_dot_writes_clusters_then_edges() {
    let mut graph = CallGraph::new();
    graph.upsert_node(node("a", "m::a", "m"));
    graph.upsert_node(node("b", "T::b", "T"));
    graph.upsert_node(node("c\"x", "la\\bel\n", "m"));
    graph.add_edge("a", "b");
    let expected = "digraph callgraph {\n  rankdir=LR;\n  compound=true;\n  subgraph \"cluster_0\" {\n    label=\"T\";\n    color=lightgray;\n    \"b\" [label=\"T::b\"];\n  }\n  subgraph \"cluster_1\" {\n    label=\"m\";\n    color=lightgray;\n    \"a\" [label=\"m::a\"];\n    \"c\\\"x\" [label=\"la\\\\bel\\n\"];\n  }\n  \"a\" -> \"b\";\n}\n";
    assert_eq!(to_dot(&graph), expected);
}

#[test]
fn to_dot_takes_any_graph_as_it_is() {
    let graph = CallGraph {
        nodes: vec![
            node("z", "z", "beta"),
            node("y", "y", "alpha"),
            node("x", "x", "beta"),
            node("w", "w", ""),
            node("v", "v", "alpha"),
            node("z", "again", "gamma \"q\""),
        ],
        edges: vec![
            CallGraphEdge { from: String::from("z"), to: String::from("y") },
            CallGraphEdge { from: String::from("a\nb"), to: String::from("nowhere") },
            CallGraphEdge { from: String::from("z"), to: String::from("y") },
        ],
    };
    assert_eq!(to_dot(&graph), expected_dot(&graph));
    let mut many = CallGraph { nodes: Vec::new(), edges: Vec::new() };
    for i in 0..12 {
        many.nodes.push(node(&format!("n{}", i), &format!("l{}", i), &format!("g{}", (i * 7) % 12)));
    }
    assert_eq!(to_dot(&many), expected_dot(&many));
    assert!(to_dot(&many).contains("subgraph \"cluster_11\""));
}
