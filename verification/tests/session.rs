use gen_callgraph::cli::{Cli, Config};
use gen_callgraph::codec::decode_frame;
use gen_callgraph::factory::ProtocolError;
use gen_callgraph::framed::{BrokerError, Delivery};
use gen_callgraph::lsp::{
    callees_of, function_list, roots_of, symbols_of, Handshake, LspClient,
};
use gen_callgraph::message::{parse_message_from_str, Message};
use gen_callgraph::symbols::{
    symbols_from_records, CallHierarchyNode, SymbolKind, SymbolRecord, SymbolRef,
};

fn body_of(frame: &[u8]) -> String {
    let (body, used) = decode_frame(frame).unwrap();
    assert_eq!(used, frame.len());
    String::from_utf8(body).unwrap()
}

fn answer(id: i32, result: &str) -> Message {
    parse_message_from_str(&format!("{{\"jsonrpc\":\"2.0\",\"id\":{},\"result\":{}}}", id, result)).unwrap()
}

fn ready_client(workspace: &str) -> LspClient {
    let mut client = LspClient::new(String::from(workspace));
    let (id, _) = client.initialize(None).unwrap();
    let opened = format!("{{\"jsonrpc\":\"2.0\",\"id\":{},\"result\":{{}}}}", id);
    client.receive(opened.as_bytes()).unwrap();
    client.initialized();
    assert!(client.is_ready());
    client
}

const ITEM_A: &str = "{\"name\":\"alpha\",\"kind\":12,\"detail\":\"fn alpha()\",\"uri\":\"file:///w/src/lib.rs\",\"range\":{\"start\":{\"line\":3,\"character\":0},\"end\":{\"line\":9,\"character\":1}},\"selectionRange\":{\"start\":{\"line\":4,\"character\":7},\"end\":{\"line\":4,\"character\":12}},\"data\":{\"token\":[1,2,3]},\"serverNote\":{\"seen\":true}}";

#[test]
fn session_opens_with_initialize() {
    let mut client = LspClient::new(String::from("file:///w/proj"));
    assert!(client.has_ids_left());
    assert_eq!(client.workspace(), "file:///w/proj");
    assert_eq!(client.handshake(), Handshake::NotStarted);
    let (id, frame) = client.initialize(Some(77)).unwrap();
    assert_eq!(id, 1);
    assert_eq!(client.handshake(), Handshake::Asked { id: 1 });
    let body = body_of(&frame);
    assert!(body.starts_with("{\"jsonrpc\":\"2.0\",\"id\":1,\"method\":\"initialize\",\"params\":{\"processId\":77,\"rootUri\":\"file:///w/proj\","));
    let value: serde_json::Value = serde_json::from_str(&body).unwrap();
    assert_eq!(value["params"]["workspaceFolders"][0]["name"], "proj");
    let other = "{\"jsonrpc\":\"2.0\",\"id\":9,\"result\":{}}";
    assert!(matches!(client.receive(other.as_bytes()), Ok(Delivery::Unroutable)));
    assert_eq!(client.handshake(), Handshake::Asked { id: 1 });
    let opened = "{\"jsonrpc\":\"2.0\",\"id\":1,\"result\":{\"capabilities\":{}}}";
    assert!(matches!(client.receive(opened.as_bytes()), Ok(Delivery::Completed { id: 1, .. })));
    assert_eq!(client.handshake(), Handshake::Answered);
    assert!(!client.is_ready());
    assert_eq!(
        body_of(&client.initialized()),
        "{\"jsonrpc\":\"2.0\",\"method\":\"initialized\",\"params\":\"\"}"
    );
    assert_eq!(client.handshake(), Handshake::Done);
    assert!(client.is_ready());
}

#[test]
fn an_opening_request_that_is_given_up_has_to_be_sent_again() {
    let mut client = LspClient::new(String::from("file:///w"));
    let (id, _) = client.initialize(None).unwrap();
    assert_eq!(client.expire(id + 1), BrokerError::Timeout);
    assert_eq!(client.handshake(), Handshake::Asked { id });
    assert_eq!(client.expire(id), BrokerError::Timeout);
    assert_eq!(client.handshake(), Handshake::NotStarted);
    let late = format!("{{\"jsonrpc\":\"2.0\",\"id\":{},\"result\":{{}}}}", id);
    assert!(matches!(client.receive(late.as_bytes()), Ok(Delivery::Unroutable)));
    assert_eq!(client.handshake(), Handshake::NotStarted);
    let (again, _) = client.initialize(None).unwrap();
    assert_eq!(again, id + 1);
    assert_eq!(client.handshake(), Handshake::Asked { id: again });
}

#[test]
fn session_refuses_a_workspace_that_is_no_url() {
    let mut client = LspClient::new(String::from("/just/a/path"));
    assert_eq!(client.initialize(None).err(), Some(ProtocolError::InvalidRoot));
    assert_eq!(client.handshake(), Handshake::NotStarted);
    let (id, _) = client.shutdown();
    assert_eq!(id, 1);
}

#[test]
fn requests_are_numbered_and_framed() {
    let mut client = ready_client("file:///w");
    let (id1, search) = client.search_symbols("ma\"in");
    let (id2, all) = client.get_all_function_list();
    let symbol = SymbolRef {
        uri: String::from("file:///w/src/a b.rs"),
        line: 12,
        column: 4,
        name: String::from("main"),
        kind: Some(SymbolKind::Function),
        container: None,
        detail: None,
    };
    let (id3, prepare) = client.prepare_call_hierarchy(&symbol);
    let node = CallHierarchyNode {
        uri: String::from("file:///w/src/a.rs"),
        line: 1,
        column: 2,
        name: String::from("f"),
        detail: None,
        payload: String::from("{\"name\":\"f\",\"data\":[1]}"),
    };
    let (id4, outgoing) = client.outgoing_calls(&node);
    let (id5, shutdown) = client.shutdown();
    assert_eq!((id1, id2, id3, id4, id5), (2, 3, 4, 5, 6));
    assert_eq!(
        body_of(&search),
        "{\"jsonrpc\":\"2.0\",\"id\":2,\"method\":\"workspace/symbol\",\"params\":{\"query\":\"ma\\\"in\"}}"
    );
    assert_eq!(
        body_of(&all),
        "{\"jsonrpc\":\"2.0\",\"id\":3,\"method\":\"workspace/symbol\",\"params\":{\"query\":\"\"}}"
    );
    assert_eq!(
        body_of(&prepare),
        "{\"jsonrpc\":\"2.0\",\"id\":4,\"method\":\"textDocument/prepareCallHierarchy\",\"params\":{\"textDocument\":{\"uri\":\"file:///w/src/a b.rs\"},\"position\":{\"line\":12,\"character\":4}}}"
    );
    assert_eq!(
        body_of(&outgoing),
        "{\"jsonrpc\":\"2.0\",\"id\":5,\"method\":\"callHierarchy/outgoingCalls\",\"params\":{\"item\":{\"name\":\"f\",\"data\":[1]}}}"
    );
    assert_eq!(
        body_of(&shutdown),
        "{\"jsonrpc\":\"2.0\",\"id\":6,\"method\":\"shutdown\",\"params\":\"\"}"
    );
    assert_eq!(body_of(&client.exit()), "{\"jsonrpc\":\"2.0\",\"method\":\"exit\",\"params\":\"\"}");
}

#[test]
fn answers_are_delivered_by_number() {
    let mut client = ready_client("file:///w");
    let (first, _) = client.search_symbols("a");
    let (second, _) = client.search_symbols("b");
    let late = format!("{{\"jsonrpc\":\"2.0\",\"id\":{},\"result\":[]}}", second);
    match client.receive(late.as_bytes()).unwrap() {
        Delivery::Completed { id, .. } => assert_eq!(id, second),
        _ => panic!("not completed"),
    }
    assert_eq!(client.expire(first), BrokerError::Timeout);
    let too_late = format!("{{\"jsonrpc\":\"2.0\",\"id\":{},\"result\":[]}}", first);
    assert!(matches!(client.receive(too_late.as_bytes()), Ok(Delivery::Unroutable)));
    assert!(client.receive(b"{}").is_err());
}

#[test]
fn symbol_answers_are_read() {
    let result = "[{\"name\":\"main\",\"kind\":12,\"location\":{\"uri\":\"file:///w/src/main.rs\",\"range\":{\"start\":{\"line\":3,\"character\":4},\"end\":{\"line\":3,\"character\":8}}}},{\"name\":\"draw\",\"kind\":6,\"location\":{\"uri\":\"file:///w/src/ui.rs\",\"range\":{\"start\":{\"line\":10,\"character\":0},\"end\":{\"line\":20,\"character\":1}}},\"containerName\":\"Widget\"},{\"name\":\"Widget\",\"kind\":23,\"location\":{\"uri\":\"file:///w/src/ui.rs\",\"range\":{\"start\":{\"line\":1,\"character\":0},\"end\":{\"line\":2,\"character\":1}}}},{\"name\":\"LIMIT\",\"kind\":14,\"location\":{\"uri\":\"file:///w/src/ui.rs\",\"range\":{\"start\":{\"line\":0,\"character\":0},\"end\":{\"line\":0,\"character\":1}}}}]";
    let symbols = symbols_of(&answer(1, result));
    assert_eq!(symbols.len(), 4);
    assert_eq!(symbols[0].name, "main");
    assert_eq!(symbols[0].uri, "file:///w/src/main.rs");
    assert_eq!((symbols[0].line, symbols[0].column), (3, 4));
    assert_eq!(symbols[0].kind, Some(SymbolKind::Function));
    assert_eq!(symbols[0].container, None);
    assert_eq!(symbols[1].kind, Some(SymbolKind::Method));
    assert_eq!(symbols[1].container, Some(String::from("Widget")));
    assert_eq!(symbols[2].kind, Some(SymbolKind::Struct));
    assert_eq!(symbols[3].kind, Some(SymbolKind::Other));
    assert_eq!(function_list(&symbols), vec!["Function: main", "Struct: Widget"]);
}

#[test]
fn answers_without_a_readable_result_hold_nothing() {
    let error = parse_message_from_str("{\"jsonrpc\":\"2.0\",\"id\":1,\"error\":{\"code\":-32801}}").unwrap();
    let notification = parse_message_from_str("{\"jsonrpc\":\"2.0\",\"method\":\"m\",\"params\":[]}").unwrap();
    for message in [error, notification, answer(1, "null"), answer(1, "{\"not\":\"a list\"}"), answer(1, "[{\"name\":1}]"), answer(1, "[]")] {
        assert!(symbols_of(&message).is_empty());
        assert!(roots_of(&message).is_empty());
        assert!(callees_of(&message).is_empty());
    }
    assert!(function_list(&Vec::new()).is_empty());
}

#[test]
fn hierarchy_answers_are_read_and_the_record_is_kept() {
    let roots = roots_of(&answer(2, &format!("[{}]", ITEM_A)));
    assert_eq!(roots.len(), 1);
    let root = &roots[0];
    assert_eq!(root.name, "alpha");
    assert_eq!(root.uri, "file:///w/src/lib.rs");
    assert_eq!((root.line, root.column), (4, 7));
    assert_eq!(root.detail, Some(String::from("fn alpha()")));
    let sent: serde_json::Value = serde_json::from_str(ITEM_A).unwrap();
    let kept: serde_json::Value = serde_json::from_str(&root.payload).unwrap();
    assert_eq!(kept, sent);
    assert_eq!(root.payload, ITEM_A);
    let mut client = ready_client("file:///w");
    let (_, frame) = client.outgoing_calls(root);
    let request: serde_json::Value = serde_json::from_str(&body_of(&frame)).unwrap();
    assert_eq!(request["params"]["item"], sent);
    assert_eq!(request["params"]["item"]["data"]["token"][2], 3);
    assert_eq!(request["params"]["item"]["serverNote"]["seen"], true);
    let callees = callees_of(&answer(3, &format!("[{{\"to\":{},\"fromRanges\":[]}}]", ITEM_A)));
    let kept: serde_json::Value = serde_json::from_str(&callees[0].payload).unwrap();
    assert_eq!(kept, sent);
    assert!(callees_of(&answer(3, &format!("[{{\"to\":{}}}]", ITEM_A))).is_empty());
    assert!(roots_of(&answer(2, &format!("[{},{{}}]", ITEM_A))).is_empty());
}

#[test]
fn outgoing_calls_are_read() {
    let item_b = ITEM_A.replace("alpha", "beta").replace("\"line\":4", "\"line\":40");
    let result = format!(
        "[{{\"to\":{},\"fromRanges\":[{{\"start\":{{\"line\":5,\"character\":1}},\"end\":{{\"line\":5,\"character\":6}}}}]}},{{\"to\":{},\"fromRanges\":[]}}]",
        item_b, ITEM_A
    );
    let callees = callees_of(&answer(3, &result));
    assert_eq!(callees.len(), 2);
    assert_eq!(callees[0].name, "beta");
    assert_eq!(callees[0].line, 40);
    assert_eq!(callees[1].name, "alpha");
    assert_eq!(callees[1].id(), "file:///w/src/lib.rs:4:7:alpha");
    assert!(roots_of(&answer(3, &result)).is_empty());
}

#[test]
fn missing_arguments_take_their_defaults() {
    let config: Config = Cli::new(None, None, None).into_config(Some(String::from("/home/me/work")));
    assert_eq!(config.workspace, "/home/me/work");
    assert_eq!(config.entry_function, "main");
    assert_eq!(config.output_path, "callgraph.dot");
    let unknown = Cli::new(None, None, None).into_config(None);
    assert_eq!(unknown.workspace, ".");
    let cli = Cli::new(Some(String::from("/w")), Some(String::from("run")), Some(String::from("out.dot")));
    assert_eq!(cli.entry_function, "run");
    assert_eq!(cli.output_path, "out.dot");
    let given = cli.into_config(Some(String::from("/ignored")));
    assert_eq!(given.workspace, "/w");
    assert_eq!(given.entry_function, "run");
    assert_eq!(given.output_path, "out.dot");
    let copy = given.clone();
    assert_eq!(copy.workspace, "/w");
}

#[test]
fn a_session_at_a_path_works_in_the_url_of_that_directory() {
    let client = LspClient::at_path("/home/me/my work").expect("an absolute path has a URL");
    assert_eq!(client.workspace(), "file:///home/me/my%20work");
    assert_eq!(client.handshake(), Handshake::NotStarted);
    assert!(client.has_ids_left());
    assert!(LspClient::at_path("relative/path").is_none());
    assert!(LspClient::at_path("").is_none());
    let mut root = LspClient::at_path("/").unwrap();
    assert_eq!(root.workspace(), "file:///");
    assert_eq!(root.initialize(None).map(|sent| sent.0), Ok(1));
}

#[test]
fn listed_symbols_become_declarations_by_the_number_of_their_kind() {
    let record = |name: &str, kind: i64, container: Option<&str>| SymbolRecord {
        uri: String::from("file:///w/src/a.rs"),
        line: 3,
        column: 4,
        name: String::from(name),
        kind,
        container: container.map(String::from),
    };
    let one = SymbolRef::from_record(&record("f", 12, Some("Owner")));
    assert_eq!(one.uri, "file:///w/src/a.rs");
    assert_eq!((one.line, one.column), (3, 4));
    assert_eq!(one.name, "f");
    assert_eq!(one.kind, Some(SymbolKind::Function));
    assert_eq!(one.container, Some(String::from("Owner")));
    assert_eq!(one.detail, None);
    let records = vec![
        record("a", 12, None),
        record("b", 6, None),
        record("c", 23, None),
        record("d", 5, None),
        record("e", 0, None),
        record("f", -12, None),
        record("g", 13, None),
    ];
    let symbols = symbols_from_records(records);
    let kinds: Vec<Option<SymbolKind>> = symbols.iter().map(|s| s.kind).collect();
    assert_eq!(
        kinds,
        vec![
            Some(SymbolKind::Function),
            Some(SymbolKind::Method),
            Some(SymbolKind::Struct),
            Some(SymbolKind::Other),
            Some(SymbolKind::Other),
            Some(SymbolKind::Other),
            Some(SymbolKind::Other),
        ]
    );
    let names: Vec<&str> = symbols.iter().map(|s| s.name.as_str()).collect();
    assert_eq!(names, vec!["a", "b", "c", "d", "e", "f", "g"]);
    assert!(symbols_from_records(Vec::new()).is_empty());
}

#[test]
fn the_record_of_a_node_goes_back_to_the_server_as_it_came() {
    let item = "{ \"uri\" : \"file:///w/src/lib.rs\",\n  \"name\":\"alpha\", \"kind\":12,\"selectionRange\":{\"start\":{\"line\":4,\"character\":7},\"end\":{\"line\":4,\"character\":12}},\"range\":{\"start\":{\"line\":3,\"character\":0},\"end\":{\"line\":9,\"character\":1}},\"data\":{\"z\":12345678901234567890123,\"a\":1e2,\"text\":\"\\u00e9\\/\"} }";
    let body = format!(
        "{{\"id\": 7, \"result\" : [ {{\"fromRanges\":[], \"to\":{}}} ],\"jsonrpc\":\"2.0\"}}",
        item
    );
    let message = parse_message_from_str(&body).unwrap();
    let callees = callees_of(&message);
    assert_eq!(callees.len(), 1);
    assert_eq!(callees[0].name, "alpha");
    assert_eq!((callees[0].line, callees[0].column), (4, 7));
    assert_eq!(callees[0].payload, item);
    let prepared = format!("{{\"jsonrpc\":\"2.0\",\"id\":8,\"result\":[{}]}}", item);
    let roots = roots_of(&parse_message_from_str(&prepared).unwrap());
    assert_eq!(roots[0].payload, item);
    let mut client = ready_client("file:///w");
    let (id, frame) = client.outgoing_calls(&callees[0]);
    assert_eq!(
        body_of(&frame),
        format!(
            "{{\"jsonrpc\":\"2.0\",\"id\":{},\"method\":\"callHierarchy/outgoingCalls\",\"params\":{{\"item\":{}}}}}",
            id, item
        )
    );
}
