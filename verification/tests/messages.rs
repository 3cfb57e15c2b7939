use gen_callgraph::codec::{decode_frame, encode_frame};
use gen_callgraph::factory::{
    initialize_params_json, MessageCreator, MessageFactory, MesssageFuctory, ProtocolError,
};
use gen_callgraph::framed::{BrokerError, Delivery, FramedBox, TransportAdapter, REQUEST_TIMEOUT_SECS};
use gen_callgraph::message::{
    make_notification, make_response, message_to_json, notification_to_json,
    parse_message_from_slice, parse_message_from_str, parse_notification, parse_response,
    request_to_json, Message, Notification, ParseError, Request, SendMessage,
};

fn response(id: i32) -> Message {
    parse_message_from_str(&format!("{{\"jsonrpc\":\"2.0\",\"id\":{},\"result\":[]}}", id)).unwrap()
}

#[test]
fn request_is_written_in_field_order() {
    let request = Request::new(1, String::from("initialize"), String::from("{}"));
    assert_eq!(request.jsonrpc, "2.0");
    assert_eq!(
        request_to_json(&request),
        "{\"jsonrpc\":\"2.0\",\"id\":1,\"method\":\"initialize\",\"params\":{}}"
    );
}

#[test]
fn request_text_quotes_the_method() {
    let request = Request::new(-7, String::from("a\"b\\c\nd"), String::from("null"));
    assert_eq!(
        request_to_json(&request),
        "{\"jsonrpc\":\"2.0\",\"id\":-7,\"method\":\"a\\\"b\\\\c\\nd\",\"params\":null}"
    );
}

#[test]
fn quoting_escapes_control_characters_and_nothing_above_them() {
    let method = String::from("\u{8}\t\n\u{c}\r\u{0}\u{1}\u{b}\u{1f} \u{7f}/é\u{1F600}");
    let note = Notification::new(method, String::from("null"));
    assert_eq!(
        notification_to_json(&note),
        "{\"jsonrpc\":\"2.0\",\"method\":\"\\b\\t\\n\\f\\r\\u0000\\u0001\\u000b\\u001f \u{7f}/é\u{1F600}\",\"params\":null}"
    );
}

#[test]
fn request_text_of_the_extreme_ids() {
    let low = Request::new(i32::MIN, String::from("m"), String::from("1"));
    assert_eq!(
        request_to_json(&low),
        "{\"jsonrpc\":\"2.0\",\"id\":-2147483648,\"method\":\"m\",\"params\":1}"
    );
    let high = Request::new(i32::MAX, String::from("m"), String::from("1"));
    assert_eq!(
        request_to_json(&high),
        "{\"jsonrpc\":\"2.0\",\"id\":2147483647,\"method\":\"m\",\"params\":1}"
    );
}

#[test]
fn notification_has_no_id() {
    let n = Notification::new(String::from("exit"), String::from("\"\""));
    assert_eq!(
        notification_to_json(&n),
        "{\"jsonrpc\":\"2.0\",\"method\":\"exit\",\"params\":\"\"}"
    );
    let m = SendMessage::Notification(n);
    assert_eq!(
        message_to_json(&m),
        "{\"jsonrpc\":\"2.0\",\"method\":\"exit\",\"params\":\"\"}"
    );
}

#[test]
fn written_request_reads_back_as_json() {
    let request = Request::new(3, String::from("workspace/symbol"), String::from("{\"query\":\"ma\\\"in\"}"));
    let text = request_to_json(&request);
    let value: serde_json::Value = serde_json::from_str(&text).unwrap();
    assert_eq!(value["jsonrpc"], "2.0");
    assert_eq!(value["id"], 3);
    assert_eq!(value["method"], "workspace/symbol");
    assert_eq!(value["params"]["query"], "ma\"in");
}

#[test]
fn factory_numbers_requests_from_one() {
    let mut factory = MessageFactory::new();
    assert!(factory.has_ids_left());
    assert_eq!(factory.get_id(), 1);
    assert_eq!(factory.get_id(), 2);
    let request = factory.create_request("shutdown", String::from("\"\""));
    assert_eq!(request.id, 3);
    assert_eq!(request.method, "shutdown");
    assert_eq!(request.params, "\"\"");
    assert_eq!(request.jsonrpc, "2.0");
    let notification = factory.create_notification("exit", String::from("\"\""));
    assert_eq!(notification.method, "exit");
    assert_eq!(factory.get_id(), 4);
}

#[test]
fn older_factory_fills_in_null() {
    let mut factory = MesssageFuctory::new();
    assert_eq!(factory.get_id(), 1);
    let request = factory.create_request("initialize", None);
    assert_eq!(request.id, 2);
    assert_eq!(request.params, "null");
    let with = factory.create_request("x", Some(String::from("{\"a\":1}")));
    assert_eq!(with.id, 3);
    assert_eq!(with.params, "{\"a\":1}");
    let n = factory.create_notification("initialized", None);
    assert_eq!(n.params, "null");
    assert_eq!(n.jsonrpc, "2.0");
    assert_eq!(factory.get_id(), 4);
}

#[test]
fn initialize_params_are_valid_json_with_the_capabilities() {
    let text = initialize_params_json(Some(4242), "file:///home/me/work/gen_callgraph");
    assert_eq!(
        text,
        "{\"processId\":4242,\"rootUri\":\"file:///home/me/work/gen_callgraph\",\"capabilities\":{\"workspace\":{\"symbol\":{\"dynamicRegistration\":true}},\"textDocument\":{\"documentSymbol\":{\"dynamicRegistration\":true,\"symbolKind\":{\"valueSet\":[12,23]},\"hierarchicalDocumentSymbolSupport\":true},\"callHierarchy\":{\"dynamicRegistration\":true}}},\"workspaceFolders\":[{\"uri\":\"file:///home/me/work/gen_callgraph\",\"name\":\"gen_callgraph\"}]}"
    );
    let params: lsp_types::InitializeParams = serde_json::from_str(&text).unwrap();
    assert_eq!(params.process_id, Some(4242));
    let folders = params.workspace_folders.unwrap();
    assert_eq!(folders.len(), 1);
    assert_eq!(folders[0].name, "gen_callgraph");
    let symbols = params.capabilities.text_document.unwrap().document_symbol.unwrap();
    assert_eq!(symbols.hierarchical_document_symbol_support, Some(true));
    assert_eq!(
        symbols.symbol_kind.unwrap().value_set,
        Some(vec![lsp_types::SymbolKind::FUNCTION, lsp_types::SymbolKind::STRUCT])
    );
}

#[test]
fn initialize_params_without_process_id() {
    let text = initialize_params_json(None, "file:///w");
    assert!(text.starts_with("{\"processId\":null,\"rootUri\":\"file:///w\","));
    assert!(text.ends_with("\"workspaceFolders\":[{\"uri\":\"file:///w\",\"name\":\"w\"}]}"));
}

#[test]
fn creator_makes_the_handshake() {
    let mut creator = MessageCreator::new();
    let request = creator.initialize(Some(1), "file:///w").unwrap();
    assert_eq!(request.id, 1);
    assert_eq!(request.method, "initialize");
    assert_eq!(request.params, initialize_params_json(Some(1), "file:///w"));
    let n = creator.initialized_notification();
    assert_eq!(n.method, "initialized");
    assert_eq!(n.params, "\"\"");
    let next = creator.create_request("shutdown", String::from("\"\""));
    assert_eq!(next.id, 2);
}

#[test]
fn creator_refuses_a_root_that_is_no_url() {
    let mut creator = MessageCreator::new();
    assert_eq!(creator.initialize(None, "not a url").err(), Some(ProtocolError::InvalidRoot));
    let next = creator.create_request("x", String::from("1"));
    assert_eq!(next.id, 1);
}

#[test]
fn a_body_with_a_method_is_a_notification() {
    let m = parse_message_from_str(
        "{\"jsonrpc\":\"2.0\",\"method\":\"window/logMessage\",\"params\":{\"type\":3,\"message\":\"hi\"}}",
    )
    .unwrap();
    match m {
        Message::Notification(n) => {
            assert_eq!(n.jsonrpc, "2.0");
            assert_eq!(n.method, "window/logMessage");
            assert_eq!(n.params, "{\"type\":3,\"message\":\"hi\"}");
        }
        _ => panic!("no notification"),
    }
}

#[test]
fn a_body_with_id_and_result_is_a_response() {
    let m = parse_message_from_str("{\"jsonrpc\":\"2.0\",\"id\":5,\"result\":[1,2]}").unwrap();
    assert_eq!(m.answered_id(), Some(5));
    match m {
        Message::Response(r) => {
            assert_eq!(r.id, 5);
            assert_eq!(r.jsonrpc, "2.0");
            assert_eq!(r.result, Some(String::from("[1,2]")));
        }
        _ => panic!("no response"),
    }
}

#[test]
fn a_null_result_is_a_response_without_result() {
    let m = parse_message_from_str("{\"jsonrpc\":\"2.0\",\"id\":5,\"result\":null}").unwrap();
    match m {
        Message::Response(r) => assert_eq!(r.result, None),
        _ => panic!("no response"),
    }
}

#[test]
fn a_body_with_id_and_no_result_is_an_error_response() {
    let m = parse_message_from_str(
        "{\"jsonrpc\":\"2.0\",\"id\":9,\"error\":{\"code\":-32601,\"message\":\"nope\"}}",
    )
    .unwrap();
    assert_eq!(m.answered_id(), Some(9));
    match m {
        Message::Error(e) => {
            assert_eq!(e.id, 9);
            assert_eq!(e.error, Some(String::from("{\"code\":-32601,\"message\":\"nope\"}")));
        }
        _ => panic!("no error response"),
    }
    match parse_message_from_str("{\"jsonrpc\":\"2.0\",\"id\":9}").unwrap() {
        Message::Error(e) => assert_eq!(e.error, None),
        _ => panic!("no error response"),
    }
}

#[test]
fn bodies_that_are_no_message() {
    assert_eq!(parse_message_from_str("not json").err(), Some(ParseError::Syntax));
    assert_eq!(parse_message_from_str("").err(), Some(ParseError::Syntax));
    assert_eq!(parse_message_from_str("{\"jsonrpc\":\"2.0\"}").err(), Some(ParseError::Other));
    assert_eq!(parse_message_from_str("[1,2,3]").err(), Some(ParseError::Other));
    assert_eq!(parse_message_from_str("42").err(), Some(ParseError::Other));
    assert_eq!(
        parse_message_from_str("{\"jsonrpc\":\"2.0\",\"method\":\"m\"}").err(),
        Some(ParseError::Shape)
    );
    assert_eq!(
        parse_message_from_str("{\"method\":\"m\",\"params\":1}").err(),
        Some(ParseError::Shape)
    );
    assert_eq!(
        parse_message_from_str("{\"jsonrpc\":\"2.0\",\"method\":7,\"params\":1}").err(),
        Some(ParseError::Shape)
    );
    assert_eq!(
        parse_message_from_str("{\"jsonrpc\":\"2.0\",\"id\":\"abc\",\"result\":1}").err(),
        Some(ParseError::Shape)
    );
    assert_eq!(
        parse_message_from_str("{\"jsonrpc\":\"2.0\",\"id\":4294967296,\"result\":1}").err(),
        Some(ParseError::Shape)
    );
    assert_eq!(parse_message_from_str("{\"id\":1,\"result\":1}").err(), Some(ParseError::Shape));
}

#[test]
fn parse_steps_say_when_the_kind_does_not_apply() {
    assert!(parse_notification("{\"id\":1}").unwrap().is_none());
    assert!(parse_response("{\"method\":\"m\"}").unwrap().is_none());
    assert!(parse_notification("{\"jsonrpc\":\"2.0\",\"method\":\"m\",\"params\":null}")
        .unwrap()
        .is_some());
}

#[test]
fn bodies_are_read_as_utf8() {
    let m = parse_message_from_slice("{\"jsonrpc\":\"2.0\",\"id\":1,\"result\":\"ü\"}".as_bytes()).unwrap();
    match m {
        Message::Response(r) => assert_eq!(r.result, Some(String::from("\"ü\""))),
        _ => panic!("no response"),
    }
    assert_eq!(parse_message_from_slice(&[0xff, 0x7b, 0x7d]).err(), Some(ParseError::Syntax));
}

#[test]
fn an_answer_completes_its_own_request_only() {
    let mut framed = FramedBox::new();
    let first = Request::new(1, String::from("a"), String::from("1"));
    let second = Request::new(2, String::from("b"), String::from("2"));
    let (id1, frame1) = framed.send_request(&first);
    let (id2, _) = framed.send_request(&second);
    assert_eq!((id1, id2), (1, 2));
    assert_eq!(frame1, encode_frame(request_to_json(&first).as_bytes()));
    assert!(framed.is_pending(1) && framed.is_pending(2));
    match framed.route(response(2)) {
        Delivery::Completed { id, message } => {
            assert_eq!(id, 2);
            assert_eq!(message.answered_id(), Some(2));
        }
        _ => panic!("not completed"),
    }
    assert!(framed.is_pending(1));
    assert!(!framed.is_pending(2));
    assert!(matches!(framed.route(response(2)), Delivery::Unroutable));
    assert!(matches!(framed.route(response(7)), Delivery::Unroutable));
    assert!(framed.is_pending(1));
}

#[test]
fn a_late_answer_is_dropped() {
    let mut framed = FramedBox::new();
    let request = Request::new(4, String::from("a"), String::from("1"));
    framed.send_request(&request);
    assert_eq!(framed.expire(4), BrokerError::Timeout);
    assert!(!framed.is_pending(4));
    assert!(matches!(framed.route(response(4)), Delivery::Unroutable));
    assert_eq!(framed.expire(4), BrokerError::Timeout);
}

#[test]
fn an_error_response_completes_its_request() {
    let mut framed = FramedBox::new();
    framed.send_request(&Request::new(3, String::from("a"), String::from("1")));
    let body = b"{\"jsonrpc\":\"2.0\",\"id\":3,\"error\":{\"code\":1}}";
    match framed.receive(body).unwrap() {
        Delivery::Completed { id, message } => {
            assert_eq!(id, 3);
            assert!(matches!(message, Message::Error(_)));
        }
        _ => panic!("not completed"),
    }
    assert!(!framed.is_pending(3));
}

#[test]
fn notifications_and_bad_bodies_leave_the_table_alone() {
    let mut framed = FramedBox::new();
    framed.send_request(&Request::new(1, String::from("a"), String::from("1")));
    let d = framed.receive(b"{\"jsonrpc\":\"2.0\",\"method\":\"m\",\"params\":{}}").unwrap();
    match d {
        Delivery::Notified { notification } => assert_eq!(notification.method, "m"),
        _ => panic!("no notification"),
    }
    assert_eq!(framed.receive(b"garbage").err(), Some(ParseError::Syntax));
    assert!(framed.is_pending(1));
}

#[test]
fn registering_a_number_twice_keeps_one_entry() {
    let mut framed = FramedBox::new();
    let request = Request::new(1, String::from("a"), String::from("1"));
    framed.send_request(&request);
    framed.send_request(&request);
    assert!(matches!(framed.route(response(1)), Delivery::Completed { .. }));
    assert!(!framed.is_pending(1));
    assert!(matches!(framed.route(response(1)), Delivery::Unroutable));
}

#[test]
fn sent_notification_is_a_frame() {
    let framed = FramedBox::new();
    let n = Notification::new(String::from("initialized"), String::from("\"\""));
    let frame = framed.send_notification(&n);
    let (body, used) = decode_frame(&frame).unwrap();
    assert_eq!(used, frame.len());
    assert_eq!(
        String::from_utf8(body).unwrap(),
        "{\"jsonrpc\":\"2.0\",\"method\":\"initialized\",\"params\":\"\"}"
    );
}

#[test]
fn waiting_caller_passes_over_other_messages() {
    assert!(FramedBox::receive_response(2, response(2)).is_some());
    assert!(FramedBox::receive_response(2, response(3)).is_none());
    let n = parse_message_from_str("{\"jsonrpc\":\"2.0\",\"method\":\"m\",\"params\":1}").unwrap();
    assert!(FramedBox::receive_response(2, n).is_none());
}

#[test]
fn adapter_passes_notifications_over_while_it_waits() {
    let adapter = TransportAdapter::new();
    let progress = b"{\"jsonrpc\":\"2.0\",\"method\":\"$/progress\",\"params\":{}}";
    assert!(matches!(adapter.receive_response(1, progress), Ok(None)));
    let answer = b"{\"jsonrpc\":\"2.0\",\"id\":1,\"result\":[]}";
    match adapter.receive_response(1, answer) {
        Ok(Some(Message::Response(r))) => {
            assert_eq!(r.id, 1);
            assert_eq!(r.result, Some(String::from("[]")));
        }
        _ => panic!("the answer was not handed out"),
    }
    let other = b"{\"jsonrpc\":\"2.0\",\"id\":3,\"result\":1}";
    assert!(matches!(adapter.receive_response(1, other), Ok(None)));
    let refusal = b"{\"jsonrpc\":\"2.0\",\"id\":1,\"error\":{\"code\":-1}}";
    assert!(matches!(adapter.receive_response(1, refusal), Ok(Some(Message::Error(_)))));
    assert_eq!(adapter.receive_response(1, b"x").err(), Some(ParseError::Syntax));
    assert!(matches!(adapter.receive_message(progress), Ok(Message::Notification(_))));
    assert!(matches!(adapter.receive_message(answer), Ok(Message::Response(_))));
}

#[test]
fn adapter_frames_what_goes_out() {
    let adapter = TransportAdapter::new();
    assert_eq!(adapter.send_message2("{}"), b"Content-Length: 2\r\n\r\n{}".to_vec());
    let m = SendMessage::Request(Request::new(1, String::from("m"), String::from("[]")));
    assert_eq!(
        adapter.send_message(&m),
        encode_frame(b"{\"jsonrpc\":\"2.0\",\"id\":1,\"method\":\"m\",\"params\":[]}")
    );
}

#[test]
fn the_recommended_timeout_is_ten_seconds() {
    assert_eq!(REQUEST_TIMEOUT_SECS, 10);
}

#[test]
fn a_response_is_made_of_its_members() {
    let text = |t: &str| Some(String::from(t));
    match make_response(text("2.0"), Some(3), text("[1]"), text("{}")) {
        Ok(Message::Response(r)) => {
            assert_eq!((r.jsonrpc.as_str(), r.id), ("2.0", 3));
            assert_eq!(r.result, text("[1]"));
        }
        _ => panic!("no response"),
    }
    match make_response(text("2.0"), Some(-4), text("null"), None) {
        Ok(Message::Response(r)) => assert_eq!((r.id, r.result), (-4, None)),
        _ => panic!("no response"),
    }
    match make_response(text("1.0"), Some(5), None, text("{\"code\":1}")) {
        Ok(Message::Error(e)) => {
            assert_eq!((e.jsonrpc.as_str(), e.id), ("1.0", 5));
            assert_eq!(e.error, text("{\"code\":1}"));
        }
        _ => panic!("no error response"),
    }
    match make_response(text("2.0"), Some(6), None, text("null")) {
        Ok(Message::Error(e)) => assert_eq!(e.error, None),
        _ => panic!("no error response"),
    }
    assert!(matches!(make_response(text("2.0"), Some(7), None, None), Ok(Message::Error(_))));
    assert!(matches!(make_response(None, Some(1), text("1"), None), Err(ParseError::Shape)));
    assert!(matches!(make_response(text("2.0"), None, text("1"), None), Err(ParseError::Shape)));
}

#[test]
fn a_notification_is_made_of_its_members() {
    let text = |t: &str| Some(String::from(t));
    let n = make_notification(text("2.0"), text("m"), text("null")).unwrap();
    assert_eq!((n.jsonrpc.as_str(), n.method.as_str(), n.params.as_str()), ("2.0", "m", "null"));
    assert_eq!(make_notification(None, text("m"), text("1")).err(), Some(ParseError::Shape));
    assert_eq!(make_notification(text("2.0"), None, text("1")).err(), Some(ParseError::Shape));
    assert_eq!(make_notification(text("2.0"), text("m"), None).err(), Some(ParseError::Shape));
}

#[test]
fn quoting_agrees_with_the_json_writer() {
    let mut samples: Vec<String> = (0u32..0x3000)
        .filter_map(char::from_u32)
        .map(|c| format!("a{}b", c))
        .collect();
    samples.push(String::new());
    samples.push(String::from("plain"));
    samples.push(String::from("\"\\\"\\"));
    samples.push(String::from("line\r\nnext\ttab\u{0}\u{1f}\u{20}\u{7f}\u{80}\u{2028}\u{1F600}"));
    for sample in samples.iter() {
        let quoted = gen_callgraph::quoting::json_quote(sample);
        assert_eq!(quoted, serde_json::to_string(sample).unwrap(), "{:?}", sample);
        let back: String = serde_json::from_str(&quoted).unwrap();
        assert_eq!(&back, sample);
    }
    assert_eq!(gen_callgraph::quoting::json_quote("a\"b"), "\"a\\\"b\"");
    assert_eq!(gen_callgraph::quoting::json_quote("\u{1b}"), "\"\\u001b\"");
}
