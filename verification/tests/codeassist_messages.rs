use llmvm::codeassist::adapter::{AdapterStep, LspAdapter};
use llmvm::codeassist::content::{ContentManager, DocSync};
use llmvm::codeassist::complete::ServerSupport;
use llmvm::codeassist::interceptor::{
    finish_interception, is_carried_out_here, Interception, LspInterceptor, ReplyUse,
};
use llmvm::codeassist::jsonrpc::{
    JsonRpcErrorCode, JsonRpcMessage, JsonRpcRequest, MessageFault, MessagePart, PartFault,
};
use llmvm::codeassist::lsp::{
    Header, LspFault, LspMessage, LspMessageInfo, CODE_ACTION_METHOD, CODE_COMPLETE_COMMAND_ID,
    DID_CHANGE_METHOD, DID_CLOSE_METHOD, DID_OPEN_METHOD, EXECUTE_COMMAND_METHOD, EXIT_METHOD,
    INITIALIZE_METHOD, MANUAL_CONTEXT_ADD_COMMAND_ID, NEW_CHAT_THREAD_COMMAND_ID,
};
use llmvm::codeassist::params::{
    set_commands, write_commands,
    locations_of, read_folding_ranges, read_locations, read_semantic_tokens, ServerInfo,
    TypeDefinitions,
};
use llmvm::codeassist::passthrough::{
    read_message_payload, write_message, HeaderReader, RequestNumbers,
};
use llmvm::codeassist::position::{Location, Position, Range};
use llmvm::codeassist::session::SessionSubscription;
use llmvm::codeassist::symbols::SemanticToken;
use llmvm::codeassist::typedefs::SimpleFoldingRange;
use llmvm::core_lib::threads::ThreadEvent;
use llmvm::protocol::{Message, MessageRole, ToolCall};
use lsp_types::notification::Notification;
use lsp_types::request::Request;
use serde_json::Value;

fn value(text: &str) -> Value {
    serde_json::from_str(text).unwrap()
}

fn message(text: &str) -> JsonRpcMessage {
    JsonRpcMessage::try_from_value(&value(text)).unwrap()
}

fn lsp(text: &str) -> LspMessage {
    LspMessage { headers: vec![], payload: message(text) }
}

fn request(text: &str) -> JsonRpcRequest {
    match message(text) {
        JsonRpcMessage::Request(request) => request,
        _ => panic!("no request"),
    }
}

fn reply_value(step: AdapterStep) -> Value {
    match step {
        AdapterStep::Reply(reply) => value(&reply.payload.to_text()),
        _ => panic!("no reply"),
    }
}

fn range(a: (u32, u32), b: (u32, u32)) -> Range {
    Range {
        start: Position { line: a.0, character: a.1 },
        end: Position { line: b.0, character: b.1 },
    }
}

const PLACE: &str = r#"{"uri":"file:///p/a.rs","range":{"start":{"line":1,"character":2},"end":{"line":3,"character":4}}}"#;

fn command(id: u32, command: &str, arguments: &str) -> LspMessageInfo {
    LspMessageInfo::new(
        lsp(&format!(
            r#"{{"jsonrpc":"2.0","id":{},"method":"workspace/executeCommand","params":{{"command":"{}","arguments":{}}}}}"#,
            id, command, arguments
        )),
        true,
    )
}

#[test]
fn methods_are_those_of_the_protocol() {
    assert_eq!(INITIALIZE_METHOD, lsp_types::request::Initialize::METHOD);
    assert_eq!(CODE_ACTION_METHOD, lsp_types::request::CodeActionRequest::METHOD);
    assert_eq!(EXECUTE_COMMAND_METHOD, lsp_types::request::ExecuteCommand::METHOD);
    assert_eq!(DID_OPEN_METHOD, lsp_types::notification::DidOpenTextDocument::METHOD);
    assert_eq!(DID_CHANGE_METHOD, lsp_types::notification::DidChangeTextDocument::METHOD);
    assert_eq!(DID_CLOSE_METHOD, lsp_types::notification::DidCloseTextDocument::METHOD);
    assert_eq!(EXIT_METHOD, lsp_types::notification::Exit::METHOD);
}

#[test]
fn error_codes_are_those_of_the_protocol() {
    assert_eq!(JsonRpcErrorCode::ParseError.code(), -32700);
    assert_eq!(JsonRpcErrorCode::InvalidRequest.code(), -32600);
    assert_eq!(JsonRpcErrorCode::MethodNotFound.code(), -32601);
    assert_eq!(JsonRpcErrorCode::InvalidParams.code(), -32602);
    assert_eq!(JsonRpcErrorCode::InternalError.code(), -32603);
}

#[test]
fn kinds_of_messages_are_told_apart() {
    assert!(matches!(message(r#"{"jsonrpc":"2.0","id":1,"method":"m"}"#), JsonRpcMessage::Request(_)));
    assert!(matches!(message(r#"{"jsonrpc":"2.0","id":1}"#), JsonRpcMessage::Response(_)));
    assert!(matches!(message(r#"{"jsonrpc":"2.0","method":"m"}"#), JsonRpcMessage::Notification(_)));
    match message(r#"["2.0","m",null]"#) {
        JsonRpcMessage::Notification(n) => {
            assert_eq!(n.jsonrpc_version, "2.0");
            assert_eq!(n.method, "m");
            assert_eq!(n.params, None);
        }
        _ => panic!("no notification"),
    }
    match message(r#"{"jsonrpc":"2.0","id":null,"result":null,"error":[-5,"no",7]}"#) {
        JsonRpcMessage::Response(r) => {
            assert_eq!(r.id, Value::Null);
            assert_eq!(r.result, None);
            let error = r.error.unwrap();
            assert_eq!((error.code, error.message.as_str()), (-5, "no"));
            assert_eq!(error.data, Some(Value::from(7)));
        }
        _ => panic!("no response"),
    }
}

#[test]
fn what_is_no_message_is_refused() {
    let refused = |text: &str| JsonRpcMessage::try_from_value(&value(text)).is_err();
    assert!(refused("1"));
    assert!(refused("{}"));
    assert!(refused(r#"["2.0","m"]"#));
    assert!(refused(r#"["2.0","m",1,2]"#));
    assert!(refused(r#"{"id":1,"method":"m"}"#));
    assert!(refused(r#"{"jsonrpc":"2.0","id":1,"method":null}"#));
    assert!(refused(r#"{"jsonrpc":2,"id":1}"#));
    assert!(refused(r#"{"jsonrpc":"2.0","id":1,"error":{"code":1.5,"message":"m"}}"#));
    assert!(refused(r#"{"jsonrpc":"2.0","id":1,"error":{"code":2147483648,"message":"m"}}"#));
    assert!(refused(r#"{"jsonrpc":"2.0","id":1,"error":{"code":1}}"#));
}

#[test]
fn messages_are_written_in_order() {
    let text = JsonRpcMessage::new_request("m".to_string(), Some(value(r#"{"b":[1],"a":null}"#))).to_text();
    assert_eq!(text, r#"{"jsonrpc":"2.0","method":"m","params":{"a":null,"b":[1]},"id":null}"#);
    let text = JsonRpcMessage::new_notification("m\"".to_string(), None).to_text();
    assert_eq!(text, r#"{"jsonrpc":"2.0","method":"m\"","params":null}"#);
    let text = JsonRpcMessage::new_response(Ok(Value::from(true)), Value::from(3)).to_text();
    assert_eq!(text, r#"{"jsonrpc":"2.0","result":true,"error":null,"id":3}"#);
    let text = JsonRpcMessage::new_response(Err("no".to_string()), Value::from("x")).to_text();
    assert_eq!(
        text,
        r#"{"jsonrpc":"2.0","result":null,"error":{"code":-32603,"message":"no","data":null},"id":"x"}"#
    );
}

#[test]
fn messages_are_read_back() {
    let error = r#"{"jsonrpc":"2.0","id":4,"error":{"code":-1,"message":"m","data":[0]}}"#;
    for text in vec![
        r#"{"jsonrpc":"2.0","id":"a","method":"m","params":[1]}"#,
        r#"{"jsonrpc":"1.0","method":"m"}"#,
        r#"{"jsonrpc":"2.0","id":4,"result":{"x":"y"}}"#,
        error,
    ] {
        let first = message(text).to_text();
        assert_eq!(message(&first).to_text(), first);
    }
}

#[test]
fn frame_is_written_and_read() {
    let mut message = lsp(r#"{"jsonrpc":"2.0","method":"é","params":1}"#);
    message.headers = vec![
        Header { key: "Content-Type".to_string(), value: "x".to_string() },
        Header { key: "Content-Length".to_string(), value: "999".to_string() },
    ];
    let text = write_message(&message);
    let payload = "{\"jsonrpc\":\"2.0\",\"method\":\"\u{e9}\",\"params\":1}";
    assert_eq!(text, format!("Content-Type: x\r\nContent-Length: {}\r\n\r\n{}", payload.len(), payload));
    let mut reader = HeaderReader::new();
    let mut lines = text.split_inclusive('\n');
    assert!(reader.on_line(lines.next().unwrap()));
    assert!(reader.on_line(lines.next().unwrap()));
    assert!(!reader.on_line(lines.next().unwrap()));
    assert_eq!(reader.content_length, Some(payload.len()));
    assert_eq!(reader.headers.len(), 2);
    assert_eq!(reader.headers[0].key, "Content-Type");
    let read = read_message_payload(lines.next().unwrap().as_bytes()).unwrap();
    assert_eq!(read.to_text(), payload);
}

#[test]
fn malformed_headers_end_the_head() {
    let mut reader = HeaderReader::new();
    assert!(reader.on_line(" A: b: c \r\n"));
    assert_eq!((reader.headers[0].key.as_str(), reader.headers[0].value.as_str()), ("A", "b"));
    assert!(reader.on_line("A: d"));
    assert_eq!(reader.headers.len(), 1);
    assert_eq!(reader.headers[0].value, "d");
    assert!(!reader.on_line("Content-Length: x"));
    assert!(!reader.on_line("no header"));
    assert!(!reader.on_line("   \r\n"));
    assert_eq!(reader.content_length, None);
    assert!(reader.on_line("Content-Length: +12"));
    assert_eq!(reader.content_length, Some(12));
    assert!(read_message_payload(b"{").is_none());
    assert!(read_message_payload(b"[]").is_none());
}

#[test]
fn requests_without_a_number_get_one() {
    let mut numbers = RequestNumbers::new();
    let first = numbers.number(JsonRpcMessage::new_request("m".to_string(), None));
    let second = numbers.number(JsonRpcMessage::new_request("m".to_string(), None));
    assert!(first.to_text().ends_with("\"id\":\"llmvm/1\"}"));
    assert!(second.to_text().ends_with("\"id\":\"llmvm/2\"}"));
    let numbered = numbers.number(message(r#"{"jsonrpc":"2.0","id":5,"method":"m"}"#));
    assert!(numbered.to_text().ends_with("\"id\":5}"));
    numbers.number(JsonRpcMessage::new_notification("m".to_string(), None));
    assert_eq!(numbers.new_request_last_id, 2);
}

#[test]
fn results_and_params_are_read() {
    let ok = lsp(r#"{"jsonrpc":"2.0","id":1,"result":5}"#);
    assert_eq!(ok.get_result().unwrap(), Value::from(5));
    assert_eq!(lsp(r#"{"jsonrpc":"2.0","id":1}"#).get_result().unwrap(), Value::Null);
    let failed = lsp(r#"{"jsonrpc":"2.0","id":1,"error":{"code":1,"message":"bad"}}"#);
    assert_eq!(
        failed.get_result().unwrap_err().message(),
        "json rpc error encountered while converting into result: bad"
    );
    let mut asked = LspMessage::new_request("m", Value::from(2));
    assert!(matches!(asked.get_result(), Err(LspFault::NoResponseToRead)));
    assert!(matches!(asked.set_result(Value::Null), Err(LspFault::NoResponseToWrite)));
    assert_eq!(asked.get_params().unwrap(), Value::from(2));
    assert_eq!(LspMessage::new_notification("n", Value::from(3)).get_params().unwrap(), Value::from(3));
    let bare = lsp(r#"{"jsonrpc":"2.0","id":1,"method":"m"}"#);
    assert!(matches!(bare.get_params(), Err(LspFault::NoRequestParams)));
    let bare = lsp(r#"{"jsonrpc":"2.0","method":"m"}"#);
    assert!(matches!(bare.get_params(), Err(LspFault::NoNotificationParams)));
    let mut ok = ok;
    assert!(matches!(ok.get_params(), Err(LspFault::NoMessageWithParams)));
    ok.set_result(Value::from("new")).unwrap();
    assert_eq!(ok.get_result().unwrap(), Value::from("new"));
}

#[test]
fn answer_goes_to_its_caller_once() {
    let mut interceptor = LspInterceptor::new();
    let asked = request(r#"{"jsonrpc":"2.0","id":"llmvm/1","method":"m"}"#);
    interceptor.add_pending_interceptor_call(&asked, 42);
    let answer = LspMessageInfo::new(lsp(r#"{"jsonrpc":"2.0","id":"llmvm/1","result":1}"#), false);
    let first = interceptor.maybe_intercept(&answer);
    assert!(matches!(first, Interception::Deliver { call: 42 }));
    assert!(finish_interception(answer.clone(), &first, None).forwarded_message_info.is_none());
    let second = interceptor.maybe_intercept(&answer);
    assert!(matches!(second, Interception::Forward { should_exit: false }));
    let passed = finish_interception(answer, &second, None);
    assert!(passed.forwarded_message_info.is_some() && !passed.should_exit);
}

#[test]
fn numbers_and_texts_are_different_ids() {
    let mut interceptor = LspInterceptor::new();
    interceptor.add_pending_interceptor_call(&request(r#"{"jsonrpc":"2.0","id":"1","method":"m"}"#), 1);
    let answer = LspMessageInfo::new(lsp(r#"{"jsonrpc":"2.0","id":1}"#), false);
    assert!(matches!(interceptor.maybe_intercept(&answer), Interception::Forward { .. }));
}

#[test]
fn adapter_is_shown_answers_with_their_requests() {
    let mut interceptor = LspInterceptor::new();
    let asked = LspMessageInfo::new(
        lsp(r#"{"jsonrpc":"2.0","id":9,"method":"textDocument/codeAction","params":{}}"#),
        true,
    );
    assert!(matches!(interceptor.maybe_intercept(&asked), Interception::Forward { should_exit: false }));
    let answer = LspMessageInfo::new(lsp(r#"{"jsonrpc":"2.0","id":9,"result":[]}"#), false);
    let shown = interceptor.maybe_intercept(&answer);
    match &shown {
        Interception::Ask { origin_request: Some(origin), reply_use } => {
            assert_eq!(origin.method, "textDocument/codeAction");
            assert_eq!(*reply_use, ReplyUse::Replace { to_real_server: false });
        }
        _ => panic!("not shown"),
    }
    let changed = lsp(r#"{"jsonrpc":"2.0","id":9,"result":[1]}"#);
    let passed = finish_interception(answer.clone(), &shown, Some(changed)).forwarded_message_info.unwrap();
    assert!(passed.message.payload.to_text().contains("[1]") && !passed.to_real_server);
    let passed = finish_interception(answer, &shown, None).forwarded_message_info.unwrap();
    assert!(passed.message.payload.to_text().contains("[]"));
}

#[test]
fn session_begins_and_ends() {
    let mut interceptor = LspInterceptor::new();
    let begin = LspMessageInfo::new(lsp(r#"{"jsonrpc":"2.0","id":1,"method":"initialize"}"#), true);
    let shown = interceptor.maybe_intercept(&begin);
    assert!(matches!(shown, Interception::Ask { origin_request: None, reply_use: ReplyUse::Ignore }));
    let passed = finish_interception(begin, &shown, Some(LspMessage::new_request("x", Value::Null)));
    assert!(passed.forwarded_message_info.unwrap().message.payload.to_text().contains("initialize"));
    let open = LspMessageInfo::new(lsp(r#"{"jsonrpc":"2.0","method":"textDocument/didOpen"}"#), true);
    assert!(matches!(
        interceptor.maybe_intercept(&open),
        Interception::Ask { origin_request: None, reply_use: ReplyUse::Ignore }
    ));
    let end = LspMessageInfo::new(lsp(r#"{"jsonrpc":"2.0","method":"exit"}"#), true);
    let exit = interceptor.maybe_intercept(&end);
    assert!(matches!(exit, Interception::Forward { should_exit: true }));
    assert!(finish_interception(end, &exit, None).should_exit);
}

#[test]
fn only_our_commands_are_kept() {
    let mut interceptor = LspInterceptor::new();
    let ours = interceptor.maybe_intercept(&command(1, CODE_COMPLETE_COMMAND_ID, "[]"));
    assert!(matches!(
        ours,
        Interception::Ask { origin_request: None, reply_use: ReplyUse::Replace { to_real_server: false } }
    ));
    let ours = interceptor.maybe_intercept(&command(1, MANUAL_CONTEXT_ADD_COMMAND_ID, "[]"));
    assert!(matches!(ours, Interception::Ask { .. }));
    let other = interceptor.maybe_intercept(&command(1, NEW_CHAT_THREAD_COMMAND_ID, "[]"));
    assert!(matches!(other, Interception::Forward { should_exit: false }));
    let unread = interceptor.maybe_intercept(&command(1, CODE_COMPLETE_COMMAND_ID, "null"));
    assert!(matches!(unread, Interception::Forward { .. }));
}

#[test]
fn code_is_completed_with_what_was_added() {
    let mut adapter = LspAdapter::new(true);
    let add = command(1, MANUAL_CONTEXT_ADD_COMMAND_ID, &format!("[{}]", PLACE));
    let reply = reply_value(adapter.handle_intercept(&add));
    assert_eq!(reply, value(r#"{"jsonrpc":"2.0","result":null,"error":null,"id":1}"#));
    adapter.handle_intercept(&add);
    assert_eq!(adapter.queued_random_context_locations.len(), 1);
    match adapter.handle_intercept(&command(2, CODE_COMPLETE_COMMAND_ID, &format!("[1,{}]", PLACE))) {
        AdapterStep::StartTask { code_location, task_id, random_context_locations, reply } => {
            assert_eq!(code_location.uri, "file:///p/a.rs");
            assert_eq!(code_location.range, range((1, 2), (3, 4)));
            assert_eq!(task_id, 0);
            assert_eq!(random_context_locations.len(), 1);
            assert!(reply.payload.to_text().ends_with("\"id\":2}"));
        }
        _ => panic!("no task"),
    }
    match adapter.handle_intercept(&command(3, CODE_COMPLETE_COMMAND_ID, &format!("[{}]", PLACE))) {
        AdapterStep::StartTask { task_id, random_context_locations, .. } => {
            assert_eq!(task_id, 1);
            assert!(random_context_locations.is_empty());
        }
        _ => panic!("no task"),
    }
}

#[test]
fn commands_without_a_place_fail() {
    let mut adapter = LspAdapter::new(true);
    let reply = reply_value(adapter.handle_intercept(&command(1, CODE_COMPLETE_COMMAND_ID, "[]")));
    assert_eq!(
        reply["error"]["message"],
        Value::from("code complete params must be specified with request")
    );
    assert_eq!(reply["error"]["code"], Value::from(-32603));
    let reply = reply_value(adapter.handle_intercept(&command(1, MANUAL_CONTEXT_ADD_COMMAND_ID, "[5]")));
    assert!(reply["error"]["message"].as_str().unwrap().contains("invalid type"));
    assert!(matches!(
        adapter.handle_intercept(&command(1, NEW_CHAT_THREAD_COMMAND_ID, "[]")),
        AdapterStep::ForgetThread { .. }
    ));
    let reply = reply_value(adapter.handle_intercept(&command(1, "other", "[]")));
    assert_eq!(reply["error"], Value::Null);
}

#[test]
fn commands_are_offered_for_code() {
    let mut adapter = LspAdapter::new(true);
    let asked = request(
        r#"{"jsonrpc":"2.0","id":9,"method":"textDocument/codeAction","params":{
            "textDocument":{"uri":"file:///p/a.rs"},
            "range":{"start":{"line":1,"character":2},"end":{"line":3,"character":4}},
            "context":{"diagnostics":[]}}}"#,
    );
    let info = |result: &str, origin: JsonRpcRequest| LspMessageInfo {
        message: lsp(&format!(r#"{{"jsonrpc":"2.0","id":9,"result":{}}}"#, result)),
        to_real_server: false,
        origin_request: Some(origin),
    };
    let given = r#"[{"title":"t","command":"c","arguments":[1]}]"#;
    let reply = reply_value(adapter.handle_intercept(&info(given, asked.clone())));
    let expected = value(&format!(
        r#"[{{"title":"t","command":"c","arguments":[1]}},
            {{"title":"Complete code via LLM","command":"llmvm-codeassist/complete","arguments":[{}]}},
            {{"title":"Add context to LLM code complete","command":"llmvm-codeassist/addContext","arguments":[{}]}},
            {{"title":"Use new LLM chat thread","command":"llmvm-codeassist/newChatThread","arguments":[]}}]"#,
        PLACE, PLACE
    ));
    assert_eq!(reply["result"], expected);
    let mut plain = LspAdapter::new(false);
    let reply = reply_value(plain.handle_intercept(&info("null", asked.clone())));
    assert_eq!(reply["result"].as_array().unwrap().len(), 2);
    let mut bare = asked.clone();
    bare.params = None;
    assert!(matches!(adapter.handle_intercept(&info("[]", bare)), AdapterStep::Failed(_)));
    assert!(matches!(adapter.handle_intercept(&info("7", asked)), AdapterStep::Failed(_)));
}

#[test]
fn server_gets_one_more_command() {
    let mut adapter = LspAdapter::new(true);
    let begin = LspMessageInfo::new(
        lsp(r#"{"jsonrpc":"2.0","id":1,"method":"initialize","params":{"processId":null,"rootUri":"file:///p","capabilities":{}}}"#),
        true,
    );
    assert!(matches!(adapter.handle_intercept(&begin), AdapterStep::Nothing));
    assert_eq!(adapter.root_uri, Some("file:///p".to_string()));
    let info = LspMessageInfo {
        message: lsp(
            r#"{"jsonrpc":"2.0","id":1,"result":{"capabilities":{
                "foldingRangeProvider":true,"executeCommandProvider":{"commands":["x"]}}}}"#,
        ),
        to_real_server: false,
        origin_request: Some(request(r#"{"jsonrpc":"2.0","id":1,"method":"initialize"}"#)),
    };
    let reply = reply_value(adapter.handle_intercept(&info));
    assert_eq!(
        reply["result"]["capabilities"]["executeCommandProvider"]["commands"],
        value(r#"["x","llmvm-codeassist/complete"]"#)
    );
    assert_eq!(reply["result"]["capabilities"]["foldingRangeProvider"], Value::from(true));
    let support = adapter.support.unwrap();
    assert!(support.folding_ranges && !support.semantic_tokens && !support.type_definitions);
}

#[test]
fn documents_are_followed() {
    let mut adapter = LspAdapter::new(true);
    let mut content = ContentManager::new();
    let mut sync = |text: &str| match adapter.handle_intercept(&LspMessageInfo::new(lsp(text), true)) {
        AdapterStep::Sync(sync) => content.handle_doc_sync_notification(sync).is_some(),
        AdapterStep::Failed(_) => false,
        _ => panic!("nothing said"),
    };
    assert!(sync(
        r#"{"jsonrpc":"2.0","method":"textDocument/didOpen","params":{"textDocument":
            {"uri":"file:///a","languageId":"rust","version":1,"text":"one\ntwo"}}}"#
    ));
    assert!(sync(
        r#"{"jsonrpc":"2.0","method":"textDocument/didChange","params":{"textDocument":
            {"uri":"file:///a","version":2},"contentChanges":[{"range":
            {"start":{"line":1,"character":0},"end":{"line":1,"character":3}},"text":"2"}]}}"#
    ));
    assert!(!sync(r#"{"jsonrpc":"2.0","method":"textDocument/didOpen"}"#));
    assert!(!sync(r#"{"jsonrpc":"2.0","method":"textDocument/didClose","params":[]}"#));
    assert_eq!(content.get_line("file:///a", 1), Some("2"));
    assert_eq!(content.get_lang_id("file:///a"), "rust");
    let closed = adapter.handle_intercept(&LspMessageInfo::new(
        lsp(r#"{"jsonrpc":"2.0","method":"textDocument/didClose","params":{"textDocument":{"uri":"file:///a"}}}"#),
        true,
    ));
    assert!(matches!(closed, AdapterStep::Sync(DocSync::Close { uri }) if uri == "file:///a"));
    let other = LspMessageInfo::new(lsp(r#"{"jsonrpc":"2.0","method":"other"}"#), true);
    assert!(matches!(adapter.handle_intercept(&other), AdapterStep::Nothing));
}

#[test]
fn answers_of_the_server_are_read() {
    let answer = |result: &str| lsp(&format!(r#"{{"jsonrpc":"2.0","id":1,"result":{}}}"#, result));
    let tokens = read_semantic_tokens(&answer(r#"{"data":[1,2,3,0,0]}"#)).unwrap();
    assert_eq!(tokens, vec![SemanticToken { delta_line: 1, delta_start: 2, length: 3 }]);
    assert!(read_semantic_tokens(&answer(r#"{"data":[1]}"#)).is_err());
    assert_eq!(read_locations(&answer(PLACE)).unwrap().len(), 1);
    let many = read_locations(&answer(&format!("[{},{}]", PLACE, PLACE))).unwrap();
    assert_eq!(many[1].range, range((1, 2), (3, 4)));
    let links = r#"[{"targetUri":"file:///a","targetRange":{"start":{"line":0,"character":0},"end":{"line":0,"character":0}},
        "targetSelectionRange":{"start":{"line":0,"character":0},"end":{"line":0,"character":0}}}]"#;
    assert!(read_locations(&answer(links)).unwrap().is_empty());
    assert!(read_locations(&answer("null")).is_err());
    let folds = read_folding_ranges(&answer(r#"[{"startLine":1,"endLine":4}]"#)).unwrap();
    assert_eq!(folds, Some(vec![SimpleFoldingRange { start_line: 1, end_line: 4 }]));
    assert_eq!(read_folding_ranges(&answer("null")).unwrap(), None);
    let failed = lsp(r#"{"jsonrpc":"2.0","id":1,"error":{"code":1,"message":"bad"}}"#);
    assert!(read_folding_ranges(&failed).unwrap_err().ends_with("bad"));
}

#[test]
fn session_follows_two_threads() {
    let session = SessionSubscription::new("s".to_string(), "me".to_string(), false);
    let (codegen, codechat) = session.requests();
    assert_eq!(codegen.session_tag, Some("codegen".to_string()));
    assert_eq!(codechat.session_tag, Some("codechat".to_string()));
    assert_eq!(codechat.session_id, Some("s".to_string()));
    assert_eq!(codechat.client_id, "me");
    assert_eq!(codechat.tools.unwrap().len(), 2);
    let call = ToolCall {
        id: None,
        name: "n".to_string(),
        client_id: None,
        arguments: Value::Null,
    };
    let event = ThreadEvent::Message {
        message: Message {
            client_id: None,
            role: MessageRole::Assistant,
            content: None,
            tool_calls: Some(vec![call]),
            tool_call_results: None,
        },
    };
    assert_eq!(SessionSubscription::calls_of(event).unwrap().len(), 1);
    let event = ThreadEvent::NewThread { thread_id: "t".to_string() };
    assert!(SessionSubscription::calls_of(event).is_none());
}

#[test]
fn deep_messages_are_read_back_up_to_a_limit() {
    let nested = |depth: usize| {
        let params = format!("{}{}", "[".repeat(depth), "]".repeat(depth));
        format!("{{\"jsonrpc\":\"2.0\",\"method\":\"m\",\"params\":{}}}", params)
    };
    let read = read_message_payload(nested(126).as_bytes()).unwrap();
    assert_eq!(read.to_text(), nested(126));
    assert!(read_message_payload(nested(127).as_bytes()).is_none());
    let largest = "{\"jsonrpc\":\"2.0\",\"method\":\"m\",\"params\":[18446744073709551615,-9223372036854775808,0]}";
    assert_eq!(read_message_payload(largest.as_bytes()).unwrap().to_text(), largest);
}

#[test]
fn commands_are_carried_out_for_the_code_they_name() {
    let mut adapter = LspAdapter::new(true);
    let place = |line: u32| Location { uri: "file:///a.rs".to_string(), range: range((line, 0), (line, 1)) };
    let id = Value::from(1);
    adapter.handle_add_context_command(Ok(place(1)), &id);
    adapter.handle_add_context_command(Ok(place(1)), &id);
    let refused = adapter.handle_add_context_command(Err("no place".to_string()), &id);
    assert!(matches!(refused, AdapterStep::Reply(reply) if reply.get_result().is_err()));
    match adapter.handle_command("llmvm-codeassist/complete", Ok(place(2)), &id) {
        AdapterStep::StartTask { code_location, task_id, random_context_locations, .. } => {
            assert_eq!(code_location.range, range((2, 0), (2, 1)));
            assert_eq!(task_id, 0);
            assert_eq!(random_context_locations.len(), 1);
        }
        _ => panic!("no task"),
    }
    assert_eq!(adapter.complete_task_last_id, 1);
    let failed = adapter.handle_code_complete_command(Err("no place".to_string()), &id);
    assert!(matches!(failed, AdapterStep::Reply(_)));
    assert_eq!(adapter.complete_task_last_id, 1);
    assert!(is_carried_out_here("llmvm-codeassist/addContext"));
    assert!(!is_carried_out_here("llmvm-codeassist/newChatThread"));
}

#[test]
fn what_is_told_of_a_session_is_remembered() {
    let mut adapter = LspAdapter::new(false);
    assert!(matches!(adapter.remember_root(Ok(Some("file:///p".to_string()))), AdapterStep::Nothing));
    assert_eq!(adapter.root_uri, Some("file:///p".to_string()));
    assert!(matches!(adapter.remember_root(Err("x".to_string())), AdapterStep::Failed(e) if e == "x"));
    let support = ServerSupport { semantic_tokens: true, folding_ranges: false, type_definitions: true };
    let server = ServerInfo { support, commands: Some(vec!["a".to_string()]) };
    let commands = adapter.remember_server(server);
    assert_eq!(commands, vec!["a".to_string(), "llmvm-codeassist/complete".to_string()]);
    assert_eq!(adapter.support, Some(support));
    let answer = lsp(r#"{"jsonrpc":"2.0","id":1,"result":null}"#);
    let location = Location { uri: "file:///a.rs".to_string(), range: range((0, 0), (0, 1)) };
    let reply = reply_value(adapter.add_commands(&location, Ok(vec![Value::from(7)]), &answer));
    assert_eq!(reply["result"][0], Value::from(7));
    assert_eq!(reply["result"].as_array().unwrap().len(), 3);
    assert!(locations_of(TypeDefinitions::Links).is_empty());
    assert_eq!(locations_of(TypeDefinitions::One(location)).len(), 1);
}

#[test]
fn commands_are_put_into_what_a_server_tells() {
    let commands = vec!["a".to_string(), "b".to_string()];
    let told = set_commands(value(r#"{"capabilities":{},"x":1}"#), &commands);
    let wanted = r#"{"capabilities":{"executeCommandProvider":{"commands":["a","b"]}},"x":1}"#;
    assert_eq!(told, value(wanted));
    let result = value(
        r#"{"capabilities":{"executeCommandProvider":{"commands":["x"],"workDoneProgress":true,"y":2},
            "hoverProvider":null},"serverInfo":{"name":"s"},"z":3}"#,
    );
    let told = write_commands(&result, commands.clone()).unwrap();
    let wanted = r#"{"capabilities":{"executeCommandProvider":
        {"commands":["a","b"],"workDoneProgress":true}},"serverInfo":{"name":"s"}}"#;
    assert_eq!(told, value(wanted));
    let bare = write_commands(&value(r#"{"capabilities":{}}"#), vec![]).unwrap();
    assert_eq!(bare, value(r#"{"capabilities":{"executeCommandProvider":{"commands":[]}}}"#));
    assert!(write_commands(&value("{}"), commands).is_err());
}

#[test]
fn faults_of_messages_are_told() {
    let fault = |text: &str| JsonRpcMessage::try_from_value(&value(text)).unwrap_err();
    let message = |fault: PartFault| MessageFault::Message(fault);
    let error = |fault: PartFault| MessageFault::Error(fault);
    assert_eq!(fault("1"), message(PartFault::Kind));
    assert_eq!(fault("[]"), message(PartFault::Length(0)));
    assert_eq!(fault(r#"["2.0","m"]"#), message(PartFault::Length(2)));
    assert_eq!(fault(r#"["2.0",1,null,2]"#), message(PartFault::Wrong(MessagePart::Method)));
    assert_eq!(fault("{}"), message(PartFault::Missing(MessagePart::Version)));
    assert_eq!(fault(r#"{"method":1}"#), message(PartFault::Wrong(MessagePart::Method)));
    assert_eq!(fault(r#"{"jsonrpc":"2.0"}"#), message(PartFault::Missing(MessagePart::Method)));
    assert_eq!(fault(r#"{"id":1,"method":"m","jsonrpc":2}"#), message(PartFault::Wrong(MessagePart::Version)));
    assert_eq!(fault(r#"{"id":1,"method":"m"}"#), message(PartFault::Missing(MessagePart::Version)));
    assert_eq!(fault(r#"{"id":1,"error":1}"#), error(PartFault::Kind));
    assert_eq!(fault(r#"{"id":1,"error":[1]}"#), error(PartFault::Length(1)));
    assert_eq!(fault(r#"{"id":1,"error":{"code":2147483648}}"#), error(PartFault::Wrong(MessagePart::ErrorCode)));
    assert_eq!(fault(r#"{"id":1,"error":{"code":1}}"#), error(PartFault::Missing(MessagePart::ErrorMessage)));
    assert_eq!(fault(r#"{"id":1,"error":{}}"#), error(PartFault::Missing(MessagePart::ErrorCode)));
    assert_eq!(fault(r#"{"id":1,"error":{"message":1}}"#), error(PartFault::Wrong(MessagePart::ErrorMessage)));
    assert_eq!(fault(r#"{"id":1,"error":null}"#), message(PartFault::Missing(MessagePart::Version)));
    assert_eq!(fault("{}").message(), "missing field `jsonrpc`");
    assert_eq!(fault("1").message(), "neither an object nor an array");
    assert_eq!(fault(r#"{"id":1,"error":[1]}"#).message(), "error: invalid length 1");
    assert_eq!(fault(r#"{"method":1}"#).message(), "invalid field `method`");
}
