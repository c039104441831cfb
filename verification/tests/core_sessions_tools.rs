use llmvm::core_lib::error::{CoreError, RequiredParameter, ToolCallFault};
use llmvm::core_lib::sessions::{
    get_session_prompt_parameters, is_session_info_current, is_subscriber_alive, new_subscriber,
    session_path, start_new_thread_in_session, store_session_prompt_parameter, strip_suffix,
    subscriber_file_name, subscriber_id, try_session_prompt_parameters, SessionInfo,
    SessionSubscriberInfo,
};
use llmvm::core_lib::tools::{
    backend_tool_calls_to_tool_calls, extract_text_tool_calls, find_subscriber_tool,
    generate_native_tools_from_subscribers, generate_text_tools_prompt_parameters,
    init_text_tool_call, inject_client_id_into_tools, insert_tool_call_argument,
    read_text_tool_calls, try_extract_text_tool_calls, TextCalls, ToolCallHelper,
};
use llmvm::protocol::{
    BackendToolCall, MessageRole, ProtocolErrorType, SessionPromptParameter, Tool, ToolCallResult,
    ToolType,
};
use serde_json::Value;

fn value(text: &str) -> Value {
    serde_json::from_str(text).unwrap()
}

fn tool(name: &str, tool_type: ToolType) -> Tool {
    Tool {
        name: name.to_string(),
        description: "does it".to_string(),
        input_schema: value(
            r#"{"properties":{"text":{"type":"string","description":"Some MultiLine text"},
                "n":{"type":"integer","description":"A number"},"x":1}}"#,
        ),
        tool_type,
    }
}

fn subscriber(client_id: &str, tools: Vec<Tool>) -> SessionSubscriberInfo {
    let mut info = new_subscriber(Some(tools));
    info.client_id = client_id.to_string();
    info
}

fn offering() -> Vec<SessionSubscriberInfo> {
    let mut infos = vec![
        subscriber("a", vec![tool("t", ToolType::Text)]),
        subscriber("b", vec![tool("u", ToolType::Native), tool("t", ToolType::Text)]),
    ];
    inject_client_id_into_tools(&mut infos);
    infos
}

fn parameter(text: &str) -> SessionPromptParameter {
    SessionPromptParameter { persistent: false, value: value(text) }
}

#[test]
fn sessions_have_directories_of_their_own() {
    assert_eq!(session_path("/home/me x", "tag"), ("%2Fhome%2Fme+x".to_string(), "tag".to_string()));
    assert_eq!(session_path("a*-._Z9\u{e9}+", "").0, "a*-._Z9%C3%A9%2B");
    assert_ne!(session_path("a b", "t").0, session_path("a+b", "t").0);
}

#[test]
fn files_belong_to_subscribers() {
    assert_eq!(subscriber_file_name("chat_1"), "chat_1.json");
    assert_eq!(subscriber_id("chat_1.json"), Some("chat_1".to_string()));
    assert_eq!(subscriber_id("info.json"), None);
    assert_eq!(subscriber_id("chat_1.txt"), None);
    assert_eq!(subscriber_id(".json"), Some("".to_string()));
    assert_eq!(strip_suffix("abc", "bc"), Some("a".to_string()));
    assert_eq!(strip_suffix("abc", "x"), None);
}

#[test]
fn subscribers_and_sessions_grow_old() {
    assert!(is_subscriber_alive(29));
    assert!(!is_subscriber_alive(30));
    assert!(is_session_info_current(true, 9999, 0));
    assert!(is_session_info_current(false, 300, 0));
    assert!(!is_session_info_current(false, 300, 1));
    assert!(is_session_info_current(false, 299, 999_999_999));
}

#[test]
fn new_thread_takes_the_place_of_the_old_one() {
    assert_eq!(start_new_thread_in_session(None, "t").thread_id, Some("t".to_string()));
    let old = SessionInfo { thread_id: Some("o".to_string()) };
    assert_eq!(start_new_thread_in_session(Some(old), "t").thread_id, Some("t".to_string()));
    assert_eq!(SessionInfo::default().thread_id, None);
}

#[test]
fn parameters_are_set_and_taken_out() {
    let mut info = subscriber("a", vec![]);
    store_session_prompt_parameter(&mut info, "x.y".to_string(), Some(parameter("1")));
    store_session_prompt_parameter(&mut info, "x.z".to_string(), Some(parameter("2")));
    store_session_prompt_parameter(&mut info, "x.y".to_string(), Some(parameter("3")));
    store_session_prompt_parameter(&mut info, "w".to_string(), Some(parameter("[]")));
    store_session_prompt_parameter(&mut info, "w".to_string(), None);
    let parameters = get_session_prompt_parameters(&vec![info]);
    assert_eq!(Value::Object(parameters), value(r#"{"x":{"y":3,"z":2}}"#));
}

#[test]
fn parameters_in_the_way_of_each_other_are_told() {
    let mut info = subscriber("a", vec![]);
    store_session_prompt_parameter(&mut info, "x".to_string(), Some(parameter("1")));
    let mut other = subscriber("b", vec![]);
    store_session_prompt_parameter(&mut other, "x.y".to_string(), Some(parameter("2")));
    assert!(try_session_prompt_parameters(&vec![info.clone(), other.clone()]).is_none());
    let found = try_session_prompt_parameters(&vec![other, info]).unwrap();
    assert_eq!(Value::Object(found), value(r#"{"x":1}"#));
}

#[test]
fn tools_are_offered_with_their_clients() {
    let infos = offering();
    assert_eq!(infos[0].tools.as_ref().unwrap()[0].name, "t_a");
    let (found, name, client) = find_subscriber_tool(&infos, "t_b").unwrap();
    assert_eq!((found.name.as_str(), name.as_str(), client.as_str()), ("t_b", "t", "b"));
    assert!(find_subscriber_tool(&infos, "v_b").is_none());
    assert!(find_subscriber_tool(&infos, "t").is_none());
    let native = generate_native_tools_from_subscribers(&infos).unwrap();
    assert_eq!(native.len(), 1);
    assert_eq!(native[0].name, "u_b");
    assert!(generate_native_tools_from_subscribers(&vec![]).is_none());
}

#[test]
fn backend_calls_go_to_their_clients() {
    let infos = offering();
    let call = |name: &str| BackendToolCall {
        id: "i".to_string(),
        name: name.to_string(),
        arguments: Value::from(1),
    };
    let calls = backend_tool_calls_to_tool_calls(vec![call("u_b")], Some(&infos)).unwrap();
    assert_eq!(calls[0].name, "u");
    assert_eq!(calls[0].client_id, Some("b".to_string()));
    assert_eq!(calls[0].id, Some("i".to_string()));
    assert_eq!(calls[0].arguments, Value::from(1));
    let unknown = backend_tool_calls_to_tool_calls(vec![call("u_b"), call("x_b")], Some(&infos));
    assert!(matches!(unknown, Err(CoreError::ToolCallParse(ToolCallFault::ToolNotFound))));
    assert!(backend_tool_calls_to_tool_calls(vec![call("u_b")], None).is_err());
    assert!(backend_tool_calls_to_tool_calls(vec![], None).unwrap().is_empty());
}

#[test]
fn calls_are_read_from_text() {
    let infos = offering();
    let text = "so: $$llmvm_tool$$ t_a: n=\"12\" text=$$multiline$$\nx \"y\" $ z\n$$multiline$$; more \
        $$llmvm_tool$$ t_b:n=\"many\";";
    let calls = extract_text_tool_calls(&infos, text).unwrap();
    assert_eq!(calls.len(), 2);
    assert_eq!(calls[0].name, "t");
    assert_eq!(calls[0].client_id, Some("a".to_string()));
    assert_eq!(calls[0].id, None);
    assert_eq!(calls[0].arguments, value(r#"{"n":12,"text":"x \"y\" $ z\n"}"#));
    assert_eq!(calls[1].arguments, value(r#"{"n":"many"}"#));
    assert!(extract_text_tool_calls(&infos, "nothing").unwrap().is_empty());
}

#[test]
fn faults_of_calls_in_text() {
    let infos = offering();
    let fault = |text: &str| match read_text_tool_calls(&infos, text) {
        TextCalls::Fault(fault) => fault,
        _ => panic!("no fault"),
    };
    assert_eq!(fault("$$llmvm_tool$$ t_c:;"), ToolCallFault::NoSuchClientTool);
    assert_eq!(fault("$$llmvm_tool$$ t_a: q=\"1\";"), ToolCallFault::PropertyType);
    assert_eq!(fault("$$llmvm_tool$$ t_a: x=\"1\";"), ToolCallFault::PropertyType);
    assert_eq!(fault("$$llmvm_tool$$ t_a: n=$1;"), ToolCallFault::UnrecognizedToken);
    assert_eq!(fault("$$llmvm_tool$$ t_a: n=1;"), ToolCallFault::UnexpectedStart);
    assert!(matches!(read_text_tool_calls(&infos, "$$llmvm_tool$$ t_a"), TextCalls::Unfinished));
    assert!(try_extract_text_tool_calls(&infos, "$$llmvm_tool$$ t_a").is_none());
    assert!(try_extract_text_tool_calls(&infos, "$$llmvm_tool$$ t_a:").unwrap().is_ok());
    assert_eq!(ToolCallFault::UnrecognizedToken.message(), "unrecognized '$' token");
}

#[test]
fn calls_are_begun_and_filled() {
    let infos = offering();
    let (mut call, schema) = init_text_tool_call(&infos, "t_a").unwrap();
    assert_eq!(call.arguments, value("{}"));
    insert_tool_call_argument(&mut call, schema, "n", "-7").unwrap();
    insert_tool_call_argument(&mut call, schema, "text", "5").unwrap();
    assert_eq!(call.arguments, value(r#"{"n":-7,"text":"5"}"#));
    assert_eq!(insert_tool_call_argument(&mut call, schema, "z", "5"), Err(ToolCallFault::PropertyType));
    assert!(init_text_tool_call(&infos, "nobody").is_err());
}

#[test]
fn text_tools_are_described() {
    let described = generate_text_tools_prompt_parameters(&offering());
    assert_eq!(described.len(), 2);
    assert_eq!(described[0].name, "t_a");
    assert_eq!(described[0].description, "does it");
    assert_eq!(
        described[0].arguments,
        vec!["n: A number\n".to_string(), "text: Some MultiLine text\n".to_string()]
    );
    assert_eq!(
        described[0].usage_format,
        "$$llmvm_tool$$ t_a:n=\"value of n\" text=$$multiline$$\n<text value>\n$$multiline$$ x=\"value of x\";\n\n"
    );
}

#[test]
fn usage_format_is_read_as_a_call() {
    let mut infos = offering();
    let schema = r#"{"properties":{"text":{"type":"string","description":"MULTIline text"},
        "n":{"type":"integer"},"file_uri":{"type":"string","description":"a file"}}}"#;
    infos[0].tools.as_mut().unwrap()[0].input_schema = value(schema);
    let format = &generate_text_tools_prompt_parameters(&infos)[0].usage_format;
    let calls = extract_text_tool_calls(&infos, format).unwrap();
    assert_eq!(calls.len(), 1);
    assert_eq!(calls[0].id, None);
    assert_eq!(calls[0].name, "t");
    assert_eq!(calls[0].client_id, Some("a".to_string()));
    let wanted = r#"{"file_uri":"value of file_uri","n":"value of n","text":"<text value>\n"}"#;
    assert_eq!(calls[0].arguments, value(wanted));
}

#[test]
fn described_call_can_be_read() {
    let infos = offering();
    let call = "$$llmvm_tool$$ t_a:n=\"3\" text=$$multiline$$\nline\n$$multiline$$;\n\n";
    let calls = extract_text_tool_calls(&infos, call).unwrap();
    assert_eq!(calls[0].arguments, value(r#"{"n":3,"text":"line\n"}"#));
}

#[test]
fn results_of_calls_are_gathered() {
    let ids = vec!["1".to_string(), "2".to_string(), "1".to_string()];
    let mut helper = ToolCallHelper::new(ids, Some("me".to_string()), "t".to_string());
    assert_eq!(helper.tool_results.len(), 2);
    let result = |id: &str, n: u32| ToolCallResult {
        id: id.to_string(),
        result: Some(Value::from(n)),
        is_fatal_error: false,
    };
    assert!(!helper.receive(&vec![result("2", 5), result("9", 6)]));
    assert!(helper.receive(&vec![result("1", 7), result("1", 8)]));
    let message = helper.into_message();
    assert_eq!(message.role, MessageRole::User);
    assert_eq!(message.client_id, Some("me".to_string()));
    let results = message.tool_call_results.unwrap();
    assert_eq!(results[0].result, Some(Value::from(8)));
    assert_eq!(results[1].result, Some(Value::from(5)));
}

#[test]
fn core_errors_are_told() {
    let cases = vec![
        (CoreError::IO("x".to_string()), ProtocolErrorType::Internal, "io error: x"),
        (
            CoreError::StdioBackendStart("x".to_string()),
            ProtocolErrorType::Internal,
            "failed to start stdio backend: x",
        ),
        (CoreError::TemplateNotFound, ProtocolErrorType::BadRequest, "template not found"),
        (CoreError::Utf8Error("x".to_string()), ProtocolErrorType::BadRequest, "utf8 error: x"),
        (
            CoreError::UserHomeNotFound,
            ProtocolErrorType::Internal,
            "unable to load app data, could not find user home folder",
        ),
        (CoreError::ThreadNotFound, ProtocolErrorType::NotFound, "thread not found"),
        (CoreError::PresetNotFound, ProtocolErrorType::BadRequest, "preset not found"),
        (CoreError::ModelDescriptionParse, ProtocolErrorType::BadRequest, "failed to parse model name"),
        (
            CoreError::Protocol(ProtocolErrorType::NotFound, "x".to_string()),
            ProtocolErrorType::NotFound,
            "backend error: x",
        ),
        (
            CoreError::BackendStdio(ProtocolErrorType::Internal, "x".to_string()),
            ProtocolErrorType::Internal,
            "backend error (via stdio): x",
        ),
        (CoreError::MissingParameters, ProtocolErrorType::BadRequest, "missing generation parameters"),
        (
            CoreError::MissingParameter(RequiredParameter::MaxTokens),
            ProtocolErrorType::BadRequest,
            "missing required generation parameter: max_tokens",
        ),
        (
            CoreError::HttpServiceCreate,
            ProtocolErrorType::Internal,
            "failed to create http backend service",
        ),
        (
            CoreError::UnexpectedServiceResponse,
            ProtocolErrorType::Internal,
            "unexpected service response type",
        ),
        (
            CoreError::ToolCallParse(ToolCallFault::ToolNotFound),
            ProtocolErrorType::BadRequest,
            "failed to parse tool call: tool not found",
        ),
    ];
    for (error, error_type, message) in cases {
        assert_eq!(error.error_type(), error_type);
        assert_eq!(error.message(), message);
    }
}
