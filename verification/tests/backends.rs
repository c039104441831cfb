use llmvm::basic_core::error::CoreError as BasicError;
use llmvm::basic_core::generation::{
    backend_command as basic_backend_command, prepare_for_generate, resolve_parameters,
    can_make_prompt, thread_with_reply, GenerationRequest, ReadyPrompt,
};
use llmvm::basic_core::threads::{thread_file_name, GenerationThreadManager, GenerationThreadMeta};
use llmvm::basic_core::util::{current_timestamp_secs, timestamp_secs};
use llmvm::cli::{GenerateArgs, GenerateModelArgs, HttpServerArgs};
use llmvm::llama::{find_task, LlamaError};
use llmvm::llmrs::{get_model, get_model_now, weights_file_name, LlmrsError, LoadState, ModelStep, Reply};
use llmvm::outsource;
use llmvm::outsource_lib::anthropic;
use llmvm::outsource_lib::anthropic::{ContentEntry, EventReader, EventStream, LineEvent, ReadEvent};
use llmvm::outsource_lib::backend::{OutsourceBackend, OutsourceConfig, Provider, Route};
use llmvm::outsource_lib::error::OutsourceError;
use llmvm::outsource_lib::huggingface;
use llmvm::outsource_lib::ollama;
use llmvm::outsource_lib::stream::LineBuffer;
use llmvm::outsource_lib::util::{
    check_status_code, get_api_key, get_openai_api_key, is_success_status,
};
use llmvm::proto;
use llmvm::protocol::{
    BackendGenerationRequest, BackendMessage, BackendToolCall, GenerationParameters, MessageRole,
    ModelDescription, ProtocolErrorType, ToolCallResult,
};
use serde_json::Value;
use std::collections::HashMap;
use std::time::{Duration, UNIX_EPOCH};

fn value(text: &str) -> Value {
    serde_json::from_str(text).unwrap()
}

fn members(text: &str) -> Option<serde_json::Map<String, Value>> {
    value(text).as_object().cloned()
}

fn description(provider: &str, endpoint: Option<&str>) -> ModelDescription {
    ModelDescription {
        backend: "outsource".to_string(),
        provider: provider.to_string(),
        model_name: "m".to_string(),
        endpoint: endpoint.map(|e| e.to_string()),
        chat: false,
    }
}

fn asked(prompt: Option<&str>, messages: Option<Vec<BackendMessage>>) -> BackendGenerationRequest {
    BackendGenerationRequest {
        model: "x".to_string(),
        prompt: prompt.map(|p| p.to_string()),
        max_tokens: 9,
        thread_messages: messages,
        model_parameters: members(r#"{"temperature":1}"#),
        tools: None,
        tool_call_results: None,
    }
}

fn spoken(role: MessageRole, content: Option<&str>) -> BackendMessage {
    BackendMessage {
        role,
        content: content.map(|c| c.to_string()),
        tool_calls: None,
        tool_call_results: None,
    }
}

fn entry(text: &str) -> ContentEntry {
    let given = value(text);
    let field = |name: &str| given.get(name).and_then(|v| v.as_str()).map(|v| v.to_string());
    ContentEntry {
        entry_type: field("type").unwrap(),
        text: field("text"),
        id: field("id"),
        name: field("name"),
        input: given.get("input").cloned(),
        partial_json: field("partial_json"),
    }
}

#[test]
fn anthropic_is_asked() {
    let mut calls = spoken(MessageRole::Assistant, Some("c"));
    calls.tool_calls = Some(vec![BackendToolCall {
        id: "1".to_string(),
        name: "n".to_string(),
        arguments: value(r#"{"a":1}"#),
    }]);
    let mut request = asked(
        Some("p"),
        Some(vec![
            spoken(MessageRole::System, Some("s")),
            calls,
            spoken(MessageRole::User, None),
        ]),
    );
    request.tools = Some(value("[5]"));
    request.tool_call_results = Some(vec![
        ToolCallResult { id: "1".to_string(), result: Some(value(r#"{"r":[2]}"#)), is_fatal_error: false },
        ToolCallResult { id: "2".to_string(), result: Some(Value::from("t")), is_fatal_error: false },
        ToolCallResult { id: "3".to_string(), result: None, is_fatal_error: false },
    ]);
    let body = anthropic::request_body(request, &description("anthropic", None), true);
    let expected = value(
        r#"{"temperature":1,"model":"m","max_tokens":9,"tools":[5],"system":"s","stream":true,"messages":[
            {"role":"assistant","content":[{"type":"text","text":"c"},
                {"type":"tool_use","id":"1","name":"n","input":{"a":1}}]},
            {"role":"user","content":""},
            {"role":"user","content":[
                {"type":"tool_result","tool_use_id":"1","content":"{\"r\":[2]}"},
                {"type":"tool_result","tool_use_id":"2","content":"t"},
                {"type":"tool_result","tool_use_id":"3"},
                {"type":"text","text":"p"}]}]}"#,
    );
    assert_eq!(Value::Object(body), expected);
}

#[test]
fn anthropic_replies() {
    let reply = anthropic::generate(vec![
        entry(r#"{"type":"text","text":"a"}"#),
        entry(r#"{"type":"other"}"#),
        entry(r#"{"type":"tool_use","id":"1","name":"n"}"#),
        entry(r#"{"type":"text","text":"b"}"#),
    ])
    .unwrap();
    assert_eq!(reply.response, Some("ab".to_string()));
    assert_eq!(reply.tool_calls.unwrap()[0].arguments, value("{}"));
    assert!(matches!(anthropic::generate(vec![]), Err(OutsourceError::NoTextInResponse)));
    let call = anthropic::generate(vec![entry(r#"{"type":"tool_use","id":"1"}"#)]);
    assert!(matches!(call, Err(OutsourceError::InvalidToolCall)));
    let empty = anthropic::generate(vec![entry(r#"{"type":"text"}"#)]);
    assert!(matches!(empty, Err(OutsourceError::NoTextInResponse)));
}

#[test]
fn anthropic_streams() {
    let mut reader = EventReader::new();
    assert!(reader.on_line("event: message_start\n").is_none());
    assert!(reader.on_line("data: {}\n").is_none());
    assert!(reader.on_line("event: content_block_start\n").is_none());
    assert!(matches!(reader.on_line("data:  {1} \n"), Some(LineEvent::Payload(p)) if p == "{1}"));
    assert!(matches!(reader.on_line("event: content_block_stop\n"), Some(LineEvent::BlockEnd)));
    assert!(reader.on_line(": ping\n").is_none() && reader.skip_next_event_payload);
    let mut stream = EventStream::new();
    assert!(stream.take_up(ReadEvent::BlockEnd).is_none());
    let unread = ReadEvent::Entry(Err(OutsourceError::Serialization("x".to_string())));
    assert!(matches!(stream.take_up(unread), Some(Err(OutsourceError::Serialization(_)))));
    let call = entry(r#"{"type":"tool_use","id":"1","name":"n","input":{}}"#);
    assert!(anthropic::can_extract_response(&call));
    let part = stream.on_entry(call).unwrap().tool_call_part.unwrap();
    assert_eq!(part, r#"{"id":"1","name":"n","arguments":"#);
    let part = stream.on_entry(entry(r#"{"type":"input_json_delta","partial_json":"{\"a\":"}"#)).unwrap();
    assert_eq!(part.tool_call_part, Some("{\"a\":".to_string()));
    stream.on_entry(entry(r#"{"type":"input_json_delta","partial_json":"1}"}"#)).unwrap();
    match stream.take_up(ReadEvent::BlockEnd) {
        Some(Ok(end)) => assert_eq!(end.tool_call_part, Some("}\n".to_string())),
        _ => panic!("call does not end"),
    }
    let late = stream.on_entry(entry(r#"{"type":"input_json_delta","partial_json":"1"}"#));
    assert!(matches!(late, Err(OutsourceError::InvalidToolCall)));
    let mut bad = Some("{".to_string());
    let failed = anthropic::finalize_streamed_tool_call(&mut bad, &mut stream.tool_calls);
    let words = serde_json::from_str::<Value>("{").unwrap_err().to_string();
    assert!(matches!(failed, Err(OutsourceError::Serialization(text)) if text == words));
    let text = stream.on_entry(entry(r#"{"type":"text_delta","text":"t"}"#)).unwrap();
    assert_eq!(text.response, Some("t".to_string()));
    assert!(matches!(stream.on_entry(entry(r#"{"type":"x"}"#)), Err(OutsourceError::NoTextInResponse)));
    let all = stream.finish().unwrap();
    assert_eq!(all.tool_calls.unwrap()[0].arguments, value(r#"{"a":1}"#));
    assert!(EventStream::new().finish().is_none());
}

fn passed_on(pieces: Vec<&[u8]>) -> Vec<String> {
    let mut reader = EventReader::new();
    let mut stream = EventStream::new();
    let mut all = Vec::new();
    for piece in pieces {
        for event in reader.push(piece) {
            let event = match event {
                LineEvent::BlockEnd => ReadEvent::BlockEnd,
                LineEvent::Payload(payload) => ReadEvent::Entry(Ok(entry(&payload))),
            };
            if let Some(item) = stream.take_up(event) {
                all.push(format!("{:?}", item));
            }
        }
    }
    all
}

#[test]
fn pieces_of_a_streamed_reply_do_not_matter() {
    let mut reply = b"event: message_start\ndata: {}\n\nevent: content_block_start\n".to_vec();
    reply.extend_from_slice(b"data: {\"type\":\"tool_use\",\"id\":\"1\",\"name\":\"n\"}\n\xff\n");
    reply.extend_from_slice("event: content_block_delta\n".as_bytes());
    reply.extend_from_slice(
        "data: {\"type\":\"input_json_delta\",\"partial_json\":\"{\\\"a\\\":\\\"é\\\"}\"}\n".as_bytes(),
    );
    reply.extend_from_slice(b"event: content_block_stop\ndata: {}\n");
    let whole = passed_on(vec![&reply[..]]);
    assert_eq!(whole.len(), 3);
    assert!(whole[1].contains("é"));
    for cut in 0..reply.len() {
        assert_eq!(passed_on(vec![&reply[..cut], &reply[cut..]]), whole);
    }
    assert_eq!(passed_on(reply.chunks(1).collect()), whole);
    assert_eq!(passed_on(vec![&reply[..], &b"event: content_block_stop"[..]]), whole);
}

#[test]
fn parts_of_a_streamed_call_make_up_the_call() {
    let joined = |parts: Vec<&str>| {
        let mut stream = EventStream::new();
        let earlier = entry(r#"{"type":"tool_use","id":"0","name":"m"}"#);
        stream.on_entry(earlier).unwrap();
        stream.take_up(ReadEvent::BlockEnd).unwrap().unwrap();
        let call = entry(r#"{"type":"tool_use","id":"é\"1","name":"n","input":{}}"#);
        let mut whole = stream.on_entry(call).unwrap().tool_call_part.unwrap();
        for part in parts {
            let mut delta = entry(r#"{"type":"input_json_delta"}"#);
            delta.partial_json = Some(part.to_string());
            whole.push_str(&stream.on_entry(delta).unwrap().tool_call_part.unwrap());
        }
        let end = stream.take_up(ReadEvent::BlockEnd).unwrap().unwrap();
        assert!(end.response.is_none() && end.tool_calls.is_none());
        whole.push_str(&end.tool_call_part.unwrap());
        let calls = stream.finish().unwrap().tool_calls.unwrap();
        assert_eq!(calls.len(), 2);
        assert_eq!(calls[0].id, "0");
        assert!(whole.ends_with('\n'));
        let read = value(&whole);
        assert_eq!(read["id"], Value::from(calls[1].id.clone()));
        assert_eq!(read["name"], Value::from(calls[1].name.clone()));
        assert_eq!(read["arguments"], calls[1].arguments);
        assert_eq!(read.as_object().unwrap().len(), 3);
        calls[1].arguments.clone()
    };
    assert_eq!(joined(vec![]), value("{}"));
    assert_eq!(joined(vec!["", ""]), value("{}"));
    assert_eq!(joined(vec![" {\"a", "\": [1.5, \"]\"]", "} "]), value(r#"{"a":[1.5,"]"]}"#));
}

#[test]
fn streamed_call_without_arguments_ends() {
    let mut pending = None;
    let mut calls = None;
    let call = entry(r#"{"type":"tool_use","id":"1","name":"n","input":{}}"#);
    anthropic::extract_response_from_stream_event(call, &mut pending, &mut calls).unwrap();
    let end = anthropic::finalize_streamed_tool_call(&mut pending, &mut calls).unwrap();
    assert_eq!(end.tool_call_part, Some("{}}\n".to_string()));
    assert!(pending.is_none());
    pending = Some("{".to_string());
    assert!(anthropic::finalize_streamed_tool_call(&mut pending, &mut calls).is_err());
    pending = Some("{".to_string());
    let none = anthropic::finalize_streamed_tool_call(&mut pending, &mut None);
    assert!(matches!(none, Err(OutsourceError::InvalidToolCall)));
    let long = entry(r#"{"type":"tool_use","id":"1","name":"n","input":"é"}"#);
    assert!(!anthropic::can_extract_response(&long));
}

#[test]
fn lines_do_not_depend_on_pieces() {
    let mut buffer = LineBuffer::new();
    assert!(buffer.push(b"ab").is_empty());
    assert_eq!(buffer.push(b"c\nd\n\ne"), vec![b"abc\n".to_vec(), b"d\n".to_vec(), b"\n".to_vec()]);
    assert_eq!(buffer.bytes, b"e".to_vec());
}

#[test]
fn huggingface_is_asked() {
    assert_eq!(
        huggingface::hosted_model_url("bigscience/bloom"),
        Some("https://api-inference.huggingface.co/models/bigscience/bloom".to_string())
    );
    let custom = huggingface::request_url("x", Some("http://h/".to_string()));
    assert_eq!(custom, Some("http://h/".to_string()));
    let body = huggingface::request_body("p".to_string(), 3, members(r#"{"t":1}"#));
    assert_eq!(
        body,
        value(r#"{"inputs":"p","parameters":{"t":1,"max_new_tokens":3,"return_full_text":false}}"#)
    );
    assert_eq!(huggingface::reply_text(vec!["a".to_string(), "b".to_string()]), "b");
}

#[test]
fn ollama_is_asked() {
    assert_eq!(ollama::request_url(None), "http://127.0.0.1:11434/api/generate");
    assert_eq!(ollama::request_url(Some("u")), "u");
    let body = ollama::request_body(asked(Some("p"), None), "m", true);
    assert_eq!(
        body,
        value(r#"{"model":"m","prompt":"p","template":"{{ .Prompt }}","stream":true,"options":null}"#)
    );
    assert_eq!(ollama::text_response("r".to_string()).response, Some("r".to_string()));
}

#[test]
fn keys_and_status_codes() {
    assert_eq!(get_api_key(Some("k")).unwrap(), "k");
    assert!(matches!(get_api_key(None), Err(OutsourceError::APIKeyNotDefined)));
    assert_eq!(get_openai_api_key(Some("k"), false, &description("p", None)).unwrap(), "k");
    assert_eq!(get_openai_api_key(None, true, &description("p", None)).unwrap(), "");
    assert_eq!(get_openai_api_key(None, false, &description("p", Some("e"))).unwrap(), "");
    assert!(get_openai_api_key(None, false, &description("p", None)).is_err());
    assert_eq!(check_status_code(204, "r".to_string(), "b".to_string()).unwrap(), "b");
    assert!(is_success_status(200) && is_success_status(299));
    for status in vec![199, 300, 404] {
        assert!(!is_success_status(status));
        assert!(matches!(
            check_status_code(status, "r".to_string(), "b".to_string()),
            Err(OutsourceError::BadHttpStatusCode { .. })
        ));
    }
}

#[test]
fn providers_are_found() {
    assert_eq!(Provider::find("openai-chat"), Some(Provider::OpenAIChat));
    assert_eq!(Provider::find("OpenAI-Text"), Some(Provider::OpenAIText));
    assert_eq!(Provider::find("huggingface-text"), Some(Provider::HuggingFaceText));
    assert_eq!(Provider::find("ollama-text"), Some(Provider::OllamaText));
    assert_eq!(Provider::find("ollama"), None);
    assert_eq!(Provider::OllamaText.name(), "ollama-text");
    let found = OutsourceBackend::get_model_description_and_provider(Some(description("ollama-text", None)));
    assert_eq!(found.unwrap().1, Provider::OllamaText);
    let unknown = OutsourceBackend::get_model_description_and_provider(Some(description("x", None)));
    assert!(matches!(unknown, Err(OutsourceError::ProviderNotFound(name)) if name == "x"));
    let unread = OutsourceBackend::get_model_description_and_provider(None);
    assert!(matches!(unread, Err(OutsourceError::ModelDescriptionParse)));
}

#[test]
fn requests_go_to_their_provider() {
    let backend = OutsourceBackend::new(OutsourceConfig {
        openai_api_key: Some("o".to_string()),
        huggingface_api_key: None,
        ollama_endpoint: Some("e".to_string()),
    });
    assert!(matches!(backend.route(Provider::OpenAIText), Ok(Route::OpenAI { api_key }) if api_key == "o"));
    assert!(matches!(backend.route(Provider::HuggingFaceText), Err(OutsourceError::APIKeyNotDefined)));
    assert!(matches!(backend.route(Provider::OllamaText), Ok(Route::Ollama { endpoint: Some(e) }) if e == "e"));
}

#[test]
fn outsource_errors_are_told() {
    let error = OutsourceError::BadHttpStatusCode {
        status: 404,
        reason: "Not Found".to_string(),
        body: "b".to_string(),
    };
    assert!(error.message().starts_with("bad http status code: 404"));
    assert_eq!(error.error_type(), ProtocolErrorType::Internal);
    assert_eq!(OutsourceError::NoTextInResponse.message(), "no text in response");
    assert_eq!(OutsourceError::APIKeyNotDefined.error_type(), ProtocolErrorType::BadRequest);
    assert_eq!(OutsourceError::Serialization("x".to_string()).message(), "json serialization error: x");
    assert_eq!(OutsourceError::HttpRequestError("x".to_string()).message(), "http request error: x");
    assert_eq!(OutsourceError::HostURLParse.message(), "could not parse api host as url");
    assert_eq!(OutsourceError::InvalidToolCall.message(), "invalid tool call");
    assert_eq!(OutsourceError::ModelParamsNotObject.message(), "model parameters should be object");
    assert!(OutsourceError::ProviderNotFound("x".to_string()).message().contains("x"));
}

#[test]
fn openai_is_asked() {
    assert_eq!(
        outsource::openai::request_url(true),
        Some("https://api.openai.com/v1/chat/completions".to_string())
    );
    assert_eq!(
        outsource::openai::request_url(false),
        Some("https://api.openai.com/v1/completions".to_string())
    );
    let request = || proto::BackendGenerationRequest {
        model: "x".to_string(),
        prompt: "p".to_string(),
        max_tokens: 4,
        chat_thread_messages: Some(vec![proto::Message {
            role: proto::MessageRole::Assistant,
            content: "a".to_string(),
        }]),
        model_parameters: None,
    };
    let body = outsource::openai::request_body(request(), "gpt", true, true);
    assert_eq!(
        Value::Object(body),
        value(
            r#"{"model":"gpt","max_tokens":4,"stream":true,"messages":[
                {"role":"assistant","content":"a"},{"role":"user","content":"p"}]}"#
        )
    );
    let body = outsource::openai::request_body(request(), "gpt", false, false);
    assert_eq!(Value::Object(body), value(r#"{"model":"gpt","max_tokens":4,"prompt":"p"}"#));
}

#[test]
fn openai_replies() {
    let choices = vec![Some("a".to_string()), Some("b".to_string())];
    assert_eq!(outsource::openai::extract_response(choices).unwrap(), "b");
    assert_eq!(outsource::openai::extract_response(vec![None]).unwrap(), "");
    assert!(matches!(outsource::openai::extract_response(vec![]), Err(OutsourceError::NoTextInResponse)));
    assert_eq!(outsource::openai::line_payload("data: {1}"), Some("{1}".to_string()));
    assert_eq!(outsource::openai::line_payload("data: [DONE]"), None);
    assert_eq!(outsource::openai::line_payload(": ping"), None);
}

#[test]
fn pieces_of_an_openai_stream_do_not_matter() {
    let reply = "data: {\"é\":1}\n\n: ping\ndata: 2\ndata: [DONE]\ndata: 3".as_bytes();
    let payloads = |pieces: Vec<&[u8]>| {
        let mut buffer = LineBuffer::new();
        let mut all = Vec::new();
        for piece in pieces {
            all.extend(outsource::openai::payloads_of(&mut buffer, piece));
        }
        all
    };
    let whole = payloads(vec![reply]);
    assert_eq!(whole, vec!["{\"é\":1}\n".to_string(), "2\n".to_string()]);
    assert_eq!(payloads(reply.chunks(1).collect()), whole);
    assert_eq!(payloads(reply.chunks(7).collect()), whole);
    assert!(payloads(vec![&b"data: \xff\n"[..]]).is_empty());
}

#[test]
fn named_addresses_are_read() {
    let custom = outsource::huggingface::named_url("endpoint=http://h.example/x").unwrap();
    assert_eq!(custom, Some("http://h.example/x".to_string()));
    assert!(matches!(
        outsource::huggingface::named_url("endpoint=nothing"),
        Err(OutsourceError::HostURLParse)
    ));
    assert!(outsource::huggingface::named_url("m").unwrap().unwrap().ends_with("/models/m"));
    let key = |k: &str| Some(k.to_string());
    let found = outsource::util::get_host_and_api_key(key("e"), key("s"), None, "http://d.example");
    assert_eq!(found.unwrap(), ("http://d.example/".to_string(), "s".to_string()));
    let found = outsource::util::get_host_and_api_key(key("e"), None, key("http://h.example/"), "http://d.example");
    assert_eq!(found.unwrap(), ("http://h.example/".to_string(), "e".to_string()));
    assert!(matches!(
        outsource::util::get_host_and_api_key(None, None, None, "http://d.example"),
        Err(OutsourceError::APIKeyNotDefined)
    ));
    assert!(matches!(
        outsource::util::get_host_and_api_key(key("e"), None, None, "x"),
        Err(OutsourceError::HostURLParse)
    ));
}

#[test]
fn key_that_is_given_comes_first() {
    let text = |s: &str| Some(s.to_string());
    let found = outsource::util::with_api_key(text("h"), text("given"), text("environment"));
    assert_eq!(found.unwrap(), ("h".to_string(), "given".to_string()));
    let found = outsource::util::with_api_key(text("h"), None, text("environment"));
    assert_eq!(found.unwrap().1, "environment");
    assert!(matches!(
        outsource::util::with_api_key(None, None, None),
        Err(OutsourceError::HostURLParse)
    ));
    assert!(matches!(
        outsource::util::with_api_key(text("h"), None, None),
        Err(OutsourceError::APIKeyNotDefined)
    ));
}

#[test]
fn other_backend_finds_its_provider() {
    let backend = outsource::backend::OutsourceBackend::new(Some("k".to_string()));
    assert_eq!(backend.specified_api_key, Some("k".to_string()));
    let found = backend.provider_of(Some(description("openai-text", None))).unwrap();
    assert_eq!(found.1, outsource::backend::Provider::OpenAIText);
    assert!(backend.provider_of(Some(description("ollama-text", None))).is_err());
    assert!(backend.provider_of(None).is_err());
}

#[test]
fn threads_are_numbered_and_purged() {
    let mut manager = GenerationThreadManager::new(None);
    assert!(manager.get_thread_ids().is_none());
    assert_eq!(manager.new_thread_id(100), 1);
    assert_eq!(manager.new_thread_id(200), 2);
    let mut ids = manager.get_thread_ids().unwrap();
    ids.sort();
    assert_eq!(ids, vec![1, 2]);
    assert!(manager.check_thread_exists(&1).is_ok());
    assert_eq!(manager.old_thread_ids(300, 150), vec![1]);
    manager.purge(&vec![1]);
    assert!(matches!(manager.check_thread_exists(&1), Err(BasicError::ThreadNotFound)));
    assert_eq!(manager.new_thread_id(300), 3);
    assert_eq!(thread_file_name(12), "thread_12.json");
    let mut stored: HashMap<u64, u64> = HashMap::new();
    stored.insert(5, 1);
    let meta = GenerationThreadMeta { last_id: 7, thread_ids_to_timestamps: stored };
    let mut manager = GenerationThreadManager::new(Some(meta));
    assert_eq!(manager.new_thread_id(2), 8);
    assert!(manager.check_thread_exists(&5).is_ok());
}

#[test]
fn time_is_counted_in_seconds() {
    assert_eq!(timestamp_secs(UNIX_EPOCH), 0);
    assert_eq!(timestamp_secs(UNIX_EPOCH + Duration::from_nanos(5_999_999_999)), 5);
    assert_eq!(timestamp_secs(UNIX_EPOCH - Duration::from_secs(7)), 0);
    assert!(current_timestamp_secs() > 1_600_000_000);
}

#[test]
fn basic_generation_is_prepared() {
    assert_eq!(basic_backend_command("x"), "llmvm-x-cli");
    let request = GenerationRequest {
        preset_id: None,
        parameters: Some(GenerationParameters {
            model: Some("m".to_string()),
            custom_prompt_template: Some("{{#system_role}}S{{/system_role}}Hi {{who}}".to_string()),
            prompt_parameters: Some(value(r#"{"who":"Ann"}"#)),
            max_tokens: Some(3),
            ..Default::default()
        }),
        existing_thread_id: None,
        save_thread: true,
    };
    let (parameters, model) = resolve_parameters(&request, None).unwrap();
    assert_eq!(model, "m");
    assert!(can_make_prompt(&parameters, &Some("{{#> a}}{{> b}}{{/a}}".to_string()), &None));
    let prompt = ReadyPrompt::of_parameters(&parameters, None, None, true).unwrap();
    assert_eq!(prompt.main_prompt, "Hi Ann");
    assert_eq!(prompt.system_prompt, Some("S".to_string()));
    let (asked, saved) = prepare_for_generate(&request, parameters, model, prompt, None).unwrap();
    assert_eq!(asked.prompt, "Hi Ann");
    assert_eq!(asked.max_tokens, 3);
    assert_eq!(asked.thread_messages.unwrap().len(), 1);
    let thread = thread_with_reply(saved.unwrap(), "r");
    assert_eq!(thread.len(), 3);
    assert_eq!(thread[2].content, "r");
    let circular = Some("{{#*inline \"a\"}}{{> a}}{{/inline}}".to_string());
    assert!(can_make_prompt(&Default::default(), &circular, &None));
    let none = ReadyPrompt::of_parameters(&Default::default(), None, None, true);
    assert!(matches!(none, Err(BasicError::TemplateNotFound)));
    let stored = GenerationParameters { prompt_template_id: Some("t".to_string()), ..Default::default() };
    assert!(!can_make_prompt(&stored, &circular, &None));
    assert!(!can_make_prompt(&stored, &None, &circular));
    let prompt = ReadyPrompt::of_parameters(&stored, None, Some("B".to_string()), false).unwrap();
    assert_eq!(prompt.main_prompt, "B");
    assert_eq!(BasicError::PresetNotFound.message(), "preset not found");
    assert_eq!(BasicError::ThreadNotFound.error_type(), ProtocolErrorType::BadRequest);
}

#[test]
fn local_models_are_found() {
    let known = Some(description("p", None));
    assert!(find_task(&known, true).is_ok());
    assert!(matches!(find_task(&known, false), Err(LlamaError::WeightsNotFound)));
    assert!(matches!(find_task(&None, true), Err(LlamaError::ModelDescriptionParse)));
    assert_eq!(get_model(&known, Some(LoadState::Loading)).unwrap(), ModelStep::Wait);
    assert_eq!(get_model(&known, Some(LoadState::Ready)).unwrap(), ModelStep::Use);
    assert!(matches!(get_model(&known, Some(LoadState::Failed)), Err(LlmrsError::ModelNotReady)));
    assert!(matches!(get_model(&known, None), Err(LlmrsError::WeightsNotFound)));
    assert!(matches!(get_model(&None, None), Err(LlmrsError::ModelDescriptionParse)));
    assert!(matches!(get_model_now(&known, Some(LoadState::Loading)), Err(LlmrsError::ModelNotReady)));
    assert!(get_model_now(&known, Some(LoadState::Ready)).is_ok());
    assert_eq!(weights_file_name("w"), "w.bin");
}

#[test]
fn local_replies_are_gathered() {
    let mut reply = Reply::new();
    reply.push(Ok("a".to_string())).unwrap();
    reply.push(Ok("b".to_string())).unwrap();
    assert!(reply.push(Err(LlmrsError::RequestCannotSend)).is_err());
    assert_eq!(reply.text, "ab");
    assert_eq!(LlmrsError::Inference("x".to_string()).message(), "inference failed: x");
    assert_eq!(LlamaError::ModelLoad("x".to_string()).message(), "failed to load model weights: x");
}

#[test]
fn command_lines_become_requests() {
    let request =
        GenerateModelArgs { model: "m".to_string(), prompt: "p".to_string(), max_tokens: 7 }.into_request();
    assert_eq!(request.prompt, Some("p".to_string()));
    assert_eq!(request.max_tokens, 7);
    assert_eq!(HttpServerArgs { port: None }.port_or(80), 80);
    assert_eq!(HttpServerArgs { port: Some(1) }.port_or(80), 1);
    let request = GenerateArgs {
        model: "m".to_string(),
        prompt: "p".to_string(),
        model_parameters_preset_id: None,
        existing_thread_id: Some("t".to_string()),
        save_thread: true,
        max_tokens: 7,
        stream: false,
    }
    .into_request();
    assert_eq!(request.existing_thread_id, Some("t".to_string()));
    let parameters = request.parameters.unwrap();
    assert_eq!(parameters.custom_prompt_template, Some("p".to_string()));
    assert_eq!(parameters.max_tokens, Some(7));
}
