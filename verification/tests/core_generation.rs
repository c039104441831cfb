use llmvm::core_lib::error::{CoreError, RequiredParameter, ToolCallFault};
use llmvm::core_lib::generation::{
    add_session, can_add_session, can_prepare_prompt, drop_system, finish_generation, finish_prompt,
    merge_generation_parameters, prepare_for_generate, prepare_prompt, resolve_parameters, session_of,
    thread_of, GenerationPreparation, PreparedPrompt,
};
use llmvm::core_lib::presets::{load_preset, preset_file_name};
use llmvm::core_lib::prompts::{template_file_name, ReadyPrompt};
use llmvm::core_lib::service::{backend_command, needs_new_subscription, ReplyStream};
use llmvm::core_lib::sessions::{new_subscriber, store_session_prompt_parameter, SessionSubscriberInfo};
use llmvm::core_lib::threads::{
    choose_thread_infos, comes_before, is_result_file, is_thread_file, is_thread_old, last_thread_info,
    messages_to_store, modified_text, new_thread_id, session_thread, sort_thread_infos, thread_file_name, thread_id_at, thread_id_from,
    thread_source, thread_ttl_secs, thread_with_reply, FileChange, Look, ThreadEvent, ThreadFollower,
    ThreadInfo, ThreadSource,
};
use llmvm::core_lib::tools::inject_client_id_into_tools;
use llmvm::protocol::{
    BackendGenerationResponse, BackendToolCall, GenerationParameters, GenerationRequest,
    GetThreadMessagesRequest, Message, MessageRole, ModelDescription, SessionPromptParameter, Tool,
    ToolCallResult, ToolType,
};
use serde_json::Value;

fn value(text: &str) -> Value {
    serde_json::from_str(text).unwrap()
}

fn members(text: &str) -> Option<serde_json::Map<String, Value>> {
    value(text).as_object().cloned()
}

fn request() -> GenerationRequest {
    GenerationRequest {
        preset_id: None,
        parameters: None,
        custom_prompt: None,
        existing_thread_id: None,
        session_id: None,
        session_tag: None,
        save_thread: true,
        client_id: Some("me".to_string()),
    }
}

fn description() -> ModelDescription {
    ModelDescription {
        backend: "b".to_string(),
        provider: "p".to_string(),
        model_name: "m".to_string(),
        endpoint: None,
        chat: true,
    }
}

fn message(role: MessageRole, content: &str) -> Message {
    Message {
        client_id: None,
        role,
        content: Some(content.to_string()),
        tool_calls: None,
        tool_call_results: None,
    }
}

fn text_tool() -> Tool {
    Tool {
        name: "t".to_string(),
        description: "d".to_string(),
        input_schema: value(r#"{"properties":{"n":{"type":"integer"}}}"#),
        tool_type: ToolType::Text,
    }
}

fn subscriber(tools: Vec<Tool>) -> SessionSubscriberInfo {
    let mut info = new_subscriber(Some(tools));
    info.client_id = "c".to_string();
    info
}

fn prompt(main: &str, system: Option<&str>) -> PreparedPrompt {
    PreparedPrompt {
        prompt: ReadyPrompt {
            system_prompt: system.map(|s| s.to_string()),
            main_prompt: Some(main.to_string()),
        },
        subscriber_infos: None,
        native_tools: None,
        text_tools_used: false,
    }
}

fn parameters() -> GenerationParameters {
    GenerationParameters { max_tokens: Some(5), ..Default::default() }
}

#[test]
fn request_comes_before_preset() {
    let preset = GenerationParameters {
        model: Some("p".to_string()),
        max_tokens: Some(1),
        model_parameters: members(r#"{"a":1,"b":1}"#),
        ..Default::default()
    };
    let asked = GenerationParameters {
        model: Some("r".to_string()),
        model_parameters: members(r#"{"b":2,"c":2}"#),
        ..Default::default()
    };
    let both = merge_generation_parameters(preset.clone(), asked);
    assert_eq!(both.model, Some("r".to_string()));
    assert_eq!(both.max_tokens, Some(1));
    assert_eq!(both.model_parameters, members(r#"{"a":1,"b":2,"c":2}"#));
    let same = merge_generation_parameters(preset, Default::default());
    assert_eq!(same.model_parameters, members(r#"{"a":1,"b":1}"#));
}

#[test]
fn parameters_are_resolved() {
    let mut asked = request();
    assert!(matches!(resolve_parameters(&asked, None), Err(CoreError::MissingParameters)));
    asked.parameters = Some(Default::default());
    assert!(matches!(
        resolve_parameters(&asked, None),
        Err(CoreError::MissingParameter(RequiredParameter::Model))
    ));
    let preset = GenerationParameters { model: Some("m".to_string()), ..Default::default() };
    let (found, model) = resolve_parameters(&asked, Some(preset)).unwrap();
    assert_eq!(model, "m");
    assert_eq!(found.max_tokens, Some(2048));
}

#[test]
fn session_and_thread_of_a_request() {
    let mut asked = request();
    assert!(session_of(&asked).is_none());
    assert!(thread_of(&asked).is_none());
    asked.session_id = Some("s".to_string());
    assert!(session_of(&asked).is_none());
    assert!(thread_of(&asked).is_some());
    asked.session_tag = Some("t".to_string());
    assert_eq!(session_of(&asked), Some(("s".to_string(), "t".to_string())));
    assert_eq!(thread_of(&asked).unwrap().session_tag, Some("t".to_string()));
}

#[test]
fn session_is_added_to_the_prompt_parameters() {
    let mut infos = vec![subscriber(vec![text_tool()])];
    inject_client_id_into_tools(&mut infos);
    let value_of = SessionPromptParameter { persistent: true, value: Value::from(2) };
    store_session_prompt_parameter(&mut infos[0], "k".to_string(), Some(value_of));
    let mut parameters = Value::Null;
    assert!(can_add_session(&parameters, &infos));
    assert!(add_session(&mut parameters, &infos));
    let expected = value(
        r#"{"k":2,"text_tools":[{"name":"t_c","description":"d","arguments":["n: \n"],
            "usage_format":"$$llmvm_tool$$ t_c:n=\"value of n\";\n\n"}]}"#,
    );
    assert_eq!(parameters, expected);
    assert!(!can_add_session(&Value::from(1), &infos));
    let mut plain = value("[]");
    assert!(can_add_session(&plain, &vec![]));
    assert!(!add_session(&mut plain, &vec![]));
    assert_eq!(plain, value("[]"));
}

#[test]
fn prompt_is_prepared() {
    let mut asked = request();
    let mut given = parameters();
    given.prompt_parameters = Some(value(r#"{"who":"Ann"}"#));
    given.prompt_template_id = Some("x".to_string());
    let stored = Some("{{#system_role}}S{{/system_role}}Hi {{who}}".to_string());
    assert!(can_prepare_prompt(&given, &None, &stored, &None));
    let circular = Some("{{#*inline \"a\"}}{{> a}}{{/inline}}{{> a}}".to_string());
    assert!(!can_prepare_prompt(&given, &None, &circular, &None));
    assert!(!can_prepare_prompt(&given, &None, &None, &circular));
    assert!(can_prepare_prompt(&given, &None, &stored, &circular));
    assert!(can_prepare_prompt(&parameters(), &None, &circular, &None));
    let prepared = prepare_prompt(&asked, &given, None, stored.clone(), None, true).unwrap();
    assert_eq!(prepared.prompt.main_prompt, Some("Hi Ann".to_string()));
    assert_eq!(prepared.prompt.system_prompt, Some("S".to_string()));
    assert!(!prepared.text_tools_used && prepared.native_tools.is_none());
    let missing = prepare_prompt(&asked, &given, None, None, None, true);
    assert!(matches!(missing, Err(CoreError::TemplateNotFound)));
    let broken = prepare_prompt(&asked, &given, None, Some("{{#if".to_string()), None, true);
    assert!(matches!(broken, Err(CoreError::TemplateRender(_))));
    asked.custom_prompt = Some("own".to_string());
    let prepared = prepare_prompt(&asked, &given, None, stored, None, true).unwrap();
    assert_eq!(prepared.prompt.main_prompt, Some("own".to_string()));
    let bare = prepare_prompt(&request(), &parameters(), None, None, None, true);
    assert!(matches!(bare, Err(CoreError::TemplateNotFound)));
    let subscribers = Some(vec![subscriber(vec![text_tool()])]);
    let prepared = prepare_prompt(&asked, &parameters(), subscribers, None, None, true).unwrap();
    assert!(prepared.text_tools_used);
    assert_eq!(prepared.subscriber_infos.unwrap()[0].tools.as_ref().unwrap()[0].name, "t_c");
}

#[test]
fn main_prompt_is_needed() {
    assert!(matches!(finish_prompt(ReadyPrompt::default(), None), Err(CoreError::TemplateNotFound)));
    let given = finish_prompt(ReadyPrompt::default(), Some("x".to_string())).unwrap();
    assert_eq!(given.main_prompt, Some("x".to_string()));
}

#[test]
fn system_prompt_is_the_only_system_message() {
    let thread = vec![
        message(MessageRole::System, "old"),
        message(MessageRole::User, "u"),
        message(MessageRole::System, "older"),
    ];
    let (asked, kept) = prepare_for_generate(
        &request(),
        parameters(),
        "m".to_string(),
        description(),
        prompt("say", Some("new")),
        Some((thread, "t1".to_string())),
    )
    .unwrap();
    let messages = asked.thread_messages.unwrap();
    assert_eq!(messages.len(), 2);
    assert_eq!(messages[0].content, Some("u".to_string()));
    assert_eq!(messages[1].role, MessageRole::System);
    assert_eq!(messages[1].content, Some("new".to_string()));
    assert_eq!(asked.prompt, Some("say".to_string()));
    assert_eq!(asked.max_tokens, 5);
    assert_eq!(kept.existing_thread_id, Some("t1".to_string()));
    assert_eq!(kept.thread_messages_to_save.unwrap().len(), 3);
}

#[test]
fn results_of_calls_go_apart_beside_a_system_prompt() {
    let mut last = message(MessageRole::User, "r");
    last.tool_call_results =
        Some(vec![ToolCallResult { id: "1".to_string(), result: None, is_fatal_error: false }]);
    let thread = vec![message(MessageRole::User, "u"), last, message(MessageRole::System, "old")];
    let (asked, kept) = prepare_for_generate(
        &request(),
        parameters(),
        "m".to_string(),
        description(),
        prompt("say", Some("new")),
        Some((thread, "t1".to_string())),
    )
    .unwrap();
    assert_eq!(asked.prompt, None);
    assert_eq!(asked.tool_call_results.unwrap()[0].id, "1");
    let messages = asked.thread_messages.unwrap();
    assert_eq!(messages.len(), 2);
    assert_eq!(messages[0].content, Some("u".to_string()));
    assert_eq!(messages[1].content, Some("new".to_string()));
    let saved = kept.thread_messages_to_save.unwrap();
    assert_eq!(saved.len(), 3);
    assert_eq!(saved[2].role, MessageRole::User);
    assert_eq!(saved[2].tool_call_results.as_ref().unwrap()[0].id, "1");
}

#[test]
fn results_of_calls_go_apart() {
    let mut last = message(MessageRole::User, "r");
    last.tool_call_results =
        Some(vec![ToolCallResult { id: "1".to_string(), result: None, is_fatal_error: false }]);
    let thread = vec![message(MessageRole::User, "u"), last];
    let mut wanted = request();
    wanted.save_thread = false;
    let prepared = |wanted: &GenerationRequest| {
        prepare_for_generate(
            wanted,
            parameters(),
            "m".to_string(),
            description(),
            prompt("say", None),
            Some((thread.clone(), "t1".to_string())),
        )
        .unwrap()
    };
    let (asked, kept) = prepared(&wanted);
    assert_eq!(asked.prompt, None);
    assert_eq!(asked.tool_call_results.unwrap()[0].id, "1");
    assert_eq!(asked.thread_messages.unwrap().len(), 1);
    assert!(kept.thread_messages_to_save.is_none());
    wanted.custom_prompt = Some("say".to_string());
    assert_eq!(prepared(&wanted).0.prompt, Some("say".to_string()));
    let missing = prepare_for_generate(
        &wanted,
        Default::default(),
        "m".to_string(),
        description(),
        prompt("say", None),
        None,
    );
    assert!(matches!(missing, Err(CoreError::MissingParameter(RequiredParameter::MaxTokens))));
}

fn preparation(save: bool, infos: Option<Vec<SessionSubscriberInfo>>, text: bool) -> GenerationPreparation {
    GenerationPreparation {
        model_description: description(),
        thread_messages_to_save: if save { Some(vec![message(MessageRole::User, "u")]) } else { None },
        existing_thread_id: None,
        subscriber_infos: infos,
        text_tools_used: text,
    }
}

#[test]
fn reply_is_finished_and_saved() {
    let kept = preparation(true, None, false);
    assert!(kept.needs_thread_id());
    let finished =
        finish_generation(&request(), "hi".to_string(), None, kept, false, Some("new".to_string()))
            .unwrap()
            .unwrap();
    assert_eq!(finished.response.response, Some("hi".to_string()));
    assert_eq!(finished.response.thread_id, Some("new".to_string()));
    assert!(finished.helper.is_none());
    let (id, messages) = finished.thread.unwrap();
    assert_eq!(id, "new");
    assert_eq!(messages[1].role, MessageRole::Assistant);
    assert_eq!(messages[1].content, Some("hi".to_string()));
    let kept = preparation(false, None, false);
    assert!(!kept.needs_thread_id());
    let finished = finish_generation(&request(), "hi".to_string(), None, kept, true, None).unwrap().unwrap();
    assert_eq!(finished.response.response, None);
    assert!(finished.thread.is_none());
}

#[test]
fn reply_with_calls_is_finished() {
    let mut infos = vec![subscriber(vec![text_tool()])];
    inject_client_id_into_tools(&mut infos);
    let native = || {
        Some(vec![BackendToolCall {
            id: "1".to_string(),
            name: "t_c".to_string(),
            arguments: Value::Null,
        }])
    };
    let text = "$$llmvm_tool$$ t_c:n=\"4\";".to_string();
    let kept = preparation(true, Some(infos.clone()), true);
    let finished =
        finish_generation(&request(), text, native(), kept, false, Some("new".to_string())).unwrap().unwrap();
    let calls = finished.response.tool_calls.unwrap();
    assert_eq!(calls.len(), 2);
    assert_eq!(calls[0].arguments, value(r#"{"n":4}"#));
    assert_eq!(calls[1].id, Some("1".to_string()));
    let helper = finished.helper.unwrap();
    assert_eq!(helper.thread_id, "new");
    assert_eq!(helper.tool_results[0].id, "1");
    let kept = preparation(false, Some(infos.clone()), true);
    assert!(finish_generation(&request(), "$$llmvm_tool$$ t".to_string(), None, kept, false, None).is_none());
    let kept = preparation(false, None, true);
    let failed = finish_generation(&request(), "x".to_string(), native(), kept, false, None).unwrap();
    assert!(matches!(failed, Err(CoreError::ToolCallParse(ToolCallFault::ToolNotFound))));
}

#[test]
fn stored_threads_have_no_system_messages() {
    let thread = vec![message(MessageRole::System, "s"), message(MessageRole::User, "u")];
    assert_eq!(messages_to_store(&thread).len(), 1);
    assert_eq!(drop_system(&thread)[0].content, Some("u".to_string()));
}

#[test]
fn threads_have_names_and_ages() {
    assert_eq!(thread_file_name("t"), "t.json");
    assert_eq!(thread_id_at("now", "abc"), "now_abc");
    assert_eq!(thread_id_from(Some("now".to_string()), "abc"), Some("now_abc".to_string()));
    assert_eq!(thread_id_from(None, "abc"), None);
    assert_eq!(thread_ttl_secs(Some(5)), 5);
    assert!(is_thread_old(6, 0, 5) && is_thread_old(5, 1, 5) && !is_thread_old(5, 0, 5));
    if let Some(id) = new_thread_id() {
        let parts: Vec<&str> = id.trim_start_matches('-').split('_').collect();
        let lengths: Vec<usize> = parts.iter().map(|part| part.len()).collect();
        assert_eq!(lengths, vec![10, 5, 8]);
        let random = id.rsplit('_').next().unwrap();
        assert!(random.len() > 0 && random.chars().all(|c| c.is_ascii_alphanumeric()));
    }
}

#[test]
fn threads_are_listed_latest_first() {
    let info = |id: &str, modified: Option<&str>| ThreadInfo {
        id: id.to_string(),
        modified: modified.map(|m| m.to_string()),
    };
    assert!(comes_before("a", "b") && comes_before("", "a") && !comes_before("b", "a"));
    let sorted = sort_thread_infos(vec![
        info("a", Some("2023-01-01")),
        info("b", Some("2024-01-01")),
        info("c", Some("2022-01-01")),
    ]);
    let ids: Vec<&str> = sorted.iter().map(|i| i.id.as_str()).collect();
    assert_eq!(ids, vec!["b", "a", "c"]);
    assert_eq!(last_thread_info(sorted).id, "b");
    let home = || Some(vec![info("h", None)]);
    assert_eq!(choose_thread_infos(Some(vec![]), home())[0].id, "h");
    assert_eq!(choose_thread_infos(Some(vec![info("p", None)]), home())[0].id, "p");
    assert_eq!(choose_thread_infos(None, home())[0].id, "h");
    assert!(choose_thread_infos(None, None).is_empty());
}

#[test]
fn thread_gets_the_reply() {
    let saved = thread_with_reply(
        None,
        "r".to_string(),
        None,
        Some(vec![]),
        Some("old".to_string()),
        Some("fresh".to_string()),
    )
    .unwrap();
    assert_eq!(saved.0, "old");
    assert_eq!(saved.1[0].role, MessageRole::Assistant);
    assert!(thread_with_reply(None, "r".to_string(), None, None, None, None).is_none());
}

#[test]
fn threads_are_found() {
    let wanted = |thread: Option<&str>, session: Option<&str>, tag: Option<&str>| {
        thread_source(&GetThreadMessagesRequest {
            thread_id: thread.map(|s| s.to_string()),
            session_id: session.map(|s| s.to_string()),
            session_tag: tag.map(|s| s.to_string()),
        })
    };
    assert!(matches!(wanted(Some("t"), Some("s"), Some("x")), Ok(ThreadSource::Thread(id)) if id == "t"));
    assert!(matches!(wanted(None, Some("s"), Some("x")), Ok(ThreadSource::Session(s, t)) if s == "s" && t == "x"));
    assert!(matches!(wanted(None, Some("s"), None), Err(CoreError::ThreadNotFound)));
    assert_eq!(session_thread(Some("t".to_string()), true), Some("t".to_string()));
    assert_eq!(session_thread(Some("t".to_string()), false), None);
}

#[test]
fn thread_is_followed() {
    let mut follower = ThreadFollower {
        client_id: "me".to_string(),
        thread_id: "t1".to_string(),
        has_session: true,
        last_count: 1,
    };
    assert!(matches!(follower.on_file(FileChange::Modified, "info.json"), Look::SessionInfo));
    assert!(matches!(follower.on_file(FileChange::Modified, "t1.json"), Look::Messages));
    assert!(matches!(follower.on_file(FileChange::Created, "you.json"), Look::Subscriber(id) if id == "you"));
    assert!(matches!(follower.on_file(FileChange::Created, "t1.json"), Look::Nothing));
    assert!(matches!(follower.on_file(FileChange::Other, "t1.json"), Look::Nothing));
    let mut own = message(MessageRole::User, "mine");
    own.client_id = Some("me".to_string());
    let thread = vec![message(MessageRole::User, "known"), own, message(MessageRole::Assistant, "new")];
    let events = follower.on_messages(&thread);
    assert_eq!(events.len(), 1);
    assert!(matches!(&events[0], ThreadEvent::Message { message } if message.content == Some("new".to_string())));
    assert!(follower.on_messages(&thread).is_empty());
    assert!(follower.on_session_info(Some("t1".to_string())).is_none());
    assert!(follower.on_session_info(None).is_none());
    let event = follower.on_session_info(Some("t2".to_string())).unwrap();
    assert!(needs_new_subscription(&event));
    assert!(matches!(event, ThreadEvent::NewThread { thread_id } if thread_id == "t2"));
    assert!(!needs_new_subscription(&ThreadEvent::NewSubscriber { client_id: "x".to_string() }));
}

#[test]
fn streamed_replies_are_gathered() {
    let mut stream = ReplyStream::new();
    let part = |text: Option<&str>, calls: usize| BackendGenerationResponse {
        response: text.map(|t| t.to_string()),
        tool_call_part: Some("p".to_string()),
        tool_calls: if calls == 0 {
            None
        } else {
            Some(vec![BackendToolCall { id: "1".to_string(), name: "n".to_string(), arguments: Value::Null }])
        },
    };
    let passed = stream.push(part(Some("a"), 1));
    assert_eq!(passed.response, Some("a".to_string()));
    assert_eq!(passed.tool_call_part, Some("p".to_string()));
    assert!(passed.tool_calls.is_none());
    stream.push(part(None, 0));
    stream.push(part(Some("b"), 1));
    assert_eq!(stream.full_response, "ab");
    assert_eq!(stream.tool_calls.unwrap().len(), 2);
}

#[test]
fn files_of_presets_and_templates() {
    assert_eq!(preset_file_name("p"), "p.toml");
    assert_eq!(template_file_name("t"), "t.hbs");
    assert_eq!(load_preset(Some("s".to_string()), Some("b".to_string())).unwrap(), "s");
    assert_eq!(load_preset(None, Some("b".to_string())).unwrap(), "b");
    assert!(matches!(load_preset(None, None), Err(CoreError::PresetNotFound)));
    assert_eq!(ReadyPrompt::load_template(None, Some("b".to_string())).unwrap(), "b");
    assert!(matches!(ReadyPrompt::load_template(None, None), Err(CoreError::TemplateNotFound)));
    let plain = ReadyPrompt::from_rendered(" m ", Some(" s ".to_string()), false);
    assert_eq!(plain.system_prompt, None);
    assert!(plain.main_prompt.unwrap().contains("s"));
    assert!(backend_command("x").ends_with("x"));
}

#[test]
fn results_come_in_files_of_subscribers() {
    assert!(is_result_file(FileChange::Modified, "c.json"));
    assert!(!is_result_file(FileChange::Modified, "info.json"));
    assert!(!is_result_file(FileChange::Created, "c.json"));
    assert!(!is_result_file(FileChange::Other, "c.json"));
    assert!(is_thread_file(Some("json")));
    assert!(!is_thread_file(Some("Json")) && !is_thread_file(Some("")) && !is_thread_file(None));
}

#[test]
fn times_are_shown_in_the_form_of_rfc_3339() {
    let shown = |before, secs, nanos| modified_text(before, secs, nanos).unwrap();
    assert_eq!(shown(false, 0, 0), "1970-01-01T00:00:00Z");
    assert_eq!(shown(false, 1_546_300_800, 250_000_000), "2019-01-01T00:00:00.25Z");
    assert_eq!(shown(true, 0, 500_000_000), "1969-12-31T23:59:59.5Z");
    assert_eq!(modified_text(false, u64::MAX, u32::MAX), None);
    assert_eq!(modified_text(true, u64::MAX, u32::MAX), None);
}
