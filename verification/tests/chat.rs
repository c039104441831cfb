use llmvm::chat::{
    get_output_prefix, show_event, ChatApp, ChatArgs, FirstThread, InputStep, CONSOLE_HELP,
};
use llmvm::core_lib::threads::ThreadEvent;
use llmvm::protocol::{Message, MessageRole};
use serde_json::Value;

fn args() -> ChatArgs {
    ChatArgs {
        preset: Some("gpt-3.5-chat".to_string()),
        model: None,
        load_last_chat: false,
        load_thread_id: None,
        tag: None,
        session_id: None,
    }
}

fn chat(args: ChatArgs) -> ChatApp {
    ChatApp::new(args, Some("/dir".to_string()), "me".to_string()).0
}

#[test]
fn lines_begin_with_their_speaker() {
    let id = "me".to_string();
    assert_eq!(
        get_output_prefix(MessageRole::User, Some(&id), false, false),
        "\x1b[1;36myou (me) > \x1b[0m"
    );
    assert_eq!(get_output_prefix(MessageRole::User, None, false, true), "you > \x1b[0m");
    assert_eq!(
        get_output_prefix(MessageRole::User, None, true, false),
        "\x1b[1;32mconsole > \x1b[0m"
    );
    assert_eq!(get_output_prefix(MessageRole::User, None, true, true), "console > \x1b[0m");
    assert_eq!(
        get_output_prefix(MessageRole::Assistant, None, true, false),
        "\x1b[1;33massistant > \x1b[0m"
    );
    assert_eq!(get_output_prefix(MessageRole::Assistant, None, false, true), "assistant > \x1b[0m");
    assert!(CONSOLE_HELP.contains("new_group_thread"));
}

#[test]
fn events_are_shown() {
    let id = "me".to_string();
    let message = ThreadEvent::Message {
        message: Message {
            client_id: Some("you".to_string()),
            role: MessageRole::User,
            content: Some("hi".to_string()),
            tool_calls: None,
            tool_call_results: None,
        },
    };
    assert_eq!(
        show_event(&message, &id, true, true),
        "\ryou (you) > \x1b[0mhi\n\rconsole (me) > \x1b[0m"
    );
    let thread = ThreadEvent::NewThread { thread_id: "t1".to_string() };
    assert_eq!(
        show_event(&thread, &id, false, true),
        "\r\nNew thread started in group: t1\n\n\ryou (me) > \x1b[0m"
    );
    let other = ThreadEvent::NewSubscriber { client_id: "x".to_string() };
    assert_eq!(show_event(&other, &id, false, true), "\ryou (me) > \x1b[0m");
}

#[test]
fn first_thread_is_chosen() {
    let (app, first) = ChatApp::new(args(), None, "me".to_string());
    assert!(matches!(first, FirstThread::Given(None)));
    assert!(app.session_id.is_none() && app.thread_id.is_none());
    let last = ChatArgs { load_last_chat: true, load_thread_id: Some("t".to_string()), ..args() };
    assert!(matches!(ChatApp::new(last, None, "me".to_string()).1, FirstThread::Last));
    let given = ChatArgs { load_thread_id: Some("t".to_string()), ..args() };
    assert!(matches!(
        ChatApp::new(given, None, "me".to_string()).1,
        FirstThread::Given(Some(id)) if id == "t"
    ));
    let tagged = ChatArgs { tag: Some("tag".to_string()), load_last_chat: true, ..args() };
    assert!(ChatApp::needs_current_dir(&tagged));
    let (app, first) = ChatApp::new(tagged, Some("/dir".to_string()), "me".to_string());
    assert!(matches!(first, FirstThread::Given(None)));
    assert_eq!(app.session_id, Some("/dir".to_string()));
}

#[test]
fn model_is_asked_what_the_user_says() {
    let mut app = chat(ChatArgs { model: Some("m".to_string()), ..args() });
    assert!(app.receive_thread(Some("t".to_string())));
    match app.handle_input("  hello \n") {
        InputStep::Generate(request) => {
            assert_eq!(request.preset_id, Some("gpt-3.5-chat".to_string()));
            assert_eq!(request.custom_prompt, Some("hello".to_string()));
            assert_eq!(request.existing_thread_id, Some("t".to_string()));
            assert_eq!(request.client_id, Some("me".to_string()));
            assert!(request.save_thread);
            let parameters = request.parameters.unwrap();
            assert_eq!(parameters.model, Some("m".to_string()));
            let said = parameters.prompt_parameters.unwrap();
            assert_eq!(said["user_message"], Value::from("hello"));
        }
        _ => panic!("not asked"),
    }
    let mut app = chat(args());
    match app.handle_input("x") {
        InputStep::Generate(request) => assert!(request.parameters.is_none()),
        _ => panic!("not asked"),
    }
}

#[test]
fn tag_is_followed_instead_of_a_thread() {
    let mut app = chat(ChatArgs { tag: Some("tag".to_string()), ..args() });
    app.receive_thread(Some("t".to_string()));
    match app.handle_input("x") {
        InputStep::Generate(request) => {
            assert_eq!(request.existing_thread_id, None);
            assert_eq!(request.session_tag, Some("tag".to_string()));
            assert_eq!(request.session_id, Some("/dir".to_string()));
        }
        _ => panic!("not asked"),
    }
    let messages = app.existing_messages_request().unwrap();
    assert_eq!(messages.thread_id, Some("t".to_string()));
    let listen = app.listening_request().unwrap();
    assert_eq!(listen.thread_id, None);
    assert_eq!(listen.client_id, "me");
    app.listening_started();
    assert!(app.listening_request().is_none());
}

#[test]
fn nothing_is_followed_without_a_thread() {
    let mut app = chat(args());
    assert!(app.listening_request().is_none());
    assert!(app.existing_messages_request().is_none());
    assert!(!app.receive_thread(None));
    app.receive_thread(Some("t".to_string()));
    assert_eq!(app.listening_request().unwrap().thread_id, Some("t".to_string()));
}

#[test]
fn console_is_apart_from_the_chat() {
    let mut app = chat(ChatArgs {
        tag: Some("tag".to_string()),
        session_id: Some("s".to_string()),
        ..args()
    });
    assert!(matches!(app.handle_input("exit"), InputStep::Stop));
    assert!(matches!(app.handle_input(" !c "), InputStep::EnterConsole));
    assert_eq!(app.input_prefix(true), "console (me) > \x1b[0m");
    assert!(matches!(app.handle_input("exit"), InputStep::Nothing));
    assert!(matches!(
        app.handle_input("new_group_thread"),
        InputStep::NewThread { session_id, tag } if session_id == "s" && tag == "tag"
    ));
    assert!(matches!(app.handle_input("ret"), InputStep::Nothing));
    assert!(!app.in_console);
    let mut app = chat(args());
    app.handle_input("!c");
    assert!(matches!(app.handle_console_input("new_group_thread"), InputStep::Nothing));
}
