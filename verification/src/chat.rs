//! Talking to a model on a terminal.

use vstd::prelude::*;
use crate::core_lib::threads::{ThreadEvent, ThreadEventModel};
use crate::json::{map_insert, new_map, no_members, object_value, text_value, Json};
use crate::protocol::{
    GenerationParameters, GenerationParametersModel, GenerationRequest, GenerationRequestModel,
    GetThreadMessagesRequest, GetThreadMessagesRequestModel, MessageRole, SubscribeToThreadRequest,
    SubscribeToThreadRequestModel,
};
use crate::text::{contains, occurs_at, same, trimmed};

verus! {

/// The prompt parameter that holds what the user says.
pub const MESSAGE_PROMPT_PARAM: &'static str = "user_message";

/// What the user can do in the console.
pub const CONSOLE_HELP: &'static str = "\nAvailable commands:\nnew_group_thread - Creates a new thread within thread group, if one is being used\nret - Return to the chat\n";

const USER_ROLE_PREFIX: &'static str = "\x1b[1;36myou";

const ASSISTANT_ROLE_PREFIX: &'static str = "\x1b[1;33massistant";

const CONSOLE_ROLE_PREFIX: &'static str = "\x1b[1;32mconsole";

const CONSOLE_ROLE_NO_COLOR_PREFIX: &'static str = "console";

const RESET_COLOR: &'static str = "\x1b[0m";

const USER_ROLE_NO_COLOR_PREFIX: &'static str = "you";

const ASSISTANT_ROLE_NO_COLOR_PREFIX: &'static str = "assistant";

// ---------------------------------------------------------------------------------------------
// What is shown.

/// The name of a speaker. In the console, what the user types is no speech.
pub open spec fn speaker(role: MessageRole, in_console: bool, no_color: bool) -> Seq<char> {
    match role {
        MessageRole::Assistant => if no_color {
            "assistant"@
        } else {
            "\x1b[1;33massistant"@
        },
        _ => if in_console {
            if no_color {
                "console"@
            } else {
                "\x1b[1;32mconsole"@
            }
        } else {
            if no_color {
                "you"@
            } else {
                "\x1b[1;36myou"@
            }
        },
    }
}

/// What stands before a line: who speaks, and through which client.
pub open spec fn prefix(
    role: MessageRole,
    client_id: Option<Seq<char>>,
    in_console: bool,
    no_color: bool,
) -> Seq<char> {
    match client_id {
        Some(client_id) => speaker(role, in_console, no_color) + " ("@ + client_id + ") > "@
            + "\x1b[0m"@,
        None => speaker(role, in_console, no_color) + " > "@ + "\x1b[0m"@,
    }
}

/// What stands before a line: who speaks, and through which client. The system never speaks.
pub fn get_output_prefix(
    role: MessageRole,
    client_id: Option<&String>,
    in_console: bool,
    no_color: bool,
) -> (r: String)
    requires
        role != MessageRole::System,
    ensures
        r@ == prefix(
            role,
            match client_id {
                Some(id) => Some(id@),
                None => None,
            },
            in_console,
            no_color,
        ),
{
    let role_str = match role {
        MessageRole::Assistant => if no_color {
            ASSISTANT_ROLE_NO_COLOR_PREFIX
        } else {
            ASSISTANT_ROLE_PREFIX
        },
        _ => if in_console {
            if no_color {
                CONSOLE_ROLE_NO_COLOR_PREFIX
            } else {
                CONSOLE_ROLE_PREFIX
            }
        } else {
            if no_color {
                USER_ROLE_NO_COLOR_PREFIX
            } else {
                USER_ROLE_PREFIX
            }
        },
    };
    let mut r = role_str.to_owned();
    match client_id {
        Some(client_id) => {
            r.append(" (");
            r.append(client_id.as_str());
            r.append(") > ");
        },
        None => {
            r.append(" > ");
        },
    }
    r.append(RESET_COLOR);
    r
}

/// What is shown for a text that may be missing.
pub open spec fn shown(content: Option<Seq<char>>) -> Seq<char> {
    match content {
        Some(text) => text,
        None => Seq::empty(),
    }
}

/// What is shown of what happens to a thread, before the user goes on typing.
pub open spec fn event_text(event: ThreadEventModel, no_color: bool) -> Seq<char> {
    match event {
        ThreadEventModel::Message { message } => "\r"@ + prefix(
            message.role,
            message.client_id,
            false,
            no_color,
        ) + shown(message.content) + "\n"@,
        ThreadEventModel::NewThread { thread_id } => "\r\nNew thread started in group: "@ + thread_id
            + "\n\n"@,
        _ => Seq::empty(),
    }
}

/// Whether what happens to a thread can be shown: the system never speaks.
pub open spec fn can_be_shown(event: ThreadEventModel) -> bool {
    event matches ThreadEventModel::Message { message } ==> message.role != MessageRole::System
}

/// What is shown of what happens to a thread, and the prefix of the line that the user types.
pub fn show_event(event: &ThreadEvent, client_id: &String, in_console: bool, no_color: bool) -> (r: String)
    requires
        can_be_shown(event.deep_view()),
    ensures
        r@ == event_text(event.deep_view(), no_color) + "\r"@ + prefix(
            MessageRole::User,
            Some(client_id@),
            in_console,
            no_color,
        ),
{
    let mut r = String::new();
    match event {
        ThreadEvent::Message { message } => {
            r.append("\r");
            let before = get_output_prefix(
                message.role,
                message.client_id.as_ref(),
                false,
                no_color,
            );
            r.append(before.as_str());
            if let Some(content) = &message.content {
                r.append(content.as_str());
            }
            r.append("\n");
        },
        ThreadEvent::NewThread { thread_id } => {
            r.append("\r\nNew thread started in group: ");
            r.append(thread_id.as_str());
            r.append("\n\n");
        },
        _ => {},
    }
    assert(r@ =~= event_text(event.deep_view(), no_color));
    r.append("\r");
    let before = get_output_prefix(MessageRole::User, Some(client_id), in_console, no_color);
    r.append(before.as_str());
    r
}

// ---------------------------------------------------------------------------------------------
// The conversation.

/// What the user asks for on the command line.
#[derive(Debug)]
pub struct ChatArgs {
    /// The preset to use.
    pub preset: Option<String>,
    /// The model to use instead of that of the preset.
    pub model: Option<String>,
    /// Whether to go on with the last thread.
    pub load_last_chat: bool,
    /// The thread to go on with.
    pub load_thread_id: Option<String>,
    /// The thread of a session to go on with, before any other.
    pub tag: Option<String>,
    /// The session. With a tag alone, it is that of the current directory.
    pub session_id: Option<String>,
}

/// The thread to begin with.
#[derive(Debug)]
pub enum FirstThread {
    /// The last thread that was used.
    Last,
    /// This one, if there is one.
    Given(Option<String>),
}

/// What is to be done about a line that the user typed.
#[derive(Debug)]
pub enum InputStep {
    /// The program ends.
    Stop,
    /// The user has entered the console, and is told what can be done there.
    EnterConsole,
    /// A new thread begins in the session.
    NewThread { session_id: String, tag: String },
    /// Nothing more.
    Nothing,
    /// The model is asked.
    Generate(GenerationRequest),
}

/// What an [`InputStep`] says.
#[verifier::ext_equal]
pub ghost enum InputStepModel {
    Stop,
    EnterConsole,
    NewThread { session_id: Seq<char>, tag: Seq<char> },
    Nothing,
    Generate(GenerationRequestModel),
}

impl DeepView for InputStep {
    type V = InputStepModel;

    open spec fn deep_view(&self) -> InputStepModel {
        match self {
            InputStep::Stop => InputStepModel::Stop,
            InputStep::EnterConsole => InputStepModel::EnterConsole,
            InputStep::NewThread { session_id, tag } => InputStepModel::NewThread {
                session_id: session_id@,
                tag: tag@,
            },
            InputStep::Nothing => InputStepModel::Nothing,
            InputStep::Generate(request) => InputStepModel::Generate(request.deep_view()),
        }
    }
}

/// A conversation.
#[verifier::ext_equal]
pub ghost struct ChatModel {
    pub preset: Option<Seq<char>>,
    pub model: Option<Seq<char>>,
    pub tag: Option<Seq<char>>,
    pub session_id: Option<Seq<char>>,
    pub client_id: Seq<char>,
    pub thread_id: Option<Seq<char>>,
    /// Whether the thread is followed.
    pub listener_active: bool,
    /// Whether the user is in the console.
    pub in_console: bool,
}

impl ChatModel {
    /// The thread by its name, unless it is the one of a tag.
    pub open spec fn named_thread(self) -> Option<Seq<char>> {
        if self.tag is Some {
            None
        } else {
            self.thread_id
        }
    }

    /// The request for a reply to what the user says.
    pub open spec fn request(self, said: Seq<char>) -> GenerationRequestModel {
        GenerationRequestModel {
            preset_id: self.preset,
            parameters: match self.model {
                Some(model) => Some(
                    GenerationParametersModel {
                        model: Some(model),
                        prompt_parameters: Some(
                            Json::Object(
                                no_members().insert(MESSAGE_PROMPT_PARAM@, Json::Text(said)),
                            ),
                        ),
                        ..GenerationParametersModel::none()
                    },
                ),
                None => None,
            },
            custom_prompt: Some(said),
            existing_thread_id: self.named_thread(),
            session_id: self.session_id,
            session_tag: self.tag,
            save_thread: true,
            client_id: Some(self.client_id),
        }
    }

    /// What becomes of the conversation, and what is to be done, when the user types a line in the
    /// console.
    pub open spec fn on_console_input(self, said: Seq<char>) -> (ChatModel, InputStepModel) {
        if said == "new_group_thread"@ {
            match (self.session_id, self.tag) {
                (Some(session_id), Some(tag)) => (self, InputStepModel::NewThread { session_id, tag }),
                _ => (self, InputStepModel::Nothing),
            }
        } else if said == "ret"@ {
            (ChatModel { in_console: false, ..self }, InputStepModel::Nothing)
        } else {
            (self, InputStepModel::Nothing)
        }
    }

    /// What becomes of the conversation, and what is to be done, when the user types a line.
    pub open spec fn on_input(self, line: Seq<char>) -> (ChatModel, InputStepModel) {
        let said = trimmed(line);
        if self.in_console {
            self.on_console_input(said)
        } else if said == "exit"@ {
            (self, InputStepModel::Stop)
        } else if said == "!c"@ {
            (ChatModel { in_console: true, ..self }, InputStepModel::EnterConsole)
        } else {
            (self, InputStepModel::Generate(self.request(said)))
        }
    }
}

/// A conversation.
#[derive(Debug)]
pub struct ChatApp {
    pub preset: Option<String>,
    pub model: Option<String>,
    pub tag: Option<String>,
    pub session_id: Option<String>,
    pub client_id: String,
    pub thread_id: Option<String>,
    pub listener_active: bool,
    pub in_console: bool,
}

impl ChatApp {
    /// The conversation.
    pub open spec fn model(self) -> ChatModel {
        ChatModel {
            preset: self.preset.deep_view(),
            model: self.model.deep_view(),
            tag: self.tag.deep_view(),
            session_id: self.session_id.deep_view(),
            client_id: self.client_id@,
            thread_id: self.thread_id.deep_view(),
            listener_active: self.listener_active,
            in_console: self.in_console,
        }
    }

    /// Whether the current directory is to be the session.
    pub fn needs_current_dir(args: &ChatArgs) -> (r: bool)
        ensures
            r == (args.session_id is None && args.tag is Some),
    {
        args.session_id.is_none() && args.tag.is_some()
    }

    /// A conversation that has no thread yet, and the thread to begin with. A tag is followed wherever
    /// it leads.
    pub fn new(args: ChatArgs, current_dir: Option<String>, client_id: String) -> (r: (Self, FirstThread))
        ensures
            r.0.model() == (ChatModel {
                preset: args.preset.deep_view(),
                model: args.model.deep_view(),
                tag: args.tag.deep_view(),
                session_id: if args.session_id is None && args.tag is Some {
                    current_dir.deep_view()
                } else {
                    args.session_id.deep_view()
                },
                client_id: client_id@,
                thread_id: None,
                listener_active: false,
                in_console: false,
            }),
            match r.1 {
                FirstThread::Last => args.tag is None && args.load_last_chat,
                FirstThread::Given(id) => id.deep_view() == (if args.tag is Some {
                    None
                } else {
                    args.load_thread_id.deep_view()
                }) && !(args.tag is None && args.load_last_chat),
            },
    {
        let session_id = if Self::needs_current_dir(&args) {
            current_dir
        } else {
            args.session_id
        };
        let first = if args.tag.is_some() {
            FirstThread::Given(None)
        } else if args.load_last_chat {
            FirstThread::Last
        } else {
            FirstThread::Given(args.load_thread_id)
        };
        (
            ChatApp {
                preset: args.preset,
                model: args.model,
                tag: args.tag,
                session_id,
                client_id,
                thread_id: None,
                listener_active: false,
                in_console: false,
            },
            first,
        )
    }

    /// The request for the messages that there are already, if there can be any.
    pub fn existing_messages_request(&self) -> (r: Option<GetThreadMessagesRequest>)
        ensures
            r.deep_view() == (if self.thread_id is Some || self.tag is Some {
                Some(
                    GetThreadMessagesRequestModel {
                        thread_id: self.thread_id.deep_view(),
                        session_id: self.session_id.deep_view(),
                        session_tag: self.tag.deep_view(),
                    },
                )
            } else {
                None
            }),
    {
        if self.thread_id.is_some() || self.tag.is_some() {
            Some(
                GetThreadMessagesRequest {
                    thread_id: self.thread_id.clone(),
                    session_id: self.session_id.clone(),
                    session_tag: self.tag.clone(),
                },
            )
        } else {
            None
        }
    }

    fn named_thread(&self) -> (r: Option<String>)
        ensures
            r.deep_view() == self.model().named_thread(),
    {
        if self.tag.is_some() {
            None
        } else {
            self.thread_id.clone()
        }
    }

    /// The request to follow the thread, if it is not followed yet and there is one.
    pub fn listening_request(&self) -> (r: Option<SubscribeToThreadRequest>)
        ensures
            r.deep_view() == (if !self.listener_active && (self.thread_id is Some || self.tag is Some) {
                Some(
                    SubscribeToThreadRequestModel {
                        thread_id: self.model().named_thread(),
                        session_id: self.session_id.deep_view(),
                        session_tag: self.tag.deep_view(),
                        client_id: self.client_id@,
                        tools: None,
                    },
                )
            } else {
                None
            }),
    {
        if self.listener_active {
            return None;
        }
        if self.thread_id.is_some() || self.tag.is_some() {
            Some(
                SubscribeToThreadRequest {
                    thread_id: self.named_thread(),
                    session_id: self.session_id.clone(),
                    session_tag: self.tag.clone(),
                    client_id: self.client_id.clone(),
                    tools: None,
                },
            )
        } else {
            None
        }
    }

    /// The thread is followed from now on.
    pub fn listening_started(&mut self)
        ensures
            final(self).model() == (ChatModel { listener_active: true, ..old(self).model() }),
            final(self).listener_active,
    {
        self.listener_active = true;
    }

    /// Takes the name of the thread that came with a reply, and tells whether there was one.
    pub fn receive_thread(&mut self, thread_id: Option<String>) -> (r: bool)
        ensures
            r == (thread_id is Some),
            final(self).model() == (match thread_id.deep_view() {
                Some(id) => ChatModel { thread_id: Some(id), ..old(self).model() },
                None => old(self).model(),
            }),
            r ==> final(self).thread_id.deep_view() == thread_id.deep_view(),
            !r ==> final(self).thread_id.deep_view() == old(self).thread_id.deep_view(),
    {
        match thread_id {
            Some(id) => {
                self.thread_id = Some(id);
                true
            },
            None => false,
        }
    }

    fn request(&self, said: &str) -> (r: GenerationRequest)
        ensures
            r.deep_view() == self.model().request(said@),
    {
        let parameters = match &self.model {
            Some(model) => {
                let mut m = new_map();
                map_insert(&mut m, MESSAGE_PROMPT_PARAM.to_owned(), text_value(said.to_owned()));
                Some(
                    GenerationParameters {
                        model: Some(model.clone()),
                        prompt_template_id: None,
                        custom_prompt_template: None,
                        max_tokens: None,
                        model_parameters: None,
                        prompt_parameters: Some(object_value(m)),
                    },
                )
            },
            None => None,
        };
        GenerationRequest {
            preset_id: self.preset.clone(),
            parameters,
            custom_prompt: Some(said.to_owned()),
            existing_thread_id: self.named_thread(),
            session_id: self.session_id.clone(),
            session_tag: self.tag.clone(),
            save_thread: true,
            client_id: Some(self.client_id.clone()),
        }
    }

    /// What is to be done about a line that the user typed in the console.
    pub fn handle_console_input(&mut self, trimmed_input: &str) -> (r: InputStep)
        ensures
            (final(self).model(), r.deep_view()) == old(self).model().on_console_input(trimmed_input@),
    {
        if same(trimmed_input, "new_group_thread") {
            match (&self.session_id, &self.tag) {
                (Some(session_id), Some(tag)) => InputStep::NewThread {
                    session_id: session_id.clone(),
                    tag: tag.clone(),
                },
                _ => InputStep::Nothing,
            }
        } else if same(trimmed_input, "ret") {
            self.in_console = false;
            InputStep::Nothing
        } else {
            InputStep::Nothing
        }
    }

    /// What is to be done about a line that the user typed.
    pub fn handle_input(&mut self, line: &str) -> (r: InputStep)
        ensures
            (final(self).model(), r.deep_view()) == old(self).model().on_input(line@),
    {
        let trimmed_input = line.trim();
        if self.in_console {
            return self.handle_console_input(trimmed_input);
        }
        if same(trimmed_input, "exit") {
            InputStep::Stop
        } else if same(trimmed_input, "!c") {
            self.in_console = true;
            InputStep::EnterConsole
        } else {
            InputStep::Generate(self.request(trimmed_input))
        }
    }

    /// What stands before the line that the user types.
    pub fn input_prefix(&self, no_color: bool) -> (r: String)
        ensures
            r@ == prefix(MessageRole::User, Some(self.client_id@), self.in_console, no_color),
    {
        get_output_prefix(MessageRole::User, Some(&self.client_id), self.in_console, no_color)
    }
}

// ---------------------------------------------------------------------------------------------
// Laws.

/// The console is left with `ret`, and nothing that is typed there reaches the model.
pub proof fn law_console_is_apart(chat: ChatModel, line: Seq<char>)
    requires
        chat.in_console,
    ensures
        !(chat.on_input(line).1 is Generate),
        !(chat.on_input(line).1 is Stop),
        !chat.on_input(line).0.in_console <==> trimmed(line) == "ret"@,
{
    reveal_strlit("ret");
    reveal_strlit("new_group_thread");
    assert("ret"@.len() != "new_group_thread"@.len());
}

/// What is said in the thread of a tag never names another thread.
pub proof fn law_tag_comes_before_thread(chat: ChatModel, line: Seq<char>)
    requires
        chat.tag is Some,
    ensures
        chat.on_input(line).1 matches InputStepModel::Generate(request) ==> request.existing_thread_id is None
            && request.session_tag == chat.tag && request.session_id == chat.session_id,
{
}

/// What the user says outside the console goes to the model, without white space at its ends: as the
/// prompt, in the thread that is gone on with, with the preset and the session of the conversation, under
/// the name of the client, and to be saved. A model that was chosen gets it as a prompt parameter too.
pub proof fn law_what_is_said_reaches_the_model(chat: ChatModel, line: Seq<char>)
    requires
        !chat.in_console,
        trimmed(line) != "exit"@,
        trimmed(line) != "!c"@,
    ensures
        chat.on_input(line).0 == chat,
        ({
            &&& chat.on_input(line).1 matches InputStepModel::Generate(request)
            &&& request.custom_prompt == Some(trimmed(line))
            &&& request.preset_id == chat.preset
            &&& request.session_id == chat.session_id
            &&& request.session_tag == chat.tag
            &&& request.client_id == Some(chat.client_id)
            &&& request.save_thread
            &&& chat.tag is None ==> request.existing_thread_id == chat.thread_id
            &&& chat.model is None ==> request.parameters is None
            &&& chat.model is Some ==> {
                &&& request.parameters matches Some(parameters)
                &&& parameters.model == chat.model
                &&& parameters.prompt_parameters matches Some(said) && said.member("user_message"@) == Some(
                    Json::Text(trimmed(line)),
                )
                &&& parameters.max_tokens is None && parameters.prompt_template_id is None
                &&& parameters.custom_prompt_template is None && parameters.model_parameters is None
            }
        }),
{
}

/// Outside the console `exit` ends the program, and `!c` enters the console. In the console a new thread
/// begins only in a session with a tag, and it is that session. Nothing else of the conversation changes.
pub proof fn law_commands_are_obeyed(chat: ChatModel, line: Seq<char>)
    ensures
        !chat.in_console && trimmed(line) == "exit"@ ==> chat.on_input(line).1 is Stop,
        !chat.in_console && trimmed(line) == "!c"@ ==> chat.on_input(line).1 is EnterConsole
            && chat.on_input(line).0.in_console,
        chat.in_console && trimmed(line) == "new_group_thread"@ ==> {
            &&& chat.session_id is Some && chat.tag is Some ==> chat.on_input(line).1
                == (InputStepModel::NewThread { session_id: chat.session_id->0, tag: chat.tag->0 })
            &&& chat.session_id is None || chat.tag is None ==> chat.on_input(line).1 is Nothing
        },
        chat.in_console && trimmed(line) != "new_group_thread"@ ==> chat.on_input(line).1 is Nothing,
        (ChatModel { in_console: chat.in_console, ..chat.on_input(line).0 }) == chat,
{
    reveal_strlit("exit");
    reveal_strlit("!c");
    assert("exit"@.len() == 4 && "!c"@.len() == 2);
}

/// A message is shown whole, behind who says it and through which client; users and the assistant are
/// told apart. A new thread is shown with its name.
pub proof fn law_message_is_shown(event: ThreadEventModel, no_color: bool)
    ensures
        event matches ThreadEventModel::Message { message } ==> {
            let shown_text = event_text(event, no_color);
            let who = prefix(message.role, message.client_id, false, no_color);
            &&& message.content matches Some(text) ==> shown_text == seq!['\r'] + who + text + seq!['\n']
            &&& message.content is None ==> shown_text == seq!['\r'] + who + seq!['\n']
        },
        event matches ThreadEventModel::NewThread { thread_id } ==> contains(
            event_text(event, no_color),
            thread_id,
        ),
{
    reveal_strlit("\r");
    reveal_strlit("\n");
    reveal_strlit("\n\n");
    assert("\r"@ =~= seq!['\r']);
    assert("\n"@ =~= seq!['\n']);
    if let ThreadEventModel::Message { message } = event {
        let who = prefix(message.role, message.client_id, false, no_color);
        if message.content is None {
            assert(seq!['\r'] + who + Seq::<char>::empty() + seq!['\n'] =~= seq!['\r'] + who + seq!['\n']);
        }
    }
    if let ThreadEventModel::NewThread { thread_id } = event {
        let head = "\r\nNew thread started in group: "@;
        let whole = event_text(event, no_color);
        assert(whole.subrange(head.len() as int, (head.len() + thread_id.len()) as int) =~= thread_id);
        assert(occurs_at(whole, thread_id, head.len() as int));
    }
}

/// What stands before a line names the speaker and then the client, and speakers are told apart, in
/// colour or not.
pub proof fn law_speakers_are_told_apart(client_id: Seq<char>, in_console: bool, no_color: bool)
    ensures
        speaker(MessageRole::User, false, no_color) != speaker(MessageRole::Assistant, false, no_color),
        speaker(MessageRole::User, true, no_color) != speaker(MessageRole::User, false, no_color),
        speaker(MessageRole::Assistant, in_console, no_color) == speaker(
            MessageRole::Assistant,
            false,
            no_color,
        ),
        "assistant"@.is_suffix_of(speaker(MessageRole::Assistant, in_console, no_color)),
        "you"@.is_suffix_of(speaker(MessageRole::User, false, no_color)),
        "console"@.is_suffix_of(speaker(MessageRole::User, true, no_color)),
        (speaker(MessageRole::User, in_console, no_color) + " ("@ + client_id + ")"@).is_prefix_of(
            prefix(MessageRole::User, Some(client_id), in_console, no_color),
        ),
{
    reveal_strlit("assistant");
    reveal_strlit("you");
    reveal_strlit("console");
    reveal_strlit("\x1b[1;33massistant");
    reveal_strlit("\x1b[1;32mconsole");
    reveal_strlit("\x1b[1;36myou");
    reveal_strlit(") > ");
    reveal_strlit(")");
    assert("assistant"@.len() == 9 && "you"@.len() == 3 && "console"@.len() == 7);
    assert("\x1b[1;33massistant"@.len() == 16);
    assert("\x1b[1;32mconsole"@.len() == 14 && "\x1b[1;36myou"@.len() == 10);
    assert("\x1b[1;33massistant"@.subrange(7, 16) =~= "assistant"@);
    assert("\x1b[1;32mconsole"@.subrange(7, 14) =~= "console"@);
    assert("\x1b[1;36myou"@.subrange(7, 10) =~= "you"@);
    assert("assistant"@.subrange(0, 9) =~= "assistant"@);
    assert("you"@.subrange(0, 3) =~= "you"@);
    assert("console"@.subrange(0, 7) =~= "console"@);
    let who = speaker(MessageRole::User, in_console, no_color);
    let whole = prefix(MessageRole::User, Some(client_id), in_console, no_color);
    let start = who + " ("@ + client_id + ")"@;
    assert(") > "@.subrange(0, 1) =~= ")"@);
    assert(start =~= whole.subrange(0, start.len() as int)) by {
        assert(")"@[0] == ") > "@[0]);
    }
}

/// A conversation begins as the command line asks: with its preset, its model and its tag, in the session
/// that it names, or that of the current directory where it gives a tag alone. A tag comes before any
/// thread, and the last thread before one that is named.
pub proof fn law_conversation_begins_as_asked(
    args: ChatArgs,
    current_dir: Option<String>,
    client_id: String,
    r: (ChatApp, FirstThread),
)
    requires
        call_ensures(ChatApp::new, (args, current_dir, client_id), r),
    ensures
        r.0.preset.deep_view() == args.preset.deep_view(),
        r.0.model.deep_view() == args.model.deep_view(),
        r.0.tag.deep_view() == args.tag.deep_view(),
        r.0.client_id@ == client_id@,
        r.0.thread_id is None && !r.0.in_console && !r.0.listener_active,
        args.session_id is Some ==> r.0.session_id.deep_view() == args.session_id.deep_view(),
        args.session_id is None && args.tag is Some ==> r.0.session_id.deep_view()
            == current_dir.deep_view(),
        args.session_id is None && args.tag is None ==> r.0.session_id is None,
        args.tag is Some ==> (r.1 matches FirstThread::Given(id) && id is None),
        args.tag is None && args.load_last_chat ==> r.1 is Last,
        args.tag is None && !args.load_last_chat ==> (r.1 matches FirstThread::Given(id) && id.deep_view()
            == args.load_thread_id.deep_view()),
{
    let said = r.0.model();
    assert(said.preset == r.0.preset.deep_view());
    assert(said.model == r.0.model.deep_view());
    assert(said.tag == r.0.tag.deep_view());
    assert(said.session_id == r.0.session_id.deep_view());
    assert(said.thread_id == r.0.thread_id.deep_view());
    if let FirstThread::Given(id) = r.1 {
        assert(id.deep_view() is None ==> id is None);
    }
}

/// A thread is followed, and its messages are asked for, where there is one or a tag leads to one. Both
/// requests name it as the conversation does, and a thread that is followed is not followed again.
pub proof fn law_thread_of_the_conversation_is_followed(
    chat: ChatApp,
    r: Option<GetThreadMessagesRequest>,
    s: Option<SubscribeToThreadRequest>,
)
    requires
        call_ensures(ChatApp::existing_messages_request, (&chat,), r),
        call_ensures(ChatApp::listening_request, (&chat,), s),
    ensures
        r is Some <==> chat.thread_id is Some || chat.tag is Some,
        s is Some <==> !chat.listener_active && (chat.thread_id is Some || chat.tag is Some),
        r matches Some(asked) ==> asked.thread_id.deep_view() == chat.thread_id.deep_view()
            && asked.session_id.deep_view() == chat.session_id.deep_view() && asked.session_tag.deep_view()
            == chat.tag.deep_view(),
        s matches Some(asked) ==> {
            &&& asked.client_id@ == chat.client_id@
            &&& asked.session_id.deep_view() == chat.session_id.deep_view()
            &&& asked.session_tag.deep_view() == chat.tag.deep_view()
            &&& chat.tag is Some ==> asked.thread_id is None
            &&& chat.tag is None ==> asked.thread_id.deep_view() == chat.thread_id.deep_view()
            &&& asked.tools is None
        },
{
    if let Some(asked) = r {
        let said = asked.deep_view();
        assert(r.deep_view() == Some(said));
        assert(said.thread_id == asked.thread_id.deep_view());
        assert(said.session_id == asked.session_id.deep_view());
        assert(said.session_tag == asked.session_tag.deep_view());
    }
    if let Some(asked) = s {
        let said = asked.deep_view();
        assert(s.deep_view() == Some(said));
        assert(said.thread_id == asked.thread_id.deep_view());
        assert(said.session_id == asked.session_id.deep_view());
        assert(said.session_tag == asked.session_tag.deep_view());
        assert(said.tools == asked.tools.deep_view());
        assert(chat.model().tag == chat.tag.deep_view());
        assert(chat.model().thread_id == chat.thread_id.deep_view());
    }
}

/// The directory tells the session where there is a tag and no session is named.
pub proof fn law_directory_tells_the_session_of_a_tag(args: ChatArgs, r: bool)
    requires
        call_ensures(ChatApp::needs_current_dir, (&args,), r),
    ensures
        args.session_id is Some ==> !r,
        args.tag is None ==> !r,
        args.tag is Some && args.session_id is None ==> r,
{
}

} // verus!
