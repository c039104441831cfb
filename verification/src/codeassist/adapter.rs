//! What is done about the messages that are of interest here.

use serde_json::Value;
use vstd::prelude::*;
use crate::codeassist::complete::ServerSupport;
use crate::codeassist::content::{DocSync, DocSyncModel};
use crate::codeassist::jsonrpc::{
    response_to, JsonRpcMessage, JsonRpcMessageModel, JsonRpcRequest, JsonRpcRequestModel,
    JsonRpcResponseModel,
};
use crate::codeassist::lsp::{
    params_in, result_in, LspMessage, LspMessageInfo, LspMessageInfoModel, LspMessageModel,
    CODE_ACTION_METHOD, CODE_COMPLETE_COMMAND_ID, DID_CHANGE_METHOD, DID_CLOSE_METHOD,
    DID_OPEN_METHOD, EXECUTE_COMMAND_METHOD, INITIALIZE_METHOD, MANUAL_CONTEXT_ADD_COMMAND_ID,
    NEW_CHAT_THREAD_COMMAND_ID,
};
use crate::codeassist::params::{
    code_action_target, code_actions, command_in, commands_shown, location_in,
    read_code_action_target, read_code_actions, read_command, read_location, read_root, read_server,
    read_sync, root_in, server_in, sync_told, text_array, with_commands, write_commands, ServerInfo,
    ServerInfoModel,
};
use crate::codeassist::position::{Location, LocationModel, Position};
use crate::json::{
    array_value, clone_value, documents, is_null, json, map_insert, new_map, no_members,
    null_value, object_value, text_value, u64_value, Json,
};
use crate::text::same;

verus! {

// ---------------------------------------------------------------------------------------------
// Commands that are offered.

/// A place in JSON.
pub open spec fn position_document(position: Position) -> Json {
    Json::Object(
        no_members().insert("line"@, Json::Int(position.line as int)).insert(
            "character"@,
            Json::Int(position.character as int),
        ),
    )
}

/// A location in JSON.
pub open spec fn location_document(location: LocationModel) -> Json {
    Json::Object(
        no_members().insert("uri"@, Json::Text(location.uri)).insert(
            "range"@,
            Json::Object(
                no_members().insert("start"@, position_document(location.range.start)).insert(
                    "end"@,
                    position_document(location.range.end),
                ),
            ),
        ),
    )
}

/// A command in JSON.
pub open spec fn command_document(title: Seq<char>, command: Seq<char>, arguments: Seq<Json>) -> Json {
    Json::Object(
        no_members().insert("title"@, Json::Text(title)).insert("command"@, Json::Text(command)).insert(
            "arguments"@,
            Json::Array(arguments),
        ),
    )
}

/// What can be done with a piece of code here.
pub open spec fn offered_commands(location: LocationModel, use_chat_threads: bool) -> Seq<Json> {
    let place = seq![location_document(location)];
    let always = seq![
        command_document("Complete code via LLM"@, CODE_COMPLETE_COMMAND_ID@, place),
        command_document("Add context to LLM code complete"@, MANUAL_CONTEXT_ADD_COMMAND_ID@, place),
    ];
    if use_chat_threads {
        always.push(
            command_document(
                "Use new LLM chat thread"@,
                NEW_CHAT_THREAD_COMMAND_ID@,
                Seq::empty(),
            ),
        )
    } else {
        always
    }
}

fn position_value(position: &Position) -> (r: Value)
    ensures
        json(r) == position_document(*position),
{
    let mut m = new_map();
    map_insert(&mut m, "line".to_owned(), u64_value(position.line as u64));
    map_insert(&mut m, "character".to_owned(), u64_value(position.character as u64));
    object_value(m)
}

fn location_value(location: &Location) -> (r: Value)
    ensures
        json(r) == location_document(location.deep_view()),
{
    let mut range = new_map();
    map_insert(&mut range, "start".to_owned(), position_value(&location.range.start));
    map_insert(&mut range, "end".to_owned(), position_value(&location.range.end));
    let mut m = new_map();
    map_insert(&mut m, "uri".to_owned(), text_value(location.uri.clone()));
    map_insert(&mut m, "range".to_owned(), object_value(range));
    object_value(m)
}

fn command_value(title: &str, command: &str, arguments: Vec<Value>) -> (r: Value)
    ensures
        json(r) == command_document(title@, command@, documents(arguments@)),
{
    let mut m = new_map();
    map_insert(&mut m, "title".to_owned(), text_value(title.to_owned()));
    map_insert(&mut m, "command".to_owned(), text_value(command.to_owned()));
    map_insert(&mut m, "arguments".to_owned(), array_value(arguments));
    object_value(m)
}

fn location_argument(location: &Location) -> (r: Vec<Value>)
    ensures
        documents(r@) == seq![location_document(location.deep_view())],
{
    let mut r: Vec<Value> = Vec::new();
    r.push(location_value(location));
    assert(documents(r@) =~= seq![location_document(location.deep_view())]);
    r
}

fn offer_commands(actions: &mut Vec<Value>, location: &Location, use_chat_threads: bool)
    ensures
        documents(final(actions)@) == documents(old(actions)@) + offered_commands(
            location.deep_view(),
            use_chat_threads,
        ),
{
    let ghost given = documents(actions@);
    actions.push(
        command_value(
            "Complete code via LLM",
            CODE_COMPLETE_COMMAND_ID,
            location_argument(location),
        ),
    );
    actions.push(
        command_value(
            "Add context to LLM code complete",
            MANUAL_CONTEXT_ADD_COMMAND_ID,
            location_argument(location),
        ),
    );
    if use_chat_threads {
        let none: Vec<Value> = Vec::new();
        assert(documents(none@) =~= Seq::<Json>::empty());
        actions.push(command_value("Use new LLM chat thread", NEW_CHAT_THREAD_COMMAND_ID, none));
    }
    assert(documents(actions@) =~= given + offered_commands(location.deep_view(), use_chat_threads));
}

// ---------------------------------------------------------------------------------------------
// What is done.

/// What is done about a message.
#[derive(Debug)]
pub enum AdapterStep {
    /// Nothing, and nothing is replied.
    Nothing,
    /// A message is replied.
    Reply(LspMessage),
    /// A piece of code is completed, and a message is replied.
    StartTask {
        code_location: Location,
        task_id: usize,
        random_context_locations: Vec<Location>,
        reply: LspMessage,
    },
    /// The next completion does not know the earlier ones. A message is replied.
    ForgetThread { reply: LspMessage },
    /// The editor has said something of a document.
    Sync(DocSync),
    /// The message cannot be dealt with. Nothing is replied.
    Failed(String),
}

/// What an [`AdapterStep`] says.
#[verifier::ext_equal]
pub ghost enum AdapterStepModel {
    Nothing,
    Reply(LspMessageModel),
    StartTask {
        code_location: LocationModel,
        task_id: usize,
        random_context_locations: Seq<LocationModel>,
        reply: LspMessageModel,
    },
    ForgetThread { reply: LspMessageModel },
    Sync(DocSyncModel),
    Failed(Seq<char>),
}

impl DeepView for AdapterStep {
    type V = AdapterStepModel;

    open spec fn deep_view(&self) -> AdapterStepModel {
        match self {
            AdapterStep::Nothing => AdapterStepModel::Nothing,
            AdapterStep::Reply(reply) => AdapterStepModel::Reply(reply.deep_view()),
            AdapterStep::StartTask {
                code_location,
                task_id,
                random_context_locations,
                reply,
            } => AdapterStepModel::StartTask {
                code_location: code_location.deep_view(),
                task_id: *task_id,
                random_context_locations: random_context_locations.deep_view(),
                reply: reply.deep_view(),
            },
            AdapterStep::ForgetThread { reply } => AdapterStepModel::ForgetThread {
                reply: reply.deep_view(),
            },
            AdapterStep::Sync(sync) => AdapterStepModel::Sync(sync.deep_view()),
            AdapterStep::Failed(error) => AdapterStepModel::Failed(error@),
        }
    }
}

/// What is known of the session.
#[verifier::ext_equal]
pub ghost struct AdapterModel {
    /// Whether completions know the earlier ones.
    pub use_chat_threads: bool,
    /// What the language server can tell, once it has said so.
    pub support: Option<ServerSupport>,
    /// The address of the project.
    pub root_uri: Option<Seq<char>>,
    /// The number of the next completion.
    pub complete_task_last_id: usize,
    /// The pieces of code that the user wants the model to know.
    pub queued: Seq<LocationModel>,
}

/// The locations with one more, unless it is there already.
pub open spec fn with_location(locations: Seq<LocationModel>, location: LocationModel) -> Seq<
    LocationModel,
> {
    if locations.contains(location) {
        locations
    } else {
        locations.push(location)
    }
}

/// The location that is the last argument of a command.
pub open spec fn argument_location(arguments: Seq<Json>) -> Result<LocationModel, Seq<char>> {
    if arguments.len() == 0 {
        Err("code complete params must be specified with request"@)
    } else {
        location_in(arguments.last())
    }
}

/// The answer to a command: nothing, or what went wrong.
pub open spec fn command_reply(result: Result<(), Seq<char>>, id: Json) -> LspMessageModel {
    LspMessageModel {
        headers: Seq::empty(),
        payload: JsonRpcMessageModel::Response(
            response_to(
                match result {
                    Ok(_) => Ok(Json::Null),
                    Err(error) => Err(error),
                },
                id,
            ),
        ),
    }
}

/// What is done about the command to complete a piece of code, or about one that names none.
pub open spec fn on_complete(
    state: AdapterModel,
    code_location: Result<LocationModel, Seq<char>>,
    id: Json,
) -> (AdapterModel, AdapterStepModel) {
    match code_location {
        Ok(code_location) => (
            AdapterModel {
                complete_task_last_id: (state.complete_task_last_id + 1) as usize,
                queued: Seq::empty(),
                ..state
            },
            AdapterStepModel::StartTask {
                code_location,
                task_id: state.complete_task_last_id,
                random_context_locations: state.queued,
                reply: command_reply(Ok(()), id),
            },
        ),
        Err(error) => (state, AdapterStepModel::Reply(command_reply(Err(error), id))),
    }
}

/// What is done about the command to add a piece of code, or about one that names none.
pub open spec fn on_add_context(
    state: AdapterModel,
    code_location: Result<LocationModel, Seq<char>>,
    id: Json,
) -> (AdapterModel, AdapterStepModel) {
    match code_location {
        Ok(location) => (
            AdapterModel { queued: with_location(state.queued, location), ..state },
            AdapterStepModel::Reply(command_reply(Ok(()), id)),
        ),
        Err(error) => (state, AdapterStepModel::Reply(command_reply(Err(error), id))),
    }
}

/// What is done about a command and the piece of code that it names. A command that is not known is
/// answered, and nothing is done.
pub open spec fn on_read_command(
    state: AdapterModel,
    command: Seq<char>,
    code_location: Result<LocationModel, Seq<char>>,
    id: Json,
) -> (AdapterModel, AdapterStepModel) {
    if command == CODE_COMPLETE_COMMAND_ID@ {
        on_complete(state, code_location, id)
    } else if command == MANUAL_CONTEXT_ADD_COMMAND_ID@ {
        on_add_context(state, code_location, id)
    } else if command == NEW_CHAT_THREAD_COMMAND_ID@ {
        (state, AdapterStepModel::ForgetThread { reply: command_reply(Ok(()), id) })
    } else {
        (state, AdapterStepModel::Reply(command_reply(Ok(()), id)))
    }
}

/// What is done about a request to carry out a command.
pub open spec fn on_command(state: AdapterModel, request: JsonRpcRequestModel) -> (
    AdapterModel,
    AdapterStepModel,
) {
    match params_in(JsonRpcMessageModel::Request(request)) {
        Ok(params) => match command_in(params) {
            Ok((command, arguments)) => on_read_command(
                state,
                command,
                argument_location(arguments),
                request.id,
            ),
            Err(_) => (state, AdapterStepModel::Reply(command_reply(Ok(()), request.id))),
        },
        Err(_) => (state, AdapterStepModel::Reply(command_reply(Ok(()), request.id))),
    }
}

/// A message with another result.
pub open spec fn with_result(message: LspMessageModel, result: Json) -> LspMessageModel {
    LspMessageModel {
        headers: message.headers,
        payload: JsonRpcMessageModel::Response(
            JsonRpcResponseModel { result: Some(result), ..message.payload->Response_0 },
        ),
    }
}

/// The commands of a language server, with the one to complete code.
pub open spec fn more_commands(server: ServerInfoModel) -> Seq<Seq<char>> {
    (match server.commands {
        Some(commands) => commands,
        None => Seq::empty(),
    }).push(CODE_COMPLETE_COMMAND_ID@)
}

/// What is answered with a result, or with the reason why there is none.
pub open spec fn reply_with(message: LspMessageModel, result: Result<Json, Seq<char>>) -> AdapterStepModel {
    match result {
        Ok(result) => AdapterStepModel::Reply(with_result(message, result)),
        Err(error) => AdapterStepModel::Failed(error),
    }
}

/// What is done about the answer with which a language server tells of itself: the editor learns of
/// the command to complete code.
pub open spec fn on_initialize_response(state: AdapterModel, message: LspMessageModel) -> (
    AdapterModel,
    AdapterStepModel,
) {
    match result_in(message.payload) {
        Ok(result) => match server_in(result) {
            Ok(server) => (
                AdapterModel { support: Some(server.support), ..state },
                reply_with(message, with_commands(result, more_commands(server))),
            ),
            Err(error) => (state, AdapterStepModel::Failed(error)),
        },
        Err(fault) => (state, AdapterStepModel::Failed(fault.message())),
    }
}

/// The list that tells what can be done with a piece of code. `null` is a list of nothing.
pub open spec fn actions_told(result: Json) -> Result<Seq<Json>, Seq<char>> {
    if result is Null {
        Ok(Seq::empty())
    } else {
        code_actions(result)
    }
}

/// What is answered when it is known what can be done with a piece of code: what can be done here is
/// added.
pub open spec fn on_read_actions(
    state: AdapterModel,
    location: LocationModel,
    actions: Result<Seq<Json>, Seq<char>>,
    message: LspMessageModel,
) -> AdapterStepModel {
    reply_with(
        message,
        match actions {
            Ok(actions) => Ok(
                Json::Array(actions + offered_commands(location, state.use_chat_threads)),
            ),
            Err(error) => Err(error),
        },
    )
}

/// What is done about the answer that tells what can be done with a piece of code.
pub open spec fn on_code_action_response(
    state: AdapterModel,
    request: JsonRpcRequestModel,
    message: LspMessageModel,
) -> AdapterStepModel {
    match request.params {
        Some(params) => match code_action_target(params) {
            Ok(location) => match result_in(message.payload) {
                Ok(result) => on_read_actions(state, location, actions_told(result), message),
                Err(fault) => AdapterStepModel::Failed(fault.message()),
            },
            Err(error) => AdapterStepModel::Failed(error),
        },
        None => AdapterStepModel::Failed("code action request does not have params"@),
    }
}

/// What is done when the address of the project is known, or why it is not.
pub open spec fn on_read_root(state: AdapterModel, root_uri: Result<Option<Seq<char>>, Seq<char>>) -> (
    AdapterModel,
    AdapterStepModel,
) {
    match root_uri {
        Ok(root_uri) => (AdapterModel { root_uri, ..state }, AdapterStepModel::Nothing),
        Err(error) => (state, AdapterStepModel::Failed(error)),
    }
}

/// What is done about the request that begins a session: the address of the project is remembered.
pub open spec fn on_initialize_request(state: AdapterModel, message: LspMessageModel) -> (
    AdapterModel,
    AdapterStepModel,
) {
    match params_in(message.payload) {
        Ok(params) => on_read_root(state, root_in(params)),
        Err(fault) => (state, AdapterStepModel::Failed(fault.message())),
    }
}

/// What is done about a notification.
pub open spec fn on_document(message: LspMessageModel) -> AdapterStepModel {
    let method = message.payload->Notification_0.method;
    if method == DID_OPEN_METHOD@ || method == DID_CHANGE_METHOD@ || method == DID_CLOSE_METHOD@ {
        match params_in(message.payload) {
            Ok(params) => match sync_told(method, params) {
                Ok(Some(sync)) => AdapterStepModel::Sync(sync),
                Ok(None) => AdapterStepModel::Nothing,
                Err(error) => AdapterStepModel::Failed(error),
            },
            Err(fault) => AdapterStepModel::Failed(fault.message()),
        }
    } else {
        AdapterStepModel::Nothing
    }
}

/// What is done about a message, and what is known of the session then.
pub open spec fn adapted(state: AdapterModel, info: LspMessageInfoModel) -> (
    AdapterModel,
    AdapterStepModel,
) {
    match info.origin_request {
        Some(request) => if request.method == CODE_ACTION_METHOD@ {
            (state, on_code_action_response(state, request, info.message))
        } else if request.method == INITIALIZE_METHOD@ {
            on_initialize_response(state, info.message)
        } else {
            (state, AdapterStepModel::Nothing)
        },
        None => match info.message.payload {
            JsonRpcMessageModel::Request(request) => if request.method == EXECUTE_COMMAND_METHOD@ {
                on_command(state, request)
            } else if request.method == INITIALIZE_METHOD@ {
                on_initialize_request(state, info.message)
            } else {
                (state, AdapterStepModel::Nothing)
            },
            JsonRpcMessageModel::Notification(_) => (state, on_document(info.message)),
            JsonRpcMessageModel::Response(_) => (state, AdapterStepModel::Nothing),
        },
    }
}

/// Whether a location is among others.
fn is_among(locations: &Vec<Location>, location: &Location) -> (r: bool)
    ensures
        r == locations.deep_view().contains(location.deep_view()),
{
    let ghost all = locations.deep_view();
    let mut i: usize = 0;
    while i < locations.len()
        invariant
            i <= locations@.len(),
            all == locations.deep_view(),
            forall|k: int| 0 <= k < i ==> #[trigger] all[k] != location.deep_view(),
        decreases locations.len() - i,
    {
        assert(all[i as int] == locations@[i as int].deep_view());
        if same(locations[i].uri.as_str(), location.uri.as_str()) && locations[i].range
            == location.range {
            assert(all[i as int] == location.deep_view());
            return true;
        }
        i = i + 1;
    }
    false
}

fn location_of_command(arguments: &Vec<Value>) -> (r: Result<Location, String>)
    ensures
        match r {
            Ok(location) => argument_location(documents(arguments@)) == Ok::<_, Seq<char>>(
                location.deep_view(),
            ),
            Err(error) => argument_location(documents(arguments@)) == Err::<LocationModel, _>(error@),
        },
{
    let n: usize = arguments.len();
    if n == 0 {
        return Err("code complete params must be specified with request".to_owned());
    }
    assert(documents(arguments@).last() == json(arguments@[n - 1]));
    read_location(&arguments[n - 1])
}

fn reply_to_command(result: Result<(), String>, id: &Value) -> (r: LspMessage)
    ensures
        r.deep_view() == command_reply(
            match result {
                Ok(_) => Ok(()),
                Err(error) => Err(error@),
            },
            json(*id),
        ),
{
    LspMessage::new_response(
        match result {
            Ok(_) => Ok(null_value()),
            Err(error) => Err(error),
        },
        clone_value(id),
    )
}

/// The location that was read, or why there is none.
pub open spec fn said_location(location: Result<Location, String>) -> Result<LocationModel, Seq<char>> {
    match location {
        Ok(location) => Ok(location.deep_view()),
        Err(error) => Err(error@),
    }
}

/// Whether the editor is shown the commands that the language server has, and the one to complete code
/// behind them.
pub open spec fn shows_our_command(message: LspMessageModel, reply: LspMessageModel) -> bool {
    let server = server_in(result_in(message.payload)->Ok_0)->Ok_0;
    commands_shown(reply.payload->Response_0.result->0) == Some(text_array(more_commands(server)))
}

fn reply_with_result(message: &LspMessage, result: Result<Value, String>) -> (r: AdapterStep)
    requires
        message.deep_view().payload is Response,
    ensures
        r.deep_view() == reply_with(
            message.deep_view(),
            match result {
                Ok(result) => Ok(json(result)),
                Err(error) => Err(error@),
            },
        ),
{
    match result {
        Ok(result) => match message.with_result(result) {
            Ok(reply) => AdapterStep::Reply(reply),
            Err(fault) => AdapterStep::Failed(fault.message()),
        },
        Err(error) => AdapterStep::Failed(error),
    }
}

/// Deals with the messages that are of interest here.
#[derive(Debug)]
pub struct LspAdapter {
    pub use_chat_threads: bool,
    pub support: Option<ServerSupport>,
    pub root_uri: Option<String>,
    pub complete_task_last_id: usize,
    pub queued_random_context_locations: Vec<Location>,
}

impl LspAdapter {
    /// What is known of the session.
    pub open spec fn model(self) -> AdapterModel {
        AdapterModel {
            use_chat_threads: self.use_chat_threads,
            support: self.support,
            root_uri: self.root_uri.deep_view(),
            complete_task_last_id: self.complete_task_last_id,
            queued: self.queued_random_context_locations.deep_view(),
        }
    }

    /// Nothing is known of the session.
    pub fn new(use_chat_threads: bool) -> (r: Self)
        ensures
            r.model() == (AdapterModel {
                use_chat_threads,
                support: None,
                root_uri: None,
                complete_task_last_id: 0,
                queued: Seq::empty(),
            }),
    {
        let r = LspAdapter {
            use_chat_threads,
            support: None,
            root_uri: None,
            complete_task_last_id: 0,
            queued_random_context_locations: Vec::new(),
        };
        assert(r.model().queued =~= Seq::<LocationModel>::empty());
        r
    }

    /// Remembers the address of the project.
    pub fn remember_root(&mut self, root_uri: Result<Option<String>, String>) -> (r: AdapterStep)
        ensures
            (final(self).model(), r.deep_view()) == on_read_root(
                old(self).model(),
                match root_uri {
                    Ok(root_uri) => Ok(root_uri.deep_view()),
                    Err(error) => Err(error@),
                },
            ),
    {
        match root_uri {
            Ok(root_uri) => {
                self.root_uri = root_uri;
                AdapterStep::Nothing
            },
            Err(error) => AdapterStep::Failed(error),
        }
    }

    fn inspect_initialize_request(&mut self, message: &LspMessage) -> (r: AdapterStep)
        ensures
            (final(self).model(), r.deep_view()) == on_initialize_request(
                old(self).model(),
                message.deep_view(),
            ),
    {
        match message.get_params() {
            Ok(params) => self.remember_root(read_root(&params)),
            Err(fault) => AdapterStep::Failed(fault.message()),
        }
    }

    /// Remembers what the language server can tell. Gives the commands that the editor is to learn of.
    pub fn remember_server(&mut self, server: ServerInfo) -> (commands: Vec<String>)
        ensures
            final(self).model() == (AdapterModel {
                support: Some(server.support),
                ..old(self).model()
            }),
            commands.deep_view() == more_commands(server.deep_view()),
    {
        let ghost told = server.deep_view();
        self.support = Some(server.support);
        let mut commands: Vec<String> = match server.commands {
            Some(commands) => commands,
            None => Vec::new(),
        };
        let ghost earlier = commands.deep_view();
        commands.push(CODE_COMPLETE_COMMAND_ID.to_owned());
        assert(commands.deep_view() =~= earlier.push(CODE_COMPLETE_COMMAND_ID@));
        assert(commands.deep_view() =~= more_commands(told));
        commands
    }

    fn transform_initialize_response(&mut self, message: &LspMessage) -> (r: AdapterStep)
        ensures
            (final(self).model(), r.deep_view()) == on_initialize_response(
                old(self).model(),
                message.deep_view(),
            ),
            r is Reply ==> shows_our_command(message.deep_view(), r.deep_view()->Reply_0),
    {
        let result = match message.get_result() {
            Ok(result) => result,
            Err(fault) => {
                return AdapterStep::Failed(fault.message());
            },
        };
        match read_server(&result) {
            Ok(server) => {
                let commands = self.remember_server(server);
                reply_with_result(message, write_commands(&result, commands))
            },
            Err(error) => AdapterStep::Failed(error),
        }
    }

    /// Adds what can be done here to what can be done with a piece of code.
    pub fn add_commands(
        &self,
        location: &Location,
        actions: Result<Vec<Value>, String>,
        message: &LspMessage,
    ) -> (r: AdapterStep)
        requires
            message.deep_view().payload is Response,
        ensures
            r.deep_view() == on_read_actions(
                self.model(),
                location.deep_view(),
                match actions {
                    Ok(actions) => Ok(documents(actions@)),
                    Err(error) => Err(error@),
                },
                message.deep_view(),
            ),
    {
        match actions {
            Ok(actions) => {
                let mut actions = actions;
                offer_commands(&mut actions, location, self.use_chat_threads);
                reply_with_result(message, Ok(array_value(actions)))
            },
            Err(error) => AdapterStep::Failed(error),
        }
    }

    fn transform_code_action_response(&self, origin_request: &JsonRpcRequest, message: &LspMessage) -> (r:
        AdapterStep)
        ensures
            r.deep_view() == on_code_action_response(
                self.model(),
                origin_request.deep_view(),
                message.deep_view(),
            ),
    {
        let params = match &origin_request.params {
            Some(params) => params,
            None => {
                return AdapterStep::Failed("code action request does not have params".to_owned());
            },
        };
        let location = match read_code_action_target(params) {
            Ok(location) => location,
            Err(error) => {
                return AdapterStep::Failed(error);
            },
        };
        let result = match message.get_result() {
            Ok(result) => result,
            Err(fault) => {
                return AdapterStep::Failed(fault.message());
            },
        };
        let actions: Result<Vec<Value>, String> = if is_null(&result) {
            let none: Vec<Value> = Vec::new();
            assert(documents(none@) =~= Seq::<Json>::empty());
            Ok(none)
        } else {
            read_code_actions(&result)
        };
        self.add_commands(&location, actions, message)
    }

    /// Completes the piece of code that a command names.
    pub fn handle_code_complete_command(
        &mut self,
        code_location: Result<Location, String>,
        id: &Value,
    ) -> (r: AdapterStep)
        requires
            old(self).complete_task_last_id < usize::MAX,
        ensures
            (final(self).model(), r.deep_view()) == on_complete(
                old(self).model(),
                said_location(code_location),
                json(*id),
            ),
    {
        match code_location {
            Ok(code_location) => {
                let task_id: usize = self.complete_task_last_id;
                let mut random_context_locations: Vec<Location> = Vec::new();
                assert(random_context_locations.deep_view() =~= Seq::<LocationModel>::empty());
                std::mem::swap(
                    &mut random_context_locations,
                    &mut self.queued_random_context_locations,
                );
                self.complete_task_last_id = task_id + 1;
                AdapterStep::StartTask {
                    code_location,
                    task_id,
                    random_context_locations,
                    reply: reply_to_command(Ok(()), id),
                }
            },
            Err(error) => AdapterStep::Reply(reply_to_command(Err(error), id)),
        }
    }

    /// Remembers the piece of code that a command names for the next completion.
    pub fn handle_add_context_command(
        &mut self,
        code_location: Result<Location, String>,
        id: &Value,
    ) -> (r: AdapterStep)
        ensures
            (final(self).model(), r.deep_view()) == on_add_context(
                old(self).model(),
                said_location(code_location),
                json(*id),
            ),
    {
        match code_location {
            Ok(location) => {
                if !is_among(&self.queued_random_context_locations, &location) {
                    let ghost earlier = self.queued_random_context_locations.deep_view();
                    let ghost said = location.deep_view();
                    self.queued_random_context_locations.push(location);
                    assert(self.queued_random_context_locations.deep_view() =~= earlier.push(said));
                }
                AdapterStep::Reply(reply_to_command(Ok(()), id))
            },
            Err(error) => AdapterStep::Reply(reply_to_command(Err(error), id)),
        }
    }

    /// Carries out a command, given the piece of code that it names.
    pub fn handle_command(
        &mut self,
        command: &str,
        code_location: Result<Location, String>,
        id: &Value,
    ) -> (r: AdapterStep)
        requires
            old(self).complete_task_last_id < usize::MAX,
        ensures
            (final(self).model(), r.deep_view()) == on_read_command(
                old(self).model(),
                command@,
                said_location(code_location),
                json(*id),
            ),
    {
        if same(command, CODE_COMPLETE_COMMAND_ID) {
            self.handle_code_complete_command(code_location, id)
        } else if same(command, MANUAL_CONTEXT_ADD_COMMAND_ID) {
            self.handle_add_context_command(code_location, id)
        } else if same(command, NEW_CHAT_THREAD_COMMAND_ID) {
            AdapterStep::ForgetThread { reply: reply_to_command(Ok(()), id) }
        } else {
            AdapterStep::Reply(reply_to_command(Ok(()), id))
        }
    }

    fn handle_command_request(&mut self, message: &LspMessage, request: &JsonRpcRequest) -> (r:
        AdapterStep)
        requires
            old(self).complete_task_last_id < usize::MAX,
            message.deep_view().payload == JsonRpcMessageModel::Request(request.deep_view()),
        ensures
            (final(self).model(), r.deep_view()) == on_command(old(self).model(), request.deep_view()),
    {
        match message.get_params() {
            Ok(params) => match read_command(&params) {
                Ok((command, arguments)) => self.handle_command(
                    command.as_str(),
                    location_of_command(&arguments),
                    &request.id,
                ),
                Err(_) => AdapterStep::Reply(reply_to_command(Ok(()), &request.id)),
            },
            Err(_) => AdapterStep::Reply(reply_to_command(Ok(()), &request.id)),
        }
    }

    /// What is done about a message.
    pub fn handle_intercept(&mut self, msg_info: &LspMessageInfo) -> (r: AdapterStep)
        requires
            old(self).complete_task_last_id < usize::MAX,
        ensures
            (final(self).model(), r.deep_view()) == adapted(old(self).model(), msg_info.deep_view()),
            (msg_info.deep_view().origin_request matches Some(request) && request.method
                == INITIALIZE_METHOD@ && r is Reply) ==> shows_our_command(
                msg_info.deep_view().message,
                r.deep_view()->Reply_0,
            ),
    {
        proof {
            reveal_strlit("initialize");
            reveal_strlit("textDocument/codeAction");
            assert(INITIALIZE_METHOD@.len() != CODE_ACTION_METHOD@.len());
        }
        match &msg_info.origin_request {
            Some(origin_request) => {
                if same(origin_request.method.as_str(), CODE_ACTION_METHOD) {
                    self.transform_code_action_response(origin_request, &msg_info.message)
                } else if same(origin_request.method.as_str(), INITIALIZE_METHOD) {
                    self.transform_initialize_response(&msg_info.message)
                } else {
                    AdapterStep::Nothing
                }
            },
            None => match &msg_info.message.payload {
                JsonRpcMessage::Request(request) => {
                    if same(request.method.as_str(), EXECUTE_COMMAND_METHOD) {
                        self.handle_command_request(&msg_info.message, request)
                    } else if same(request.method.as_str(), INITIALIZE_METHOD) {
                        self.inspect_initialize_request(&msg_info.message)
                    } else {
                        AdapterStep::Nothing
                    }
                },
                JsonRpcMessage::Notification(notification) => {
                    let method = notification.method.as_str();
                    if same(method, DID_OPEN_METHOD) || same(method, DID_CHANGE_METHOD) || same(
                        method,
                        DID_CLOSE_METHOD,
                    ) {
                        match msg_info.message.get_params() {
                            Ok(params) => match read_sync(method, &params) {
                                Ok(Some(sync)) => AdapterStep::Sync(sync),
                                Ok(None) => AdapterStep::Nothing,
                                Err(error) => AdapterStep::Failed(error),
                            },
                            Err(fault) => AdapterStep::Failed(fault.message()),
                        }
                    } else {
                        AdapterStep::Nothing
                    }
                },
                JsonRpcMessage::Response(_) => AdapterStep::Nothing,
            },
        }
    }
}

// ---------------------------------------------------------------------------------------------
// Laws.

/// The commands that are offered for a piece of code, and the list that the language server gave, both
/// reach the editor.
pub proof fn law_code_actions_are_kept(
    state: AdapterModel,
    request: JsonRpcRequestModel,
    message: LspMessageModel,
)
    requires
        on_code_action_response(state, request, message) is Reply,
    ensures
        ({
            let location = code_action_target(request.params->0)->Ok_0;
            let reply = on_code_action_response(state, request, message)->Reply_0;
            let offered = offered_commands(location, state.use_chat_threads);
            let result = result_in(message.payload)->Ok_0;
            &&& reply.payload->Response_0.id == message.payload->Response_0.id
            &&& reply.payload->Response_0.result matches Some(Json::Array(all))
            &&& offered.is_suffix_of(all)
            &&& !(result is Null) ==> code_actions(result)->Ok_0.is_prefix_of(all)
        }),
{
    let location = code_action_target(request.params->0)->Ok_0;
    let offered = offered_commands(location, state.use_chat_threads);
    let result = result_in(message.payload)->Ok_0;
    if result is Null {
        assert(offered.subrange(0, offered.len() as int) =~= offered);
    } else {
        let actions = code_actions(result)->Ok_0;
        assert((actions + offered).subrange(0, actions.len() as int) =~= actions);
        assert((actions + offered).subrange(
            actions.len() as int,
            (actions + offered).len() as int,
        ) =~= offered);
    }
}

/// A piece of code that the user adds is known to the next completion, once, and to none after it. The
/// two completions have different numbers.
pub proof fn law_added_code_is_used_once(
    state: AdapterModel,
    add: JsonRpcRequestModel,
    arguments: Seq<Json>,
    location: LocationModel,
    complete: JsonRpcRequestModel,
    again: JsonRpcRequestModel,
)
    requires
        state.queued.no_duplicates(),
        state.complete_task_last_id < usize::MAX,
        add.params is Some,
        command_in(add.params->0) == Ok::<_, Seq<char>>((MANUAL_CONTEXT_ADD_COMMAND_ID@, arguments)),
        argument_location(arguments) == Ok::<_, Seq<char>>(location),
        on_command(on_command(state, add).0, complete).1 is StartTask,
        on_command(on_command(on_command(state, add).0, complete).0, again).1 is StartTask,
    ensures
        ({
            let (added, _) = on_command(state, add);
            let (started, first) = on_command(added, complete);
            let (_, second) = on_command(started, again);
            &&& added.queued.no_duplicates()
            &&& first->random_context_locations == added.queued
            &&& first->random_context_locations.contains(location)
            &&& second->random_context_locations.len() == 0
            &&& first->task_id != second->task_id
        }),
{
    reveal_strlit("llmvm-codeassist/complete");
    reveal_strlit("llmvm-codeassist/addContext");
    assert(CODE_COMPLETE_COMMAND_ID@.len() != MANUAL_CONTEXT_ADD_COMMAND_ID@.len());
    let (added, _) = on_command(state, add);
    assert(added.queued == with_location(state.queued, location));
    if !state.queued.contains(location) {
        assert(added.queued.last() == location);
    }
}

/// The names of members of commands and locations are told apart.
proof fn lemma_document_names()
    ensures
        "title"@ != "command"@ && "title"@ != "arguments"@ && "command"@ != "arguments"@,
        "uri"@ != "range"@ && "start"@ != "end"@ && "line"@ != "character"@,
{
    reveal_strlit("title");
    reveal_strlit("command");
    reveal_strlit("arguments");
    reveal_strlit("uri");
    reveal_strlit("range");
    reveal_strlit("start");
    reveal_strlit("end");
    reveal_strlit("line");
    reveal_strlit("character");
    assert("title"@.len() == 5 && "command"@.len() == 7 && "arguments"@.len() == 9);
    assert("uri"@.len() == 3 && "range"@.len() == 5 && "start"@.len() == 5 && "end"@.len() == 3);
    assert("line"@.len() == 4 && "character"@.len() == 9);
}

/// The commands that are offered for a piece of code complete it and add it, each with its location as
/// the argument. Where completions know the earlier ones, a new thread is offered too.
pub proof fn law_offered_commands_name_the_code(location: LocationModel, use_chat_threads: bool)
    ensures
        ({
            let offered = offered_commands(location, use_chat_threads);
            let place = Some(Json::Array(seq![location_document(location)]));
            &&& offered.len() == if use_chat_threads {
                3int
            } else {
                2
            }
            &&& offered[0].member("command"@) == Some(Json::Text("llmvm-codeassist/complete"@))
            &&& offered[0].member("arguments"@) == place
            &&& offered[1].member("command"@) == Some(Json::Text("llmvm-codeassist/addContext"@))
            &&& offered[1].member("arguments"@) == place
            &&& use_chat_threads ==> offered[2].member("command"@) == Some(
                Json::Text("llmvm-codeassist/newChatThread"@),
            )
        }),
{
    lemma_document_names();
}

/// A location is written with its address and both ends of its range.
pub proof fn law_location_is_written(location: LocationModel)
    ensures
        ({
            let written = location_document(location);
            let range = location.range;
            &&& written.member("uri"@) == Some(Json::Text(location.uri))
            &&& written.member("range"@) matches Some(both)
            &&& both.member("start"@) matches Some(start) && start.member("line"@) == Some(
                Json::Int(range.start.line as int),
            ) && start.member("character"@) == Some(Json::Int(range.start.character as int))
            &&& both.member("end"@) matches Some(end) && end.member("line"@) == Some(
                Json::Int(range.end.line as int),
            ) && end.member("character"@) == Some(Json::Int(range.end.character as int))
        }),
{
    lemma_document_names();
}

/// The command to complete code starts a task for the code that it names, with all pieces of code that
/// were added, and forgets these. The command to add code remembers it, behind those before it and once.
/// The command for a new thread forgets the thread. What goes wrong is answered, and changes nothing.
pub proof fn law_commands_are_carried_out(
    state: AdapterModel,
    location: LocationModel,
    error: Seq<char>,
    command: Seq<char>,
    id: Json,
)
    requires
        state.complete_task_last_id < usize::MAX,
    ensures
        ({
            let (after, step) = on_read_command(state, "llmvm-codeassist/complete"@, Ok(location), id);
            &&& step matches AdapterStepModel::StartTask {
                code_location,
                task_id,
                random_context_locations,
                reply,
            }
            &&& code_location == location && task_id == state.complete_task_last_id
            &&& random_context_locations == state.queued
            &&& reply.payload matches JsonRpcMessageModel::Response(answer) && answer.id == id
                && answer.error is None
            &&& after.queued.len() == 0 && after.complete_task_last_id == state.complete_task_last_id + 1
            &&& after.support == state.support && after.root_uri == state.root_uri
        }),
        ({
            let (after, step) = on_read_command(state, "llmvm-codeassist/addContext"@, Ok(location), id);
            &&& after.queued.contains(location)
            &&& state.queued.is_prefix_of(after.queued)
            &&& state.queued.contains(location) ==> after.queued == state.queued
            &&& after.complete_task_last_id == state.complete_task_last_id
            &&& step matches AdapterStepModel::Reply(reply)
            &&& reply.payload matches JsonRpcMessageModel::Response(answer) && answer.id == id
                && answer.error is None
        }),
        on_read_command(state, "llmvm-codeassist/newChatThread"@, Ok(location), id).1 is ForgetThread,
        on_read_command(state, "llmvm-codeassist/newChatThread"@, Ok(location), id).0 == state,
        command == "llmvm-codeassist/complete"@ || command == "llmvm-codeassist/addContext"@ ==> ({
            let (after, step) = on_read_command(state, command, Err(error), id);
            &&& after == state
            &&& step matches AdapterStepModel::Reply(reply)
            &&& reply.payload matches JsonRpcMessageModel::Response(answer) && answer.id == id && (
            answer.error matches Some(told) && told.message == error)
        }),
{
    reveal_strlit("llmvm-codeassist/complete");
    reveal_strlit("llmvm-codeassist/addContext");
    reveal_strlit("llmvm-codeassist/newChatThread");
    assert("llmvm-codeassist/complete"@.len() == 25);
    assert("llmvm-codeassist/addContext"@.len() == 27);
    assert("llmvm-codeassist/newChatThread"@.len() == 30);
    let queued = with_location(state.queued, location);
    if !state.queued.contains(location) {
        assert(queued[queued.len() - 1] == location);
        assert(queued.take(state.queued.len() as int) =~= state.queued);
    } else {
        assert(queued.take(state.queued.len() as int) =~= state.queued);
    }
}

/// A command names the piece of code that is the last of its arguments, and without arguments none.
pub proof fn law_last_argument_names_the_code(arguments: Seq<Json>, last: Json)
    ensures
        argument_location(arguments.push(last)) == location_in(last),
        argument_location(Seq::empty()) is Err,
{
}

/// The editor learns of all the commands of the language server, and then of the one to complete code.
/// What the language server can tell is remembered.
pub proof fn law_server_commands_are_kept(
    state: AdapterModel,
    message: LspMessageModel,
    result: Json,
    server: ServerInfoModel,
)
    requires
        result_in(message.payload) == Ok::<_, crate::codeassist::lsp::LspFaultModel>(result),
        server_in(result) == Ok::<_, Seq<char>>(server),
    ensures
        server.commands matches Some(commands) ==> commands.is_prefix_of(more_commands(server))
            && more_commands(server).len() == commands.len() + 1,
        server.commands is None ==> more_commands(server).len() == 1,
        more_commands(server).last() == "llmvm-codeassist/complete"@,
        on_initialize_response(state, message).0.support == Some(server.support),
        on_initialize_response(state, message).0.queued == state.queued,
        on_initialize_response(state, message).0.root_uri == state.root_uri,
        on_initialize_response(state, message).1 matches AdapterStepModel::Reply(reply) ==> (
        reply.payload matches JsonRpcMessageModel::Response(answer) && (with_commands(
            result,
            more_commands(server),
        ) matches Ok(told) && answer.result == Some(told))),
{
    if let Some(commands) = server.commands {
        assert(more_commands(server).take(commands.len() as int) =~= commands);
    }
}

/// The address of the project is remembered as the request that begins the session gives it, and what
/// the editor says of a document is handed on as it is said.
pub proof fn law_session_is_followed(
    state: AdapterModel,
    message: LspMessageModel,
    params: Json,
    root: Option<Seq<char>>,
    sync: DocSyncModel,
)
    requires
        params_in(message.payload) == Ok::<_, crate::codeassist::lsp::LspFaultModel>(params),
    ensures
        root_in(params) == Ok::<_, Seq<char>>(root) ==> on_initialize_request(state, message).0
            == (AdapterModel { root_uri: root, ..state }) && on_initialize_request(state, message).1
            is Nothing,
        message.payload matches JsonRpcMessageModel::Notification(notification) ==> ((notification.method
            == "textDocument/didOpen"@ || notification.method == "textDocument/didChange"@
            || notification.method == "textDocument/didClose"@) && sync_told(notification.method, params)
            == Ok::<_, Seq<char>>(Some(sync)) ==> on_document(message) == AdapterStepModel::Sync(sync)),
{
}

/// What is done about a message does not depend on what was answered before: requests that carry a
/// command out and that begin a session, their answers and what is said of documents are dealt with each
/// in its way, and any other message changes nothing.
pub proof fn law_messages_are_dealt_with(state: AdapterModel, info: LspMessageInfoModel)
    ensures
        info.origin_request is None && info.message.payload is Response ==> adapted(state, info) == (
            state,
            AdapterStepModel::Nothing,
        ),
        info.origin_request is None ==> (info.message.payload matches JsonRpcMessageModel::Request(request)
            ==> {
            &&& request.method == "workspace/executeCommand"@ ==> adapted(state, info) == on_command(
                state,
                request,
            )
            &&& request.method == "initialize"@ ==> adapted(state, info) == on_initialize_request(
                state,
                info.message,
            )
            &&& request.method != "workspace/executeCommand"@ && request.method != "initialize"@
                ==> adapted(state, info) == (state, AdapterStepModel::Nothing)
        }),
        info.origin_request is None && info.message.payload is Notification ==> adapted(state, info) == (
            state,
            on_document(info.message),
        ),
        info.origin_request matches Some(request) ==> {
            &&& request.method == "textDocument/codeAction"@ ==> adapted(state, info) == (
                state,
                on_code_action_response(state, request, info.message),
            )
            &&& request.method == "initialize"@ ==> adapted(state, info) == on_initialize_response(
                state,
                info.message,
            )
        },
{
    reveal_strlit("workspace/executeCommand");
    reveal_strlit("initialize");
    reveal_strlit("textDocument/codeAction");
    assert("workspace/executeCommand"@.len() == 24);
    assert("initialize"@.len() == 10);
    assert("textDocument/codeAction"@.len() == 23);
}

} // verus!
