//! The parameters and results of the language server protocol, as the types of `lsp_types` read and
//! write them.

use serde_json::Value;
use vstd::prelude::*;
use crate::codeassist::complete::ServerSupport;
use crate::codeassist::content::{ContentChange, ContentChangeModel, DocSync, DocSyncModel};
use crate::codeassist::lsp::{
    result_in, LspMessage, LspMessageModel, DID_CHANGE_METHOD, DID_CLOSE_METHOD, DID_OPEN_METHOD,
};
use crate::codeassist::position::{Location, LocationModel, Position, Range};
use crate::codeassist::symbols::SemanticToken;
use crate::codeassist::typedefs::SimpleFoldingRange;
use crate::json::{
    array_value, clone_value, documents, get, json, new_map, no_members, object_value, set_member, text_value, Json,
};
use crate::text::same;

verus! {

// ---------------------------------------------------------------------------------------------
// What is read of documents. Each of these is a function of the document, and gives the error in
// words where the document does not have the form that is asked for.

/// The command that a document describes, with its arguments.
pub uninterp spec fn command_in(params: Json) -> Result<(Seq<char>, Seq<Json>), Seq<char>>;

/// The location that a document describes.
pub uninterp spec fn location_in(value: Json) -> Result<LocationModel, Seq<char>>;

/// The piece of code for which a document asks what can be done with it.
pub uninterp spec fn code_action_target(params: Json) -> Result<LocationModel, Seq<char>>;

/// The list of what can be done with a piece of code, in the form in which it is passed on.
pub uninterp spec fn code_actions(result: Json) -> Result<Seq<Json>, Seq<char>>;

/// The address of the project with which a session begins.
pub uninterp spec fn root_in(params: Json) -> Result<Option<Seq<char>>, Seq<char>>;

/// What a language server tells of itself.
pub uninterp spec fn server_in(result: Json) -> Result<ServerInfoModel, Seq<char>>;

/// What a language server tells of itself, in the form in which it is passed on.
pub uninterp spec fn server_told(result: Json) -> Result<Json, Seq<char>>;

/// The document that was opened: its address, its language and its text.
pub uninterp spec fn opened_in(params: Json) -> Result<(Seq<char>, Seq<char>, Seq<char>), Seq<char>>;

/// The document that was changed, and its changes.
pub uninterp spec fn changes_in(params: Json) -> Result<
    (Seq<char>, Seq<ContentChangeModel>),
    Seq<char>,
>;

/// The document that was closed.
pub uninterp spec fn closing_in(params: Json) -> Result<Seq<char>, Seq<char>>;

/// The tokens of a document.
pub uninterp spec fn tokens_in_result(result: Json) -> Result<Seq<SemanticToken>, Seq<char>>;

/// The places where a type is defined.
pub uninterp spec fn definitions_in(result: Json) -> Result<TypeDefinitionsModel, Seq<char>>;

/// The lines of a document that can be folded, if there are any.
pub uninterp spec fn folds_in(result: Json) -> Result<Option<Seq<SimpleFoldingRange>>, Seq<char>>;

/// What a language server tells of itself: what it can tell, and the commands that it has, if it has
/// any.
#[derive(Debug)]
pub struct ServerInfo {
    pub support: ServerSupport,
    pub commands: Option<Vec<String>>,
}

/// What a [`ServerInfo`] says.
#[verifier::ext_equal]
pub ghost struct ServerInfoModel {
    pub support: ServerSupport,
    pub commands: Option<Seq<Seq<char>>>,
}

impl DeepView for ServerInfo {
    type V = ServerInfoModel;

    open spec fn deep_view(&self) -> ServerInfoModel {
        ServerInfoModel { support: self.support, commands: self.commands.deep_view() }
    }
}

/// The places where a type is defined, in the forms in which they can be told.
#[derive(Debug)]
pub enum TypeDefinitions {
    One(Location),
    Many(Vec<Location>),
    /// Places with the code that leads there.
    Links,
}

/// What a [`TypeDefinitions`] says.
#[verifier::ext_equal]
pub ghost enum TypeDefinitionsModel {
    One(LocationModel),
    Many(Seq<LocationModel>),
    Links,
}

impl DeepView for TypeDefinitions {
    type V = TypeDefinitionsModel;

    open spec fn deep_view(&self) -> TypeDefinitionsModel {
        match self {
            TypeDefinitions::One(location) => TypeDefinitionsModel::One(location.deep_view()),
            TypeDefinitions::Many(locations) => TypeDefinitionsModel::Many(locations.deep_view()),
            TypeDefinitions::Links => TypeDefinitionsModel::Links,
        }
    }
}

/// `serde_json::from_value` to an `ExecuteCommandParams` of `lsp_types`.
#[verifier::external_body]
pub(crate) fn read_command(params: &Value) -> (r: Result<(String, Vec<Value>), String>)
    ensures
        match r {
            Ok((command, arguments)) => command_in(json(*params)) == Ok::<_, Seq<char>>(
                (command@, documents(arguments@)),
            ),
            Err(error) => command_in(json(*params)) == Err::<(Seq<char>, Seq<Json>), _>(error@),
        },
{
    serde_json::from_value::<lsp_types::ExecuteCommandParams>(params.clone())
        .map(|p| (p.command, p.arguments))
        .map_err(|e| e.to_string())
}

/// `serde_json::from_value` to a `Location` of `lsp_types`.
#[verifier::external_body]
pub(crate) fn read_location(value: &Value) -> (r: Result<Location, String>)
    ensures
        match r {
            Ok(location) => location_in(json(*value)) == Ok::<_, Seq<char>>(location.deep_view()),
            Err(error) => location_in(json(*value)) == Err::<LocationModel, _>(error@),
        },
{
    let read = serde_json::from_value::<lsp_types::Location>(value.clone());
    let l = read.map_err(|e| e.to_string())?;
    Ok(
        Location {
            uri: l.uri.to_string(),
            range: Range {
                start: Position { line: l.range.start.line, character: l.range.start.character },
                end: Position { line: l.range.end.line, character: l.range.end.character },
            },
        },
    )
}

/// `serde_json::from_value` to a `CodeActionParams` of `lsp_types`.
#[verifier::external_body]
pub(crate) fn read_code_action_target(params: &Value) -> (r: Result<Location, String>)
    ensures
        match r {
            Ok(location) => code_action_target(json(*params)) == Ok::<_, Seq<char>>(location.deep_view()),
            Err(error) => code_action_target(json(*params)) == Err::<LocationModel, _>(error@),
        },
{
    let read = serde_json::from_value::<lsp_types::CodeActionParams>(params.clone());
    let p = read.map_err(|e| e.to_string())?;
    Ok(
        Location {
            uri: p.text_document.uri.to_string(),
            range: Range {
                start: Position { line: p.range.start.line, character: p.range.start.character },
                end: Position { line: p.range.end.line, character: p.range.end.character },
            },
        },
    )
}

/// `serde_json::from_value` to a `CodeActionResponse` of `lsp_types`, with `serde_json::to_value` on
/// each of its items.
#[verifier::external_body]
pub(crate) fn read_code_actions(result: &Value) -> (r: Result<Vec<Value>, String>)
    ensures
        match r {
            Ok(actions) => code_actions(json(*result)) == Ok::<_, Seq<char>>(documents(actions@)),
            Err(error) => code_actions(json(*result)) == Err::<Seq<Json>, _>(error@),
        },
{
    serde_json::from_value::<lsp_types::CodeActionResponse>(result.clone())
        .and_then(|actions| actions.into_iter().map(serde_json::to_value).collect())
        .map_err(|e| e.to_string())
}

/// `serde_json::from_value` to an `InitializeParams` of `lsp_types`.
#[verifier::external_body]
pub(crate) fn read_root(params: &Value) -> (r: Result<Option<String>, String>)
    ensures
        match r {
            Ok(root) => root_in(json(*params)) == Ok::<_, Seq<char>>(root.deep_view()),
            Err(error) => root_in(json(*params)) == Err::<Option<Seq<char>>, _>(error@),
        },
{
    serde_json::from_value::<lsp_types::InitializeParams>(params.clone())
        .map(|p| p.root_uri.map(|uri| uri.to_string()))
        .map_err(|e| e.to_string())
}

/// `serde_json::from_value` to an `InitializeResult` of `lsp_types`.
#[verifier::external_body]
pub(crate) fn read_server(result: &Value) -> (r: Result<ServerInfo, String>)
    ensures
        match r {
            Ok(server) => server_in(json(*result)) == Ok::<_, Seq<char>>(server.deep_view()),
            Err(error) => server_in(json(*result)) == Err::<ServerInfoModel, _>(error@),
        },
{
    let read = serde_json::from_value::<lsp_types::InitializeResult>(result.clone());
    let server = read.map_err(|e| e.to_string())?.capabilities;
    Ok(
        ServerInfo {
            support: ServerSupport {
                semantic_tokens: server.semantic_tokens_provider.is_some(),
                folding_ranges: server.folding_range_provider.is_some(),
                type_definitions: server.type_definition_provider.is_some(),
            },
            commands: server.execute_command_provider.map(|p| p.commands),
        },
    )
}

/// The commands in what a language server tells of itself.
pub open spec fn commands_shown(result: Json) -> Option<Json> {
    match result.member("capabilities"@) {
        Some(capabilities) => match capabilities.member("executeCommandProvider"@) {
            Some(provider) => provider.member("commands"@),
            None => None,
        },
        None => None,
    }
}

/// Texts in JSON.
pub open spec fn text_array(texts: Seq<Seq<char>>) -> Json {
    Json::Array(texts.map_values(|text: Seq<char>| Json::Text(text)))
}

/// Whether the document is an object with capabilities, in which the commands, if they are told, stand
/// in an object.
pub open spec fn has_capabilities(told: Json) -> bool {
    &&& told is Object
    &&& told.member("capabilities"@) matches Some(capabilities) && capabilities is Object && (
    capabilities.member("executeCommandProvider"@) matches Some(provider) ==> provider is Object)
}

/// `serde_json::from_value` to an `InitializeResult` of `lsp_types`, and `serde_json::to_value` on it.
/// The capabilities and, where there is one, the provider of commands are written as objects.
#[verifier::external_body]
fn write_server(result: &Value) -> (r: Result<Value, String>)
    ensures
        match r {
            Ok(told) => server_told(json(*result)) == Ok::<_, Seq<char>>(json(told)) && has_capabilities(
                json(told),
            ),
            Err(error) => server_told(json(*result)) == Err::<Json, _>(error@),
        },
{
    let read = serde_json::from_value::<lsp_types::InitializeResult>(result.clone());
    let server = read.map_err(|e| e.to_string())?;
    serde_json::to_value(server).map_err(|e| e.to_string())
}

/// The document with a member, in the place of one of that name.
pub open spec fn with_member(document: Json, name: Seq<char>, value: Json) -> Json {
    Json::Object(document->Object_0.insert(name, value))
}

/// What a language server tells of itself with other commands. Where it tells of none, these are all
/// that is told of its commands.
pub open spec fn telling_commands(told: Json, commands: Seq<Seq<char>>) -> Json {
    let capabilities = told.member("capabilities"@)->0;
    let provider = match capabilities.member("executeCommandProvider"@) {
        Some(provider) => provider,
        None => Json::Object(no_members()),
    };
    with_member(
        told,
        "capabilities"@,
        with_member(
            capabilities,
            "executeCommandProvider"@,
            with_member(provider, "commands"@, text_array(commands)),
        ),
    )
}

/// What a language server tells of itself, with other commands, in the form in which it is passed on.
pub open spec fn with_commands(result: Json, commands: Seq<Seq<char>>) -> Result<Json, Seq<char>> {
    match server_told(result) {
        Ok(told) => Ok(telling_commands(told, commands)),
        Err(error) => Err(error),
    }
}

/// Texts in JSON.
fn texts_value(texts: &Vec<String>) -> (r: Value)
    ensures
        json(r) == text_array(texts.deep_view()),
{
    let mut items: Vec<Value> = Vec::new();
    let mut i: usize = 0;
    while i < texts.len()
        invariant
            i <= texts@.len(),
            items@.len() == i,
            forall|k: int| 0 <= k < i ==> json(#[trigger] items@[k]) == Json::Text(texts@[k]@),
        decreases texts.len() - i,
    {
        items.push(text_value(texts[i].clone()));
        i = i + 1;
    }
    assert(documents(items@) =~= texts.deep_view().map_values(|text: Seq<char>| Json::Text(text)));
    array_value(items)
}

/// Puts commands into what a language server tells of itself.
pub fn set_commands(told: Value, commands: &Vec<String>) -> (r: Value)
    requires
        has_capabilities(json(told)),
    ensures
        json(r) == telling_commands(json(told), commands.deep_view()),
{
    let mut capabilities = match get(&told, "capabilities") {
        Some(capabilities) => clone_value(capabilities),
        None => object_value(new_map()),
    };
    let mut provider = match get(&capabilities, "executeCommandProvider") {
        Some(provider) => clone_value(provider),
        None => object_value(new_map()),
    };
    set_member(&mut provider, "commands".to_owned(), texts_value(commands));
    set_member(&mut capabilities, "executeCommandProvider".to_owned(), provider);
    let mut told = told;
    set_member(&mut told, "capabilities".to_owned(), capabilities);
    told
}

/// Writes what a language server tells of itself with other commands. The commands stand in the
/// result.
pub fn write_commands(result: &Value, commands: Vec<String>) -> (r: Result<Value, String>)
    ensures
        match r {
            Ok(value) => {
                &&& with_commands(json(*result), commands.deep_view()) == Ok::<_, Seq<char>>(json(value))
                &&& commands_shown(json(value)) == Some(text_array(commands.deep_view()))
            },
            Err(error) => with_commands(json(*result), commands.deep_view()) == Err::<Json, _>(error@),
        },
{
    match write_server(result) {
        Ok(told) => Ok(set_commands(told, &commands)),
        Err(error) => Err(error),
    }
}

/// `serde_json::from_value` to a `DidOpenTextDocumentParams` of `lsp_types`.
#[verifier::external_body]
pub(crate) fn read_opened(params: &Value) -> (r: Result<(String, String, String), String>)
    ensures
        match r {
            Ok((uri, language_id, text)) => opened_in(json(*params)) == Ok::<_, Seq<char>>(
                (uri@, language_id@, text@),
            ),
            Err(error) => opened_in(json(*params)) == Err::<(Seq<char>, Seq<char>, Seq<char>), _>(error@),
        },
{
    serde_json::from_value::<lsp_types::DidOpenTextDocumentParams>(params.clone())
        .map(|p| p.text_document)
        .map(|d| (d.uri.to_string(), d.language_id, d.text))
        .map_err(|e| e.to_string())
}

/// `serde_json::from_value` to a `DidChangeTextDocumentParams` of `lsp_types`.
#[verifier::external_body]
pub(crate) fn read_changes(params: &Value) -> (r: Result<(String, Vec<ContentChange>), String>)
    ensures
        match r {
            Ok((uri, changes)) => changes_in(json(*params)) == Ok::<_, Seq<char>>(
                (uri@, changes.deep_view()),
            ),
            Err(error) => changes_in(json(*params)) == Err::<(Seq<char>, Seq<ContentChangeModel>), _>(
                error@,
            ),
        },
{
    let read = serde_json::from_value::<lsp_types::DidChangeTextDocumentParams>(params.clone());
    let p = read.map_err(|e| e.to_string())?;
    let place = |at: lsp_types::Position| Position { line: at.line, character: at.character };
    let range = |r: lsp_types::Range| Range { start: place(r.start), end: place(r.end) };
    let changes = p.content_changes.into_iter().map(
        |c| ContentChange { range: c.range.map(range), text: c.text },
    );
    Ok((p.text_document.uri.to_string(), changes.collect()))
}

/// `serde_json::from_value` to a `DidCloseTextDocumentParams` of `lsp_types`.
#[verifier::external_body]
pub(crate) fn read_closing(params: &Value) -> (r: Result<String, String>)
    ensures
        match r {
            Ok(uri) => closing_in(json(*params)) == Ok::<_, Seq<char>>(uri@),
            Err(error) => closing_in(json(*params)) == Err::<Seq<char>, _>(error@),
        },
{
    serde_json::from_value::<lsp_types::DidCloseTextDocumentParams>(params.clone())
        .map(|p| p.text_document.uri.to_string())
        .map_err(|e| e.to_string())
}

/// `serde_json::from_value` to a `SemanticTokens` of `lsp_types`.
#[verifier::external_body]
pub(crate) fn read_tokens(result: &Value) -> (r: Result<Vec<SemanticToken>, String>)
    ensures
        match r {
            Ok(tokens) => tokens_in_result(json(*result)) == Ok::<_, Seq<char>>(tokens@),
            Err(error) => tokens_in_result(json(*result)) == Err::<Seq<SemanticToken>, _>(error@),
        },
{
    let read = serde_json::from_value::<lsp_types::SemanticTokens>(result.clone());
    let tokens = read.map_err(|e| e.to_string())?.data.into_iter().map(
        |t| SemanticToken {
            delta_line: t.delta_line,
            delta_start: t.delta_start,
            length: t.length,
        },
    );
    Ok(tokens.collect())
}

/// `serde_json::from_value` to a `GotoDefinitionResponse` of `lsp_types`.
#[verifier::external_body]
pub(crate) fn read_definitions(result: &Value) -> (r: Result<TypeDefinitions, String>)
    ensures
        match r {
            Ok(found) => definitions_in(json(*result)) == Ok::<_, Seq<char>>(found.deep_view()),
            Err(error) => definitions_in(json(*result)) == Err::<TypeDefinitionsModel, _>(error@),
        },
{
    let place = |at: lsp_types::Position| Position { line: at.line, character: at.character };
    let range = |r: lsp_types::Range| Range { start: place(r.start), end: place(r.end) };
    let own = |l: lsp_types::Location| Location { uri: l.uri.to_string(), range: range(l.range) };
    let read = serde_json::from_value::<lsp_types::GotoDefinitionResponse>(result.clone());
    Ok(
        match read.map_err(|e| e.to_string())? {
            lsp_types::GotoDefinitionResponse::Scalar(l) => TypeDefinitions::One(own(l)),
            lsp_types::GotoDefinitionResponse::Array(l) => TypeDefinitions::Many(
                l.into_iter().map(own).collect(),
            ),
            lsp_types::GotoDefinitionResponse::Link(_) => TypeDefinitions::Links,
        },
    )
}

/// `serde_json::from_value` to an optional list of the `FoldingRange` of `lsp_types`.
#[verifier::external_body]
pub(crate) fn read_folds(result: &Value) -> (r: Result<Option<Vec<SimpleFoldingRange>>, String>)
    ensures
        match r {
            Ok(folds) => folds_in(json(*result)) == Ok::<_, Seq<char>>(
                match folds {
                    Some(folds) => Some(folds@),
                    None => None,
                },
            ),
            Err(error) => folds_in(json(*result)) == Err::<Option<Seq<SimpleFoldingRange>>, _>(error@),
        },
{
    let read = serde_json::from_value::<Option<Vec<lsp_types::FoldingRange>>>(result.clone());
    let own = |f: lsp_types::FoldingRange| SimpleFoldingRange {
        start_line: f.start_line,
        end_line: f.end_line,
    };
    let folds = read.map_err(|e| e.to_string())?;
    Ok(folds.map(|folds| folds.into_iter().map(own).collect()))
}

// ---------------------------------------------------------------------------------------------
// What is read of messages.

/// The locations where a type is defined. Links do not count.
pub open spec fn definition_locations(definitions: TypeDefinitionsModel) -> Seq<LocationModel> {
    match definitions {
        TypeDefinitionsModel::One(location) => seq![location],
        TypeDefinitionsModel::Many(locations) => locations,
        TypeDefinitionsModel::Links => Seq::empty(),
    }
}

/// The locations where a type is defined, as a message tells them.
pub open spec fn locations_told(message: LspMessageModel) -> Result<Seq<LocationModel>, Seq<char>> {
    match result_in(message.payload) {
        Ok(result) => match definitions_in(result) {
            Ok(definitions) => Ok(definition_locations(definitions)),
            Err(error) => Err(error),
        },
        Err(fault) => Err(fault.message()),
    }
}

/// The locations where a type is defined. Links do not count.
pub fn locations_of(definitions: TypeDefinitions) -> (r: Vec<Location>)
    ensures
        r.deep_view() == definition_locations(definitions.deep_view()),
{
    match definitions {
        TypeDefinitions::One(location) => {
            let ghost said = location.deep_view();
            let mut r: Vec<Location> = Vec::new();
            r.push(location);
            assert(r.deep_view() =~= seq![said]);
            r
        },
        TypeDefinitions::Many(locations) => locations,
        TypeDefinitions::Links => {
            let r: Vec<Location> = Vec::new();
            assert(r.deep_view() =~= Seq::<LocationModel>::empty());
            r
        },
    }
}

/// The locations where a type is defined, as the answer of the language server tells them.
pub fn read_locations(message: &LspMessage) -> (r: Result<Vec<Location>, String>)
    ensures
        match r {
            Ok(locations) => locations_told(message.deep_view()) == Ok::<_, Seq<char>>(
                locations.deep_view(),
            ),
            Err(error) => locations_told(message.deep_view()) == Err::<Seq<LocationModel>, _>(error@),
        },
{
    match message.get_result() {
        Ok(result) => match read_definitions(&result) {
            Ok(definitions) => Ok(locations_of(definitions)),
            Err(error) => Err(error),
        },
        Err(fault) => Err(fault.message()),
    }
}

/// The tokens of a document, as a message tells them.
pub open spec fn tokens_told(message: LspMessageModel) -> Result<Seq<SemanticToken>, Seq<char>> {
    match result_in(message.payload) {
        Ok(result) => tokens_in_result(result),
        Err(fault) => Err(fault.message()),
    }
}

/// The tokens of a document, as the answer of the language server tells them.
pub fn read_semantic_tokens(message: &LspMessage) -> (r: Result<Vec<SemanticToken>, String>)
    ensures
        match r {
            Ok(tokens) => tokens_told(message.deep_view()) == Ok::<_, Seq<char>>(tokens@),
            Err(error) => tokens_told(message.deep_view()) == Err::<Seq<SemanticToken>, _>(error@),
        },
{
    match message.get_result() {
        Ok(result) => read_tokens(&result),
        Err(fault) => Err(fault.message()),
    }
}

/// The lines of a document that can be folded, as a message tells them.
pub open spec fn folds_told(message: LspMessageModel) -> Result<
    Option<Seq<SimpleFoldingRange>>,
    Seq<char>,
> {
    match result_in(message.payload) {
        Ok(result) => folds_in(result),
        Err(fault) => Err(fault.message()),
    }
}

/// The lines of a document that can be folded, as the answer of the language server tells them.
pub fn read_folding_ranges(message: &LspMessage) -> (r: Result<
    Option<Vec<SimpleFoldingRange>>,
    String,
>)
    ensures
        match r {
            Ok(folds) => folds_told(message.deep_view()) == Ok::<_, Seq<char>>(
                match folds {
                    Some(folds) => Some(folds@),
                    None => None,
                },
            ),
            Err(error) => folds_told(message.deep_view()) == Err::<
                Option<Seq<SimpleFoldingRange>>,
                _,
            >(error@),
        },
{
    match message.get_result() {
        Ok(result) => read_folds(&result),
        Err(fault) => Err(fault.message()),
    }
}

/// What a message says of a document, with the method it is sent by. Other methods say nothing.
pub open spec fn sync_told(method: Seq<char>, params: Json) -> Result<Option<DocSyncModel>, Seq<char>> {
    if method == DID_OPEN_METHOD@ {
        match opened_in(params) {
            Ok((uri, language_id, text)) => Ok(Some(DocSyncModel::Open { uri, language_id, text })),
            Err(error) => Err(error),
        }
    } else if method == DID_CHANGE_METHOD@ {
        match changes_in(params) {
            Ok((uri, changes)) => Ok(Some(DocSyncModel::Change { uri, changes })),
            Err(error) => Err(error),
        }
    } else if method == DID_CLOSE_METHOD@ {
        match closing_in(params) {
            Ok(uri) => Ok(Some(DocSyncModel::Close { uri })),
            Err(error) => Err(error),
        }
    } else {
        Ok(None)
    }
}

/// Reads what a message says of a document.
pub fn read_sync(method: &str, params: &Value) -> (r: Result<Option<DocSync>, String>)
    ensures
        match r {
            Ok(sync) => sync_told(method@, json(*params)) == Ok::<_, Seq<char>>(sync.deep_view()),
            Err(error) => sync_told(method@, json(*params)) == Err::<Option<DocSyncModel>, _>(error@),
        },
{
    if same(method, DID_OPEN_METHOD) {
        match read_opened(params) {
            Ok((uri, language_id, text)) => Ok(Some(DocSync::Open { uri, language_id, text })),
            Err(error) => Err(error),
        }
    } else if same(method, DID_CHANGE_METHOD) {
        match read_changes(params) {
            Ok((uri, changes)) => Ok(Some(DocSync::Change { uri, changes })),
            Err(error) => Err(error),
        }
    } else if same(method, DID_CLOSE_METHOD) {
        match read_closing(params) {
            Ok(uri) => Ok(Some(DocSync::Close { uri })),
            Err(error) => Err(error),
        }
    } else {
        Ok(None)
    }
}

// ---------------------------------------------------------------------------------------------
// Laws.

/// The places of a definition are all that are told, in order; links give none.
pub proof fn law_all_places_of_a_definition_count(location: LocationModel, locations: Seq<LocationModel>)
    ensures
        definition_locations(TypeDefinitionsModel::One(location)) == seq![location],
        definition_locations(TypeDefinitionsModel::Many(locations)) == locations,
        definition_locations(TypeDefinitionsModel::Links).len() == 0,
{
}

/// Other commands change nothing else of what a language server tells of itself, and are all shown, in
/// order.
pub proof fn law_only_commands_change(told: Json, commands: Seq<Seq<char>>, name: Seq<char>)
    requires
        has_capabilities(told),
    ensures
        ({
            let after = telling_commands(told, commands);
            let before = told.member("capabilities"@)->0;
            &&& name != "capabilities"@ ==> after.member(name) == told.member(name)
            &&& after.member("capabilities"@) matches Some(capabilities)
            &&& name != "executeCommandProvider"@ ==> capabilities.member(name) == before.member(name)
            &&& commands_shown(after) matches Some(Json::Array(shown))
            &&& shown.len() == commands.len() && forall|i: int|
                0 <= i < shown.len() ==> #[trigger] shown[i] == Json::Text(commands[i])
        }),
{
}

/// What the editor says of a document is told as it is said: what was opened, changed or closed.
pub proof fn law_documents_are_told_as_they_are(
    params: Json,
    uri: Seq<char>,
    language_id: Seq<char>,
    text: Seq<char>,
    changes: Seq<ContentChangeModel>,
    method: Seq<char>,
)
    ensures
        opened_in(params) == Ok::<_, Seq<char>>((uri, language_id, text)) ==> sync_told(
            "textDocument/didOpen"@,
            params,
        ) == Ok::<_, Seq<char>>(Some((DocSyncModel::Open { uri, language_id, text }))),
        changes_in(params) == Ok::<_, Seq<char>>((uri, changes)) ==> sync_told(
            "textDocument/didChange"@,
            params,
        ) == Ok::<_, Seq<char>>(Some((DocSyncModel::Change { uri, changes }))),
        closing_in(params) == Ok::<_, Seq<char>>(uri) ==> sync_told("textDocument/didClose"@, params)
            == Ok::<_, Seq<char>>(Some((DocSyncModel::Close { uri }))),
        method != "textDocument/didOpen"@ && method != "textDocument/didChange"@ && method
            != "textDocument/didClose"@ ==> sync_told(method, params) == Ok::<_, Seq<char>>(
            None::<DocSyncModel>,
        ),
{
    reveal_strlit("textDocument/didOpen");
    reveal_strlit("textDocument/didChange");
    reveal_strlit("textDocument/didClose");
    assert("textDocument/didOpen"@.len() == 20);
    assert("textDocument/didChange"@.len() == 22);
    assert("textDocument/didClose"@.len() == 21);
}

} // verus!
