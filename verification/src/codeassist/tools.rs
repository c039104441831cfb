//! The tools with which a model edits files.

use serde_json::{Map as JsonMap, Value};
use vstd::prelude::*;
use crate::codeassist::position::{at, spec_at, Position, Range, TextEdit, TextEditModel};
use crate::json::{
    array_value, as_i64, as_object, as_str, documents, json, map_get, map_insert, members, new_map,
    no_members, object_value, text_value, Json,
};
use crate::protocol::{
    StoreToolCallResultsRequest, StoreToolCallResultsRequestModel, Tool, ToolCall, ToolCallModel,
    ToolCallResult, ToolCallResultModel, ToolModel, ToolType,
};
use crate::text::same;

verus! {

const REPLACE_LINES_TOOL_NAME: &'static str = "replace_lines";

const INSERT_LINE_TOOL_NAME: &'static str = "insert_line";

pub const FILE_URI_ARG: &'static str = "file_uri";

pub const START_LINE_ARG: &'static str = "start_line";

pub const END_LINE_ARG: &'static str = "end_line";

pub const INSERT_LINE_ARG: &'static str = "line";

pub const CONTENT_ARG: &'static str = "content";

// ---------------------------------------------------------------------------------------------
// What the tools are.

/// The description of a parameter of a tool.
pub open spec fn property(kind: Seq<char>, description: Seq<char>) -> Json {
    Json::Object(
        no_members().insert("type"@, Json::Text(kind)).insert("description"@, Json::Text(description)),
    )
}

/// The description of the parameters of a tool.
pub open spec fn schema(properties: Map<Seq<char>, Json>, required: Seq<Json>) -> Json {
    Json::Object(
        no_members().insert("type"@, Json::Text("object"@)).insert(
            "properties"@,
            Json::Object(properties),
        ).insert("required"@, Json::Array(required)),
    )
}

/// The parameters of the tool that replaces lines.
pub open spec fn replace_lines_schema() -> Json {
    schema(
        no_members().insert(FILE_URI_ARG@, property("string"@, "URI of file to edit"@)).insert(
            START_LINE_ARG@,
            property("integer"@, "Starting line number, inclusive"@),
        ).insert(END_LINE_ARG@, property("integer"@, "Ending line number, inclusive"@)).insert(
            CONTENT_ARG@,
            property("string"@, "New multiline content to replace the lines"@),
        ),
        seq![
            Json::Text(FILE_URI_ARG@),
            Json::Text(START_LINE_ARG@),
            Json::Text(END_LINE_ARG@),
            Json::Text(CONTENT_ARG@),
        ],
    )
}

/// The parameters of the tool that inserts a line.
pub open spec fn insert_line_schema() -> Json {
    schema(
        no_members().insert(FILE_URI_ARG@, property("string"@, "URI of file to edit"@)).insert(
            INSERT_LINE_ARG@,
            property(
                "integer"@,
                "The line number to insert the content; existing content at the line number will be moved downwards"@,
            ),
        ).insert(CONTENT_ARG@, property("string"@, "Multiline content to insert as new line"@)),
        seq![Json::Text(FILE_URI_ARG@), Json::Text(INSERT_LINE_ARG@), Json::Text(CONTENT_ARG@)],
    )
}

/// The tools, by name.
pub closed spec fn definitions(use_native_tools: bool) -> Seq<ToolModel> {
    let tool_type = if use_native_tools {
        ToolType::Native
    } else {
        ToolType::Text
    };
    seq![
        ToolModel {
            name: REPLACE_LINES_TOOL_NAME@,
            description: "Replace lines in a file"@,
            input_schema: replace_lines_schema(),
            tool_type,
        },
        ToolModel {
            name: INSERT_LINE_TOOL_NAME@,
            description: "Insert a new line after the specified line number in a file"@,
            input_schema: insert_line_schema(),
            tool_type,
        },
    ]
}

fn add_property(properties: &mut JsonMap<String, Value>, name: &str, kind: &str, description: &str)
    ensures
        members(*final(properties)) == members(*old(properties)).insert(
            name@,
            property(kind@, description@),
        ),
{
    let mut m = new_map();
    map_insert(&mut m, "type".to_owned(), text_value(kind.to_owned()));
    map_insert(&mut m, "description".to_owned(), text_value(description.to_owned()));
    map_insert(properties, name.to_owned(), object_value(m));
}

fn schema_value(properties: JsonMap<String, Value>, required: Vec<Value>) -> (r: Value)
    ensures
        json(r) == schema(members(properties), documents(required@)),
{
    let mut m = new_map();
    map_insert(&mut m, "type".to_owned(), text_value("object".to_owned()));
    map_insert(&mut m, "properties".to_owned(), object_value(properties));
    map_insert(&mut m, "required".to_owned(), array_value(required));
    object_value(m)
}

// ---------------------------------------------------------------------------------------------
// What a call says.

/// Why a call of a tool is not carried out.
#[derive(Clone, Copy, Debug, PartialEq, Eq, Structural)]
pub enum ToolFault {
    NotAnObject,
    MissingFileUri,
    BadFileUri,
    MissingContent,
    BadContent,
    MissingInsertLine,
    BadInsertLine,
    MissingStartLine,
    BadStartLine,
    InvalidLine,
    UnrecognizedTool,
}

impl ToolFault {
    /// The fault in words.
    pub open spec fn spec_message(self) -> Seq<char> {
        match self {
            ToolFault::NotAnObject => "tool arguments is not in object format"@,
            ToolFault::MissingFileUri => "missing file uri argument"@,
            ToolFault::BadFileUri => "failed to parse file uri argument"@,
            ToolFault::MissingContent => "missing content argument"@,
            ToolFault::BadContent => "failed to parse content argument"@,
            ToolFault::MissingInsertLine => "missing insert line argument"@,
            ToolFault::BadInsertLine => "failed to parse insert line argument"@,
            ToolFault::MissingStartLine => "missing start line argument"@,
            ToolFault::BadStartLine => "failed to parse start line argument"@,
            ToolFault::InvalidLine => "invalid line number"@,
            ToolFault::UnrecognizedTool => "unrecognized tool name"@,
        }
    }

    /// The fault in words.
    pub fn message(&self) -> (r: &'static str)
        ensures
            r@ == self.spec_message(),
    {
        match self {
            ToolFault::NotAnObject => "tool arguments is not in object format",
            ToolFault::MissingFileUri => "missing file uri argument",
            ToolFault::BadFileUri => "failed to parse file uri argument",
            ToolFault::MissingContent => "missing content argument",
            ToolFault::BadContent => "failed to parse content argument",
            ToolFault::MissingInsertLine => "missing insert line argument",
            ToolFault::BadInsertLine => "failed to parse insert line argument",
            ToolFault::MissingStartLine => "missing start line argument",
            ToolFault::BadStartLine => "failed to parse start line argument",
            ToolFault::InvalidLine => "invalid line number",
            ToolFault::UnrecognizedTool => "unrecognized tool name",
        }
    }
}

/// A text among the arguments, or the fault where it is missing or no text.
pub open spec fn text_argument(
    arguments: Map<Seq<char>, Json>,
    name: Seq<char>,
    missing: ToolFault,
    bad: ToolFault,
) -> Result<Seq<char>, ToolFault> {
    if !arguments.contains_key(name) {
        Err(missing)
    } else {
        match arguments[name].text() {
            Some(text) => Ok(text),
            None => Err(bad),
        }
    }
}

/// An integer among the arguments, or the fault where it is missing or no integer.
pub open spec fn integer_argument(
    arguments: Map<Seq<char>, Json>,
    name: Seq<char>,
    missing: ToolFault,
    bad: ToolFault,
) -> Result<int, ToolFault> {
    if !arguments.contains_key(name) {
        Err(missing)
    } else {
        match arguments[name].integer() {
            Some(n) => Ok(n),
            None => Err(bad),
        }
    }
}

fn get_text<'a>(
    arguments: &'a JsonMap<String, Value>,
    name: &str,
    missing: ToolFault,
    bad: ToolFault,
) -> (r: Result<&'a str, ToolFault>)
    ensures
        match r {
            Ok(text) => text_argument(members(*arguments), name@, missing, bad) == Ok::<_, ToolFault>(text@),
            Err(fault) => text_argument(members(*arguments), name@, missing, bad) == Err::<
                Seq<char>,
                _,
            >(fault),
        },
{
    match map_get(arguments, name) {
        None => Err(missing),
        Some(value) => match as_str(value) {
            None => Err(bad),
            Some(text) => Ok(text),
        },
    }
}

fn get_integer(
    arguments: &JsonMap<String, Value>,
    name: &str,
    missing: ToolFault,
    bad: ToolFault,
) -> (r: Result<i64, ToolFault>)
    ensures
        match r {
            Ok(n) => integer_argument(members(*arguments), name@, missing, bad) == Ok::<_, ToolFault>(
                n as int,
            ),
            Err(fault) => integer_argument(members(*arguments), name@, missing, bad) == Err::<int, _>(
                fault,
            ),
        },
{
    match map_get(arguments, name) {
        None => Err(missing),
        Some(value) => match as_i64(value) {
            None => Err(bad),
            Some(n) => Ok(n),
        },
    }
}

/// The start of a line. Of its number the lowest 32 bits count.
pub open spec fn line_start(line: int) -> Position {
    Position { line: (line % 0x1_0000_0000) as u32, character: 0 }
}

fn start_of_line(line: i64) -> (r: Position)
    requires
        line >= 0,
    ensures
        r == line_start(line as int),
{
    let n: u64 = line as u64;
    let low: u64 = n % 0x1_0000_0000;
    Position { line: low as u32, character: 0 }
}

/// The range that a call replaces. A line that is inserted comes before the line of its number, and
/// lines that are replaced are counted from one, the last among them.
pub open spec fn call_range(name: Seq<char>, arguments: Map<Seq<char>, Json>) -> Result<
    Range,
    ToolFault,
> {
    if name == "insert_line"@ {
        match integer_argument(
            arguments,
            INSERT_LINE_ARG@,
            ToolFault::MissingInsertLine,
            ToolFault::BadInsertLine,
        ) {
            Ok(line) => if line < 1 {
                Err(ToolFault::InvalidLine)
            } else {
                Ok(spec_at(line_start(line - 1)))
            },
            Err(fault) => Err(fault),
        }
    } else if name == "replace_lines"@ {
        match integer_argument(
            arguments,
            START_LINE_ARG@,
            ToolFault::MissingStartLine,
            ToolFault::BadStartLine,
        ) {
            Ok(start) => match integer_argument(
                arguments,
                END_LINE_ARG@,
                ToolFault::MissingStartLine,
                ToolFault::BadStartLine,
            ) {
                Ok(end) => if start < 1 || end < 0 {
                    Err(ToolFault::InvalidLine)
                } else {
                    Ok(Range { start: line_start(start - 1), end: line_start(end) })
                },
                Err(fault) => Err(fault),
            },
            Err(fault) => Err(fault),
        }
    } else {
        Err(ToolFault::UnrecognizedTool)
    }
}

/// The edit that a call asks for.
pub open spec fn call_edit(call: ToolCallModel) -> Result<TextEditModel, ToolFault> {
    match call.arguments {
        Json::Object(arguments) => match text_argument(
            arguments,
            CONTENT_ARG@,
            ToolFault::MissingContent,
            ToolFault::BadContent,
        ) {
            Ok(new_text) => match call_range(call.name, arguments) {
                Ok(range) => Ok(TextEditModel { range, new_text }),
                Err(fault) => Err(fault),
            },
            Err(fault) => Err(fault),
        },
        _ => Err(ToolFault::NotAnObject),
    }
}

/// Whether a call is for the client.
pub open spec fn is_for(call: ToolCallModel, client_id: Seq<char>) -> bool {
    (match call.client_id {
        Some(id) => id,
        None => Seq::empty(),
    }) == client_id
}

/// The file that a call names, where the call is for the client.
pub open spec fn call_file(call: ToolCallModel, client_id: Seq<char>) -> Result<
    Option<Seq<char>>,
    ToolFault,
> {
    if !is_for(call, client_id) {
        Ok(None)
    } else {
        match call.arguments {
            Json::Object(arguments) => match text_argument(
                arguments,
                FILE_URI_ARG@,
                ToolFault::MissingFileUri,
                ToolFault::BadFileUri,
            ) {
                Ok(file) => Ok(Some(file)),
                Err(fault) => Err(fault),
            },
            _ => Err(ToolFault::NotAnObject),
        }
    }
}

fn range_of_call(name: &str, arguments: &JsonMap<String, Value>) -> (r: Result<Range, ToolFault>)
    ensures
        r == call_range(name@, members(*arguments)),
{
    if same(name, INSERT_LINE_TOOL_NAME) {
        match get_integer(
            arguments,
            INSERT_LINE_ARG,
            ToolFault::MissingInsertLine,
            ToolFault::BadInsertLine,
        ) {
            Ok(line) => if line < 1 {
                Err(ToolFault::InvalidLine)
            } else {
                Ok(at(start_of_line(line - 1)))
            },
            Err(fault) => Err(fault),
        }
    } else if same(name, REPLACE_LINES_TOOL_NAME) {
        match get_integer(
            arguments,
            START_LINE_ARG,
            ToolFault::MissingStartLine,
            ToolFault::BadStartLine,
        ) {
            Ok(start) => match get_integer(
                arguments,
                END_LINE_ARG,
                ToolFault::MissingStartLine,
                ToolFault::BadStartLine,
            ) {
                Ok(end) => if start < 1 || end < 0 {
                    Err(ToolFault::InvalidLine)
                } else {
                    Ok(Range { start: start_of_line(start - 1), end: start_of_line(end) })
                },
                Err(fault) => Err(fault),
            },
            Err(fault) => Err(fault),
        }
    } else {
        Err(ToolFault::UnrecognizedTool)
    }
}

/// The edit that a call asks for.
pub fn edit_of_call(call: &ToolCall) -> (r: Result<TextEdit, ToolFault>)
    ensures
        match r {
            Ok(edit) => call_edit(call.deep_view()) == Ok::<_, ToolFault>(edit.deep_view()),
            Err(fault) => call_edit(call.deep_view()) == Err::<TextEditModel, _>(fault),
        },
{
    match as_object(&call.arguments) {
        None => Err(ToolFault::NotAnObject),
        Some(arguments) => match get_text(
            arguments,
            CONTENT_ARG,
            ToolFault::MissingContent,
            ToolFault::BadContent,
        ) {
            Err(fault) => Err(fault),
            Ok(content) => match range_of_call(call.name.as_str(), arguments) {
                Ok(range) => Ok(TextEdit { range, new_text: content.to_owned() }),
                Err(fault) => Err(fault),
            },
        },
    }
}

// ---------------------------------------------------------------------------------------------
// The edits of a file.

/// The edits of one file.
#[derive(Debug)]
pub struct FileEdits {
    pub uri: String,
    pub edits: Vec<TextEdit>,
}

/// What a [`FileEdits`] says.
#[verifier::ext_equal]
pub ghost struct FileEditsModel {
    pub uri: Seq<char>,
    pub edits: Seq<TextEditModel>,
}

impl DeepView for FileEdits {
    type V = FileEditsModel;

    open spec fn deep_view(&self) -> FileEditsModel {
        FileEditsModel { uri: self.uri@, edits: self.edits.deep_view() }
    }
}

/// The edits with one more. The edits of a file stay together, in the order in which they came.
pub open spec fn with_edit(
    edits: Seq<FileEditsModel>,
    uri: Seq<char>,
    edit: TextEditModel,
) -> Seq<FileEditsModel>
    decreases edits.len(),
{
    if edits.len() == 0 {
        seq![FileEditsModel { uri, edits: seq![edit] }]
    } else if edits[0].uri == uri {
        edits.update(0, FileEditsModel { uri, edits: edits[0].edits.push(edit) })
    } else {
        seq![edits[0]] + with_edit(edits.drop_first(), uri, edit)
    }
}

/// The edits of a file.
pub open spec fn edits_of(edits: Seq<FileEditsModel>, uri: Seq<char>) -> Seq<TextEditModel>
    decreases edits.len(),
{
    if edits.len() == 0 {
        Seq::empty()
    } else if edits[0].uri == uri {
        edits[0].edits
    } else {
        edits_of(edits.drop_first(), uri)
    }
}

fn add_edit(edits: &mut Vec<FileEdits>, uri: String, edit: TextEdit)
    ensures
        final(edits).deep_view() == with_edit(old(edits).deep_view(), uri@, edit.deep_view()),
{
    let ghost all = edits.deep_view();
    let ghost said = edit.deep_view();
    let mut i: usize = 0;
    assert(all.skip(0) =~= all);
    assert(all.take(0) + with_edit(all.skip(0), uri@, said) =~= with_edit(all, uri@, said));
    while i < edits.len()
        invariant
            i <= edits@.len(),
            edits.deep_view() == all,
            all == old(edits).deep_view(),
            said == edit.deep_view(),
            with_edit(all, uri@, said) == all.take(i as int) + with_edit(all.skip(i as int), uri@, said),
        decreases edits.len() - i,
    {
        assert(all.skip(i as int)[0] == edits@[i as int].deep_view());
        if same(edits[i].uri.as_str(), uri.as_str()) {
            let ghost earlier = edits@[i as int].deep_view();
            edits[i].edits.push(edit);
            assert(edits@[i as int].edits.deep_view() =~= earlier.edits.push(said));
            assert(edits.deep_view() =~= all.take(i as int) + all.skip(i as int).update(
                0,
                FileEditsModel { uri: uri@, edits: earlier.edits.push(said) },
            ));
            return;
        }
        assert(all.skip(i as int).drop_first() =~= all.skip(i + 1));
        assert(all.take(i as int) + (seq![all.skip(i as int)[0]] + with_edit(all.skip(i + 1), uri@, said))
            =~= all.take(i + 1) + with_edit(all.skip(i + 1), uri@, said));
        i = i + 1;
    }
    let mut one: Vec<TextEdit> = Vec::new();
    one.push(edit);
    assert(one.deep_view() =~= seq![said]);
    let ghost entry = FileEditsModel { uri: uri@, edits: seq![said] };
    edits.push(FileEdits { uri, edits: one });
    assert(all.skip(i as int).len() == 0);
    assert(edits.deep_view() =~= all.take(i as int) + seq![entry]);
}

// ---------------------------------------------------------------------------------------------
// Carrying the calls out.

/// What came of one call that was carried out.
pub open spec fn call_result(call: ToolCallModel) -> ToolCallResultModel {
    ToolCallResultModel {
        id: match call.id {
            Some(id) => id,
            None => Seq::empty(),
        },
        result: None,
        is_fatal_error: false,
    }
}

/// The edit that a client is to make for a call, and the file for which it is, where the call is for
/// the client, a file is meant and the call says what to do.
pub open spec fn edit_to_make(call: ToolCallModel, file: Option<Seq<char>>, client_id: Seq<char>) -> Option<
    (Seq<char>, TextEditModel),
> {
    match (file, call_edit(call)) {
        (Some(uri), Ok(edit)) => if is_for(call, client_id) {
            Some((uri, edit))
        } else {
            None
        },
        _ => None,
    }
}

/// The edits that a client is to make after some calls, with the file that is meant for each of them,
/// if there is one.
pub open spec fn edits_after(
    calls: Seq<ToolCallModel>,
    files: Seq<Option<Seq<char>>>,
    client_id: Seq<char>,
) -> Seq<FileEditsModel>
    decreases calls.len(),
{
    if calls.len() == 0 {
        Seq::empty()
    } else {
        let before = edits_after(calls.drop_last(), files, client_id);
        match edit_to_make(calls.last(), files[calls.len() - 1], client_id) {
            Some((uri, edit)) => with_edit(before, uri, edit),
            None => before,
        }
    }
}

/// What came of some calls, one for each that the client carried out.
pub open spec fn results_after(
    calls: Seq<ToolCallModel>,
    files: Seq<Option<Seq<char>>>,
    client_id: Seq<char>,
) -> Seq<ToolCallResultModel>
    decreases calls.len(),
{
    if calls.len() == 0 {
        Seq::empty()
    } else {
        let before = results_after(calls.drop_last(), files, client_id);
        match edit_to_make(calls.last(), files[calls.len() - 1], client_id) {
            Some(_) => before.push(call_result(calls.last())),
            None => before,
        }
    }
}

/// What is to be done for the calls of a message: edits to hand to the editor, and then results to
/// store.
#[derive(Debug)]
pub struct ToolCallsOutcome {
    pub edits: Vec<FileEdits>,
    pub results: Option<StoreToolCallResultsRequest>,
}

/// The tools of a client in a session.
#[derive(Debug)]
pub struct Tools {
    pub session_id: String,
    pub client_id: String,
    pub use_native_tools: bool,
}

impl Tools {
    /// The tools of a client in a session.
    pub fn new(session_id: String, client_id: String, use_native_tools: bool) -> (r: Self)
        ensures
            r.session_id@ == session_id@,
            r.client_id@ == client_id@,
            r.use_native_tools == use_native_tools,
    {
        Tools { session_id, client_id, use_native_tools }
    }

    /// The tools as they are offered to models.
    pub fn get_definitions(use_native_tools: bool) -> (r: Vec<Tool>)
        ensures
            r.deep_view() == definitions(use_native_tools),
    {
        let tool_type = if use_native_tools {
            ToolType::Native
        } else {
            ToolType::Text
        };
        let mut properties = new_map();
        add_property(&mut properties, FILE_URI_ARG, "string", "URI of file to edit");
        add_property(&mut properties, START_LINE_ARG, "integer", "Starting line number, inclusive");
        add_property(&mut properties, END_LINE_ARG, "integer", "Ending line number, inclusive");
        add_property(
            &mut properties,
            CONTENT_ARG,
            "string",
            "New multiline content to replace the lines",
        );
        let mut required: Vec<Value> = Vec::new();
        required.push(text_value(FILE_URI_ARG.to_owned()));
        required.push(text_value(START_LINE_ARG.to_owned()));
        required.push(text_value(END_LINE_ARG.to_owned()));
        required.push(text_value(CONTENT_ARG.to_owned()));
        assert(documents(required@) =~= seq![
            Json::Text(FILE_URI_ARG@),
            Json::Text(START_LINE_ARG@),
            Json::Text(END_LINE_ARG@),
            Json::Text(CONTENT_ARG@),
        ]);
        let replace = Tool {
            name: REPLACE_LINES_TOOL_NAME.to_owned(),
            description: "Replace lines in a file".to_owned(),
            input_schema: schema_value(properties, required),
            tool_type,
        };
        let mut properties = new_map();
        add_property(&mut properties, FILE_URI_ARG, "string", "URI of file to edit");
        add_property(
            &mut properties,
            INSERT_LINE_ARG,
            "integer",
            "The line number to insert the content; existing content at the line number will be moved downwards",
        );
        add_property(
            &mut properties,
            CONTENT_ARG,
            "string",
            "Multiline content to insert as new line",
        );
        let mut required: Vec<Value> = Vec::new();
        required.push(text_value(FILE_URI_ARG.to_owned()));
        required.push(text_value(INSERT_LINE_ARG.to_owned()));
        required.push(text_value(CONTENT_ARG.to_owned()));
        assert(documents(required@) =~= seq![
            Json::Text(FILE_URI_ARG@),
            Json::Text(INSERT_LINE_ARG@),
            Json::Text(CONTENT_ARG@),
        ]);
        let insert = Tool {
            name: INSERT_LINE_TOOL_NAME.to_owned(),
            description: "Insert a new line after the specified line number in a file".to_owned(),
            input_schema: schema_value(properties, required),
            tool_type,
        };
        let mut r: Vec<Tool> = Vec::new();
        r.push(replace);
        r.push(insert);
        assert(r.deep_view() =~= definitions(use_native_tools));
        r
    }

    /// Whether the call is for the client.
    pub fn is_addressed(&self, call: &ToolCall) -> (r: bool)
        ensures
            r == is_for(call.deep_view(), self.client_id@),
    {
        match &call.client_id {
            Some(id) => same(id.as_str(), self.client_id.as_str()),
            None => {
                proof {
                    reveal_strlit("");
                    assert(""@ =~= Seq::<char>::empty());
                }
                same("", self.client_id.as_str())
            },
        }
    }

    /// The file that a call names, as it is written there. Nothing, if the call is for another client.
    pub fn file_of_call(&self, call: &ToolCall) -> (r: Result<Option<String>, ToolFault>)
        ensures
            match r {
                Ok(file) => call_file(call.deep_view(), self.client_id@) == Ok::<_, ToolFault>(
                    file.deep_view(),
                ),
                Err(fault) => call_file(call.deep_view(), self.client_id@) == Err::<
                    Option<Seq<char>>,
                    _,
                >(fault),
            },
    {
        if !self.is_addressed(call) {
            return Ok(None);
        }
        match as_object(&call.arguments) {
            None => Err(ToolFault::NotAnObject),
            Some(arguments) => match get_text(
                arguments,
                FILE_URI_ARG,
                ToolFault::MissingFileUri,
                ToolFault::BadFileUri,
            ) {
                Ok(file) => Ok(Some(file.to_owned())),
                Err(fault) => Err(fault),
            },
        }
    }

    /// Adds the edit that a call asks for to those of the file that is meant. Models that call tools
    /// through their own interface get a result. A call for another client does nothing.
    pub fn process_tool_call(&self, edits: &mut Vec<FileEdits>, tool_call: &ToolCall, file_uri: String) -> (r:
        Result<Option<ToolCallResult>, ToolFault>)
        ensures
            !is_for(tool_call.deep_view(), self.client_id@) ==> {
                &&& r == Ok::<Option<ToolCallResult>, ToolFault>(None)
                &&& final(edits).deep_view() == old(edits).deep_view()
            },
            is_for(tool_call.deep_view(), self.client_id@) ==> match call_edit(tool_call.deep_view()) {
                Ok(edit) => {
                    &&& final(edits).deep_view() == with_edit(
                        old(edits).deep_view(),
                        file_uri@,
                        edit,
                    )
                    &&& r is Ok
                    &&& r->Ok_0.deep_view() == (if self.use_native_tools {
                        Some(call_result(tool_call.deep_view()))
                    } else {
                        None
                    })
                },
                Err(fault) => r == Err::<Option<ToolCallResult>, _>(fault) && final(edits).deep_view()
                    == old(edits).deep_view(),
            },
    {
        if !self.is_addressed(tool_call) {
            return Ok(None);
        }
        match edit_of_call(tool_call) {
            Err(fault) => Err(fault),
            Ok(edit) => {
                add_edit(edits, file_uri, edit);
                if self.use_native_tools {
                    let id = match &tool_call.id {
                        Some(id) => id.clone(),
                        None => String::new(),
                    };
                    assert(id@ == call_result(tool_call.deep_view()).id);
                    Ok(Some(ToolCallResult { id, result: None, is_fatal_error: false }))
                } else {
                    Ok(None)
                }
            },
        }
    }

    /// What is to be done for the calls of a message: nothing, unless there are edits. For each call
    /// the file that is meant is given, if the call is for the client and names one.
    pub fn process_tool_calls(
        &self,
        tool_calls: &Vec<ToolCall>,
        file_uris: &Vec<Option<String>>,
        session_tag: &str,
    ) -> (r: Option<ToolCallsOutcome>)
        requires
            tool_calls@.len() == file_uris@.len(),
        ensures
            match r {
                None => edits_after(tool_calls.deep_view(), file_uris.deep_view(), self.client_id@).len()
                    == 0,
                Some(outcome) => {
                    let calls = tool_calls.deep_view();
                    let files = file_uris.deep_view();
                    &&& outcome.edits.deep_view() == edits_after(calls, files, self.client_id@)
                    &&& edits_after(calls, files, self.client_id@).len() > 0
                    &&& outcome.results.deep_view() == (if self.use_native_tools {
                        Some(
                            StoreToolCallResultsRequestModel {
                                session_id: self.session_id@,
                                session_tag: session_tag@,
                                client_id: self.client_id@,
                                results: results_after(calls, files, self.client_id@),
                            },
                        )
                    } else {
                        None
                    })
                },
            },
    {
        let ghost calls = tool_calls.deep_view();
        let ghost files = file_uris.deep_view();
        let mut edits: Vec<FileEdits> = Vec::new();
        let mut results: Vec<ToolCallResult> = Vec::new();
        let mut i: usize = 0;
        assert(calls.take(0) =~= Seq::<ToolCallModel>::empty());
        assert(edits.deep_view() =~= Seq::<FileEditsModel>::empty());
        assert(results.deep_view() =~= Seq::<ToolCallResultModel>::empty());
        while i < tool_calls.len()
            invariant
                i <= tool_calls@.len(),
                tool_calls@.len() == file_uris@.len(),
                calls == tool_calls.deep_view(),
                files == file_uris.deep_view(),
                edits.deep_view() == edits_after(calls.take(i as int), files, self.client_id@),
                self.use_native_tools ==> results.deep_view() == results_after(
                    calls.take(i as int),
                    files,
                    self.client_id@,
                ),
            decreases tool_calls.len() - i,
        {
            assert(calls.take(i + 1).drop_last() =~= calls.take(i as int));
            assert(calls.take(i + 1).last() == tool_calls@[i as int].deep_view());
            assert(files[i as int] == file_uris@[i as int].deep_view());
            match &file_uris[i] {
                Some(uri) => {
                    match self.process_tool_call(&mut edits, &tool_calls[i], uri.clone()) {
                        Ok(Some(result)) => {
                            let ghost earlier = results.deep_view();
                            let ghost said = result.deep_view();
                            results.push(result);
                            assert(results.deep_view() =~= earlier.push(said));
                        },
                        _ => {},
                    }
                },
                None => {},
            }
            i = i + 1;
        }
        assert(calls.take(calls.len() as int) =~= calls);
        if edits.len() == 0 {
            return None;
        }
        let results = if self.use_native_tools {
            Some(
                StoreToolCallResultsRequest {
                    session_id: self.session_id.clone(),
                    session_tag: session_tag.to_owned(),
                    client_id: self.client_id.clone(),
                    results,
                },
            )
        } else {
            None
        };
        Some(ToolCallsOutcome { edits, results })
    }
}

// ---------------------------------------------------------------------------------------------
// Laws.

/// One more edit comes behind the other edits of its file, and the edits of other files stay as they
/// are.
pub proof fn law_edit_is_added_to_its_file(
    edits: Seq<FileEditsModel>,
    uri: Seq<char>,
    edit: TextEditModel,
    other: Seq<char>,
)
    ensures
        edits_of(with_edit(edits, uri, edit), uri) == edits_of(edits, uri).push(edit),
        other != uri ==> edits_of(with_edit(edits, uri, edit), other) == edits_of(edits, other),
    decreases edits.len(),
{
    let after = with_edit(edits, uri, edit);
    if edits.len() == 0 {
        assert(edits_of(edits, uri).push(edit) =~= seq![edit]);
        assert(after.drop_first() =~= Seq::<FileEditsModel>::empty());
        assert(edits_of(after.drop_first(), other) =~= Seq::<TextEditModel>::empty());
    } else if edits[0].uri == uri {
        assert(after.drop_first() =~= edits.drop_first());
    } else {
        law_edit_is_added_to_its_file(edits.drop_first(), uri, edit, other);
        assert(after.drop_first() =~= with_edit(edits.drop_first(), uri, edit));
    }
}

/// Files that are meant for later calls count for nothing.
proof fn lemma_later_files(
    calls: Seq<ToolCallModel>,
    files: Seq<Option<Seq<char>>>,
    other: Seq<Option<Seq<char>>>,
    client_id: Seq<char>,
)
    requires
        calls.len() <= files.len(),
        calls.len() <= other.len(),
        forall|i: int| 0 <= i < calls.len() ==> (#[trigger] files[i]) == other[i],
    ensures
        edits_after(calls, files, client_id) == edits_after(calls, other, client_id),
        results_after(calls, files, client_id) == results_after(calls, other, client_id),
    decreases calls.len(),
{
    if calls.len() > 0 {
        assert(files[calls.len() - 1] == other[calls.len() - 1]);
        lemma_later_files(calls.drop_last(), files, other, client_id);
    }
}

/// A call for another client, whatever file is handed in with it, leaves the edits and the results as
/// they are without it.
pub proof fn law_call_of_another_client_does_nothing(
    calls: Seq<ToolCallModel>,
    files: Seq<Option<Seq<char>>>,
    at: int,
    client_id: Seq<char>,
)
    requires
        calls.len() == files.len(),
        0 <= at < calls.len(),
        !is_for(calls[at], client_id),
    ensures
        edits_after(calls, files, client_id) == edits_after(calls.remove(at), files.remove(at), client_id),
        results_after(calls, files, client_id) == results_after(
            calls.remove(at),
            files.remove(at),
            client_id,
        ),
    decreases calls.len(),
{
    let last = calls.len() - 1;
    if at == last {
        assert(calls.remove(at) =~= calls.drop_last());
        lemma_later_files(calls.drop_last(), files, files.remove(at), client_id);
    } else {
        law_call_of_another_client_does_nothing(calls.drop_last(), files.drop_last(), at, client_id);
        assert(calls.remove(at).drop_last() =~= calls.drop_last().remove(at));
        assert(files.remove(at).drop_last() =~= files.drop_last().remove(at));
        lemma_later_files(calls.drop_last(), files, files.drop_last(), client_id);
        lemma_later_files(
            calls.drop_last().remove(at),
            files.drop_last().remove(at),
            files.remove(at),
            client_id,
        );
    }
}

/// Where every call is for another client, or none says what to do to a file that is meant, nothing is
/// done.
pub proof fn law_calls_without_edits_do_nothing(
    calls: Seq<ToolCallModel>,
    files: Seq<Option<Seq<char>>>,
    client_id: Seq<char>,
)
    requires
        calls.len() <= files.len(),
        forall|i: int|
            0 <= i < calls.len() ==> !is_for(#[trigger] calls[i], client_id) || files[i] is None || call_edit(
                calls[i],
            ) is Err,
    ensures
        edits_after(calls, files, client_id).len() == 0,
        results_after(calls, files, client_id).len() == 0,
    decreases calls.len(),
{
    if calls.len() > 0 {
        let last = calls[calls.len() - 1];
        assert(!is_for(last, client_id) || files[calls.len() - 1] is None || call_edit(last) is Err);
        law_calls_without_edits_do_nothing(calls.drop_last(), files, client_id);
    }
}

/// The names of the arguments are told apart.
proof fn lemma_argument_names()
    ensures
        "file_uri"@ != "start_line"@ && "file_uri"@ != "end_line"@ && "file_uri"@ != "line"@ && "file_uri"@
            != "content"@,
        "start_line"@ != "end_line"@ && "start_line"@ != "content"@ && "end_line"@ != "content"@,
        "line"@ != "content"@,
        "insert_line"@ != "replace_lines"@,
        "type"@ != "description"@ && "type"@ != "properties"@ && "type"@ != "required"@ && "properties"@
            != "required"@,
{
    reveal_strlit("file_uri");
    reveal_strlit("start_line");
    reveal_strlit("end_line");
    reveal_strlit("line");
    reveal_strlit("content");
    reveal_strlit("insert_line");
    reveal_strlit("replace_lines");
    reveal_strlit("type");
    reveal_strlit("description");
    reveal_strlit("properties");
    reveal_strlit("required");
    assert("file_uri"@.len() == 8 && "start_line"@.len() == 10 && "end_line"@.len() == 8);
    assert("file_uri"@[0] == 'f' && "end_line"@[0] == 'e');
    assert("line"@.len() == 4 && "content"@.len() == 7);
    assert("insert_line"@.len() == 11 && "replace_lines"@.len() == 13);
    assert("type"@.len() == 4 && "description"@.len() == 11);
    assert("properties"@.len() == 10 && "required"@.len() == 8);
}

/// A call that inserts puts its content, as it is, before the line of the number that it gives, counted
/// from one, and replaces nothing. A number below one is refused.
pub proof fn law_inserted_line_goes_before_its_line(
    call: ToolCallModel,
    arguments: Map<Seq<char>, Json>,
    line: int,
    content: Seq<char>,
)
    requires
        call.name == "insert_line"@,
        call.arguments == Json::Object(arguments),
        arguments.contains_key("line"@) && arguments["line"@] == Json::Int(line),
        arguments.contains_key("content"@) && arguments["content"@] == Json::Text(content),
        i64::MIN <= line <= u32::MAX,
    ensures
        line >= 1 ==> (call_edit(call) matches Ok(edit) && edit.new_text == content && edit.range.start
            == edit.range.end && edit.range.start.line == line - 1 && edit.range.start.character == 0),
        line < 1 ==> call_edit(call) is Err,
{
    lemma_argument_names();
}

/// A call that replaces puts its content, as it is, in the place of the whole lines from the first to the
/// last that it gives, counted from one.
pub proof fn law_replaced_lines_are_those_of_the_call(
    call: ToolCallModel,
    arguments: Map<Seq<char>, Json>,
    start: int,
    end: int,
    content: Seq<char>,
)
    requires
        call.name == "replace_lines"@,
        call.arguments == Json::Object(arguments),
        arguments.contains_key("start_line"@) && arguments["start_line"@] == Json::Int(start),
        arguments.contains_key("end_line"@) && arguments["end_line"@] == Json::Int(end),
        arguments.contains_key("content"@) && arguments["content"@] == Json::Text(content),
        i64::MIN <= start <= u32::MAX,
        i64::MIN <= end <= u32::MAX,
    ensures
        start >= 1 && end >= 0 ==> (call_edit(call) matches Ok(edit) && edit.new_text == content
            && edit.range.start.line == start - 1 && edit.range.start.character == 0 && edit.range.end.line
            == end && edit.range.end.character == 0),
        start < 1 || end < 0 ==> call_edit(call) is Err,
{
    lemma_argument_names();
}

/// A call of another tool, without content, or without the line that it needs, is refused.
pub proof fn law_incomplete_calls_are_refused(call: ToolCallModel, arguments: Map<Seq<char>, Json>)
    requires
        call.arguments == Json::Object(arguments),
    ensures
        call.name != "insert_line"@ && call.name != "replace_lines"@ ==> call_edit(call) is Err,
        !arguments.contains_key("content"@) ==> call_edit(call) is Err,
        call.name == "insert_line"@ && !arguments.contains_key("line"@) ==> call_edit(call) is Err,
        call.name == "replace_lines"@ && !(arguments.contains_key("start_line"@)
            && arguments.contains_key("end_line"@)) ==> call_edit(call) is Err,
{
    lemma_argument_names();
}

/// A call for the client means the file that it names, and a call for another means none. A call without
/// a client is for one without a name.
pub proof fn law_call_means_its_file(
    call: ToolCallModel,
    arguments: Map<Seq<char>, Json>,
    client_id: Seq<char>,
    file: Seq<char>,
)
    requires
        call.arguments == Json::Object(arguments),
        arguments.contains_key("file_uri"@) && arguments["file_uri"@] == Json::Text(file),
    ensures
        call.client_id == Some(client_id) ==> call_file(call, client_id) == Ok::<_, ToolFault>(Some(file)),
        call.client_id is Some && call.client_id != Some(client_id) ==> call_file(call, client_id) == Ok::<
            _,
            ToolFault,
        >(None::<Seq<char>>),
        call.client_id is None && client_id.len() > 0 ==> call_file(call, client_id) == Ok::<_, ToolFault>(
            None::<Seq<char>>,
        ),
{
}

/// A call for the client that says what to do to a file that is meant adds its edit to those of the file,
/// and a result under its id. Any other call adds neither.
pub proof fn law_each_call_makes_its_edit(
    calls: Seq<ToolCallModel>,
    files: Seq<Option<Seq<char>>>,
    call: ToolCallModel,
    file: Option<Seq<char>>,
    client_id: Seq<char>,
)
    requires
        calls.len() == files.len(),
    ensures
        ({
            let edits = edits_after(calls, files, client_id);
            let more = edits_after(calls.push(call), files.push(file), client_id);
            let results = results_after(calls, files, client_id);
            let more_results = results_after(calls.push(call), files.push(file), client_id);
            let is_done = file is Some && call_edit(call) is Ok && call.client_id == Some(client_id);
            &&& is_done ==> {
                &&& edits_of(more, file->0) == edits_of(edits, file->0).push(call_edit(call)->Ok_0)
                &&& more_results.len() == results.len() + 1 && more_results.drop_last() == results
                &&& call.id matches Some(id) ==> more_results.last().id == id
                &&& !more_results.last().is_fatal_error && more_results.last().result is None
            }
            &&& (file is None || call_edit(call) is Err || (call.client_id is Some && !is_done)) ==> more
                == edits && more_results == results
        }),
{
    assert(calls.push(call).drop_last() =~= calls);
    lemma_same_files(calls, files, files.push(file), client_id);
    if let Some(uri) = file {
        if call_edit(call) is Ok {
            law_edit_is_added_to_its_file(
                edits_after(calls, files, client_id),
                uri,
                call_edit(call)->Ok_0,
                uri,
            );
        }
    }
    let results = results_after(calls, files, client_id);
    assert(results.push(call_result(call)).drop_last() =~= results);
}

proof fn lemma_same_files(
    calls: Seq<ToolCallModel>,
    a: Seq<Option<Seq<char>>>,
    b: Seq<Option<Seq<char>>>,
    client_id: Seq<char>,
)
    requires
        calls.len() <= a.len(),
        calls.len() <= b.len(),
        forall|i: int| 0 <= i < calls.len() ==> a[i] == #[trigger] b[i],
    ensures
        edits_after(calls, a, client_id) == edits_after(calls, b, client_id),
        results_after(calls, a, client_id) == results_after(calls, b, client_id),
    decreases calls.len(),
{
    if calls.len() > 0 {
        lemma_same_files(calls.drop_last(), a, b, client_id);
        assert(a[calls.len() - 1] == b[calls.len() - 1]);
    }
}

/// What is to be done for the calls of a message is handed out whole, and nothing where there are no
/// edits. Results are stored where models call tools through their own interface, for the session, the
/// tag and the client.
pub proof fn law_calls_of_a_message_are_carried_out(
    tools: Tools,
    calls: Vec<ToolCall>,
    files: Vec<Option<String>>,
    session_tag: &str,
    r: Option<ToolCallsOutcome>,
)
    requires
        calls@.len() == files@.len(),
        call_ensures(Tools::process_tool_calls, (&tools, &calls, &files, session_tag), r),
    ensures
        ({
            let edits = edits_after(calls.deep_view(), files.deep_view(), tools.client_id@);
            let results = results_after(calls.deep_view(), files.deep_view(), tools.client_id@);
            &&& r is Some <==> edits.len() > 0
            &&& r matches Some(outcome) ==> {
                &&& outcome.edits.deep_view() == edits
                &&& outcome.results is Some <==> tools.use_native_tools
                &&& outcome.results.deep_view() matches Some(stored) ==> stored.results == results
                    && stored.session_id == tools.session_id@ && stored.session_tag == session_tag@
                    && stored.client_id == tools.client_id@
            }
        }),
{
}

/// The tools that are offered are the two that calls are carried out for, in the way that is asked for.
/// Their schemas give the types of all the arguments that such a call needs, and require them.
pub proof fn law_offered_tools_take_what_calls_need(use_native_tools: bool, r: Vec<Tool>)
    requires
        call_ensures(Tools::get_definitions, (use_native_tools,), r),
    ensures
        ({
            let tools = r.deep_view();
            let text = Some(Json::Text("string"@));
            let integer = Some(Json::Text("integer"@));
            &&& tools.len() == 2
            &&& tools[0].name == "replace_lines"@ && tools[1].name == "insert_line"@
            &&& forall|i: int|
                0 <= i < 2 ==> (#[trigger] tools[i]).tool_type == (if use_native_tools {
                    ToolType::Native
                } else {
                    ToolType::Text
                })
            &&& tools[0].input_schema.member("properties"@) matches Some(replace)
            &&& replace.member("file_uri"@) matches Some(p) && p.member("type"@) == text
            &&& replace.member("start_line"@) matches Some(p) && p.member("type"@) == integer
            &&& replace.member("end_line"@) matches Some(p) && p.member("type"@) == integer
            &&& replace.member("content"@) matches Some(p) && p.member("type"@) == text
            &&& tools[1].input_schema.member("properties"@) matches Some(insert)
            &&& insert.member("file_uri"@) matches Some(p) && p.member("type"@) == text
            &&& insert.member("line"@) matches Some(p) && p.member("type"@) == integer
            &&& insert.member("content"@) matches Some(p) && p.member("type"@) == text
            &&& tools[0].input_schema.member("required"@) == Some(
                Json::Array(
                    seq![
                        Json::Text("file_uri"@),
                        Json::Text("start_line"@),
                        Json::Text("end_line"@),
                        Json::Text("content"@),
                    ],
                ),
            )
            &&& tools[1].input_schema.member("required"@) == Some(
                Json::Array(
                    seq![Json::Text("file_uri"@), Json::Text("line"@), Json::Text("content"@)],
                ),
            )
        }),
{
    lemma_argument_names();
}

/// A call that names a client is meant for that client alone.
pub proof fn law_calls_are_meant_for_the_client_they_name(
    call: ToolCallModel,
    named: Seq<char>,
    client_id: Seq<char>,
)
    ensures
        call.client_id == Some(named) ==> (is_for(call, client_id) <==> named == client_id),
        call.client_id is None && client_id.len() > 0 ==> !is_for(call, client_id),
{
}

} // verus!
