use llmvm::codeassist::position::{Position, Range};
use llmvm::codeassist::tools::{edit_of_call, FileEdits, ToolFault, Tools};
use llmvm::protocol::{ToolCall, ToolType};
use serde_json::Value;

fn object(members: Vec<(&str, Value)>) -> Value {
    let mut m = serde_json::Map::new();
    for (name, value) in members {
        m.insert(name.to_string(), value);
    }
    Value::Object(m)
}

fn call(name: &str, client_id: Option<&str>, arguments: Value) -> ToolCall {
    ToolCall {
        id: Some("call-1".to_string()),
        name: name.to_string(),
        client_id: client_id.map(|id| id.to_string()),
        arguments,
    }
}

fn replace(start: Value, end: Value) -> ToolCall {
    call(
        "replace_lines",
        Some("me"),
        object(vec![
            ("file_uri", Value::from("src/a.rs")),
            ("start_line", start),
            ("end_line", end),
            ("content", Value::from("new\n")),
        ]),
    )
}

fn insert(line: Value) -> ToolCall {
    call(
        "insert_line",
        Some("me"),
        object(vec![
            ("file_uri", Value::from("src/a.rs")),
            ("line", line),
            ("content", Value::from("new\n")),
        ]),
    )
}

fn lines(start: u32, end: u32) -> Range {
    Range {
        start: Position { line: start, character: 0 },
        end: Position { line: end, character: 0 },
    }
}

#[test]
fn tools_are_defined_with_their_parameters() {
    let tools = Tools::get_definitions(true);
    assert_eq!(tools.len(), 2);
    assert_eq!(tools[0].name, "replace_lines");
    assert_eq!(tools[0].description, "Replace lines in a file");
    assert_eq!(tools[0].tool_type, ToolType::Native);
    let expected: Value = serde_json::from_str(
        r#"{"type":"object","properties":{
            "file_uri":{"type":"string","description":"URI of file to edit"},
            "start_line":{"type":"integer","description":"Starting line number, inclusive"},
            "end_line":{"type":"integer","description":"Ending line number, inclusive"},
            "content":{"type":"string","description":"New multiline content to replace the lines"}},
            "required":["file_uri","start_line","end_line","content"]}"#,
    )
    .unwrap();
    assert_eq!(tools[0].input_schema, expected);
    assert_eq!(tools[1].name, "insert_line");
    let expected: Value = serde_json::from_str(
        r#"{"type":"object","properties":{
            "file_uri":{"type":"string","description":"URI of file to edit"},
            "line":{"type":"integer","description":"The line number to insert the content; existing content at the line number will be moved downwards"},
            "content":{"type":"string","description":"Multiline content to insert as new line"}},
            "required":["file_uri","line","content"]}"#,
    )
    .unwrap();
    assert_eq!(tools[1].input_schema, expected);
    assert_eq!(Tools::get_definitions(false)[1].tool_type, ToolType::Text);
}

#[test]
fn replaced_lines_are_counted_from_one() {
    let edit = edit_of_call(&replace(Value::from(3), Value::from(5))).unwrap();
    assert_eq!(edit.range, lines(2, 5));
    assert_eq!(edit.new_text, "new\n");
}

#[test]
fn inserted_line_comes_before_the_line_of_its_number() {
    let edit = edit_of_call(&insert(Value::from(1))).unwrap();
    assert_eq!(edit.range, lines(0, 0));
}

#[test]
fn line_numbers_keep_their_lowest_bits() {
    let edit = edit_of_call(&insert(Value::from(0x1_0000_0003i64))).unwrap();
    assert_eq!(edit.range, lines(2, 2));
}

#[test]
fn faults_of_calls() {
    let fault = |call: ToolCall| edit_of_call(&call).unwrap_err();
    assert_eq!(fault(call("insert_line", None, Value::Null)), ToolFault::NotAnObject);
    assert_eq!(fault(call("insert_line", None, object(vec![]))), ToolFault::MissingContent);
    assert_eq!(
        fault(call("insert_line", None, object(vec![("content", Value::from(1))]))),
        ToolFault::BadContent
    );
    let content = || ("content", Value::from("x"));
    assert_eq!(fault(call("insert_line", None, object(vec![content()]))), ToolFault::MissingInsertLine);
    assert_eq!(fault(insert(Value::from("1"))), ToolFault::BadInsertLine);
    assert_eq!(fault(insert(Value::from(0))), ToolFault::InvalidLine);
    assert_eq!(fault(call("replace_lines", None, object(vec![content()]))), ToolFault::MissingStartLine);
    assert_eq!(fault(replace(Value::from(true), Value::from(1))), ToolFault::BadStartLine);
    assert_eq!(fault(replace(Value::from(1), Value::Null)), ToolFault::BadStartLine);
    assert_eq!(fault(replace(Value::from(0), Value::from(1))), ToolFault::InvalidLine);
    assert_eq!(fault(replace(Value::from(1), Value::from(-1))), ToolFault::InvalidLine);
    assert_eq!(fault(call("other", None, object(vec![content()]))), ToolFault::UnrecognizedTool);
    assert_eq!(ToolFault::InvalidLine.message(), "invalid line number");
    assert_eq!(ToolFault::MissingStartLine.message(), "missing start line argument");
}

#[test]
fn file_is_read_from_calls_for_the_client() {
    let tools = Tools::new("s".to_string(), "me".to_string(), true);
    assert_eq!(tools.file_of_call(&insert(Value::from(1))).unwrap(), Some("src/a.rs".to_string()));
    let other = call("insert_line", Some("you"), Value::Null);
    assert_eq!(tools.file_of_call(&other).unwrap(), None);
    let nobody = call("insert_line", None, Value::Null);
    assert_eq!(tools.file_of_call(&nobody).unwrap(), None);
    let mine = |arguments: Value| tools.file_of_call(&call("x", Some("me"), arguments)).unwrap_err();
    assert_eq!(mine(Value::from(1)), ToolFault::NotAnObject);
    assert_eq!(mine(object(vec![])), ToolFault::MissingFileUri);
    assert_eq!(mine(object(vec![("file_uri", Value::from(1))])), ToolFault::BadFileUri);
}

#[test]
fn edits_of_a_file_stay_together() {
    let tools = Tools::new("s".to_string(), "me".to_string(), true);
    let calls = vec![
        insert(Value::from(1)),
        replace(Value::from(1), Value::from(2)),
        insert(Value::from(7)),
        insert(Value::from(0)),
    ];
    let files = vec![
        Some("file:///a".to_string()),
        Some("file:///b".to_string()),
        Some("file:///a".to_string()),
        Some("file:///b".to_string()),
    ];
    let outcome = tools.process_tool_calls(&calls, &files, "codechat").unwrap();
    assert_eq!(outcome.edits.len(), 2);
    assert_eq!(outcome.edits[0].uri, "file:///a");
    assert_eq!(outcome.edits[0].edits.len(), 2);
    assert_eq!(outcome.edits[0].edits[1].range, lines(6, 6));
    assert_eq!(outcome.edits[1].edits[0].range, lines(0, 2));
    let results = outcome.results.unwrap();
    assert_eq!(results.session_id, "s");
    assert_eq!(results.session_tag, "codechat");
    assert_eq!(results.client_id, "me");
    assert_eq!(results.results.len(), 3);
    assert_eq!(results.results[0].id, "call-1");
    assert!(results.results[0].result.is_none());
    assert!(!results.results[0].is_fatal_error);
}

#[test]
fn nothing_is_done_without_edits() {
    let tools = Tools::new("s".to_string(), "me".to_string(), true);
    assert!(tools.process_tool_calls(&vec![insert(Value::from(1))], &vec![None], "codegen").is_none());
    assert!(tools.process_tool_calls(&vec![], &vec![], "codegen").is_none());
}

#[test]
fn calls_of_other_clients_do_nothing() {
    let tools = Tools::new("s".to_string(), "me".to_string(), true);
    let mut other = insert(Value::from(3));
    other.client_id = Some("you".to_string());
    let mut nobody = insert(Value::from(4));
    nobody.client_id = None;
    let mut edits: Vec<FileEdits> = Vec::new();
    assert!(tools.process_tool_call(&mut edits, &other, "f".to_string()).unwrap().is_none());
    assert!(tools.process_tool_call(&mut edits, &nobody, "f".to_string()).unwrap().is_none());
    assert!(edits.is_empty());
    assert!(!tools.is_addressed(&other) && tools.is_addressed(&insert(Value::from(1))));
    let file = || Some("f".to_string());
    let calls = vec![other.clone(), nobody.clone()];
    assert!(tools.process_tool_calls(&calls, &vec![file(), file()], "codegen").is_none());
    let calls = vec![other, insert(Value::from(1)), nobody];
    let outcome =
        tools.process_tool_calls(&calls, &vec![file(), file(), file()], "codegen").unwrap();
    assert_eq!(outcome.edits.len(), 1);
    assert_eq!(outcome.edits[0].edits.len(), 1);
    assert_eq!(outcome.results.unwrap().results.len(), 1);
}

#[test]
fn text_tools_give_no_results() {
    let tools = Tools::new("s".to_string(), "me".to_string(), false);
    let outcome = tools
        .process_tool_calls(&vec![insert(Value::from(1))], &vec![Some("f".to_string())], "codegen")
        .unwrap();
    assert!(outcome.results.is_none());
    let mut edits: Vec<FileEdits> = Vec::new();
    let result = tools.process_tool_call(&mut edits, &insert(Value::from(2)), "f".to_string()).unwrap();
    assert!(result.is_none());
    assert_eq!(edits[0].edits[0].range, lines(1, 1));
}
