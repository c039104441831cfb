use llmvm::codeassist::apply::{
    apply_completed_snippet_edits, apply_edit, strip_fences, update_offset_and_filter_text,
    wrap_snippet, CompletedSnippet, SnippetOffsetInfo, StreamedEdits,
};
use llmvm::codeassist::content::{
    document_path, file_context_key, patch, snippet_of, split_text, ContentChange, ContentManager, DocSync,
    FileContextChange, FileContextStorage, StorageEvent, StorageStep,
};
use llmvm::codeassist::position::{Position, Range};
use llmvm::codeassist::snippet::SnippetFetcher;
use llmvm::text::{decimal_of, join_with, split_lines, split_on};

fn range(a: (u32, u32), b: (u32, u32)) -> Range {
    Range {
        start: Position { line: a.0, character: a.1 },
        end: Position { line: b.0, character: b.1 },
    }
}

fn lines(text: &str) -> Vec<String> {
    split_text(text)
}

fn open(uri: &str, text: &str) -> ContentManager {
    let mut content = ContentManager::new();
    content
        .handle_doc_sync_notification(DocSync::Open {
            uri: uri.to_string(),
            language_id: "rust".to_string(),
            text: text.to_string(),
        })
        .unwrap();
    content
}

#[test]
fn snippets_are_cut_from_lines() {
    let text = lines("one\ntwo\nthree");
    assert_eq!(snippet_of(&text, &range((0, 1), (2, 2))), Some("ne\ntwo\nth".to_string()));
    assert_eq!(snippet_of(&text, &range((1, 0), (1, 99))), Some("two".to_string()));
    assert_eq!(snippet_of(&text, &range((7, 0), (9, 0))), Some("".to_string()));
    assert_eq!(snippet_of(&text, &range((0, 99), (0, 99))), Some("e".to_string()));
    assert_eq!(snippet_of(&lines("\u{e9}"), &range((0, 0), (0, 1))), None);
    assert_eq!(snippet_of(&text, &range((1, 2), (1, 1))), None);
}

#[test]
fn patches_replace_ranges() {
    let text = lines("one\ntwo\nthree");
    let after = patch(&text, &range((0, 2), (1, 1)), "X\nY").unwrap();
    assert_eq!(after, lines("onX\nYwo\nthree"));
    let after = patch(&text, &range((1, 3), (1, 3)), "!").unwrap();
    assert_eq!(after, lines("one\ntwo!\nthree"));
    let after = patch(&text, &range((0, 0), (2, 5)), "").unwrap();
    assert_eq!(after, lines(""));
    assert!(patch(&text, &range((3, 0), (3, 0)), "x").is_none());
}

#[test]
fn documents_follow_the_editor() {
    let mut content = open("u", "a\nb");
    assert!(content.has_document("u"));
    assert_eq!(content.line_count("u"), 2);
    assert_eq!(content.get_lang_id("u"), "rust");
    assert_eq!(content.get_lang_id("v"), "unknown");
    let change = |range: Option<Range>, text: &str| ContentChange { range, text: text.to_string() };
    content
        .handle_doc_sync_notification(DocSync::Change {
            uri: "u".to_string(),
            changes: vec![change(None, "x\ny"), change(Some(range((1, 0), (1, 1))), "z")],
        })
        .unwrap();
    assert_eq!(content.get_line("u", 1), Some("z"));
    assert_eq!(content.get_lang_id("u"), "rust");
    content.handle_doc_sync_notification(DocSync::Close { uri: "u".to_string() }).unwrap();
    assert!(!content.has_document("u"));
    assert_eq!(content.get_line("u", 0), None);
}

#[test]
fn files_are_loaded_once() {
    let mut content = ContentManager::new();
    content.maybe_load_file("u", lines("a"));
    content.maybe_load_file("u", lines("b"));
    assert_eq!(content.get_line("u", 0), Some("a"));
    assert!(content.can_get_snippet("u", &range((0, 0), (0, 1))));
    assert_eq!(content.get_snippet("u", &range((0, 0), (0, 1))), Some("a".to_string()));
    assert_eq!(content.get_snippet("v", &range((0, 0), (0, 1))), None);
}

#[test]
fn pieces_are_fetched_from_files() {
    let mut fetcher = SnippetFetcher::new();
    assert!(fetcher.is_wanted("u"));
    fetcher.load_file("u", lines("one\ntwo"));
    assert!(!fetcher.is_wanted("u"));
    assert_eq!(fetcher.line_count("u"), 2);
    assert_eq!(fetcher.get_line("u", 1), Some("two"));
    assert!(fetcher.can_get_snippet("u", &range((0, 1), (1, 1))));
    assert_eq!(fetcher.get_snippet("u", &range((0, 1), (1, 1))), Some("ne\nt".to_string()));
}

#[test]
fn whole_range_is_the_text() {
    let whole = range((0, 0), (u32::MAX, u32::MAX));
    for text in ["", "a", "a\n", "é\n\nb\r\n\u{10ffff}"] {
        let content = open("u", text);
        assert!(content.can_get_snippet("u", &whole));
        assert_eq!(content.get_snippet("u", &whole), Some(text.to_string()));
        assert_eq!(content.get_snippet("v", &whole), None);
    }
}

#[test]
fn content_is_stored_under_the_path_of_its_document() {
    let content = open("file:///src/a.b.rs?q#f", "x");
    let kept = content.file_context_update("file:///src/a.b.rs?q#f", true).unwrap();
    assert_eq!(kept.key, "codeassist_file_content./src/a_b_rs");
    let parameter = kept.parameter.unwrap();
    assert_eq!(parameter.value["content"], serde_json::Value::from("1: x"));
    assert_eq!(parameter.value["file_path"], serde_json::Value::from("/src/a.b.rs"));
    let gone = content.file_context_update("file:///src/a.b.rs?q#f", false).unwrap();
    assert_eq!(gone.key, "codeassist_file_content./src/a_b_rs");
    assert!(gone.parameter.is_none());
    assert!(content.file_context_update("file:///c", true).unwrap().parameter.is_none());
    assert!(content.file_context_update("u", true).is_none());
    assert_eq!(document_path("file:///a b#c"), Some("/a%20b".to_string()));
    assert_eq!(document_path("a b"), None);
}

#[test]
fn file_contexts_are_kept() {
    let mut content = open("u", "a\nb");
    assert!(!content.is_any_file_context_enabled());
    assert_eq!(content.toggle_file_context("u"), FileContextChange::Enabled);
    assert!(content.is_file_context_enabled("u") && content.is_any_file_context_enabled());
    let kept = content.file_context_of("u", "src/a.rs", true).unwrap();
    assert!(kept.persistent);
    assert_eq!(kept.value["content"], serde_json::Value::from("1: a\n2: b"));
    assert_eq!(kept.value["file_path"], serde_json::Value::from("src/a.rs"));
    assert!(content.file_context_of("u", "src/a.rs", false).is_none());
    assert_eq!(file_context_key("src/a.rs"), "codeassist_file_content.src/a_rs");
    assert_eq!(content.toggle_file_context("u"), FileContextChange::Disabled);
    assert_eq!(content.toggle_file_context("v"), FileContextChange::Unknown);
    content.toggle_file_context("u");
    content.disable_all_file_contexts();
    assert!(!content.is_file_context_enabled("u"));
}

#[test]
fn changed_file_contexts_are_stored_later() {
    let mut storage = FileContextStorage { storage_pending: false };
    assert_eq!(storage.on_event(StorageEvent::Tick), StorageStep::Nothing);
    assert_eq!(storage.on_event(StorageEvent::Changed), StorageStep::Nothing);
    assert_eq!(storage.on_event(StorageEvent::Tick), StorageStep::Store);
    assert_eq!(storage.on_event(StorageEvent::Tick), StorageStep::Nothing);
    assert_eq!(storage.on_event(StorageEvent::Ended), StorageStep::Clear);
}

#[test]
fn snippets_are_wrapped() {
    let wrapped = wrap_snippet("code", "preset");
    let expected = format!(">>=={:=<40}=#\n{}\n<<=={:=<40}=#\n", "preset", "code", "");
    assert_eq!(wrapped, expected);
    let long = "x".repeat(50);
    assert!(wrap_snippet("c", &long).starts_with(&format!(">>=={}=#\n", long)));
    assert_eq!(strip_fences("```rust\na\n``\nb", "``"), "a\nb");
    assert_eq!(strip_fences("```rust\na\n``\nb", "```"), "a\n``\nb");
}

#[test]
fn whole_snippets_are_put_into_the_document() {
    let snippet = |preset: &str, text: &str, thread: Option<&str>| CompletedSnippet {
        preset: preset.to_string(),
        response: text.to_string(),
        thread_id: thread.map(|t| t.to_string()),
    };
    let code = range((1, 2), (3, 4));
    let one = vec![snippet("p", "```\nnew\n```", Some("t"))];
    let (edit, thread) = apply_completed_snippet_edits(&one, true, code, None);
    assert_eq!(edit.range, code);
    assert_eq!(edit.new_text, "new");
    assert_eq!(thread, Some("t".to_string()));
    let two = vec![snippet("p", "a", None), snippet("q", "b", None)];
    let (edit, thread) = apply_completed_snippet_edits(&two, true, code, Some("old".to_string()));
    assert_eq!(edit.range, range((3, 0), (3, 0)));
    assert!(edit.new_text.contains(">>==p") && edit.new_text.contains(">>==q"));
    assert!(edit.new_text.ends_with("\n"));
    assert_eq!(thread, Some("old".to_string()));
}

#[test]
fn single_snippet_goes_behind_the_code() {
    let code = range((1, 2), (3, 4));
    let edit = apply_edit("```\nx\n```", false, code);
    assert_eq!(edit.range, range((4, 0), (4, 0)));
    assert!(edit.new_text.starts_with(">>==Completed snippet==="));
    let edit = apply_edit("```\nx\n```", true, code);
    assert_eq!(edit.range, code);
    assert_eq!(edit.new_text, "x");
}

#[test]
fn parts_of_snippets_move_the_later_ones() {
    let presets = vec!["p".to_string(), "q".to_string()];
    let (mut edits, first) = StreamedEdits::begin(&presets, false, range((1, 0), (3, 4)));
    assert_eq!(first.range, range((3, 0), (3, 0)));
    let before = edits.position_of(1).unwrap();
    let edit = edits.on_text(0, "a\nb").unwrap();
    assert_eq!(edit.new_text, "a\nb");
    assert_eq!(edit.range.start, Position { line: 4, character: 0 });
    let after = edits.position_of(1).unwrap();
    assert_eq!(after.line, before.line + 1);
    assert_eq!(edits.position_of(0).unwrap(), Position { line: 5, character: 1 });
    let (edits, first) = StreamedEdits::begin(&vec!["p".to_string()], true, range((1, 2), (3, 4)));
    assert_eq!(first.range, range((1, 2), (3, 4)));
    assert_eq!(first.new_text, "");
    assert_eq!(edits.position_of(0).unwrap(), Position { line: 1, character: 2 });
}

#[test]
fn offsets_count_characters_and_lines() {
    let start = SnippetOffsetInfo { position: Position { line: 0, character: 0 }, is_skipping: false };
    let (after, text) = update_offset_and_filter_text(start, "ab\nc").unwrap();
    assert_eq!(text, "ab\nc");
    assert_eq!(after.position, Position { line: 1, character: 1 });
}

#[test]
fn texts_are_split_and_joined() {
    assert_eq!(split_on("a,,b", ','), vec!["a".to_string(), "".to_string(), "b".to_string()]);
    assert_eq!(join_with(&split_on("a,,b", ','), ","), "a,,b");
    for text in vec!["", "a", "a\n", "\n", "a\r\nb\r", "a\n\nb\r\n", "\r\n\r"] {
        let expected: Vec<String> = text.lines().map(|l| l.to_string()).collect();
        assert_eq!(split_lines(text), expected);
    }
    assert_eq!(decimal_of(0), "0");
    assert_eq!(decimal_of(18446744073709551615), "18446744073709551615");
}

#[test]
fn documents_are_apart() {
    let mut content = open("u", "a\nb");
    content.set_document("v", lines("c"), Some("toml".to_string()));
    assert_eq!(content.apply_patch("v", &range((0, 0), (0, 1)), "d"), Some(false));
    assert_eq!(content.get_line("u", 0), Some("a"));
    assert_eq!(content.get_line("v", 0), Some("d"));
    content.handle_doc_sync_notification(DocSync::Close { uri: "u".to_string() }).unwrap();
    assert!(content.has_document("v") && !content.has_document("u"));
    assert_eq!(content.get_lang_id("v"), "toml");
    assert_eq!(content.apply_patch("w", &range((0, 0), (0, 0)), "d"), Some(false));
}
