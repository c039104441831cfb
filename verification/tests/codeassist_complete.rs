use llmvm::codeassist::complete::{
    codegen_request, extract_preset_list, is_notice_given, notify_user, CodeAssistConfig,
    CodeCompleteTask, CompleteFault, Progress, ServerSupport, SymbolSource,
};
use llmvm::codeassist::content::{split_text, ContentManager};
use llmvm::codeassist::position::{Location, Position, Range};
use llmvm::codeassist::symbols::{
    describe, get_relevant_symbol_positions_without_semantic_tokens, relevant_token_ranges,
    DescribedPosition, SemanticToken,
};
use llmvm::codeassist::typedefs::{
    can_get_typedef_context_snippets, get_type_definition_locations, get_typedef_context_snippets,
    ContextSnippet, FoldingRanges, SimpleFoldingRange,
};
use serde_json::Value;

fn at(line: u32, character: u32) -> Position {
    Position { line, character }
}

fn range(a: (u32, u32), b: (u32, u32)) -> Range {
    Range { start: at(a.0, a.1), end: at(b.0, b.1) }
}

fn location(uri: &str, range: Range) -> Location {
    Location { uri: uri.to_string(), range }
}

fn token(delta_line: u32, delta_start: u32, length: u32) -> SemanticToken {
    SemanticToken { delta_line, delta_start, length }
}

fn content(uri: &str, text: &str) -> ContentManager {
    let mut content = ContentManager::new();
    content.set_document(uri, split_text(text), Some("rust".to_string()));
    content
}

fn task(code_location: Location, random: Vec<Location>) -> CodeCompleteTask {
    CodeCompleteTask::new(&CodeAssistConfig::default(), None, None, code_location, 7, random)
}

#[test]
fn presets_are_taken_from_the_code() {
    let (presets, code) = extract_preset_list("// ccpr=a,b x\r\nfn f()\r\nlast", "default");
    assert_eq!(presets, vec!["a".to_string(), "b".to_string()]);
    assert_eq!(code, "fn f()\nlast");
}

#[test]
fn preset_list_may_end_the_code() {
    let (presets, code) = extract_preset_list("x\nccpr=a,,b", "default");
    assert_eq!(presets, vec!["a".to_string(), "".to_string(), "b".to_string()]);
    assert_eq!(code, "x");
}

#[test]
fn code_without_presets_stays_as_it_is() {
    let (presets, code) = extract_preset_list("x\r\ny\n", "default");
    assert_eq!(presets, vec!["default".to_string()]);
    assert_eq!(code, "x\r\ny\n");
}

#[test]
fn every_line_with_a_preset_list_is_dropped() {
    let (presets, code) = extract_preset_list("ccpr=a\nb\nxccpr=c", "default");
    assert_eq!(presets, vec!["a".to_string()]);
    assert_eq!(code, "b");
    assert!(!code.contains("ccpr="));
}

#[test]
fn tokens_are_placed_from_the_ones_before() {
    let tokens = vec![token(0, 2, 3), token(0, 4, 1), token(1, 5, 2), token(2, 0, 4)];
    let found = relevant_token_ranges(&tokens, &range((0, 3), (3, 0))).unwrap();
    assert_eq!(found, vec![range((0, 6), (0, 7)), range((1, 5), (1, 7))]);
}

#[test]
fn tokens_without_numbers_are_refused() {
    let far = token(0, u32::MAX, 1);
    let all = range((0, 0), (9, 0));
    assert!(relevant_token_ranges(&vec![far], &all).is_none());
    assert!(relevant_token_ranges(&vec![token(0, u32::MAX, 0), token(0, 1, 0)], &all).is_none());
    let outside = range((1, 0), (9, 0));
    assert_eq!(relevant_token_ranges(&vec![far], &outside).unwrap(), vec![]);
}

#[test]
fn tokens_are_described_by_their_text() {
    let content = content("u", "let abc = Def;\nx");
    let found = describe(&content, "u", &vec![range((0, 4), (0, 7)), range((0, 10), (0, 13))]).unwrap();
    assert_eq!(found.len(), 2);
    assert_eq!(found[0].description, "abc");
    assert_eq!(found[1].description, "Def");
    assert_eq!(found[1].position, at(0, 10));
    assert!(describe(&content, "unknown", &vec![range((0, 0), (0, 1))]).is_none());
    assert_eq!(describe(&content, "unknown", &vec![]).unwrap().len(), 0);
}

#[test]
fn words_are_runs_of_letters_and_digits() {
    let found =
        get_relevant_symbol_positions_without_semantic_tokens("a_b2 +\n\u{e9}t\u{e9}.", at(3, 5)).unwrap();
    let words: Vec<(&str, Position)> =
        found.iter().map(|w| (w.description.as_str(), w.position)).collect();
    assert_eq!(words, vec![("a", at(3, 5)), ("b2", at(3, 7)), ("\u{e9}t\u{e9}", at(4, 0))]);
}

#[test]
fn words_without_numbers_are_refused() {
    assert!(get_relevant_symbol_positions_without_semantic_tokens("ab", at(0, u32::MAX - 1)).is_none());
    assert!(get_relevant_symbol_positions_without_semantic_tokens("\n", at(u32::MAX, 0)).is_none());
}

#[test]
fn definitions_stand_once_with_all_their_symbols() {
    let symbol = |text: &str| DescribedPosition { position: at(0, 0), description: text.to_string() };
    let symbols = vec![symbol("A"), symbol("B"), symbol("C")];
    let here = || location("file:///p/a", range((1, 0), (1, 3)));
    let there = || location("file:///q/a", range((1, 0), (1, 3)));
    let found = get_type_definition_locations(
        &symbols,
        &vec![vec![here(), there()], vec![], vec![here()]],
        &Some("file:///p".to_string()),
    );
    assert_eq!(found.len(), 1);
    assert_eq!(found[0].location.uri, "file:///p/a");
    assert_eq!(found[0].descriptions, vec!["A".to_string(), "C".to_string()]);
    let found = get_type_definition_locations(&symbols, &vec![vec![here(), there()], vec![], vec![]], &None);
    assert_eq!(found.len(), 2);
}

#[test]
fn definitions_reach_to_the_end_of_a_fold_or_a_blank_line() {
    let content = content("u", "struct A {\n  x\n}\n\nstruct B;\nimpl B {}\n \nend");
    let symbol = |text: &str| DescribedPosition { position: at(0, 0), description: text.to_string() };
    let definitions = get_type_definition_locations(
        &vec![symbol("A"), symbol("B"), symbol("C")],
        &vec![
            vec![location("u", range((0, 7), (0, 8)))],
            vec![location("u", range((4, 7), (4, 8)))],
            vec![location("u", range((7, 0), (7, 1)))],
        ],
        &None,
    );
    let mut folds = FoldingRanges::new();
    assert!(folds.is_wanted("u"));
    folds.receive("u".to_string(), None);
    assert!(folds.is_wanted("u"));
    folds.receive("u".to_string(), Some(vec![SimpleFoldingRange { start_line: 0, end_line: 1 }]));
    assert!(!folds.is_wanted("u"));
    assert!(can_get_typedef_context_snippets(&content, &folds, &definitions));
    let found = get_typedef_context_snippets(&content, &folds, &definitions).unwrap();
    assert_eq!(found[0].descriptions, Some("\"A\"".to_string()));
    assert_eq!(found[0].snippet, "struct A {\n  x");
    assert_eq!(found[1].snippet, "struct B;\nimpl B {}");
    assert_eq!(found[2].snippet, "end");
}

#[test]
fn definitions_in_unknown_documents_are_not_found() {
    let content = content("u", "x");
    let definitions = get_type_definition_locations(
        &vec![DescribedPosition { position: at(0, 0), description: "A".to_string() }],
        &vec![vec![location("v", range((0, 0), (0, 1)))]],
        &None,
    );
    assert!(get_typedef_context_snippets(&content, &FoldingRanges::new(), &definitions).is_none());
}

#[test]
fn completion_is_prepared_from_the_code() {
    let content = content("u", "// ccpr=p,q\nfn f() {}\nother");
    let task = task(location("u", range((0, 0), (1, 9))), vec![location("u", range((2, 0), (2, 5)))]);
    assert!(task.can_prepare(&content));
    let typedefs =
        vec![ContextSnippet { descriptions: Some("\"T\"".to_string()), snippet: "struct T;".to_string() }];
    let prepared = task.prepare(&content, Some(typedefs)).unwrap();
    assert!(prepared.typedef_infer_success);
    assert_eq!(prepared.presets, vec!["p".to_string(), "q".to_string()]);
    let expected: Value = serde_json::from_str(
        r#"{"lang":"rust",
            "typedef_context_snippets":[{"descriptions":"\"T\"","snippet":"struct T;"}],
            "random_context_snippets":[{"descriptions":null,"snippet":"other"}],
            "main_snippet":"fn f() {}"}"#,
    )
    .unwrap();
    assert_eq!(prepared.prompt_parameters, expected);
    let request = task.generation_request("p", &prepared.prompt_parameters, true, Some("t".to_string()));
    assert_eq!(request.preset_id, Some("p".to_string()));
    assert_eq!(request.existing_thread_id, Some("t".to_string()));
    assert!(!request.save_thread);
    assert_eq!(request.parameters.unwrap().prompt_parameters, Some(expected));
    assert!(task.generation_request("p", &Value::Null, false, None).save_thread);
}

#[test]
fn completion_without_definitions_goes_on() {
    let content = content("u", "x");
    let prepared = task(location("u", range((0, 0), (0, 1))), vec![]).prepare(&content, None).unwrap();
    assert!(!prepared.typedef_infer_success);
    assert_eq!(prepared.presets, vec!["gpt-3.5-codegen".to_string()]);
}

#[test]
fn faults_of_completions() {
    let content = content("u", "x");
    let here = || location("u", range((0, 0), (0, 1)));
    let nowhere = || location("v", range((0, 0), (0, 1)));
    let fault = task(here(), vec![nowhere()]).prepare(&content, None).unwrap_err();
    assert_eq!(fault, CompleteFault::NoContextSnippet);
    assert_eq!(fault.message(), "failed to get context snippet from fetcher");
    let fault = task(nowhere(), vec![]).prepare(&content, None).unwrap_err();
    assert_eq!(fault, CompleteFault::NoMainSnippet);
    assert_eq!(fault.message(), "failed to get main snippet from fetcher");
}

#[test]
fn text_that_is_cut_inside_a_character_is_told_before() {
    let content = content("u", "\u{e9}x");
    assert!(!task(location("u", range((0, 0), (0, 1))), vec![]).can_prepare(&content));
    assert!(task(location("u", range((0, 0), (0, 2))), vec![]).can_prepare(&content));
}

#[test]
fn symbols_come_from_where_the_server_allows() {
    let source = |semantic_tokens: bool, type_definitions: bool| {
        CodeCompleteTask::new(
            &CodeAssistConfig::default(),
            Some(ServerSupport { semantic_tokens, folding_ranges: false, type_definitions }),
            None,
            location("u", range((0, 0), (0, 1))),
            0,
            vec![],
        )
        .symbol_source()
    };
    assert_eq!(source(true, true), SymbolSource::Words);
    assert_eq!(source(false, true), SymbolSource::SemanticTokens);
    assert_eq!(source(true, false), SymbolSource::Nowhere);
    let task = task(location("u", range((0, 0), (0, 1))), vec![]);
    assert_eq!(task.symbol_source(), SymbolSource::Nowhere);
    assert_eq!(task.progress_token(), "llmvm/complete/7");
}

#[test]
fn request_without_presets_names_its_model() {
    let request = codegen_request(Value::from(1));
    let parameters = request.parameters.unwrap();
    assert_eq!(parameters.model, Some("outsource/openai-chat/gpt-3.5-turbo".to_string()));
    assert_eq!(parameters.prompt_template_id, Some("codegen".to_string()));
    assert_eq!(parameters.max_tokens, Some(2048));
    assert_eq!(parameters.prompt_parameters, Some(Value::from(1)));
    assert!(!request.save_thread);
}

#[test]
fn user_is_told_of_start_and_end() {
    let start = notify_user(&None);
    assert!(matches!(&start[0], Progress::Begin { title, message }
        if title == "Text Generation" && message == "Starting generation"));
    assert!(matches!(&start[1], Progress::Report { message } if message == "Generating..."));
    let end = notify_user(&Some(Ok(true)));
    assert!(matches!(&end[0], Progress::Report { message } if message == "Generation complete"));
    assert!(matches!(&end[1], Progress::End { message } if message == "Generation complete"));
    let end = notify_user(&Some(Ok(false)));
    assert!(matches!(&end[1], Progress::End { message }
        if message == "Generation complete, but type definition inference failed (see logs)"));
    let end = notify_user(&Some(Err("no".to_string())));
    assert!(matches!(&end[0], Progress::Report { message } if message == "Generation failed: no"));
    assert!(is_notice_given(false, false));
    assert!(!is_notice_given(false, true));
    assert!(is_notice_given(true, true));
}

#[test]
fn settings_have_defaults() {
    let config = CodeAssistConfig::default();
    assert_eq!(config.default_preset, "gpt-3.5-codegen");
    assert!(config.use_chat_threads);
    assert!(!config.prefer_insert_in_place && !config.stream_snippets);
    assert!(!config.enable_tools && !config.use_native_tools && config.tracing_directive.is_none());
}
