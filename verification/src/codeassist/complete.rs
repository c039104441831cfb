//! Completing code.

use serde_json::Value;
use vstd::prelude::*;
use crate::codeassist::content::{snippet, ContentManager};
use crate::codeassist::position::{Location, LocationModel};
use crate::codeassist::typedefs::{lines_of, ContextSnippet, ContextSnippetModel};
use crate::json::{
    array_value, clone_value, documents, json, map_insert, new_map, no_members, object_value,
    opt_json, text_value, Json,
};
use crate::protocol::{
    GenerationParameters, GenerationParametersModel, GenerationRequest, GenerationRequestModel,
};
use crate::text::{
    chars_of, concat, contains, contains_text, decimal, decimal_of, find, find_from, is_white, join,
    join_with, law_decimal_is_read_back, law_split_undoes_join, lemma_contains_joined, lemma_find_contains, lemma_found, lines,
    occurs_at, split, split_lines, split_on, string_of, texts, trimmed, without_return,
};

verus! {

/// The preset with which code is completed unless another one is set.
pub const DEFAULT_PRESET: &'static str = "gpt-3.5-codegen";

/// What a list of presets begins with.
pub const PRESET_LIST_PREFIX: &'static str = "ccpr=";

/// What the token begins with under which the progress of a task is told.
pub const PROGRESS_TOKEN_PREFIX: &'static str = "llmvm/complete/";

// ---------------------------------------------------------------------------------------------
// Settings.

/// How code is assisted with.
#[derive(Debug)]
pub struct CodeAssistConfig {
    /// What is logged.
    pub tracing_directive: Option<String>,
    /// Whether completed code takes the place of the code that was to be completed, if it is
    /// completed with one preset only.
    pub prefer_insert_in_place: bool,
    /// The preset with which code is completed.
    pub default_preset: String,
    /// Whether completed code is handed to the editor part by part.
    pub stream_snippets: bool,
    /// Whether a completion knows the earlier ones.
    pub use_chat_threads: bool,
    /// Whether models may edit files.
    pub enable_tools: bool,
    /// Whether models call tools through their own interface.
    pub use_native_tools: bool,
}

impl Default for CodeAssistConfig {
    fn default() -> (r: Self)
        ensures
            r.tracing_directive is None,
            !r.prefer_insert_in_place,
            r.default_preset@ == DEFAULT_PRESET@,
            !r.stream_snippets,
            r.use_chat_threads,
            !r.enable_tools,
            !r.use_native_tools,
    {
        CodeAssistConfig {
            tracing_directive: None,
            prefer_insert_in_place: false,
            default_preset: DEFAULT_PRESET.to_owned(),
            stream_snippets: false,
            use_chat_threads: true,
            enable_tools: false,
            use_native_tools: false,
        }
    }
}

/// What the language server can tell.
#[derive(Clone, Copy, Debug, PartialEq, Eq, Structural)]
pub struct ServerSupport {
    pub semantic_tokens: bool,
    pub folding_ranges: bool,
    pub type_definitions: bool,
}

// ---------------------------------------------------------------------------------------------
// Presets in the code.

/// The place of the first whitespace from `from` on, or the end of the text.
pub open spec fn word_end(s: Seq<char>, from: int) -> int
    decreases s.len() - from,
{
    if from >= s.len() || is_white(s[from]) {
        from
    } else {
        word_end(s, from + 1)
    }
}

/// The presets that the code asks for: those of the first list in it, or the default one.
pub open spec fn preset_list(code: Seq<char>, default_preset: Seq<char>) -> Seq<Seq<char>> {
    match find_from(code, PRESET_LIST_PREFIX@, 0) {
        Some(i) => {
            let start = i + PRESET_LIST_PREFIX@.len();
            split(code.subrange(start, word_end(code, start)), ',').map_values(
                |preset: Seq<char>| trimmed(preset),
            )
        },
        None => seq![default_preset],
    }
}

/// The lines in which no list of presets begins.
pub open spec fn lines_without_presets(all: Seq<Seq<char>>) -> Seq<Seq<char>> {
    all.filter(|line: Seq<char>| !contains(line, PRESET_LIST_PREFIX@))
}

/// The code without the lines in which a list of presets begins.
pub open spec fn without_preset_list(code: Seq<char>) -> Seq<char> {
    if find_from(code, PRESET_LIST_PREFIX@, 0) is Some {
        join(lines_without_presets(lines(code)), "\n"@)
    } else {
        code
    }
}

fn end_of_word(s: &Vec<char>, from: usize) -> (r: usize)
    requires
        from <= s@.len(),
    ensures
        r == word_end(s@, from as int),
        from <= r <= s@.len(),
{
    let mut i: usize = from;
    while i < s.len() && !s[i].is_whitespace()
        invariant
            from <= i <= s@.len(),
            word_end(s@, from as int) == word_end(s@, i as int),
        decreases s.len() - i,
    {
        i = i + 1;
    }
    i
}

fn trim_all(pieces: &Vec<String>) -> (r: Vec<String>)
    ensures
        texts(r@) == texts(pieces@).map_values(|piece: Seq<char>| trimmed(piece)),
{
    let ghost wanted = texts(pieces@).map_values(|piece: Seq<char>| trimmed(piece));
    let mut r: Vec<String> = Vec::new();
    let mut i: usize = 0;
    assert(texts(r@) =~= wanted.take(0));
    while i < pieces.len()
        invariant
            i <= pieces@.len(),
            wanted == texts(pieces@).map_values(|piece: Seq<char>| trimmed(piece)),
            texts(r@) == wanted.take(i as int),
        decreases pieces.len() - i,
    {
        let kept = pieces[i].as_str().trim().to_owned();
        let ghost earlier = texts(r@);
        r.push(kept);
        assert(texts(r@) =~= earlier.push(wanted[i as int]));
        assert(wanted.take(i + 1) =~= earlier.push(wanted[i as int]));
        i = i + 1;
    }
    assert(wanted.take(wanted.len() as int) =~= wanted);
    r
}

fn drop_preset_lines(all: &Vec<String>) -> (r: Vec<String>)
    ensures
        texts(r@) == lines_without_presets(texts(all@)),
{
    let ghost wanted = |line: Seq<char>| !contains(line, PRESET_LIST_PREFIX@);
    let ghost given = texts(all@);
    let mut r: Vec<String> = Vec::new();
    let mut i: usize = 0;
    assert(given.take(0) =~= Seq::<Seq<char>>::empty());
    assert(texts(r@) =~= given.take(0).filter(wanted)) by {
        reveal(Seq::filter);
    }
    while i < all.len()
        invariant
            i <= all@.len(),
            given == texts(all@),
            wanted == (|line: Seq<char>| !contains(line, PRESET_LIST_PREFIX@)),
            texts(r@) == given.take(i as int).filter(wanted),
        decreases all.len() - i,
    {
        assert(given.take(i + 1).drop_last() =~= given.take(i as int));
        assert(given.take(i + 1).last() == all@[i as int]@);
        let ghost earlier = texts(r@);
        if !contains_text(all[i].as_str(), PRESET_LIST_PREFIX) {
            let line = all[i].clone();
            r.push(line);
            assert(texts(r@) =~= earlier.push(all@[i as int]@));
        }
        assert(texts(r@) == given.take(i + 1).filter(wanted)) by {
            reveal(Seq::filter);
        }
        i = i + 1;
    }
    assert(given.take(given.len() as int) =~= given);
    r
}

/// The presets that the code asks for, and the code without the lists of presets.
pub fn extract_preset_list(code: &str, default_preset: &str) -> (r: (Vec<String>, String))
    ensures
        texts(r.0@) == preset_list(code@, default_preset@),
        r.1@ == without_preset_list(code@),
{
    let chars = chars_of(code);
    let prefix = chars_of(PRESET_LIST_PREFIX);
    match find(&chars, &prefix, 0) {
        Some(i) => {
            assert(i + prefix@.len() <= chars.len());
            let start: usize = i + prefix.len();
            let end = end_of_word(&chars, start);
            let list = string_of(&chars, start, end);
            let pieces = split_on(list.as_str(), ',');
            let all = split_lines(code);
            let kept = drop_preset_lines(&all);
            (trim_all(&pieces), join_with(&kept, "\n"))
        },
        None => {
            let mut presets: Vec<String> = Vec::new();
            presets.push(default_preset.to_owned());
            assert(texts(presets@) =~= seq![default_preset@]);
            (presets, code.to_owned())
        },
    }
}

// ---------------------------------------------------------------------------------------------
// What a model is handed.

/// The parameters of the prompt in JSON.
pub open spec fn prompt_parameters(
    lang: Seq<char>,
    typedefs: Seq<ContextSnippetModel>,
    random: Seq<ContextSnippetModel>,
    main_snippet: Seq<char>,
) -> Json {
    Json::Object(
        no_members().insert("lang"@, Json::Text(lang)).insert(
            "typedef_context_snippets"@,
            Json::Array(typedefs.map_values(|s: ContextSnippetModel| s.document())),
        ).insert(
            "random_context_snippets"@,
            Json::Array(random.map_values(|s: ContextSnippetModel| s.document())),
        ).insert("main_snippet"@, Json::Text(main_snippet)),
    )
}

fn snippet_values(snippets: &Vec<ContextSnippet>) -> (r: Vec<Value>)
    ensures
        documents(r@) == snippets.deep_view().map_values(|s: ContextSnippetModel| s.document()),
{
    let ghost wanted = snippets.deep_view().map_values(|s: ContextSnippetModel| s.document());
    let mut r: Vec<Value> = Vec::new();
    let mut i: usize = 0;
    assert(documents(r@) =~= wanted.take(0));
    while i < snippets.len()
        invariant
            i <= snippets@.len(),
            wanted == snippets.deep_view().map_values(|s: ContextSnippetModel| s.document()),
            documents(r@) == wanted.take(i as int),
        decreases snippets.len() - i,
    {
        let value = snippets[i].to_value();
        let ghost earlier = documents(r@);
        r.push(value);
        assert(documents(r@) =~= earlier.push(wanted[i as int]));
        assert(wanted.take(i + 1) =~= earlier.push(wanted[i as int]));
        i = i + 1;
    }
    assert(wanted.take(wanted.len() as int) =~= wanted);
    r
}

/// What the prompt is made of.
#[derive(Debug)]
pub struct PromptParameters {
    pub lang: String,
    pub typedef_context_snippets: Vec<ContextSnippet>,
    pub random_context_snippets: Vec<ContextSnippet>,
    pub main_snippet: String,
}

impl PromptParameters {
    /// The parameters in JSON.
    pub fn to_value(&self) -> (r: Value)
        ensures
            json(r) == prompt_parameters(
                self.lang@,
                self.typedef_context_snippets.deep_view(),
                self.random_context_snippets.deep_view(),
                self.main_snippet@,
            ),
    {
        let mut m = new_map();
        map_insert(&mut m, "lang".to_owned(), text_value(self.lang.clone()));
        map_insert(
            &mut m,
            "typedef_context_snippets".to_owned(),
            array_value(snippet_values(&self.typedef_context_snippets)),
        );
        map_insert(
            &mut m,
            "random_context_snippets".to_owned(),
            array_value(snippet_values(&self.random_context_snippets)),
        );
        map_insert(&mut m, "main_snippet".to_owned(), text_value(self.main_snippet.clone()));
        object_value(m)
    }
}

/// The request for a completion without presets.
pub fn codegen_request(prompt_parameters: Value) -> (r: GenerationRequest)
    ensures
        r.deep_view() == (GenerationRequestModel {
            preset_id: None,
            parameters: Some(
                GenerationParametersModel {
                    model: Some("outsource/openai-chat/gpt-3.5-turbo"@),
                    prompt_template_id: Some("codegen"@),
                    max_tokens: Some(2048),
                    prompt_parameters: Some(json(prompt_parameters)),
                    ..GenerationParametersModel::none()
                },
            ),
            custom_prompt: None,
            existing_thread_id: None,
            session_id: None,
            session_tag: None,
            save_thread: false,
            client_id: None,
        }),
{
    GenerationRequest {
        preset_id: None,
        parameters: Some(
            GenerationParameters {
                model: Some("outsource/openai-chat/gpt-3.5-turbo".to_owned()),
                prompt_template_id: Some("codegen".to_owned()),
                custom_prompt_template: None,
                max_tokens: Some(2048),
                model_parameters: None,
                prompt_parameters: Some(prompt_parameters),
            },
        ),
        custom_prompt: None,
        existing_thread_id: None,
        session_id: None,
        session_tag: None,
        save_thread: false,
        client_id: None,
    }
}

// ---------------------------------------------------------------------------------------------
// The task.

/// Why code is not completed.
#[derive(Clone, Copy, Debug, PartialEq, Eq, Structural)]
pub enum CompleteFault {
    NoContextSnippet,
    NoMainSnippet,
}

impl CompleteFault {
    /// The fault in words.
    pub open spec fn spec_message(self) -> Seq<char> {
        match self {
            CompleteFault::NoContextSnippet => "failed to get context snippet from fetcher"@,
            CompleteFault::NoMainSnippet => "failed to get main snippet from fetcher"@,
        }
    }

    /// The fault in words.
    pub fn message(&self) -> (r: &'static str)
        ensures
            r@ == self.spec_message(),
    {
        match self {
            CompleteFault::NoContextSnippet => "failed to get context snippet from fetcher",
            CompleteFault::NoMainSnippet => "failed to get main snippet from fetcher",
        }
    }
}

/// Where the symbols come from that lead to the definitions of types.
#[derive(Clone, Copy, Debug, PartialEq, Eq, Structural)]
pub enum SymbolSource {
    /// There are no definitions to be had.
    Nowhere,
    /// The tokens that the language server tells.
    SemanticTokens,
    /// The words of the code.
    Words,
}

/// What a completion is made from.
#[derive(Debug)]
pub struct PreparedCompletion {
    /// Whether the definitions of types were found.
    pub typedef_infer_success: bool,
    /// The presets to complete with.
    pub presets: Vec<String>,
    /// The parameters of the prompt.
    pub prompt_parameters: Value,
}

/// The text of a location, handed to the model for its information.
pub open spec fn random_snippet(content: ContentManager, location: LocationModel) -> ContextSnippetModel {
    ContextSnippetModel {
        descriptions: None,
        snippet: snippet(lines_of(content, location.uri), location.range)->0,
    }
}

/// Whether all the documents of the locations are known, and have lines.
pub open spec fn locations_known(content: ContentManager, locations: Seq<LocationModel>) -> bool {
    forall|i: int|
        0 <= i < locations.len() ==> lines_of(content, (#[trigger] locations[i]).uri).len() > 0
}

/// Whether the texts of all the locations are cut between whole characters.
pub open spec fn locations_fit(content: ContentManager, locations: Seq<LocationModel>) -> bool {
    forall|i: int|
        0 <= i < locations.len() ==> content.fits((#[trigger] locations[i]).uri, locations[i].range)
}

/// A piece of code to be completed.
#[derive(Debug)]
pub struct CodeCompleteTask {
    pub default_preset: String,
    pub use_chat_threads: bool,
    pub root_uri: Option<String>,
    pub support: ServerSupport,
    pub code_location: Location,
    pub task_id: usize,
    pub random_context_locations: Vec<Location>,
}

impl CodeCompleteTask {
    /// A piece of code to be completed. Of a language server that has told nothing of itself nothing
    /// is asked.
    pub fn new(
        config: &CodeAssistConfig,
        support: Option<ServerSupport>,
        root_uri: Option<String>,
        code_location: Location,
        task_id: usize,
        random_context_locations: Vec<Location>,
    ) -> (r: Self)
        ensures
            r.default_preset@ == config.default_preset@,
            r.use_chat_threads == config.use_chat_threads,
            r.root_uri.deep_view() == root_uri.deep_view(),
            r.support == (match support {
                Some(support) => support,
                None => (ServerSupport {
                    semantic_tokens: false,
                    folding_ranges: false,
                    type_definitions: false,
                }),
            }),
            r.code_location.deep_view() == code_location.deep_view(),
            r.task_id == task_id,
            r.random_context_locations.deep_view() == random_context_locations.deep_view(),
    {
        CodeCompleteTask {
            default_preset: config.default_preset.clone(),
            use_chat_threads: config.use_chat_threads,
            root_uri,
            support: match support {
                Some(support) => support,
                None => ServerSupport {
                    semantic_tokens: false,
                    folding_ranges: false,
                    type_definitions: false,
                },
            },
            code_location,
            task_id,
            random_context_locations,
        }
    }

    /// The token under which the progress of the task is told.
    pub fn progress_token(&self) -> (r: String)
        ensures
            r@ == PROGRESS_TOKEN_PREFIX@ + decimal(self.task_id as nat),
    {
        let number = decimal_of(self.task_id as u64);
        concat(PROGRESS_TOKEN_PREFIX, number.as_str())
    }

    /// Where the symbols come from that lead to the definitions of types. The language server is asked
    /// for its tokens only if it does not say that it has them.
    pub fn symbol_source(&self) -> (r: SymbolSource)
        ensures
            r == (if !self.support.type_definitions {
                SymbolSource::Nowhere
            } else if !self.support.semantic_tokens {
                SymbolSource::SemanticTokens
            } else {
                SymbolSource::Words
            }),
    {
        if self.support.type_definitions {
            if !self.support.semantic_tokens {
                SymbolSource::SemanticTokens
            } else {
                SymbolSource::Words
            }
        } else {
            SymbolSource::Nowhere
        }
    }

    /// Whether the texts that the task speaks of are cut between whole characters.
    pub open spec fn fits(self, content: ContentManager) -> bool {
        &&& locations_fit(content, self.random_context_locations.deep_view())
        &&& content.fits(self.code_location.uri@, self.code_location.range)
    }

    /// Whether the texts that the task speaks of are cut between whole characters.
    pub fn can_prepare(&self, content: &ContentManager) -> (r: bool)
        ensures
            r == self.fits(*content),
    {
        let ghost all = self.random_context_locations.deep_view();
        let mut i: usize = 0;
        while i < self.random_context_locations.len()
            invariant
                i <= self.random_context_locations@.len(),
                all == self.random_context_locations.deep_view(),
                forall|k: int| 0 <= k < i ==> content.fits((#[trigger] all[k]).uri, all[k].range),
            decreases self.random_context_locations.len() - i,
        {
            let location = &self.random_context_locations[i];
            assert(all[i as int] == location.deep_view());
            if !content.can_get_snippet(location.uri.as_str(), &location.range) {
                return false;
            }
            i = i + 1;
        }
        content.can_get_snippet(self.code_location.uri.as_str(), &self.code_location.range)
    }

    /// The texts that the user added. Nothing, where one of the documents is not known or has no
    /// lines.
    pub fn get_random_context_snippets(&self, content: &ContentManager) -> (r: Option<Vec<ContextSnippet>>)
        requires
            locations_fit(*content, self.random_context_locations.deep_view()),
        ensures
            if locations_known(*content, self.random_context_locations.deep_view()) {
                r.deep_view() == Some(
                    self.random_context_locations.deep_view().map_values(
                        |l: LocationModel| random_snippet(*content, l),
                    ),
                )
            } else {
                r is None
            },
    {
        let ghost all = self.random_context_locations.deep_view();
        let ghost wanted = all.map_values(|l: LocationModel| random_snippet(*content, l));
        let mut r: Vec<ContextSnippet> = Vec::new();
        let mut i: usize = 0;
        assert(r.deep_view() =~= wanted.take(0));
        while i < self.random_context_locations.len()
            invariant
                i <= self.random_context_locations@.len(),
                all == self.random_context_locations.deep_view(),
                wanted == all.map_values(|l: LocationModel| random_snippet(*content, l)),
                locations_fit(*content, all),
                r.deep_view() == wanted.take(i as int),
                forall|k: int| 0 <= k < i ==> lines_of(*content, (#[trigger] all[k]).uri).len() > 0,
            decreases self.random_context_locations.len() - i,
        {
            let location = &self.random_context_locations[i];
            assert(all[i as int] == location.deep_view());
            match content.get_snippet(location.uri.as_str(), &location.range) {
                Some(snippet) => {
                    let ghost earlier = r.deep_view();
                    r.push(ContextSnippet { descriptions: None, snippet });
                    assert(r.deep_view() =~= earlier.push(wanted[i as int]));
                    assert(wanted.take(i + 1) =~= earlier.push(wanted[i as int]));
                },
                None => {
                    assert(lines_of(*content, all[i as int].uri).len() == 0);
                    return None;
                },
            }
            i = i + 1;
        }
        assert(wanted.take(wanted.len() as int) =~= wanted);
        Some(r)
    }

    /// What the completion is made from, with the definitions of types, if they were found.
    pub fn prepare(
        &self,
        content: &ContentManager,
        typedef_context_snippets: Option<Vec<ContextSnippet>>,
    ) -> (r: Result<PreparedCompletion, CompleteFault>)
        requires
            self.fits(*content),
        ensures
            ({
                let random = self.random_context_locations.deep_view();
                let lines = lines_of(*content, self.code_location.uri@);
                let code = snippet(lines, self.code_location.range)->0;
                if !locations_known(*content, random) {
                    r == Err::<PreparedCompletion, _>(CompleteFault::NoContextSnippet)
                } else if lines.len() == 0 {
                    r == Err::<PreparedCompletion, _>(CompleteFault::NoMainSnippet)
                } else {
                    &&& r is Ok
                    &&& r->Ok_0.typedef_infer_success == (typedef_context_snippets is Some)
                    &&& texts(r->Ok_0.presets@) == preset_list(code, self.default_preset@)
                    &&& json(r->Ok_0.prompt_parameters) == prompt_parameters(
                        content.content()[self.code_location.uri@].lang_id,
                        match typedef_context_snippets.deep_view() {
                            Some(snippets) => snippets,
                            None => Seq::empty(),
                        },
                        random.map_values(|l: LocationModel| random_snippet(*content, l)),
                        without_preset_list(code),
                    )
                }
            }),
    {
        let typedef_infer_success = typedef_context_snippets.is_some();
        let typedef_context_snippets = match typedef_context_snippets {
            Some(snippets) => snippets,
            None => {
                let none: Vec<ContextSnippet> = Vec::new();
                assert(none.deep_view() =~= Seq::<ContextSnippetModel>::empty());
                none
            },
        };
        let random_context_snippets = match self.get_random_context_snippets(content) {
            Some(snippets) => snippets,
            None => {
                return Err(CompleteFault::NoContextSnippet);
            },
        };
        let uri = self.code_location.uri.as_str();
        let code = match content.get_snippet(uri, &self.code_location.range) {
            Some(code) => code,
            None => {
                return Err(CompleteFault::NoMainSnippet);
            },
        };
        let (presets, main_snippet) = extract_preset_list(
            code.as_str(),
            self.default_preset.as_str(),
        );
        let parameters = PromptParameters {
            lang: content.get_lang_id(uri),
            typedef_context_snippets,
            random_context_snippets,
            main_snippet,
        };
        Ok(
            PreparedCompletion {
                typedef_infer_success,
                presets,
                prompt_parameters: parameters.to_value(),
            },
        )
    }

    /// The request for a completion with one of the presets. It goes on in a thread, and stays in it,
    /// only if there is no other preset.
    pub fn generation_request(
        &self,
        preset: &str,
        prompt_parameters: &Value,
        is_multiple_preset_request: bool,
        thread_id: Option<String>,
    ) -> (r: GenerationRequest)
        ensures
            r.deep_view() == (GenerationRequestModel {
                preset_id: Some(preset@),
                parameters: Some(
                    GenerationParametersModel {
                        prompt_parameters: Some(json(*prompt_parameters)),
                        ..GenerationParametersModel::none()
                    },
                ),
                custom_prompt: None,
                existing_thread_id: thread_id.deep_view(),
                session_id: None,
                session_tag: None,
                save_thread: self.use_chat_threads && !is_multiple_preset_request,
                client_id: None,
            }),
    {
        GenerationRequest {
            preset_id: Some(preset.to_owned()),
            parameters: Some(
                GenerationParameters {
                    model: None,
                    prompt_template_id: None,
                    custom_prompt_template: None,
                    max_tokens: None,
                    model_parameters: None,
                    prompt_parameters: Some(clone_value(prompt_parameters)),
                },
            ),
            custom_prompt: None,
            existing_thread_id: thread_id,
            session_id: None,
            session_tag: None,
            save_thread: self.use_chat_threads && !is_multiple_preset_request,
            client_id: None,
        }
    }
}

// ---------------------------------------------------------------------------------------------
// Telling the user.

/// A notice of the progress of a task. No task can be cancelled.
#[derive(Debug)]
pub enum Progress {
    Begin { title: String, message: String },
    Report { message: String },
    End { message: String },
}

/// What a [`Progress`] says.
#[verifier::ext_equal]
pub ghost enum ProgressModel {
    Begin { title: Seq<char>, message: Seq<char> },
    Report { message: Seq<char> },
    End { message: Seq<char> },
}

impl DeepView for Progress {
    type V = ProgressModel;

    open spec fn deep_view(&self) -> ProgressModel {
        match self {
            Progress::Begin { title, message } => ProgressModel::Begin {
                title: title@,
                message: message@,
            },
            Progress::Report { message } => ProgressModel::Report { message: message@ },
            Progress::End { message } => ProgressModel::End { message: message@ },
        }
    }
}

/// What is said of a task that has come to an end: whether the definitions of types were found, or
/// what went wrong.
pub open spec fn end_message(result: Result<bool, Seq<char>>) -> Seq<char> {
    match result {
        Ok(true) => "Generation complete"@,
        Ok(false) => "Generation complete, but type definition inference failed (see logs)"@,
        Err(fault) => "Generation failed: "@ + fault,
    }
}

/// The notices of a task, each a second behind the one before: those of its start, or those of its
/// end, if it has come to one.
pub open spec fn notices(result: Option<Result<bool, Seq<char>>>) -> Seq<ProgressModel> {
    match result {
        None => seq![
            ProgressModel::Begin { title: "Text Generation"@, message: "Starting generation"@ },
            ProgressModel::Report { message: "Generating..."@ },
        ],
        Some(result) => seq![
            ProgressModel::Report { message: end_message(result) },
            ProgressModel::End { message: end_message(result) },
        ],
    }
}

/// What the end of a task says.
pub open spec fn said_result(result: Option<Result<bool, String>>) -> Option<Result<bool, Seq<char>>> {
    match result {
        None => None,
        Some(Ok(found)) => Some(Ok(found)),
        Some(Err(fault)) => Some(Err(fault@)),
    }
}

/// The notices of a task, each a second behind the one before.
pub fn notify_user(complete_result: &Option<Result<bool, String>>) -> (r: Vec<Progress>)
    ensures
        r.deep_view() == notices(said_result(*complete_result)),
{
    let mut r: Vec<Progress> = Vec::new();
    let ghost wanted = notices(said_result(*complete_result));
    match complete_result {
        None => {
            r.push(
                Progress::Begin {
                    title: "Text Generation".to_owned(),
                    message: "Starting generation".to_owned(),
                },
            );
            r.push(Progress::Report { message: "Generating...".to_owned() });
        },
        Some(result) => {
            let message = match result {
                Ok(true) => "Generation complete".to_owned(),
                Ok(false) => {
                    "Generation complete, but type definition inference failed (see logs)".to_owned()
                },
                Err(fault) => concat("Generation failed: ", fault.as_str()),
            };
            r.push(Progress::Report { message: message.clone() });
            r.push(Progress::End { message });
        },
    }
    assert(r.deep_view() =~= wanted);
    r
}

/// Whether a notice whose time has come is still given. The notices of the start are not given once
/// the task has come to its end.
pub fn is_notice_given(is_end_notice: bool, is_complete: bool) -> (r: bool)
    ensures
        r == (is_end_notice || !is_complete),
{
    is_end_notice || !is_complete
}

// ---------------------------------------------------------------------------------------------
// Laws.

/// No list of presets stands in the code that is handed to the model.
pub proof fn law_presets_are_not_handed_over(code: Seq<char>)
    ensures
        !contains(without_preset_list(code), PRESET_LIST_PREFIX@),
{
    reveal_strlit("ccpr=");
    reveal_strlit("\n");
    assert("\n"@ =~= seq!['\n']);
    lemma_find_contains(code, PRESET_LIST_PREFIX@, 0);
    if find_from(code, PRESET_LIST_PREFIX@, 0) is Some {
        let kept = lines_without_presets(lines(code));
        if contains(without_preset_list(code), PRESET_LIST_PREFIX@) {
            lemma_contains_joined(kept, PRESET_LIST_PREFIX@);
            let k = choose|k: int| 0 <= k < kept.len() && contains(#[trigger] kept[k], PRESET_LIST_PREFIX@);
            let wanted = |line: Seq<char>| !contains(line, PRESET_LIST_PREFIX@);
            lines(code).lemma_filter_pred(wanted, k);
        }
    }
}

proof fn lemma_word_end(s: Seq<char>, from: int, end: int)
    requires
        0 <= from <= end <= s.len(),
        forall|i: int| from <= i < end ==> !is_white(#[trigger] s[i]),
        end < s.len() ==> is_white(s[end]),
    ensures
        word_end(s, from) == end,
    decreases end - from,
{
    if from < end {
        assert(!is_white(s[from]));
        lemma_word_end(s, from + 1, end);
    }
}

/// Code without a list of presets is handed over whole, and completed with the default one. A list names
/// the presets to complete with, in order, up to the next white space or the end of the code.
pub proof fn law_presets_are_those_of_the_list(
    before: Seq<char>,
    list: Seq<char>,
    after: Seq<char>,
    default_preset: Seq<char>,
)
    requires
        forall|i: int| 0 <= i < list.len() ==> !is_white(#[trigger] list[i]),
        after.len() > 0 ==> is_white(after[0]),
        forall|i: int|
            0 <= i < before.len() ==> !#[trigger] occurs_at(
                before + "ccpr="@ + list + after,
                "ccpr="@,
                i,
            ),
    ensures
        ({
            let code = before + "ccpr="@ + list + after;
            let presets = preset_list(code, default_preset);
            let named = split(list, ',');
            &&& presets.len() == named.len()
            &&& forall|i: int| 0 <= i < presets.len() ==> #[trigger] presets[i] == trimmed(named[i])
        }),
        !contains(before, "ccpr="@) ==> preset_list(before, default_preset) == seq![default_preset]
            && without_preset_list(before) == before,
{
    reveal_strlit("ccpr=");
    let code = before + "ccpr="@ + list + after;
    let at = before.len() as int;
    assert("ccpr="@.len() == 5);
    assert(code.subrange(at, at + 5) =~= "ccpr="@);
    lemma_found(code, "ccpr="@, 0, at);
    let start = at + 5;
    let end = start + list.len();
    assert forall|i: int| start <= i < end implies !is_white(#[trigger] code[i]) by {
        assert(code[i] == list[i - start]);
    }
    if end < code.len() {
        assert(code[end] == after[0]);
    }
    lemma_word_end(code, start, end);
    assert(code.subrange(start, end) =~= list);
    lemma_find_contains(before, "ccpr="@, 0);
}

/// A line with a list of presets leaves the code, and no other line does: the lines that are left are
/// handed over as they are and in order.
pub proof fn law_only_lines_with_presets_go(all: Seq<Seq<char>>, at: int, presets: Seq<char>)
    requires
        all.len() > 0,
        0 <= at < all.len(),
        !presets.contains('\n'),
        contains(presets, "ccpr="@),
        presets.last() != '\r',
        forall|i: int|
            0 <= i < all.len() ==> !(#[trigger] all[i]).contains('\n') && !contains(all[i], "ccpr="@) && (
            all[i].len() > 0 ==> all[i].last() != '\r'),
        all.last().len() > 0,
    ensures
        without_preset_list(join(all.insert(at, presets), seq!['\n'])) == join(all, seq!['\n']),
{
    reveal_strlit("ccpr=");
    reveal_strlit("\n");
    assert("\n"@ =~= seq!['\n']);
    let more = all.insert(at, presets);
    let code = join(more, seq!['\n']);
    assert forall|i: int| 0 <= i < more.len() implies !(#[trigger] more[i]).contains('\n') && (
    more[i].len() > 0 ==> more[i].last() != '\r') && (i != at ==> !contains(more[i], "ccpr="@)) by {
        if i < at {
            assert(more[i] == all[i]);
        } else if i > at {
            assert(more[i] == all[i - 1]);
        }
    }
    law_split_undoes_join(more, '\n');
    assert(more.last() == all[all.len() - 1]);
    assert(lines(code) =~= more) by {
        let pieces = split(code, '\n');
        assert(pieces == more);
        let ended = pieces.drop_last().map_values(|piece: Seq<char>| without_return(piece));
        assert forall|i: int| 0 <= i < ended.len() implies #[trigger] ended[i] == more[i] by {
            assert(!more[i].contains('\n'));
        }
        assert(ended =~= more.drop_last());
    }
    lemma_part_occurs(more, at, "ccpr="@);
    lemma_find_contains(code, "ccpr="@, 0);
    assert(find_from(code, "ccpr="@, 0) is Some);
    let wanted = |line: Seq<char>| !contains(line, PRESET_LIST_PREFIX@);
    lemma_wanted_lines(more, at, wanted);
    assert(more.remove(at) =~= all);
}

proof fn lemma_wanted_lines(more: Seq<Seq<char>>, at: int, wanted: spec_fn(Seq<char>) -> bool)
    requires
        0 <= at < more.len(),
        !wanted(more[at]),
        forall|i: int| 0 <= i < more.len() && i != at ==> wanted(#[trigger] more[i]),
    ensures
        more.filter(wanted) == more.remove(at),
    decreases more.len(),
{
    reveal(Seq::filter);
    let shorter = more.drop_last();
    if at == more.len() - 1 {
        lemma_all_wanted(shorter, wanted);
        assert(more.remove(at) =~= shorter);
    } else {
        assert forall|i: int| 0 <= i < shorter.len() && i != at implies wanted(#[trigger] shorter[i]) by {
            assert(shorter[i] == more[i]);
        }
        lemma_wanted_lines(shorter, at, wanted);
        assert(wanted(more[more.len() - 1]));
        assert(more.remove(at) =~= shorter.remove(at).push(more.last()));
    }
}

proof fn lemma_all_wanted(all: Seq<Seq<char>>, wanted: spec_fn(Seq<char>) -> bool)
    requires
        forall|i: int| 0 <= i < all.len() ==> wanted(#[trigger] all[i]),
    ensures
        all.filter(wanted) == all,
    decreases all.len(),
{
    reveal(Seq::filter);
    if all.len() > 0 {
        let shorter = all.drop_last();
        assert forall|i: int| 0 <= i < shorter.len() implies wanted(#[trigger] shorter[i]) by {
            assert(shorter[i] == all[i]);
        }
        lemma_all_wanted(shorter, wanted);
        assert(wanted(all[all.len() - 1]));
        assert(shorter.push(all.last()) =~= all);
    }
}

proof fn lemma_part_occurs(parts: Seq<Seq<char>>, at: int, pat: Seq<char>)
    requires
        0 <= at < parts.len(),
        contains(parts[at], pat),
    ensures
        exists|i: int| 0 <= i && #[trigger] occurs_at(join(parts, seq!['\n']), pat, i),
    decreases parts.len(),
{
    let whole = join(parts, seq!['\n']);
    if parts.len() == 1 {
        let i = choose|i: int| #[trigger] occurs_at(parts[0], pat, i);
        assert(occurs_at(whole, pat, i));
    } else {
        let head = join(parts.drop_last(), seq!['\n']);
        if at == parts.len() - 1 {
            let i = choose|i: int| #[trigger] occurs_at(parts.last(), pat, i);
            let k = head.len() + 1 + i;
            assert(whole.subrange(k, k + pat.len()) =~= parts.last().subrange(i, i + pat.len()));
            assert(occurs_at(whole, pat, k));
        } else {
            assert(parts.drop_last()[at] == parts[at]);
            lemma_part_occurs(parts.drop_last(), at, pat);
            let i = choose|i: int| 0 <= i && #[trigger] occurs_at(head, pat, i);
            assert(whole.subrange(i, i + pat.len()) =~= head.subrange(i, i + pat.len()));
            assert(occurs_at(whole, pat, i));
        }
    }
}

/// A model is handed the language, the code, the definitions of types and the texts that the user added,
/// each under its name, whole and in order.
pub proof fn law_model_is_handed_what_was_found(
    lang: Seq<char>,
    typedefs: Seq<ContextSnippetModel>,
    random: Seq<ContextSnippetModel>,
    main_snippet: Seq<char>,
)
    ensures
        ({
            let handed = prompt_parameters(lang, typedefs, random, main_snippet);
            &&& handed.member("lang"@) == Some(Json::Text(lang))
            &&& handed.member("main_snippet"@) == Some(Json::Text(main_snippet))
            &&& handed.member("typedef_context_snippets"@) matches Some(Json::Array(types))
            &&& types.len() == typedefs.len() && forall|i: int|
                0 <= i < types.len() ==> #[trigger] types[i] == typedefs[i].document()
            &&& handed.member("random_context_snippets"@) matches Some(Json::Array(added))
            &&& added.len() == random.len() && forall|i: int|
                0 <= i < added.len() ==> #[trigger] added[i] == random[i].document()
        }),
{
    reveal_strlit("lang");
    reveal_strlit("typedef_context_snippets");
    reveal_strlit("random_context_snippets");
    reveal_strlit("main_snippet");
    assert("lang"@.len() == 4 && "main_snippet"@.len() == 12);
    assert("typedef_context_snippets"@.len() == 24 && "random_context_snippets"@.len() == 23);
}

/// What a completion is made from: the presets of the code, and the code, its language, the definitions
/// that were found and the texts that were added. It fails where a document is not known.
pub proof fn law_completion_is_made_from_the_code(
    task: CodeCompleteTask,
    content: ContentManager,
    typedefs: Option<Vec<ContextSnippet>>,
    r: Result<PreparedCompletion, CompleteFault>,
)
    requires
        task.fits(content),
        call_ensures(CodeCompleteTask::prepare, (&task, &content, typedefs), r),
    ensures
        ({
            let lines = lines_of(content, task.code_location.uri@);
            let code = snippet(lines, task.code_location.range)->0;
            let added = task.random_context_locations.deep_view();
            &&& r is Ok <==> lines.len() > 0 && locations_known(content, added)
            &&& r matches Ok(made) ==> {
                let handed = json(made.prompt_parameters);
                &&& made.typedef_infer_success == (typedefs is Some)
                &&& texts(made.presets@) == preset_list(code, task.default_preset@)
                &&& handed.member("main_snippet"@) == Some(Json::Text(without_preset_list(code)))
                &&& handed.member("lang"@) == Some(
                    Json::Text(content.content()[task.code_location.uri@].lang_id),
                )
                &&& handed.member("random_context_snippets"@) matches Some(Json::Array(texts_added))
                    && texts_added.len() == added.len()
                &&& handed.member("typedef_context_snippets"@) matches Some(Json::Array(types))
                    && types.len() == (match typedefs {
                    Some(found) => found@.len(),
                    None => 0,
                })
            }
        }),
{
    let added = task.random_context_locations.deep_view();
    let lines = lines_of(content, task.code_location.uri@);
    let code = snippet(lines, task.code_location.range)->0;
    let types = match typedefs.deep_view() {
        Some(snippets) => snippets,
        None => Seq::empty(),
    };
    law_model_is_handed_what_was_found(
        content.content()[task.code_location.uri@].lang_id,
        types,
        added.map_values(|l: LocationModel| random_snippet(content, l)),
        without_preset_list(code),
    );
}

/// The request for a completion asks for the preset, with the parameters of the prompt, and goes on in
/// the thread that is given. It is saved only where earlier completions are to be known, and there is no
/// other preset.
pub proof fn law_completion_is_asked_with_its_preset(
    task: CodeCompleteTask,
    preset: &str,
    parameters: Value,
    is_multiple: bool,
    thread_id: Option<String>,
    r: GenerationRequest,
)
    requires
        call_ensures(
            CodeCompleteTask::generation_request,
            (&task, preset, &parameters, is_multiple, thread_id),
            r,
        ),
    ensures
        r.preset_id.deep_view() == Some(preset@),
        r.existing_thread_id.deep_view() == thread_id.deep_view(),
        r.save_thread == (task.use_chat_threads && !is_multiple),
        r.custom_prompt is None && r.session_id is None && r.session_tag is None,
        r.parameters matches Some(asked) && opt_json(asked.prompt_parameters) == Some(json(parameters))
            && asked.model is None && asked.max_tokens is None && asked.prompt_template_id is None,
{
    let said = r.deep_view();
    assert(said.preset_id == r.preset_id.deep_view());
    assert(said.existing_thread_id == r.existing_thread_id.deep_view());
    assert(said.custom_prompt == r.custom_prompt.deep_view());
    assert(said.session_id == r.session_id.deep_view());
    assert(said.session_tag == r.session_tag.deep_view());
    assert(said.parameters == r.parameters.deep_view());
    if let Some(asked) = r.parameters {
        let set = asked.deep_view();
        assert(said.parameters == Some(set));
        assert(set.model == asked.model.deep_view());
        assert(set.prompt_template_id == asked.prompt_template_id.deep_view());
        assert(set.prompt_parameters == opt_json(asked.prompt_parameters));
    }
}

/// The end of a task is told once and for all: as a report and then as the end, in the same words. What
/// went wrong is told, and success with and without definitions of types is told apart from it.
pub proof fn law_end_of_a_task_is_told(result: Result<bool, Seq<char>>, fault: Seq<char>)
    ensures
        notices(Some(result)).len() == 2,
        notices(Some(result))[0] == (ProgressModel::Report { message: end_message(result) }),
        notices(Some(result))[1] == (ProgressModel::End { message: end_message(result) }),
        fault.is_suffix_of(end_message(Err(fault))),
        end_message(Ok(true)).is_prefix_of(end_message(Ok(false))),
        end_message(Ok(true)) != end_message(Ok(false)),
        !"Generation complete"@.is_prefix_of(end_message(Err(fault))),
        notices(None).len() == 2 && notices(None)[0] is Begin && notices(None)[1] is Report,
{
    reveal_strlit("Generation complete");
    reveal_strlit("Generation complete, but type definition inference failed (see logs)");
    reveal_strlit("Generation failed: ");
    let done = "Generation complete"@;
    let half = "Generation complete, but type definition inference failed (see logs)"@;
    let failed = "Generation failed: "@ + fault;
    assert(done.len() == 19 && half.len() == 68);
    assert(half.subrange(0, 19) =~= done);
    assert(failed.subrange(failed.len() - fault.len(), failed.len() as int) =~= fault);
    if done.is_prefix_of(failed) {
        assert(failed.subrange(0, 19)[11] == failed[11]);
        assert(failed[11] == 'f' && done[11] == 'c');
    }
}

/// The request for a completion without presets asks for code, with the parameters of the prompt, and is
/// not saved.
pub proof fn law_completion_is_asked_without_presets(parameters: Value, r: GenerationRequest)
    requires
        call_ensures(codegen_request, (parameters,), r),
    ensures
        !r.save_thread && r.preset_id is None && r.existing_thread_id is None && r.custom_prompt is None,
        r.parameters matches Some(asked) && asked.prompt_template_id.deep_view() == Some("codegen"@)
            && asked.model.deep_view() == Some("outsource/openai-chat/gpt-3.5-turbo"@) && asked.max_tokens
            == Some(2048u64) && opt_json(asked.prompt_parameters) == Some(json(parameters)),
{
    let said = r.deep_view();
    assert(said.preset_id == r.preset_id.deep_view());
    assert(said.existing_thread_id == r.existing_thread_id.deep_view());
    assert(said.custom_prompt == r.custom_prompt.deep_view());
    assert(said.parameters == r.parameters.deep_view());
    if let Some(asked) = r.parameters {
        let set = asked.deep_view();
        assert(said.parameters == Some(set));
        assert(set.model == asked.model.deep_view());
        assert(set.prompt_template_id == asked.prompt_template_id.deep_view());
        assert(set.prompt_parameters == opt_json(asked.prompt_parameters));
    }
}

/// The texts that the user added are handed over in order, each as the text of its location and without a
/// description; and not at all where a document is not known.
pub proof fn law_added_texts_are_handed_over(
    task: CodeCompleteTask,
    content: ContentManager,
    r: Option<Vec<ContextSnippet>>,
    i: int,
)
    requires
        locations_fit(content, task.random_context_locations.deep_view()),
        call_ensures(CodeCompleteTask::get_random_context_snippets, (&task, &content), r),
        0 <= i < task.random_context_locations@.len(),
    ensures
        r is Some <==> forall|k: int|
            0 <= k < task.random_context_locations@.len() ==> lines_of(
                content,
                (#[trigger] task.random_context_locations@[k]).uri@,
            ).len() > 0,
        r matches Some(found) ==> {
            let location = task.random_context_locations@[i];
            &&& found@.len() == task.random_context_locations@.len()
            &&& found@[i].descriptions is None
            &&& Some(found@[i].snippet@) == snippet(lines_of(content, location.uri@), location.range)
        },
{
    let locations = task.random_context_locations.deep_view();
    assert forall|k: int| 0 <= k < locations.len() implies (#[trigger] locations[k]).uri
        == task.random_context_locations@[k].uri@ by {
        assert(locations[k] == task.random_context_locations@[k].deep_view());
    }
    if r is None {
        let k = choose|k: int|
            0 <= k < locations.len() && !(lines_of(content, (#[trigger] locations[k]).uri).len() > 0);
        assert(lines_of(content, task.random_context_locations@[k].uri@).len() == 0);
    }
    if let Some(found) = r {
        assert forall|k: int| 0 <= k < task.random_context_locations@.len() implies lines_of(
            content,
            (#[trigger] task.random_context_locations@[k]).uri@,
        ).len() > 0 by {
            assert(lines_of(content, locations[k].uri).len() > 0);
        }
        assert(found.deep_view().len() == found@.len());
        assert(found.deep_view()[i] == found@[i].deep_view());
        assert(locations[i] == task.random_context_locations@[i].deep_view());
        assert(content.fits(locations[i].uri, locations[i].range));
        assert(found@[i].deep_view().descriptions == found@[i].descriptions.deep_view());
    }
}

/// A notice of the end is always given, and one of the start only before the end.
pub proof fn law_start_is_not_told_behind_the_end(is_end_notice: bool, is_complete: bool, r: bool)
    requires
        call_ensures(is_notice_given, (is_end_notice, is_complete), r),
    ensures
        is_end_notice ==> r,
        !is_end_notice && is_complete ==> !r,
        !is_complete ==> r,
{
}

/// Tasks have different tokens.
pub proof fn law_tasks_have_their_own_tokens(
    a: CodeCompleteTask,
    b: CodeCompleteTask,
    r: String,
    s: String,
)
    requires
        call_ensures(CodeCompleteTask::progress_token, (&a,), r),
        call_ensures(CodeCompleteTask::progress_token, (&b,), s),
        a.task_id != b.task_id,
    ensures
        r@ != s@,
        "llmvm/complete/"@.is_prefix_of(r@),
{
    let head = "llmvm/complete/"@;
    assert(r@.take(head.len() as int) =~= head);
    assert(r@.skip(head.len() as int) =~= decimal(a.task_id as nat));
    assert(s@.skip(head.len() as int) =~= decimal(b.task_id as nat));
    law_decimal_is_read_back(a.task_id as nat);
    law_decimal_is_read_back(b.task_id as nat);
}

/// Without type definitions no symbols are looked for. With them they come from the semantic tokens or
/// from the words, and from which of the two the support of semantic tokens alone tells.
pub proof fn law_symbols_need_type_definitions(task: CodeCompleteTask, r: SymbolSource)
    requires
        call_ensures(CodeCompleteTask::symbol_source, (&task,), r),
    ensures
        r == SymbolSource::Nowhere <==> !task.support.type_definitions,
        r == SymbolSource::SemanticTokens ==> !task.support.semantic_tokens,
        r == SymbolSource::Words ==> task.support.semantic_tokens,
{
}

} // verus!
