//! Prompts: templates, and the texts that come out of them.

use std::sync::mpsc::channel;
use handlebars::{
    no_escape, Context, Handlebars, Helper, HelperResult, Output, RenderContext, Renderable,
};
use serde_json::Value;
use vstd::prelude::*;
use crate::core_lib::error::CoreError;
use crate::json::{json, Json};
use crate::core_lib::templates::surely_ends;
use crate::text::{concat, opt_text, texts, trimmed};

verus! {

/// An error of `handlebars`, carried through.
#[verifier::external_type_specification]
#[verifier::external_body]
pub struct ExRenderError(handlebars::RenderError);

/// The name of the block helper whose blocks make the prompt for the system role.
pub const SYSTEM_ROLE_HELPER: &'static str = "system_role";

/// What a template gives for the parameters: the text outside the blocks of the helper of that name,
/// and the texts of those blocks, in the order in which they were rendered. Nothing, where the
/// template cannot be rendered.
pub uninterp spec fn rendered(template: Seq<char>, parameters: Json, helper: Seq<char>) -> Option<
    (Seq<char>, Seq<Seq<char>>),
>;

/// `Handlebars::render_template`, without escaping, and with a block helper of that name: what
/// `Renderable::renders` gives for one of its blocks is handed out instead of written. All texts are
/// a function of the template, the parameters and the name. What they are is not stated. Rendering
/// comes to an end where [`surely_ends`] tells so: `handlebars` itself does not notice that an inline
/// partial, or the block of a partial, reaches itself.
#[verifier::external_body]
pub(crate) fn render(template: &str, parameters: &Value, helper: &str) -> (r: Result<
    (String, Vec<String>),
    handlebars::RenderError,
>)
    requires
        surely_ends(template@),
    ensures
        match r {
            Ok((main, blocks)) => rendered(template@, json(*parameters), helper@) == Some(
                (main@, texts(blocks@)),
            ),
            Err(_) => rendered(template@, json(*parameters), helper@) is None,
        },
{
    let (blocks, rendered_blocks) = channel();
    let hand_out: Box<dyn for<'a, 'b> Fn(&Helper<'a, 'b>, &'a Handlebars<'a>, &'b Context,
        &mut RenderContext<'a, 'b>, &mut dyn Output) -> HelperResult + Send + Sync> =
        Box::new(move |h, r, ctx, rc, _out| match h.template() {
            Some(block) => Ok(blocks.send(block.renders(r, ctx, rc)?).unwrap()),
            None => Ok(()),
        });
    let mut engine = Handlebars::new();
    engine.register_escape_fn(no_escape);
    engine.register_helper(helper, Box::new(hand_out));
    let main = engine.render_template(template, parameters)?;
    Ok((main, rendered_blocks.try_iter().collect()))
}

/// The text for the system role that the blocks of a template make: their texts one after the other,
/// if there is a block.
pub open spec fn system_text(blocks: Seq<Seq<char>>) -> Option<Seq<char>> {
    if blocks.len() == 0 {
        None
    } else {
        Some(blocks.flatten())
    }
}

/// Joins the texts of the blocks for the system role.
pub fn join_blocks(blocks: Vec<String>) -> (r: Option<String>)
    ensures
        opt_text(r) == system_text(texts(blocks@)),
{
    if blocks.len() == 0 {
        return None;
    }
    let ghost all = texts(blocks@);
    let mut joined = String::new();
    let mut i: usize = 0;
    proof {
        assert(all.take(0) =~= Seq::empty());
    }
    while i < blocks.len()
        invariant
            i <= blocks@.len(),
            all == texts(blocks@),
            joined@ == all.take(i as int).flatten(),
        decreases blocks.len() - i,
    {
        joined.append(blocks[i].as_str());
        proof {
            all.take(i as int).lemma_flatten_push(all[i as int]);
            assert(all.take(i + 1) =~= all.take(i as int).push(all[i as int]));
        }
        i = i + 1;
    }
    assert(all.take(all.len() as int) =~= all);
    Some(joined)
}

/// An error in the words of `handlebars`.
pub uninterp spec fn render_error_words(error: handlebars::RenderError) -> Seq<char>;

/// `RenderError::to_string` gives the words of the error, which are a function of the error.
#[verifier::external_body]
pub(crate) fn render_error_text(error: &handlebars::RenderError) -> (r: String)
    ensures
        r@ == render_error_words(*error),
{
    error.to_string()
}

/// Whether the text is what `handlebars` says of an error. Which of several errors in a template it finds
/// is left to the order in which it walks the named parameters of a tag, and that is different from one
/// process to the next.
pub open spec fn is_render_error_text(text: Seq<char>) -> bool {
    exists|error: handlebars::RenderError| text == #[trigger] render_error_words(error)
}

/// A prompt that is ready to use for text generation.
/// May contain an optional prompt for the system role.
#[derive(Debug)]
pub struct ReadyPrompt {
    /// A system role prompt. For chat generation requests, this will be appended
    /// to the `thread_messages` of the backend generation request. For non-chat
    /// generation requests, the system prompt will be prepended to the main prompt.
    pub system_prompt: Option<String>,
    /// The main prompt. For chat generation requests, this prompt should use the user role.
    pub main_prompt: Option<String>,
}

/// What a [`ReadyPrompt`] says.
#[verifier::ext_equal]
pub ghost struct ReadyPromptModel {
    pub system_prompt: Option<Seq<char>>,
    pub main_prompt: Option<Seq<char>>,
}

impl DeepView for ReadyPrompt {
    type V = ReadyPromptModel;

    open spec fn deep_view(&self) -> ReadyPromptModel {
        ReadyPromptModel {
            system_prompt: self.system_prompt.deep_view(),
            main_prompt: self.main_prompt.deep_view(),
        }
    }
}

impl Default for ReadyPrompt {
    fn default() -> (r: Self)
        ensures
            r.deep_view() == (ReadyPromptModel { system_prompt: None, main_prompt: None }),
    {
        ReadyPrompt { system_prompt: None, main_prompt: None }
    }
}

/// The prompt that the texts of a template make. Both lose the whitespace at their ends. A model
/// that has no chat gets the system text before the main one. An empty main text is none.
pub open spec fn ready_prompt(
    main: Seq<char>,
    system: Option<Seq<char>>,
    is_chat_model: bool,
) -> ReadyPromptModel {
    let (system_prompt, main_prompt) = match system {
        Some(system) => if is_chat_model {
            (Some(trimmed(system)), trimmed(main))
        } else {
            (None, trimmed(system) + "\n\n"@ + trimmed(main))
        },
        None => (None, trimmed(main)),
    };
    ReadyPromptModel {
        system_prompt,
        main_prompt: if main_prompt.len() == 0 {
            None
        } else {
            Some(main_prompt)
        },
    }
}

/// The name of the file that holds a template.
pub fn template_file_name(template_id: &str) -> (r: String)
    ensures
        r@ == template_id@ + ".hbs"@,
{
    concat(template_id, ".hbs")
}

impl ReadyPrompt {
    /// The prompt that the texts of a template make.
    pub fn from_rendered(main: &str, system: Option<String>, is_chat_model: bool) -> (r: Self)
        ensures
            r.deep_view() == ready_prompt(main@, system.deep_view(), is_chat_model),
    {
        let mut main_prompt = main.trim().to_owned();
        let mut system_prompt = match system {
            Some(s) => Some(s.as_str().trim().to_owned()),
            None => None,
        };
        if !is_chat_model {
            if let Some(s) = system_prompt.take() {
                let mut longer = s;
                longer.append("\n\n");
                longer.append(main_prompt.as_str());
                main_prompt = longer;
            }
        }
        ReadyPrompt {
            system_prompt,
            main_prompt: if main_prompt.as_str().is_empty() {
                None
            } else {
                Some(main_prompt)
            },
        }
    }

    /// The prompt that the rendering of a template makes, or its error in the words of `handlebars`.
    pub fn from_render(
        rendering: Result<(String, Vec<String>), handlebars::RenderError>,
        is_chat_model: bool,
    ) -> (r: Result<Self, CoreError>)
        ensures
            match rendering {
                Ok((main, blocks)) => r matches Ok(prompt) && prompt.deep_view() == ready_prompt(
                    main@,
                    system_text(texts(blocks@)),
                    is_chat_model,
                ),
                Err(e) => r matches Err(CoreError::TemplateRender(text)) && text@ == render_error_words(e),
            },
    {
        match rendering {
            Ok((main, blocks)) => Ok(
                ReadyPrompt::from_rendered(main.as_str(), join_blocks(blocks), is_chat_model),
            ),
            Err(e) => Err(CoreError::TemplateRender(render_error_text(&e))),
        }
    }

    /// The prompt that a template makes of the parameters.
    pub fn process(template: &str, parameters: &Value, is_chat_model: bool) -> (r: Result<
        Self,
        CoreError,
    >)
        requires
            surely_ends(template@),
        ensures
            match rendered(template@, json(*parameters), SYSTEM_ROLE_HELPER@) {
                Some((main, blocks)) => r matches Ok(prompt) && prompt.deep_view() == ready_prompt(
                    main,
                    system_text(blocks),
                    is_chat_model,
                ),
                None => r matches Err(CoreError::TemplateRender(text)) && is_render_error_text(text@),
            },
    {
        ReadyPrompt::from_render(render(template, parameters, SYSTEM_ROLE_HELPER), is_chat_model)
    }

    /// The text of a template: the one that is stored, or else the built-in one.
    pub fn load_template(stored: Option<String>, built_in: Option<String>) -> (r: Result<
        String,
        CoreError,
    >)
        ensures
            match (stored, built_in) {
                (Some(template), _) => r == Ok::<_, CoreError>(template),
                (None, Some(template)) => r == Ok::<_, CoreError>(template),
                (None, None) => r == Err::<String, _>(CoreError::TemplateNotFound),
            },
    {
        match stored {
            Some(template) => Ok(template),
            None => match built_in {
                Some(template) => Ok(template),
                None => Err(CoreError::TemplateNotFound),
            },
        }
    }

    /// Generates a full prompt using the template that is stored under an id, or else the built-in
    /// one of that id.
    pub fn from_stored_template(
        stored: Option<String>,
        built_in: Option<String>,
        parameters: &Value,
        is_chat_model: bool,
    ) -> (r: Result<Self, CoreError>)
        requires
            match (stored, built_in) {
                (Some(template), _) => surely_ends(template@),
                (None, Some(template)) => surely_ends(template@),
                (None, None) => true,
            },
        ensures
            match (stored, built_in) {
                (None, None) => r == Err::<Self, _>(CoreError::TemplateNotFound),
                _ => {
                    let template = match stored {
                        Some(template) => template@,
                        None => built_in->0@,
                    };
                    match rendered(template, json(*parameters), SYSTEM_ROLE_HELPER@) {
                        Some((main, blocks)) => r matches Ok(prompt) && prompt.deep_view()
                            == ready_prompt(main, system_text(blocks), is_chat_model),
                        None => r matches Err(CoreError::TemplateRender(text)) && is_render_error_text(text@),
                    }
                },
            },
    {
        match ReadyPrompt::load_template(stored, built_in) {
            Ok(template) => ReadyPrompt::process(template.as_str(), parameters, is_chat_model),
            Err(e) => Err(e),
        }
    }

    /// Generates a full prompt using a Handlebars template and parameters.
    pub fn from_custom_template(template: &str, parameters: &Value, is_chat_model: bool) -> (r: Result<
        Self,
        CoreError,
    >)
        requires
            surely_ends(template@),
        ensures
            match rendered(template@, json(*parameters), SYSTEM_ROLE_HELPER@) {
                Some((main, blocks)) => r matches Ok(prompt) && prompt.deep_view() == ready_prompt(
                    main,
                    system_text(blocks),
                    is_chat_model,
                ),
                None => r matches Err(CoreError::TemplateRender(text)) && is_render_error_text(text@),
            },
    {
        ReadyPrompt::process(template, parameters, is_chat_model)
    }
}

// ---------------------------------------------------------------------------------------------
// Laws.

/// The texts of a template make a prompt without white space at their ends. A chat gets both apart; a
/// model without chats gets one text, which begins with the system text and ends with the main one, with
/// an empty line between them. Without a system text the main one is all.
pub proof fn law_prompt_holds_the_texts_of_its_template(
    main: &str,
    system: Option<String>,
    is_chat_model: bool,
    r: ReadyPrompt,
)
    requires
        call_ensures(ReadyPrompt::from_rendered, (main, system, is_chat_model), r),
    ensures
        (is_chat_model || system is None) && trimmed(main@).len() > 0 ==> r.main_prompt.deep_view() == Some(
            trimmed(main@),
        ),
        (is_chat_model || system is None) && trimmed(main@).len() == 0 ==> r.main_prompt is None,
        system matches Some(text) ==> {
            &&& is_chat_model ==> r.system_prompt.deep_view() == Some(trimmed(text@))
            &&& !is_chat_model ==> r.system_prompt is None && r.main_prompt.deep_view() == Some(
                trimmed(text@) + seq!['\n', '\n'] + trimmed(main@),
            )
        },
        system is None ==> r.system_prompt is None,
{
    reveal_strlit("\n\n");
    assert("\n\n"@ =~= seq!['\n', '\n']);
}

/// The system text is what the blocks of the template say one after the other: one more block goes
/// behind those before it. Without blocks there is none.
pub proof fn law_blocks_make_the_system_text(blocks: Seq<Seq<char>>, more: Seq<char>)
    ensures
        system_text(Seq::empty()) is None,
        system_text(seq![more]) == Some(more),
        blocks.len() > 0 ==> system_text(blocks.push(more)) == Some(system_text(blocks)->0 + more),
{
    blocks.lemma_flatten_push(more);
    Seq::<Seq<char>>::empty().lemma_flatten_push(more);
    assert(Seq::<Seq<char>>::empty().push(more) =~= seq![more]);
    assert(Seq::<Seq<char>>::empty().flatten() + more =~= more);
}

/// A stored template is used whatever is built in; what is built in serves where nothing is stored.
pub proof fn law_stored_template_comes_first(
    stored: Option<String>,
    built_in: Option<String>,
    r: Result<String, CoreError>,
)
    requires
        call_ensures(ReadyPrompt::load_template, (stored, built_in), r),
    ensures
        stored matches Some(template) ==> (r matches Ok(found) && found@ == template@),
        stored is None ==> (built_in matches Some(template) ==> (r matches Ok(found) && found@
            == template@)),
        stored is None && built_in is None ==> r is Err,
{
}

/// The file of a template tells its id, by which two of them differ.
pub proof fn law_templates_have_their_own_files(id: &str, other: &str, r: String, s: String)
    requires
        call_ensures(template_file_name, (id,), r),
        call_ensures(template_file_name, (other,), s),
    ensures
        r@.take(id@.len() as int) == id@,
        r@.skip(id@.len() as int) == seq!['.', 'h', 'b', 's'],
        r@ == s@ <==> id@ == other@,
{
    reveal_strlit(".hbs");
    assert(r@.take(id@.len() as int) =~= id@);
    assert(r@.skip(id@.len() as int) =~= seq!['.', 'h', 'b', 's']);
    if r@ == s@ {
        assert(id@.len() == other@.len());
        assert(s@.take(other@.len() as int) =~= other@);
    }
}

} // verus!
