//! The backend: which provider a request goes to.

use vstd::prelude::*;
use crate::outsource_lib::error::OutsourceError;
use crate::protocol::ModelDescription;
use crate::text::{ascii_lower, ascii_lowercase};

verus! {

/// A provider.
#[derive(Clone, Copy, Debug, PartialEq, Eq, Structural)]
pub enum Provider {
    OpenAIText,
    OpenAIChat,
    HuggingFaceText,
}

impl Provider {
    /// The name of the provider.
    pub open spec fn spec_name(self) -> Seq<char> {
        match self {
            Provider::OpenAIText => "openai-text"@,
            Provider::OpenAIChat => "openai-chat"@,
            Provider::HuggingFaceText => "huggingface-text"@,
        }
    }

    /// Whether a name, in upper or lower case, is that of the provider.
    pub open spec fn is_called(self, name: Seq<char>) -> bool {
        ascii_lowercase(name) == ascii_lowercase(self.spec_name())
    }

    /// The provider of that name, in upper or lower case.
    pub fn find(name: &str) -> (r: Option<Provider>)
        ensures
            match r {
                Some(provider) => provider.is_called(name@),
                None => forall|p: Provider| !#[trigger] p.is_called(name@),
            },
    {
        if name.eq_ignore_ascii_case("openai-text") {
            Some(Provider::OpenAIText)
        } else if name.eq_ignore_ascii_case("openai-chat") {
            Some(Provider::OpenAIChat)
        } else if name.eq_ignore_ascii_case("huggingface-text") {
            Some(Provider::HuggingFaceText)
        } else {
            assert forall|p: Provider| !#[trigger] p.is_called(name@) by {
                match p {
                    Provider::OpenAIText => {},
                    Provider::OpenAIChat => {},
                    Provider::HuggingFaceText => {},
                }
            }
            None
        }
    }
}

/// A backend that forwards requests to known hosted providers, with one key for all.
#[derive(Debug)]
pub struct OutsourceBackend {
    pub specified_api_key: Option<String>,
}

impl OutsourceBackend {
    pub fn new(specified_api_key: Option<String>) -> (r: Self)
        ensures
            r.specified_api_key == specified_api_key,
    {
        OutsourceBackend { specified_api_key }
    }

    /// The provider of a request. The description is that of the model that the request names, if
    /// the name can be read.
    pub fn provider_of(&self, model_description: Option<ModelDescription>) -> (r: Result<
        (ModelDescription, Provider),
        OutsourceError,
    >)
        ensures
            match model_description {
                Some(description) => match r {
                    Ok((found, provider)) => found == description && provider.is_called(
                        description.provider@,
                    ),
                    Err(e) => e matches OutsourceError::ProviderNotFound(name) && name@
                        == description.provider@ && forall|p: Provider|
                        !#[trigger] p.is_called(description.provider@),
                },
                None => r == Err::<(ModelDescription, Provider), _>(OutsourceError::ModelDescriptionParse),
            },
    {
        match model_description {
            Some(description) => match Provider::find(description.provider.as_str()) {
                Some(provider) => Ok((description, provider)),
                None => Err(OutsourceError::ProviderNotFound(description.provider.clone())),
            },
            None => Err(OutsourceError::ModelDescriptionParse),
        }
    }
}

/// No name is that of two providers.
pub proof fn law_providers_are_told_apart(a: Provider, b: Provider, name: Seq<char>)
    requires
        a.is_called(name),
        b.is_called(name),
    ensures
        a == b,
{
    reveal_strlit("openai-text");
    reveal_strlit("openai-chat");
    reveal_strlit("huggingface-text");
    let x = ascii_lowercase(a.spec_name());
    let y = ascii_lowercase(b.spec_name());
    assert(x == y);
    assert(x.len() == a.spec_name().len());
    assert(y.len() == b.spec_name().len());
    assert(x[7] == ascii_lower(a.spec_name()[7]) && y[7] == ascii_lower(b.spec_name()[7]));
}

/// The names of the providers, in upper or lower case.
pub proof fn law_providers_have_their_names(name: Seq<char>)
    ensures
        ascii_lowercase(name) == "openai-text"@ <==> Provider::OpenAIText.is_called(name),
        ascii_lowercase(name) == "openai-chat"@ <==> Provider::OpenAIChat.is_called(name),
        ascii_lowercase(name) == "huggingface-text"@ <==> Provider::HuggingFaceText.is_called(name),
{
    reveal_strlit("openai-text");
    reveal_strlit("openai-chat");
    reveal_strlit("huggingface-text");
    assert(ascii_lowercase("openai-text"@) =~= "openai-text"@);
    assert(ascii_lowercase("openai-chat"@) =~= "openai-chat"@);
    assert(ascii_lowercase("huggingface-text"@) =~= "huggingface-text"@);
}

} // verus!
