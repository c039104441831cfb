//! The backend: which provider a request goes to.

use vstd::prelude::*;
use crate::outsource_lib::error::OutsourceError;
use crate::outsource_lib::util::get_api_key;
use crate::protocol::ModelDescription;
use crate::text::{ascii_lower, ascii_lowercase};

verus! {

/// A provider.
#[derive(Clone, Copy, Debug, PartialEq, Eq, Structural)]
pub enum Provider {
    OpenAIText,
    OpenAIChat,
    HuggingFaceText,
    OllamaText,
}

impl Provider {
    /// The name of the provider.
    pub open spec fn spec_name(self) -> Seq<char> {
        match self {
            Provider::OpenAIText => "openai-text"@,
            Provider::OpenAIChat => "openai-chat"@,
            Provider::HuggingFaceText => "huggingface-text"@,
            Provider::OllamaText => "ollama-text"@,
        }
    }

    /// The name of the provider.
    pub fn name(&self) -> (r: &'static str)
        ensures
            r@ == self.spec_name(),
    {
        match self {
            Provider::OpenAIText => "openai-text",
            Provider::OpenAIChat => "openai-chat",
            Provider::HuggingFaceText => "huggingface-text",
            Provider::OllamaText => "ollama-text",
        }
    }

    /// Whether a name, in upper or lower case, is that of the provider.
    pub open spec fn is_called(self, name: Seq<char>) -> bool {
        ascii_lowercase(name) == ascii_lowercase(self.spec_name())
    }

    /// The provider of that name, in upper or lower case.
    pub fn find(name: &str) -> (r: Option<Provider>)
        ensures
            match r {
                Some(provider) => provider.is_called(name@),
                None => forall|p: Provider| !#[trigger] p.is_called(name@),
            },
    {
        if name.eq_ignore_ascii_case("openai-text") {
            Some(Provider::OpenAIText)
        } else if name.eq_ignore_ascii_case("openai-chat") {
            Some(Provider::OpenAIChat)
        } else if name.eq_ignore_ascii_case("huggingface-text") {
            Some(Provider::HuggingFaceText)
        } else if name.eq_ignore_ascii_case("ollama-text") {
            Some(Provider::OllamaText)
        } else {
            assert forall|p: Provider| !#[trigger] p.is_called(name@) by {
                match p {
                    Provider::OpenAIText => {},
                    Provider::OpenAIChat => {},
                    Provider::HuggingFaceText => {},
                    Provider::OllamaText => {},
                }
            }
            None
        }
    }
}

/// Configuration structure for the backend.
#[derive(Debug)]
pub struct OutsourceConfig {
    pub openai_api_key: Option<String>,
    pub huggingface_api_key: Option<String>,
    pub ollama_endpoint: Option<String>,
}

/// A backend that forwards requests to known hosted providers.
#[derive(Debug)]
pub struct OutsourceBackend {
    pub config: OutsourceConfig,
}

/// Where a request goes, with what is needed there.
#[derive(Debug)]
pub enum Route {
    OpenAI { api_key: String },
    HuggingFace { api_key: String },
    Ollama { endpoint: Option<String> },
}

/// A text that may be missing, by reference.
fn as_text(s: &Option<String>) -> (r: Option<&str>)
    ensures
        match *s {
            Some(s) => r matches Some(t) && t@ == s@,
            None => r is None,
        },
{
    match s {
        Some(s) => Some(s.as_str()),
        None => None,
    }
}

impl OutsourceBackend {
    pub fn new(config: OutsourceConfig) -> (r: Self)
        ensures
            r.config == config,
    {
        OutsourceBackend { config }
    }

    /// The provider of a request. The description is that of the model that the request names, if
    /// the name can be read.
    pub fn get_model_description_and_provider(model_description: Option<ModelDescription>) -> (r: Result<
        (ModelDescription, Provider),
        OutsourceError,
    >)
        ensures
            match model_description {
                Some(description) => match r {
                    Ok((found, provider)) => found == description && provider.is_called(
                        description.provider@,
                    ),
                    Err(e) => e matches OutsourceError::ProviderNotFound(name) && name@
                        == description.provider@ && forall|p: Provider|
                        !#[trigger] p.is_called(description.provider@),
                },
                None => r == Err::<(ModelDescription, Provider), _>(OutsourceError::ModelDescriptionParse),
            },
    {
        match model_description {
            Some(description) => match Provider::find(description.provider.as_str()) {
                Some(provider) => Ok((description, provider)),
                None => Err(OutsourceError::ProviderNotFound(description.provider.clone())),
            },
            None => Err(OutsourceError::ModelDescriptionParse),
        }
    }

    /// Where a request for a provider goes. OpenAI and Hugging Face need a key.
    pub fn route(&self, provider: Provider) -> (r: Result<Route, OutsourceError>)
        ensures
            match provider {
                Provider::OpenAIText | Provider::OpenAIChat => match self.config.openai_api_key {
                    Some(key) => r matches Ok(Route::OpenAI { api_key }) && api_key@ == key@,
                    None => r == Err::<Route, _>(OutsourceError::APIKeyNotDefined),
                },
                Provider::HuggingFaceText => match self.config.huggingface_api_key {
                    Some(key) => r matches Ok(Route::HuggingFace { api_key }) && api_key@ == key@,
                    None => r == Err::<Route, _>(OutsourceError::APIKeyNotDefined),
                },
                Provider::OllamaText => r matches Ok(Route::Ollama { endpoint })
                    && endpoint.deep_view() == self.config.ollama_endpoint.deep_view(),
            },
    {
        match provider {
            Provider::OpenAIText | Provider::OpenAIChat => match get_api_key(
                as_text(&self.config.openai_api_key),
            ) {
                Ok(key) => Ok(Route::OpenAI { api_key: key.to_owned() }),
                Err(e) => Err(e),
            },
            Provider::HuggingFaceText => match get_api_key(as_text(&self.config.huggingface_api_key)) {
                Ok(key) => Ok(Route::HuggingFace { api_key: key.to_owned() }),
                Err(e) => Err(e),
            },
            Provider::OllamaText => Ok(
                Route::Ollama { endpoint: self.config.ollama_endpoint.clone() },
            ),
        }
    }
}

/// No name is that of two providers.
pub proof fn law_providers_are_told_apart(a: Provider, b: Provider, name: Seq<char>)
    requires
        a.is_called(name),
        b.is_called(name),
    ensures
        a == b,
{
    reveal_strlit("openai-text");
    reveal_strlit("openai-chat");
    reveal_strlit("huggingface-text");
    reveal_strlit("ollama-text");
    let x = ascii_lowercase(a.spec_name());
    let y = ascii_lowercase(b.spec_name());
    assert(x == y);
    assert(x.len() == a.spec_name().len());
    assert(y.len() == b.spec_name().len());
    assert(x[1] == ascii_lower(a.spec_name()[1]) && y[1] == ascii_lower(b.spec_name()[1]));
    assert(x[7] == ascii_lower(a.spec_name()[7]) && y[7] == ascii_lower(b.spec_name()[7]));
}

/// The names of the providers, in upper or lower case.
pub proof fn law_providers_have_their_names(name: Seq<char>)
    ensures
        ascii_lowercase(name) == "openai-text"@ <==> Provider::OpenAIText.is_called(name),
        ascii_lowercase(name) == "openai-chat"@ <==> Provider::OpenAIChat.is_called(name),
        ascii_lowercase(name) == "huggingface-text"@ <==> Provider::HuggingFaceText.is_called(name),
        ascii_lowercase(name) == "ollama-text"@ <==> Provider::OllamaText.is_called(name),
{
    reveal_strlit("openai-text");
    reveal_strlit("openai-chat");
    reveal_strlit("huggingface-text");
    reveal_strlit("ollama-text");
    assert(ascii_lowercase("openai-text"@) =~= "openai-text"@);
    assert(ascii_lowercase("openai-chat"@) =~= "openai-chat"@);
    assert(ascii_lowercase("huggingface-text"@) =~= "huggingface-text"@);
    assert(ascii_lowercase("ollama-text"@) =~= "ollama-text"@);
}

/// A request goes to the provider that it is for, with the key or the endpoint that the configuration
/// holds for this provider, and is refused where a key is missing.
pub proof fn law_request_goes_to_its_provider(
    backend: OutsourceBackend,
    provider: Provider,
    r: Result<Route, OutsourceError>,
)
    requires
        call_ensures(OutsourceBackend::route, (&backend, provider), r),
    ensures
        provider == Provider::OpenAIText || provider == Provider::OpenAIChat ==> {
            &&& backend.config.openai_api_key matches Some(key) ==> (r matches Ok(Route::OpenAI { api_key })
                && api_key@ == key@)
            &&& backend.config.openai_api_key is None ==> r is Err
        },
        provider == Provider::HuggingFaceText ==> {
            &&& backend.config.huggingface_api_key matches Some(key) ==> (
            r matches Ok(Route::HuggingFace { api_key }) && api_key@ == key@)
            &&& backend.config.huggingface_api_key is None ==> r is Err
        },
        provider == Provider::OllamaText ==> (r matches Ok(Route::Ollama { endpoint })
            && endpoint.deep_view() == backend.config.ollama_endpoint.deep_view()),
{
}

} // verus!
