//! A backend for models whose weights are kept here.

use vstd::prelude::*;
use crate::protocol::{ModelDescription, ProtocolErrorType};
use crate::text::concat;

verus! {

/// What the names of the files of weights end with.
pub const WEIGHT_FILENAME_EXT: &'static str = ".bin";

/// What can go wrong with a model. Errors of other libraries are carried as their text.
#[derive(Debug)]
pub enum LlmrsError {
    ModelDescriptionParse,
    WeightsNotFound,
    RequestCannotSend,
    ModelLoad(String),
    InferenceParametersDeserialize(String),
    UnsupportedArchitecture(String),
    Inference(String),
    UserHomeNotFound,
    ModelNotReady,
}

impl LlmrsError {
    /// Whose fault the error is. A model that is not ready is the fault of the one who asks, unless
    /// a request waits until models are loaded.
    pub open spec fn spec_error_type(self, waits_for_models: bool) -> ProtocolErrorType {
        match self {
            LlmrsError::ModelDescriptionParse => ProtocolErrorType::BadRequest,
            LlmrsError::WeightsNotFound => ProtocolErrorType::BadRequest,
            LlmrsError::InferenceParametersDeserialize(_) => ProtocolErrorType::BadRequest,
            LlmrsError::ModelNotReady => if waits_for_models {
                ProtocolErrorType::Internal
            } else {
                ProtocolErrorType::BadRequest
            },
            _ => ProtocolErrorType::Internal,
        }
    }

    /// Whose fault the error is.
    pub fn error_type(&self, waits_for_models: bool) -> (r: ProtocolErrorType)
        ensures
            r == self.spec_error_type(waits_for_models),
    {
        match self {
            LlmrsError::ModelDescriptionParse => ProtocolErrorType::BadRequest,
            LlmrsError::WeightsNotFound => ProtocolErrorType::BadRequest,
            LlmrsError::RequestCannotSend => ProtocolErrorType::Internal,
            LlmrsError::UnsupportedArchitecture(_) => ProtocolErrorType::Internal,
            LlmrsError::ModelLoad(_) => ProtocolErrorType::Internal,
            LlmrsError::InferenceParametersDeserialize(_) => ProtocolErrorType::BadRequest,
            LlmrsError::Inference(_) => ProtocolErrorType::Internal,
            LlmrsError::UserHomeNotFound => ProtocolErrorType::Internal,
            LlmrsError::ModelNotReady => if waits_for_models {
                ProtocolErrorType::Internal
            } else {
                ProtocolErrorType::BadRequest
            },
        }
    }

    /// The error in words.
    pub open spec fn spec_message(self) -> Seq<char> {
        match self {
            LlmrsError::ModelDescriptionParse => "failed to parse model name"@,
            LlmrsError::WeightsNotFound => "model weights not found"@,
            LlmrsError::RequestCannotSend =>
                "failed to send backend request to llmrs, model task may have crashed"@,
            LlmrsError::ModelLoad(e) => "failed to load model weights: "@ + e@,
            LlmrsError::InferenceParametersDeserialize(e) =>
                "failed to deserialize inference parameters: "@ + e@,
            LlmrsError::UnsupportedArchitecture(e) => "bad model architecture type: "@ + e@,
            LlmrsError::Inference(e) => "inference failed: "@ + e@,
            LlmrsError::UserHomeNotFound => "unable to load app data, could not find user home folder"@,
            LlmrsError::ModelNotReady => "model not ready"@,
        }
    }

    /// The error in words.
    pub fn message(&self) -> (r: String)
        ensures
            r@ == self.spec_message(),
    {
        match self {
            LlmrsError::ModelDescriptionParse => "failed to parse model name".to_owned(),
            LlmrsError::WeightsNotFound => "model weights not found".to_owned(),
            LlmrsError::RequestCannotSend =>
                "failed to send backend request to llmrs, model task may have crashed".to_owned(),
            LlmrsError::ModelLoad(e) => concat("failed to load model weights: ", e.as_str()),
            LlmrsError::InferenceParametersDeserialize(e) => concat(
                "failed to deserialize inference parameters: ",
                e.as_str(),
            ),
            LlmrsError::UnsupportedArchitecture(e) => concat(
                "bad model architecture type: ",
                e.as_str(),
            ),
            LlmrsError::Inference(e) => concat("inference failed: ", e.as_str()),
            LlmrsError::UserHomeNotFound =>
                "unable to load app data, could not find user home folder".to_owned(),
            LlmrsError::ModelNotReady => "model not ready".to_owned(),
        }
    }
}

/// The name of the file of the weights of a model.
pub fn weights_file_name(name: &str) -> (r: String)
    ensures
        r@ == name@ + WEIGHT_FILENAME_EXT@,
{
    concat(name, WEIGHT_FILENAME_EXT)
}

/// How far the loading of a model has come.
#[derive(Clone, Copy, Debug, PartialEq, Eq, Structural)]
pub enum LoadState {
    Loading,
    Failed,
    Ready,
}

/// What to do with a request.
#[derive(Clone, Copy, Debug, PartialEq, Eq, Structural)]
pub enum ModelStep {
    /// Wait until there is news of the loading of the model.
    Wait,
    /// Give the request to the model.
    Use,
}

/// What to do with a request for a model, where a request waits until models are loaded. The
/// description is that of the model that the request names, if the name can be read; the state is
/// that of the model of that name, if there is one.
pub fn get_model(
    model_description: &Option<ModelDescription>,
    state: Option<LoadState>,
) -> (r: Result<ModelStep, LlmrsError>)
    ensures
        if *model_description is None {
            r == Err::<ModelStep, _>(LlmrsError::ModelDescriptionParse)
        } else {
            match state {
                None => r == Err::<ModelStep, _>(LlmrsError::WeightsNotFound),
                Some(LoadState::Loading) => r == Ok::<_, LlmrsError>(ModelStep::Wait),
                Some(LoadState::Failed) => r == Err::<ModelStep, _>(LlmrsError::ModelNotReady),
                Some(LoadState::Ready) => r == Ok::<_, LlmrsError>(ModelStep::Use),
            }
        },
{
    if model_description.is_none() {
        return Err(LlmrsError::ModelDescriptionParse);
    }
    match state {
        None => Err(LlmrsError::WeightsNotFound),
        Some(LoadState::Loading) => Ok(ModelStep::Wait),
        Some(LoadState::Failed) => Err(LlmrsError::ModelNotReady),
        Some(LoadState::Ready) => Ok(ModelStep::Use),
    }
}

/// What to do with a request for a model, where a request does not wait: a model that is not loaded
/// is refused, whether it is still loading or could not be loaded.
pub fn get_model_now(
    model_description: &Option<ModelDescription>,
    state: Option<LoadState>,
) -> (r: Result<(), LlmrsError>)
    ensures
        if *model_description is None {
            r == Err::<(), _>(LlmrsError::ModelDescriptionParse)
        } else {
            match state {
                None => r == Err::<(), _>(LlmrsError::WeightsNotFound),
                Some(LoadState::Ready) => r is Ok,
                Some(_) => r == Err::<(), _>(LlmrsError::ModelNotReady),
            }
        },
{
    match get_model(model_description, state) {
        Ok(ModelStep::Use) => Ok(()),
        Ok(ModelStep::Wait) => Err(LlmrsError::ModelNotReady),
        Err(e) => Err(e),
    }
}

/// A reply that grows token by token.
#[derive(Debug)]
pub struct Reply {
    pub text: String,
}

impl Reply {
    /// A reply without tokens.
    pub fn new() -> (r: Self)
        ensures
            r.text@.len() == 0,
    {
        Reply { text: String::new() }
    }

    /// Takes up what the model gave. An error ends the reply.
    pub fn push(&mut self, result: Result<String, LlmrsError>) -> (r: Result<(), LlmrsError>)
        ensures
            match result {
                Ok(token) => r is Ok && final(self).text@ == old(self).text@ + token@,
                Err(e) => r == Err::<(), _>(e) && final(self).text == old(self).text,
            },
    {
        match result {
            Ok(token) => {
                self.text.append(token.as_str());
                Ok(())
            },
            Err(e) => Err(e),
        }
    }
}

// ---------------------------------------------------------------------------------------------
// Laws.

/// A model that is ready is used at once, whether or not requests wait. While it is loading, a request
/// waits, or is refused where it does not. A model that could not be loaded, or of which there are no
/// weights, is refused either way.
pub proof fn law_model_is_used_when_it_is_ready(
    description: Option<ModelDescription>,
    state: Option<LoadState>,
    waiting: Result<ModelStep, LlmrsError>,
    now: Result<(), LlmrsError>,
)
    requires
        call_ensures(get_model, (&description, state), waiting),
        call_ensures(get_model_now, (&description, state), now),
    ensures
        now is Ok <==> description is Some && state == Some(LoadState::Ready),
        now is Ok <==> waiting == Ok::<_, LlmrsError>(ModelStep::Use),
        waiting == Ok::<_, LlmrsError>(ModelStep::Wait) <==> description is Some && state == Some(
            LoadState::Loading,
        ),
        description is None ==> waiting == Err::<ModelStep, _>(LlmrsError::ModelDescriptionParse),
        description is Some && state is None ==> now == Err::<(), _>(LlmrsError::WeightsNotFound),
{
}

/// A request that names no model, or one without weights, or parameters that cannot be read, is at fault
/// itself; so is one that comes too early and does not wait. Anything else is a fault inside.
pub proof fn law_fault_of_an_error(error: LlmrsError, waits_for_models: bool, r: ProtocolErrorType)
    requires
        call_ensures(LlmrsError::error_type, (&error, waits_for_models), r),
    ensures
        error is ModelDescriptionParse || error is WeightsNotFound || error
            is InferenceParametersDeserialize ==> r is BadRequest,
        error is ModelNotReady ==> (r is BadRequest <==> !waits_for_models),
        error is ModelNotReady ==> (r is Internal <==> waits_for_models),
        error is RequestCannotSend || error is ModelLoad || error is UnsupportedArchitecture || error
            is Inference || error is UserHomeNotFound ==> r is Internal,
{
}

} // verus!
